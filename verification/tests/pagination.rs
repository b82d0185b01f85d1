use playqueue::handlers::{handle_now_playing, handle_queue_list, NowPlayingReply, QueueListReply};
use playqueue::pages::{
    canonical_title, clamp_page, display_line, escape_date, paginate, parse_page_arg,
};
use playqueue::session::SessionManager;
use playqueue::strutil::{strip_between, u64_string};
use playqueue::track::{ResolvedFields, Track};

fn fields(title: &str) -> ResolvedFields {
    ResolvedFields {
        title: Some(title.to_string()),
        thumbnail: Some("thumb".to_string()),
        artist: None,
        channel: Some("uploader".to_string()),
        date: Some("20201231".to_string()),
        source_url: Some(format!("https://youtu.be/{}", title)),
        duration_ms: Some(60_000),
        starttime_ms: None,
    }
}

#[test]
fn canonical_title_strips_both_bracket_pairs_once() {
    let r = canonical_title("Song (Official Video) [HD Remaster]");
    assert_eq!(r, "Song  ");
}

#[test]
fn strip_between_missing_delimiter_is_a_no_op() {
    assert_eq!(strip_between("no pairs here", '(', ')'), "no pairs here");
    assert_eq!(strip_between("open ( only", '(', ')'), "open ( only");
    assert_eq!(strip_between("close ) only", '(', ')'), "close ) only");
}

#[test]
fn strip_between_takes_first_matching_pair() {
    // The first '(' with a ')' after it bounds the removed span.
    assert_eq!(strip_between("a)b(c)d", '(', ')'), "a)bd");
    assert_eq!(strip_between("x(1)(2)", '(', ')'), "x(2)");
}

#[test]
fn u64_string_renders_decimal() {
    assert_eq!(u64_string(0), "0");
    assert_eq!(u64_string(10), "10");
    assert_eq!(u64_string(12345), "12345");
    assert_eq!(u64_string(u64::MAX), "18446744073709551615");
}

#[test]
fn display_line_format_is_exact() {
    let r = display_line(3, "Tune (live) [x]", "alice");
    assert_eq!(r, "3: Tune   (Requested by: alice)\n");
}

#[test]
fn paginate_rolls_over_after_eleven_lines() {
    let lines: Vec<String> = (1..=25).map(|i| format!("{}\n", i)).collect();
    let pages = paginate(&lines, 10);
    assert_eq!(pages.len(), 3);
    let expect_page1: String = (1..=11).map(|i| format!("{}\n", i)).collect();
    let expect_page3: String = (23..=25).map(|i| format!("{}\n", i)).collect();
    assert_eq!(pages[0], expect_page1);
    assert_eq!(pages[2], expect_page3);
}

#[test]
fn paginate_empty_input_yields_one_empty_page() {
    let pages = paginate(&Vec::new(), 10);
    assert_eq!(pages.len(), 1);
    assert_eq!(pages[0], "");
}

#[test]
fn clamp_page_bounds() {
    assert_eq!(clamp_page(-5, 3), 1);
    assert_eq!(clamp_page(0, 3), 1);
    assert_eq!(clamp_page(2, 3), 2);
    assert_eq!(clamp_page(999, 3), 3);
}

#[test]
fn parse_page_arg_accepts_signed_decimals() {
    assert_eq!(parse_page_arg("5"), Some(5));
    assert_eq!(parse_page_arg("-5"), Some(-5));
    assert_eq!(parse_page_arg("+7"), Some(7));
    assert_eq!(parse_page_arg("007"), Some(7));
    assert_eq!(parse_page_arg("-0"), Some(0));
    assert_eq!(parse_page_arg("2147483647"), Some(i32::MAX));
    assert_eq!(parse_page_arg("-2147483648"), Some(i32::MIN));
}

#[test]
fn parse_page_arg_rejects_non_numbers() {
    assert_eq!(parse_page_arg(""), None);
    assert_eq!(parse_page_arg("-"), None);
    assert_eq!(parse_page_arg("+"), None);
    assert_eq!(parse_page_arg("abc"), None);
    assert_eq!(parse_page_arg("1a"), None);
    assert_eq!(parse_page_arg(" 1"), None);
    assert_eq!(parse_page_arg("2147483648"), None);
    assert_eq!(parse_page_arg("-2147483649"), None);
    assert_eq!(parse_page_arg("99999999999999999999"), None);
}

#[test]
fn escape_date_lays_in_backslashes() {
    assert_eq!(escape_date("20201231"), "2020\\\\12\\\\31");
    assert_eq!(escape_date("None"), "None");
}

fn manager_with_tracks(id: u64, n: usize) -> SessionManager {
    let mut mgr = SessionManager::new();
    mgr.get_or_create(id);
    for i in 1..=n {
        let f = fields(&format!("t{}", i));
        let r = playqueue::pipeline::enqueue_track(&mut mgr, id, &"req".to_string(), &f);
        assert_eq!(r, Some(i));
    }
    mgr
}

#[test]
fn queue_list_pages_and_clamping() {
    let mgr = manager_with_tracks(7, 25);
    let expect_page = |lo: usize, hi: usize| -> String {
        (lo..=hi)
            .map(|i| format!("{}: t{} (Requested by: req)\n", i, i))
            .collect()
    };
    match handle_queue_list(&mgr, 7, &Some("-5".to_string())) {
        QueueListReply::Page { header, url, body, footer, page_number, total_pages, invalid_arg } => {
            assert_eq!(header, "Now playing: t1");
            assert_eq!(url, "https://youtu.be/t1");
            assert_eq!(total_pages, 3);
            assert_eq!(page_number, 1);
            assert!(!invalid_arg);
            assert_eq!(body, expect_page(1, 11));
            assert_eq!(footer, "Page: 1/3");
        },
        _ => panic!("expected a page"),
    }
    match handle_queue_list(&mgr, 7, &Some("999".to_string())) {
        QueueListReply::Page { body, footer, page_number, total_pages, .. } => {
            assert_eq!(total_pages, 3);
            assert_eq!(page_number, 3);
            assert_eq!(body, expect_page(23, 25));
            assert_eq!(footer, "Page: 3/3");
        },
        _ => panic!("expected a page"),
    }
}

#[test]
fn queue_list_non_numeric_argument_means_page_one() {
    let mgr = manager_with_tracks(7, 25);
    match handle_queue_list(&mgr, 7, &Some("first".to_string())) {
        QueueListReply::Page { page_number, invalid_arg, .. } => {
            assert_eq!(page_number, 1);
            assert!(invalid_arg);
        },
        _ => panic!("expected a page"),
    }
    match handle_queue_list(&mgr, 7, &None) {
        QueueListReply::Page { page_number, invalid_arg, .. } => {
            assert_eq!(page_number, 1);
            assert!(!invalid_arg);
        },
        _ => panic!("expected a page"),
    }
}

#[test]
fn queue_list_empty_and_missing_session() {
    let mut mgr = SessionManager::new();
    assert!(matches!(
        handle_queue_list(&mgr, 7, &None),
        QueueListReply::NoSuchSession
    ));
    mgr.get_or_create(7);
    assert!(matches!(handle_queue_list(&mgr, 7, &None), QueueListReply::Empty));
}

#[test]
fn now_playing_reports_head_with_escaped_date() {
    let mut mgr = SessionManager::new();
    assert!(matches!(handle_now_playing(&mgr, 7), NowPlayingReply::NoSuchSession));
    mgr.get_or_create(7);
    assert!(matches!(handle_now_playing(&mgr, 7), NowPlayingReply::Nothing));
    let f = fields("Tune");
    playqueue::pipeline::enqueue_track(&mut mgr, 7, &"alice".to_string(), &f);
    match handle_now_playing(&mgr, 7) {
        NowPlayingReply::Playing { title, url, requester, thumbnail, channel, date } => {
            assert_eq!(title, "Tune");
            assert_eq!(url, "https://youtu.be/Tune");
            assert_eq!(requester, "alice");
            assert_eq!(thumbnail, "thumb");
            assert_eq!(channel, "uploader");
            assert_eq!(date, "2020\\\\12\\\\31");
        },
        _ => panic!("expected a playing reply"),
    }
}

#[test]
fn now_playing_placeholder_fields() {
    let mut mgr = SessionManager::new();
    mgr.get_or_create(1);
    let f = ResolvedFields {
        title: None,
        thumbnail: None,
        artist: None,
        channel: None,
        date: None,
        source_url: None,
        duration_ms: None,
        starttime_ms: None,
    };
    playqueue::pipeline::enqueue_track(&mut mgr, 1, &"bob".to_string(), &f);
    match handle_now_playing(&mgr, 1) {
        NowPlayingReply::Playing { title, url, channel, date, .. } => {
            assert_eq!(title, "None");
            assert_eq!(url, "None");
            assert_eq!(channel, "None");
            // The placeholder is shorter than a date token and stays as it is.
            assert_eq!(date, "None");
        },
        _ => panic!("expected a playing reply"),
    }
}

#[test]
fn build_track_from_fields() {
    let t = Track::from_fields(&"alice".to_string(), &fields("Tune"));
    assert_eq!(t.requester, "alice");
    assert_eq!(t.title, "Tune");
    assert_eq!(t.artist, "None");
    assert_eq!(t.duration_ms, Some(60_000));
    assert_eq!(t.starttime_ms, None);
}
