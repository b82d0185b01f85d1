use playqueue::pipeline::{
    classify_query, extract_playlist_id, plan_play, video_url_of, PlayPlan, QueryKind,
};
use playqueue::track::match_else_none;

#[test]
fn classify_direct_search_and_playlist() {
    assert_eq!(
        classify_query("https://www.youtube.com/watch?v=dQw4w9WgXcQ"),
        QueryKind::DirectUrl
    );
    assert_eq!(classify_query("https://youtu.be/dQw4w9WgXcQ"), QueryKind::DirectUrl);
    assert_eq!(classify_query("some song lyrics"), QueryKind::Search);
    assert_eq!(
        classify_query("https://www.youtube.com/playlist?list=PLabcdefghij123"),
        QueryKind::Playlist
    );
}

#[test]
fn extract_playlist_id_takes_the_first_identifier() {
    assert_eq!(
        extract_playlist_id("https://www.youtube.com/playlist?list=PLabcdefghij123"),
        Some("PLabcdefghij123".to_string())
    );
    assert_eq!(
        extract_playlist_id("list=OLAK5uy_0123456789ab&rest"),
        Some("OLAK5uy_0123456789ab".to_string())
    );
    // The radio-mix marker stands on its own when too few identifier
    // characters follow the two-letter prefix.
    assert_eq!(extract_playlist_id("x RDMM y"), Some("RDMM".to_string()));
    // With a long enough run the two-letter prefix takes the whole run.
    assert_eq!(
        extract_playlist_id("RDMMabcdefghij"),
        Some("RDMMabcdefghij".to_string())
    );
}

#[test]
fn extract_playlist_id_finds_nothing_without_the_pattern() {
    assert_eq!(extract_playlist_id("https://www.youtube.com/playlist?list=XX"), None);
    assert_eq!(extract_playlist_id("PLshort"), None);
    assert_eq!(extract_playlist_id(""), None);
}

#[test]
fn plan_play_covers_all_modes() {
    match plan_play(&"https://youtu.be/abc".to_string()) {
        PlayPlan::Direct { url } => assert_eq!(url, "https://youtu.be/abc"),
        _ => panic!("expected a direct plan"),
    }
    match plan_play(&"tune please".to_string()) {
        PlayPlan::Search { term } => assert_eq!(term, "tune please"),
        _ => panic!("expected a search plan"),
    }
    match plan_play(&"https://www.youtube.com/playlist?list=PLabcdefghij123".to_string()) {
        PlayPlan::Playlist { playlist_id } => assert_eq!(playlist_id, "PLabcdefghij123"),
        _ => panic!("expected a playlist plan"),
    }
    match plan_play(&"https://www.youtube.com/playlist?list=%%".to_string()) {
        PlayPlan::InvalidPlaylistUrl => {},
        _ => panic!("expected an invalid playlist plan"),
    }
}

#[test]
fn video_url_of_builds_the_watch_url() {
    assert_eq!(video_url_of("abc123"), "https://youtu.be/abc123");
}

#[test]
fn match_else_none_substitutes_the_placeholder() {
    assert_eq!(match_else_none(&Some("x".to_string())), "x");
    assert_eq!(match_else_none(&None), "None");
}
