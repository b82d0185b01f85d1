//! The enqueue pipeline: classifying a free-text query as a playlist URL, a
//! direct video URL or a search term; extracting a playlist identifier; and
//! appending resolved tracks to a session's queue, skipping the items whose
//! metadata resolution failed.

use vstd::prelude::*;
use crate::session::SessionManager;
use crate::strutil::{matches_at, spec_contains_seq, spec_matches_at, str_contains};
use crate::track::{ResolvedFields, Track, spec_track_of};

verus! {

/// How a free-text query is treated.
#[derive(Debug, PartialEq, Eq)]
pub enum QueryKind {
    Playlist,
    DirectUrl,
    Search,
}

/// A query that names the video site is a URL; among those, one that names a
/// playlist is resolved as a playlist. Everything else is a search term.
pub open spec fn spec_query_kind(q: Seq<char>) -> QueryKind {
    if spec_contains_seq(q, "youtube"@) || spec_contains_seq(q, "youtu.be"@) {
        if spec_contains_seq(q, "playlist?list"@) {
            QueryKind::Playlist
        } else {
            QueryKind::DirectUrl
        }
    } else {
        QueryKind::Search
    }
}

/// Classifies a free-text query.
pub fn classify_query(q: &str) -> (r: QueryKind)
    ensures
        r == spec_query_kind(q@),
{
    if str_contains(q, "youtube") || str_contains(q, "youtu.be") {
        if str_contains(q, "playlist?list") {
            QueryKind::Playlist
        } else {
            QueryKind::DirectUrl
        }
    } else {
        QueryKind::Search
    }
}

/// A character a playlist identifier may be made of: an ASCII letter or
/// digit, a hyphen or an underscore.
pub open spec fn spec_is_id_char(c: char) -> bool {
    let u = c as u32;
    (('0' as u32) <= u && u <= ('9' as u32)) || (('A' as u32) <= u && u <= ('Z' as u32)) || ((
    'a' as u32) <= u && u <= ('z' as u32)) || u == ('-' as u32) || u == ('_' as u32)
}

/// Tests for a playlist-identifier character.
pub fn is_id_char(c: char) -> (r: bool)
    ensures
        r == spec_is_id_char(c),
{
    let u = c as u32;
    (('0' as u32) <= u && u <= ('9' as u32)) || (('A' as u32) <= u && u <= ('Z' as u32)) || ((
    'a' as u32) <= u && u <= ('z' as u32)) || u == ('-' as u32) || u == ('_' as u32)
}

/// The length of the recognized playlist-kind prefix standing at `i`, or 0
/// when none stands there.
pub open spec fn spec_prefix_len_at(s: Seq<char>, i: int) -> int {
    if spec_matches_at(s, "OLAK5uy_"@, i) {
        8
    } else if spec_matches_at(s, "PL"@, i) || spec_matches_at(s, "LL"@, i) || spec_matches_at(
        s,
        "EC"@,
        i,
    ) || spec_matches_at(s, "UU"@, i) || spec_matches_at(s, "FL"@, i) || spec_matches_at(
        s,
        "RD"@,
        i,
    ) || spec_matches_at(s, "UL"@, i) || spec_matches_at(s, "TL"@, i) || spec_matches_at(
        s,
        "PU"@,
        i,
    ) {
        2
    } else {
        0
    }
}

/// Measures the playlist-kind prefix standing at `i`.
fn prefix_len_at(s: &str, i: usize, len: usize) -> (r: usize)
    requires
        len == s@.len(),
        i <= len,
        len <= usize::MAX,
    ensures
        r as int == spec_prefix_len_at(s@, i as int),
        i + r <= len,
{
    proof {
        reveal_strlit("OLAK5uy_");
        reveal_strlit("PL");
        reveal_strlit("LL");
        reveal_strlit("EC");
        reveal_strlit("UU");
        reveal_strlit("FL");
        reveal_strlit("RD");
        reveal_strlit("UL");
        reveal_strlit("TL");
        reveal_strlit("PU");
    }
    if len - i >= 8 && matches_at(s, "OLAK5uy_", i) {
        return 8;
    }
    if len - i >= 2 {
        if matches_at(s, "PL", i) || matches_at(s, "LL", i) || matches_at(s, "EC", i)
            || matches_at(s, "UU", i) || matches_at(s, "FL", i) || matches_at(s, "RD", i)
            || matches_at(s, "UL", i) || matches_at(s, "TL", i) || matches_at(s, "PU", i) {
            return 2;
        }
    }
    0
}

/// How many consecutive playlist-identifier characters stand at `j`.
pub open spec fn spec_id_run(s: Seq<char>, j: int) -> int
    decreases s.len() - j,
{
    if j < 0 || j >= s.len() || !spec_is_id_char(s[j]) {
        0
    } else {
        1 + spec_id_run(s, j + 1)
    }
}

/// Counts the consecutive playlist-identifier characters standing at `j`.
fn id_run(s: &str, j: usize, len: usize) -> (r: usize)
    requires
        len == s@.len(),
        j <= len,
        len <= usize::MAX,
    ensures
        r as int == spec_id_run(s@, j as int),
        j + r <= len,
{
    let mut k = j;
    loop
        invariant
            len == s@.len(),
            j <= k <= len,
            spec_id_run(s@, j as int) == (k - j) + spec_id_run(s@, k as int),
        decreases len - k,
    {
        if k == len {
            return k - j;
        }
        if !is_id_char(s.get_char(k)) {
            return k - j;
        }
        k = k + 1;
    }
}

/// The length of the playlist-identifier pattern standing at `i`, or 0: a
/// recognized prefix followed by at least ten identifier characters (the run
/// taken whole), or failing that the radio-mix marker on its own.
pub open spec fn spec_match_len_at(s: Seq<char>, i: int) -> int {
    let pl = spec_prefix_len_at(s, i);
    if pl > 0 && spec_id_run(s, i + pl) >= 10 {
        pl + spec_id_run(s, i + pl)
    } else if spec_matches_at(s, "RDMM"@, i) {
        4
    } else {
        0
    }
}

/// Measures the playlist-identifier pattern standing at `i`.
fn match_len_at(s: &str, i: usize, len: usize) -> (r: usize)
    requires
        len == s@.len(),
        i <= len,
        len <= usize::MAX,
    ensures
        r as int == spec_match_len_at(s@, i as int),
        i + r <= len,
{
    proof {
        reveal_strlit("RDMM");
    }
    let pl = prefix_len_at(s, i, len);
    if pl > 0 {
        let run = id_run(s, i + pl, len);
        if run >= 10 {
            return pl + run;
        }
    }
    if len - i >= 4 && matches_at(s, "RDMM", i) {
        4
    } else {
        0
    }
}

/// The first position at or after `from` where the playlist-identifier
/// pattern stands, or -1.
pub open spec fn spec_first_match(s: Seq<char>, from: int) -> int
    decreases s.len() - from,
{
    if from < 0 || from >= s.len() {
        -1
    } else if spec_match_len_at(s, from) > 0 {
        from
    } else {
        spec_first_match(s, from + 1)
    }
}

/// The playlist identifier a URL carries: the first (leftmost) stand of the
/// pattern, taken whole.
pub open spec fn spec_playlist_id(s: Seq<char>) -> Option<Seq<char>> {
    let i = spec_first_match(s, 0);
    if i < 0 {
        None
    } else {
        Some(s.subrange(i, i + spec_match_len_at(s, i)))
    }
}

/// Extracts the playlist identifier from a URL: the first stand of a
/// recognized playlist-kind prefix followed by its identifier characters.
/// `None` when the URL carries no such identifier.
pub fn extract_playlist_id(url: &str) -> (r: Option<String>)
    ensures
        match r {
            Some(id) => spec_playlist_id(url@) == Some(id@),
            None => spec_playlist_id(url@) is None,
        },
{
    let len = url.unicode_len();
    let mut i: usize = 0;
    while i < len
        invariant
            len == url@.len(),
            i <= len,
            spec_first_match(url@, 0) == spec_first_match(url@, i as int),
        decreases len - i,
    {
        let m = match_len_at(url, i, len);
        if m > 0 {
            let id = url.substring_char(i, i + m);
            return Some(id.to_owned());
        }
        i = i + 1;
    }
    None
}

/// What becomes of a play request once classified.
pub enum PlayPlan {
    /// Resolve exactly this video URL.
    Direct { url: String },
    /// Resolve the best search match for this term.
    Search { term: String },
    /// Resolve this playlist's videos and enqueue each of them.
    Playlist { playlist_id: String },
    /// A playlist-looking URL without a recognizable playlist identifier: a
    /// fatal input error for this request.
    InvalidPlaylistUrl,
}

/// Classifies a play request and, for a playlist URL, extracts the playlist
/// identifier.
pub fn plan_play(query: &String) -> (r: PlayPlan)
    ensures
        match r {
            PlayPlan::Direct { url } => spec_query_kind(query@) == QueryKind::DirectUrl && url@
                == query@,
            PlayPlan::Search { term } => spec_query_kind(query@) == QueryKind::Search && term@
                == query@,
            PlayPlan::Playlist { playlist_id } => spec_query_kind(query@) == QueryKind::Playlist
                && spec_playlist_id(query@) == Some(playlist_id@),
            PlayPlan::InvalidPlaylistUrl => spec_query_kind(query@) == QueryKind::Playlist
                && spec_playlist_id(query@) is None,
        },
{
    match classify_query(query.as_str()) {
        QueryKind::DirectUrl => PlayPlan::Direct { url: query.clone() },
        QueryKind::Search => PlayPlan::Search { term: query.clone() },
        QueryKind::Playlist => match extract_playlist_id(query.as_str()) {
            Some(playlist_id) => PlayPlan::Playlist { playlist_id },
            None => PlayPlan::InvalidPlaylistUrl,
        },
    }
}

/// The watch URL of a video identifier.
pub fn video_url_of(video_id: &str) -> (r: String)
    ensures
        r@ == "https://youtu.be/"@ + video_id@,
{
    String::from_str("https://youtu.be/").concat(video_id)
}

/// Builds a track from one resolution's fields and appends it to the queue
/// of session `id`, returning its 1-based position; `None` when the session
/// has no queue, in which case nothing changes.
pub fn enqueue_track(mgr: &mut SessionManager, id: u64, requester: &String, fields: &ResolvedFields)
    -> (r: Option<usize>)
    requires
        old(mgr).wf(),
        old(mgr).spec_has(id) ==> old(mgr).spec_queue_of(id).len() < usize::MAX,
    ensures
        final(mgr).wf(),
        !old(mgr).spec_has(id) ==> r is None && *final(mgr) == *old(mgr),
        old(mgr).spec_has(id) ==> {
            let q0 = old(mgr).spec_queue_of(id);
            let q1 = final(mgr).spec_queue_of(id);
            &&& q1.len() == q0.len() + 1
            &&& q1.subrange(0, q0.len() as int) == q0
            &&& spec_track_of(requester@, *fields, q1.last())
            &&& r == Some((q0.len() + 1) as usize)
        },
        forall|o: u64| final(mgr).spec_has(o) == old(mgr).spec_has(o),
        forall|o: u64|
            o != id && old(mgr).spec_has(o) ==> final(mgr).spec_queue_of(o) == old(
                mgr,
            ).spec_queue_of(o),
{
    let track = Track::from_fields(requester, fields);
    let r = mgr.enqueue_for(id, track);
    proof {
        if old(mgr).spec_has(id) {
            let q0 = old(mgr).spec_queue_of(id);
            assert(final(mgr).spec_queue_of(id).subrange(0, q0.len() as int) =~= q0);
        }
    }
    r
}

/// The fields of the resolutions that succeeded, in resolver order.
pub open spec fn spec_somes(os: Seq<Option<ResolvedFields>>) -> Seq<ResolvedFields>
    decreases os.len(),
{
    if os.len() == 0 {
        Seq::empty()
    } else {
        spec_somes(os.drop_last()) + (match os.last() {
            Some(f) => seq![f],
            None => Seq::<ResolvedFields>::empty(),
        })
    }
}

/// No more successes than resolutions.
pub proof fn lemma_somes_len_le(os: Seq<Option<ResolvedFields>>)
    ensures
        spec_somes(os).len() <= os.len(),
    decreases os.len(),
{
    if os.len() > 0 {
        lemma_somes_len_le(os.drop_last());
    }
}

/// Enqueues a playlist's resolved items for session `id` in resolver order:
/// each item whose resolution failed is skipped, and every success is
/// appended. Returns how many tracks were added, or `None` when the session
/// has no queue, in which case nothing changes. No other session's queue
/// changes.
pub fn enqueue_playlist_items(
    mgr: &mut SessionManager,
    id: u64,
    requester: &String,
    outcomes: &Vec<Option<ResolvedFields>>,
) -> (added: Option<usize>)
    requires
        old(mgr).wf(),
        old(mgr).spec_has(id) ==> old(mgr).spec_queue_of(id).len() + outcomes@.len()
            < usize::MAX,
    ensures
        final(mgr).wf(),
        !old(mgr).spec_has(id) ==> added is None && *final(mgr) == *old(mgr),
        old(mgr).spec_has(id) ==> {
            let q0 = old(mgr).spec_queue_of(id);
            let q1 = final(mgr).spec_queue_of(id);
            let succ = spec_somes(outcomes@);
            &&& added == Some(succ.len() as usize)
            &&& q1.len() == q0.len() + succ.len()
            &&& q1.subrange(0, q0.len() as int) == q0
            &&& forall|j: int|
                0 <= j < succ.len() ==> spec_track_of(requester@, succ[j], q1[q0.len() + j])
        },
        forall|o: u64| final(mgr).spec_has(o) == old(mgr).spec_has(o),
        forall|o: u64|
            o != id && old(mgr).spec_has(o) ==> final(mgr).spec_queue_of(o) == old(
                mgr,
            ).spec_queue_of(o),
{
    if !mgr.has_session(id) {
        return None;
    }
    let ghost q0 = old(mgr).spec_queue_of(id);
    let mut added: usize = 0;
    let mut i: usize = 0;
    while i < outcomes.len()
        invariant
            mgr.wf(),
            mgr.spec_has(id),
            i <= outcomes@.len(),
            q0 == old(mgr).spec_queue_of(id),
            q0.len() + outcomes@.len() < usize::MAX,
            added == spec_somes(outcomes@.subrange(0, i as int)).len(),
            ({
                let q1 = mgr.spec_queue_of(id);
                let succ = spec_somes(outcomes@.subrange(0, i as int));
                &&& q1.len() == q0.len() + succ.len()
                &&& q1.subrange(0, q0.len() as int) == q0
                &&& forall|j: int|
                    0 <= j < succ.len() ==> spec_track_of(requester@, succ[j], q1[q0.len() + j])
            }),
            forall|o: u64| mgr.spec_has(o) == old(mgr).spec_has(o),
            forall|o: u64|
                o != id && old(mgr).spec_has(o) ==> mgr.spec_queue_of(o) == old(
                    mgr,
                ).spec_queue_of(o),
        decreases outcomes@.len() - i,
    {
        let ghost processed = outcomes@.subrange(0, i as int);
        proof {
            lemma_somes_len_le(processed);
            assert(outcomes@.subrange(0, i + 1).drop_last() =~= processed);
            assert(outcomes@.subrange(0, i + 1).last() == outcomes@[i as int]);
        }
        let outcome = &outcomes[i];
        match outcome {
            None => {},
            Some(fields) => {
                let ghost q_before = mgr.spec_queue_of(id);
                let r = enqueue_track(mgr, id, requester, fields);
                added = added + 1;
                proof {
                    let succ = spec_somes(outcomes@.subrange(0, i + 1));
                    assert(succ =~= spec_somes(processed).push(*fields));
                    let q1 = mgr.spec_queue_of(id);
                    assert(q1.subrange(0, q0.len() as int) =~= q_before.subrange(
                        0,
                        q0.len() as int,
                    ));
                    assert forall|j: int|
                        0 <= j < succ.len() implies spec_track_of(
                        requester@,
                        succ[j],
                        q1[q0.len() + j],
                    ) by {
                        if j < succ.len() - 1 {
                            assert(q1[q0.len() + j] == q_before.subrange(
                                0,
                                q_before.len() as int,
                            )[q0.len() + j]);
                            assert(q1[q0.len() + j] == q_before[q0.len() + j]);
                        } else {
                            assert(q1[q0.len() + j] == q1.last());
                        }
                    }
                }
            },
        }
        i = i + 1;
    }
    proof {
        assert(outcomes@.subrange(0, outcomes@.len() as int) =~= outcomes@);
    }
    Some(added)
}

} // verus!
