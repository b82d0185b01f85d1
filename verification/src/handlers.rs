//! The queue-reading commands: the paged queue listing and the now-playing
//! summary. Each handler turns one session's queue into a result value; the
//! command layer renders the user-visible text from it.

use vstd::prelude::*;
use crate::pages::{
    build_lines, clamp_page, escape_date, paginate, parse_page_arg, spec_clamp_page,
    spec_display_line, spec_escaped_date, spec_line_views, spec_page_text, spec_parse_page,
};
use crate::session::SessionManager;
use crate::strutil::spec_u64_string;
use crate::track::Track;

verus! {

/// The default page-size threshold: a page rolls over once it already holds
/// more than this many lines.
pub open spec fn spec_default_threshold() -> int {
    10
}

/// The display lines of a snapshot, one per track in queue order.
pub open spec fn spec_display_lines(snap: Seq<Track>) -> Seq<Seq<char>> {
    Seq::new(snap.len(), |k: int| spec_display_line(k + 1, snap[k].title@, snap[k].requester@))
}

/// The page a given argument asks for: a missing or non-numeric argument
/// asks for page 1.
pub open spec fn spec_requested_page(arg: Option<String>) -> int {
    match arg {
        None => 1,
        Some(a) => match spec_parse_page(a@) {
            Some(v) => v,
            None => 1,
        },
    }
}

/// The outcome of the queue-listing command.
pub enum QueueListReply {
    /// No queue is registered for the session: an internal invariant
    /// violation to surface loudly, never silent corruption.
    NoSuchSession,
    /// The queue is empty; the command layer reports that nothing is
    /// playing.
    Empty,
    /// One selected page of the listing.
    Page {
        /// Names the currently playing track.
        header: String,
        /// Source link of the currently playing track.
        url: String,
        /// The selected page's lines.
        body: String,
        /// The `page/total` footer text.
        footer: String,
        page_number: usize,
        total_pages: usize,
        /// The page argument was present but non-numeric; page 1 was used.
        invalid_arg: bool,
    },
}

/// Lists one page of the session's queue: one numbered line per track with
/// its canonical title and requester, pages of up to eleven lines, the
/// requested page clamped into range.
pub fn handle_queue_list(mgr: &SessionManager, id: u64, page_arg: &Option<String>) -> (r:
    QueueListReply)
    requires
        mgr.wf(),
    ensures
        (r is NoSuchSession) == !mgr.spec_has(id),
        mgr.spec_has(id) ==> (r is Empty) == (mgr.spec_queue_of(id).len() == 0),
        match r {
            QueueListReply::Page {
                header,
                url,
                body,
                footer,
                page_number,
                total_pages,
                invalid_arg,
            } => {
                let snap = mgr.spec_queue_of(id);
                let requested = spec_requested_page(*page_arg);
                &&& mgr.spec_has(id)
                &&& snap.len() > 0
                &&& header@ == "Now playing: "@ + snap[0].title@
                &&& url@ == snap[0].url@
                &&& invalid_arg == match *page_arg {
                    Some(a) => spec_parse_page(a@) is None,
                    None => false,
                }
                &&& 1 <= total_pages
                &&& (total_pages - 1) * (spec_default_threshold() + 1) < snap.len()
                    <= total_pages * (spec_default_threshold() + 1)
                &&& page_number as int == spec_clamp_page(requested, total_pages as int)
                &&& body@ == spec_page_text(
                    spec_display_lines(snap),
                    page_number - 1,
                    spec_default_threshold(),
                )
                &&& footer@ == "Page: "@ + spec_u64_string(page_number as int) + "/"@
                    + spec_u64_string(total_pages as int)
            },
            _ => true,
        },
{
    let snap = match mgr.snapshot_of(id) {
        None => {
            return QueueListReply::NoSuchSession;
        },
        Some(snap) => snap,
    };
    if snap.len() == 0 {
        return QueueListReply::Empty;
    }
    let (requested, invalid_arg): (i32, bool) = match page_arg {
        None => (1, false),
        Some(a) => match parse_page_arg(a.as_str()) {
            Some(v) => (v, false),
            None => (1, true),
        },
    };
    let lines = build_lines(&snap);
    let pages = paginate(&lines, 10);
    let total_pages = pages.len();
    let page_number = clamp_page(requested, total_pages);
    let body = pages[page_number - 1].clone();
    let header = String::from_str("Now playing: ").concat(snap[0].title.as_str());
    let url = snap[0].url.clone();
    let footer = String::from_str("Page: ").concat(u64_string_usize(page_number).as_str()).concat(
        "/",
    ).concat(u64_string_usize(total_pages).as_str());
    proof {
        assert(spec_line_views(lines@) =~= spec_display_lines(mgr.spec_queue_of(id)));
    }
    QueueListReply::Page { header, url, body, footer, page_number, total_pages, invalid_arg }
}

/// Renders a usize in decimal.
fn u64_string_usize(n: usize) -> (r: String)
    ensures
        r@ == spec_u64_string(n as int),
{
    crate::strutil::u64_string(n as u64)
}

/// The outcome of the now-playing command.
pub enum NowPlayingReply {
    /// No queue is registered for the session.
    NoSuchSession,
    /// The queue is empty; nothing is currently playing.
    Nothing,
    /// The head track's display fields, the upload date escaped.
    Playing { title: String, url: String, requester: String, thumbnail: String, channel: String, date: String },
}

/// Describes the currently playing track: the head of the session's queue,
/// with its upload date escaped for display.
pub fn handle_now_playing(mgr: &SessionManager, id: u64) -> (r: NowPlayingReply)
    requires
        mgr.wf(),
    ensures
        (r is NoSuchSession) == !mgr.spec_has(id),
        mgr.spec_has(id) ==> (r is Nothing) == (mgr.spec_queue_of(id).len() == 0),
        match r {
            NowPlayingReply::Playing { title, url, requester, thumbnail, channel, date } => {
                let head = mgr.spec_queue_of(id)[0];
                &&& mgr.spec_has(id)
                &&& mgr.spec_queue_of(id).len() > 0
                &&& title@ == head.title@
                &&& url@ == head.url@
                &&& requester@ == head.requester@
                &&& thumbnail@ == head.thumbnail@
                &&& channel@ == head.channel@
                &&& date@ == spec_escaped_date(head.date@)
            },
            _ => true,
        },
{
    let snap = match mgr.snapshot_of(id) {
        None => {
            return NowPlayingReply::NoSuchSession;
        },
        Some(snap) => snap,
    };
    if snap.len() == 0 {
        return NowPlayingReply::Nothing;
    }
    let head = &snap[0];
    NowPlayingReply::Playing {
        title: head.title.clone(),
        url: head.url.clone(),
        requester: head.requester.clone(),
        thumbnail: head.thumbnail.clone(),
        channel: head.channel.clone(),
        date: escape_date(head.date.as_str()),
    }
}

} // verus!
