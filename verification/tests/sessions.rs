use playqueue::pipeline::{enqueue_playlist_items, enqueue_track};
use playqueue::session::{EventBridge, SessionManager};
use playqueue::track::ResolvedFields;

fn fields(title: &str) -> ResolvedFields {
    ResolvedFields {
        title: Some(title.to_string()),
        thumbnail: None,
        artist: None,
        channel: None,
        date: None,
        source_url: Some(format!("https://youtu.be/{}", title)),
        duration_ms: None,
        starttime_ms: None,
    }
}

fn requester() -> String {
    "req".to_string()
}

#[test]
fn two_sessions_are_fully_independent() {
    let mut mgr = SessionManager::new();
    mgr.get_or_create(1);
    mgr.get_or_create(2);
    let before_b = mgr.snapshot_of(2).expect("session 2 expected");
    enqueue_track(&mut mgr, 1, &requester(), &fields("A"));
    enqueue_track(&mut mgr, 1, &requester(), &fields("B"));
    assert_eq!(mgr.len_of(1), Some(2));
    assert_eq!(mgr.len_of(2), Some(0));
    let after_b = mgr.snapshot_of(2).expect("session 2 expected");
    assert_eq!(before_b.len(), after_b.len());
    enqueue_track(&mut mgr, 2, &requester(), &fields("C"));
    assert_eq!(mgr.len_of(1), Some(2));
    let snap_a = mgr.snapshot_of(1).expect("session 1 expected");
    assert_eq!(snap_a[0].title, "A");
    assert_eq!(snap_a[1].title, "B");
}

#[test]
fn get_or_create_keeps_an_existing_queue() {
    let mut mgr = SessionManager::new();
    mgr.get_or_create(5);
    enqueue_track(&mut mgr, 5, &requester(), &fields("A"));
    mgr.get_or_create(5);
    assert_eq!(mgr.len_of(5), Some(1));
}

#[test]
fn remove_session_then_fresh_queue() {
    let mut mgr = SessionManager::new();
    mgr.get_or_create(5);
    enqueue_track(&mut mgr, 5, &requester(), &fields("A"));
    mgr.remove_session(5);
    assert!(!mgr.has_session(5));
    assert_eq!(mgr.len_of(5), None);
    mgr.get_or_create(5);
    assert_eq!(mgr.len_of(5), Some(0));
}

#[test]
fn enqueue_for_missing_session_changes_nothing() {
    let mut mgr = SessionManager::new();
    mgr.get_or_create(1);
    let r = enqueue_track(&mut mgr, 9, &requester(), &fields("A"));
    assert_eq!(r, None);
    assert_eq!(mgr.len_of(1), Some(0));
    assert!(!mgr.has_session(9));
}

#[test]
fn bridge_dequeues_only_its_own_session() {
    let mut mgr = SessionManager::new();
    mgr.get_or_create(1);
    mgr.get_or_create(2);
    enqueue_track(&mut mgr, 1, &requester(), &fields("A1"));
    enqueue_track(&mut mgr, 1, &requester(), &fields("A2"));
    enqueue_track(&mut mgr, 2, &requester(), &fields("B1"));
    let bridge = EventBridge::new(1);
    let removed = bridge.on_track_end(&mut mgr).expect("head expected");
    assert_eq!(removed.title, "A1");
    assert_eq!(mgr.len_of(1), Some(1));
    assert_eq!(mgr.len_of(2), Some(1));
}

#[test]
fn spurious_completion_events_are_no_ops() {
    let mut mgr = SessionManager::new();
    mgr.get_or_create(1);
    enqueue_track(&mut mgr, 1, &requester(), &fields("A"));
    let bridge = EventBridge::new(1);
    assert!(bridge.on_track_end(&mut mgr).is_some());
    // Duplicate notifications find the queue empty and change nothing.
    assert!(bridge.on_track_end(&mut mgr).is_none());
    assert!(bridge.on_track_end(&mut mgr).is_none());
    assert_eq!(mgr.len_of(1), Some(0));
    // A bridge for a torn-down session is also a no-op.
    let stray = EventBridge::new(9);
    assert!(stray.on_track_end(&mut mgr).is_none());
    assert_eq!(mgr.len_of(1), Some(0));
}

#[test]
fn playlist_enqueue_skips_the_failed_item() {
    let mut mgr = SessionManager::new();
    mgr.get_or_create(1);
    let outcomes = vec![
        Some(fields("v1")),
        Some(fields("v2")),
        None,
        Some(fields("v4")),
        Some(fields("v5")),
    ];
    let added = enqueue_playlist_items(&mut mgr, 1, &requester(), &outcomes);
    assert_eq!(added, Some(4));
    let snap = mgr.snapshot_of(1).expect("session expected");
    let titles: Vec<&str> = snap.iter().map(|t| t.title.as_str()).collect();
    assert_eq!(titles, vec!["v1", "v2", "v4", "v5"]);
}

#[test]
fn playlist_enqueue_for_missing_session_changes_nothing() {
    let mut mgr = SessionManager::new();
    let outcomes = vec![Some(fields("v1"))];
    let added = enqueue_playlist_items(&mut mgr, 9, &requester(), &outcomes);
    assert_eq!(added, None);
    assert!(!mgr.has_session(9));
}

#[test]
fn playlist_enqueue_appends_after_existing_tracks() {
    let mut mgr = SessionManager::new();
    mgr.get_or_create(1);
    enqueue_track(&mut mgr, 1, &requester(), &fields("old"));
    let outcomes = vec![Some(fields("new1")), Some(fields("new2"))];
    let added = enqueue_playlist_items(&mut mgr, 1, &requester(), &outcomes);
    assert_eq!(added, Some(2));
    let snap = mgr.snapshot_of(1).expect("session expected");
    let titles: Vec<&str> = snap.iter().map(|t| t.title.as_str()).collect();
    assert_eq!(titles, vec!["old", "new1", "new2"]);
}
