use playqueue::queue::QueueStore;
use playqueue::track::{ResolvedFields, Track};

fn fields(title: &str) -> ResolvedFields {
    ResolvedFields {
        title: Some(title.to_string()),
        thumbnail: None,
        artist: None,
        channel: None,
        date: Some("20200101".to_string()),
        source_url: Some(format!("https://youtu.be/{}", title)),
        duration_ms: Some(1000),
        starttime_ms: None,
    }
}

fn track(title: &str) -> Track {
    Track::from_fields(&"req".to_string(), &fields(title))
}

#[test]
fn dequeue_on_empty_returns_none_and_len_unchanged() {
    let mut q = QueueStore::new();
    assert_eq!(q.len(), 0);
    assert!(q.dequeue().is_none());
    assert_eq!(q.len(), 0);
}

#[test]
fn fifo_order_dequeue_snapshot_peek() {
    let mut q = QueueStore::new();
    q.enqueue(track("A"));
    q.enqueue(track("B"));
    q.enqueue(track("C"));
    let first = q.dequeue().expect("head expected");
    assert_eq!(first.title, "A");
    let snap = q.snapshot();
    assert_eq!(snap.len(), 2);
    assert_eq!(snap[0].title, "B");
    assert_eq!(snap[1].title, "C");
    let head = q.peek_head().expect("head expected");
    assert_eq!(head.title, "B");
    assert_eq!(q.len(), 2);
}

#[test]
fn enqueue_returns_one_based_positions() {
    let mut q = QueueStore::new();
    assert_eq!(q.enqueue(track("A")), 1);
    assert_eq!(q.enqueue(track("B")), 2);
    q.dequeue();
    assert_eq!(q.enqueue(track("C")), 2);
}

#[test]
fn interleaved_len_counts_only_effective_dequeues() {
    let mut q = QueueStore::new();
    let mut enqueued = 0u32;
    let mut effective = 0u32;
    // Interleaving: two dequeues hit an empty queue and count for nothing.
    let script = [
        "deq", "enq", "enq", "deq", "deq", "deq", "enq", "enq", "enq", "deq",
    ];
    for step in script {
        if step == "enq" {
            q.enqueue(track("x"));
            enqueued += 1;
        } else {
            if q.len() > 0 {
                effective += 1;
            }
            q.dequeue();
        }
    }
    assert_eq!(enqueued, 5);
    assert_eq!(effective, 3);
    assert_eq!(q.len() as u32, enqueued - effective);
}

#[test]
fn snapshot_is_a_point_in_time_copy() {
    let mut q = QueueStore::new();
    q.enqueue(track("A"));
    let snap = q.snapshot();
    q.enqueue(track("B"));
    assert_eq!(snap.len(), 1);
    assert_eq!(snap[0].title, "A");
    assert_eq!(q.len(), 2);
}

#[test]
fn peek_does_not_mutate() {
    let mut q = QueueStore::new();
    q.enqueue(track("A"));
    let _ = q.peek_head();
    let _ = q.peek_head();
    assert_eq!(q.len(), 1);
    assert_eq!(q.snapshot()[0].title, "A");
}
