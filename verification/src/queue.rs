//! The per-session track queue: an ordered FIFO list whose head is, by
//! convention, the currently playing track. Length changes only through
//! `enqueue` (append at the tail) and `dequeue` (remove the head); a dequeue
//! on an empty queue is a safe no-op.

use vstd::prelude::*;
use crate::track::Track;

verus! {

/// The ordered list of pending tracks of one playback session.
pub struct QueueStore {
    tracks: Vec<Track>,
}

impl View for QueueStore {
    type V = Seq<Track>;

    closed spec fn view(&self) -> Seq<Track> {
        self.tracks@
    }
}

impl QueueStore {
    /// A session's queue starts empty.
    pub fn new() -> (q: QueueStore)
        ensures
            q@ == Seq::<Track>::empty(),
    {
        QueueStore { tracks: Vec::new() }
    }

    /// Appends `track` at the tail and returns its 1-based position at the
    /// time of insertion. Never fails.
    pub fn enqueue(&mut self, track: Track) -> (position: usize)
        requires
            old(self)@.len() < usize::MAX,
        ensures
            final(self)@ == old(self)@.push(track),
            position == final(self)@.len(),
    {
        self.tracks.push(track);
        self.tracks.len()
    }

    /// Removes and returns the head. On an empty queue it returns `None` and
    /// changes nothing: a duplicate or spurious completion event is absorbed
    /// as a no-op.
    pub fn dequeue(&mut self) -> (head: Option<Track>)
        ensures
            old(self)@.len() == 0 ==> head is None && final(self)@ == old(self)@,
            old(self)@.len() > 0 ==> head == Some(old(self)@[0]) && final(self)@ == old(
                self,
            )@.drop_first(),
    {
        if self.tracks.len() == 0 {
            None
        } else {
            let head = self.tracks.remove(0);
            proof {
                assert(self.tracks@ =~= old(self)@.drop_first());
            }
            Some(head)
        }
    }

    /// Returns a copy of the head without mutating the queue.
    pub fn peek_head(&self) -> (head: Option<Track>)
        ensures
            self@.len() == 0 ==> head is None,
            self@.len() > 0 ==> head == Some(self@[0]),
    {
        if self.tracks.len() == 0 {
            None
        } else {
            Some(self.tracks[0].clone())
        }
    }

    /// Returns an immutable copy of the whole queue at a single instant.
    pub fn snapshot(&self) -> (copy: Vec<Track>)
        ensures
            copy@ == self@,
    {
        let mut copy: Vec<Track> = Vec::new();
        let mut i: usize = 0;
        while i < self.tracks.len()
            invariant
                i <= self.tracks@.len(),
                copy@ == self.tracks@.subrange(0, i as int),
            decreases self.tracks@.len() - i,
        {
            copy.push(self.tracks[i].clone());
            i = i + 1;
            proof {
                assert(copy@ =~= self.tracks@.subrange(0, i as int));
            }
        }
        proof {
            assert(copy@ =~= self@);
        }
        copy
    }

    /// The number of queued tracks, the presumed-playing head included.
    pub fn len(&self) -> (n: usize)
        ensures
            n == self@.len(),
    {
        self.tracks.len()
    }
}

/// One queue operation, for stating how a whole interleaving of calls moves
/// the queue.
pub enum QueueOp {
    Enqueue(Track),
    Dequeue,
}

/// The queue contents after applying `ops` in order to a queue holding `q`.
pub open spec fn spec_apply_ops(q: Seq<Track>, ops: Seq<QueueOp>) -> Seq<Track>
    decreases ops.len(),
{
    if ops.len() == 0 {
        q
    } else {
        let rest = match ops[0] {
            QueueOp::Enqueue(t) => q.push(t),
            QueueOp::Dequeue => if q.len() == 0 {
                q
            } else {
                q.drop_first()
            },
        };
        spec_apply_ops(rest, ops.drop_first())
    }
}

/// How many of `ops` are enqueues.
pub open spec fn spec_enqueue_count(ops: Seq<QueueOp>) -> nat
    decreases ops.len(),
{
    if ops.len() == 0 {
        0
    } else {
        (match ops[0] {
            QueueOp::Enqueue(_) => 1 as nat,
            QueueOp::Dequeue => 0 as nat,
        }) + spec_enqueue_count(ops.drop_first())
    }
}

/// How many dequeues among `ops` found a non-empty queue at the time they
/// ran, starting from contents `q`.
pub open spec fn spec_effective_dequeue_count(q: Seq<Track>, ops: Seq<QueueOp>) -> nat
    decreases ops.len(),
{
    if ops.len() == 0 {
        0
    } else {
        match ops[0] {
            QueueOp::Enqueue(t) => spec_effective_dequeue_count(q.push(t), ops.drop_first()),
            QueueOp::Dequeue => if q.len() == 0 {
                spec_effective_dequeue_count(q, ops.drop_first())
            } else {
                1 + spec_effective_dequeue_count(q.drop_first(), ops.drop_first())
            },
        }
    }
}

/// For any interleaving of enqueue and dequeue calls on one queue, the length
/// afterward equals the starting length, plus the number of enqueues, minus
/// the number of dequeues that found a non-empty queue at the time they ran.
pub proof fn lemma_len_after_ops(q: Seq<Track>, ops: Seq<QueueOp>)
    ensures
        spec_apply_ops(q, ops).len() == q.len() + spec_enqueue_count(ops)
            - spec_effective_dequeue_count(q, ops),
    decreases ops.len(),
{
    if ops.len() == 0 {
    } else {
        match ops[0] {
            QueueOp::Enqueue(t) => {
                lemma_len_after_ops(q.push(t), ops.drop_first());
            },
            QueueOp::Dequeue => {
                if q.len() == 0 {
                    lemma_len_after_ops(q, ops.drop_first());
                } else {
                    lemma_len_after_ops(q.drop_first(), ops.drop_first());
                }
            },
        }
    }
}

} // verus!
