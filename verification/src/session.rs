//! One queue per voice session: the session manager binds each session
//! identifier to its own queue, so that no two sessions ever observe the same
//! queue, and the event bridge ties the playback engine's completion
//! notifications to exactly one session's queue.

use vstd::prelude::*;
use crate::queue::QueueStore;
use crate::track::Track;

verus! {

/// Maps each live session identifier to its own queue.
pub struct SessionManager {
    entries: Vec<(u64, QueueStore)>,
}

impl SessionManager {
    /// No session identifier is bound twice.
    pub closed spec fn wf(&self) -> bool {
        forall|k1: int, k2: int|
            0 <= k1 < k2 < self.entries@.len() ==> self.entries@[k1].0 != self.entries@[k2].0
    }

    /// A queue is registered for `id`.
    pub closed spec fn spec_has(&self, id: u64) -> bool {
        exists|k: int| 0 <= k < self.entries@.len() && self.entries@[k].0 == id
    }

    /// The contents of the queue registered for `id`.
    pub closed spec fn spec_queue_of(&self, id: u64) -> Seq<Track> {
        let k = choose|k: int| 0 <= k < self.entries@.len() && self.entries@[k].0 == id;
        self.entries@[k].1@
    }

    /// The entry at a position with the looked-up identifier is the one the
    /// abstraction speaks of.
    proof fn lemma_entry_is_queue(&self, id: u64, i: int)
        requires
            self.wf(),
            0 <= i < self.entries@.len(),
            self.entries@[i].0 == id,
        ensures
            self.spec_has(id),
            self.spec_queue_of(id) == self.entries@[i].1@,
    {
        assert(self.spec_has(id));
        let k = choose|k: int|
            0 <= k < self.entries@.len() && self.entries@[k].0 == id;
        if k < i {
            assert(self.entries@[k].0 != self.entries@[i].0);
        } else if i < k {
            assert(self.entries@[i].0 != self.entries@[k].0);
        }
    }

    /// A manager with no sessions.
    pub fn new() -> (m: SessionManager)
        ensures
            m.wf(),
            forall|id: u64| !m.spec_has(id),
    {
        SessionManager { entries: Vec::new() }
    }

    /// The position of the entry bound to `id`, when there is one.
    fn find_index(&self, id: u64) -> (r: Option<usize>)
        requires
            self.wf(),
        ensures
            match r {
                Some(i) => i < self.entries@.len() && self.entries@[i as int].0 == id
                    && self.spec_has(id) && self.spec_queue_of(id) == self.entries@[i as int].1@,
                None => !self.spec_has(id),
            },
    {
        let mut i: usize = 0;
        while i < self.entries.len()
            invariant
                self.wf(),
                i <= self.entries@.len(),
                forall|j: int| 0 <= j < i ==> self.entries@[j].0 != id,
            decreases self.entries@.len() - i,
        {
            if self.entries[i].0 == id {
                proof {
                    self.lemma_entry_is_queue(id, i as int);
                }
                return Some(i);
            }
            i = i + 1;
        }
        None
    }

    /// Returns whether `id` has a queue.
    pub fn has_session(&self, id: u64) -> (r: bool)
        requires
            self.wf(),
        ensures
            r == self.spec_has(id),
    {
        self.find_index(id).is_some()
    }

    /// Returns the existing binding for `id`, or registers a fresh empty
    /// queue for it. Every other session's queue is untouched.
    pub fn get_or_create(&mut self, id: u64)
        requires
            old(self).wf(),
        ensures
            final(self).wf(),
            final(self).spec_has(id),
            final(self).spec_queue_of(id) == if old(self).spec_has(id) {
                old(self).spec_queue_of(id)
            } else {
                Seq::<Track>::empty()
            },
            forall|o: u64|
                o != id ==> final(self).spec_has(o) == old(self).spec_has(o) && (old(
                    self,
                ).spec_has(o) ==> final(self).spec_queue_of(o) == old(self).spec_queue_of(o)),
    {
        match self.find_index(id) {
            Some(_) => {},
            None => {
                let ghost pre = *self;
                self.entries.push((id, QueueStore::new()));
                proof {
                    let n = pre.entries@.len() as int;
                    assert(self.entries@.len() == n + 1);
                    assert(self.entries@[n].0 == id);
                    assert(forall|j: int| 0 <= j < n ==> self.entries@[j] == pre.entries@[j]);
                    assert forall|k1: int, k2: int|
                        0 <= k1 < k2 < self.entries@.len() implies self.entries@[k1].0
                        != self.entries@[k2].0 by {
                        if k2 < n {
                        } else {
                            assert(self.entries@[k2].0 == id);
                            assert(pre.entries@[k1].0 != id);
                        }
                    }
                    self.lemma_entry_is_queue(id, n);
                    assert forall|o: u64| o != id implies final(self).spec_has(o) == pre.spec_has(
                        o,
                    ) && (pre.spec_has(o) ==> final(self).spec_queue_of(o) == pre.spec_queue_of(
                        o,
                    )) by {
                        if pre.spec_has(o) {
                            let k = choose|k: int|
                                0 <= k < pre.entries@.len() && pre.entries@[k].0 == o;
                            self.lemma_entry_is_queue(o, k);
                            pre.lemma_entry_is_queue(o, k);
                        } else {
                            if final(self).spec_has(o) {
                                let k = choose|k: int|
                                    0 <= k < self.entries@.len() && self.entries@[k].0 == o;
                                assert(k == n);
                            }
                        }
                    }
                }
            },
        }
    }

    /// Tears the session's queue down; later lookups for `id` find nothing
    /// until a fresh queue is created. Every other session is untouched.
    pub fn remove_session(&mut self, id: u64)
        requires
            old(self).wf(),
        ensures
            final(self).wf(),
            !final(self).spec_has(id),
            forall|o: u64|
                o != id ==> final(self).spec_has(o) == old(self).spec_has(o) && (old(
                    self,
                ).spec_has(o) ==> final(self).spec_queue_of(o) == old(self).spec_queue_of(o)),
    {
        match self.find_index(id) {
            None => {},
            Some(i) => {
                let ghost pre = *self;
                let _ = self.entries.remove(i);
                proof {
                    assert(self.entries@ =~= pre.entries@.remove(i as int));
                    assert forall|k1: int, k2: int|
                        0 <= k1 < k2 < self.entries@.len() implies self.entries@[k1].0
                        != self.entries@[k2].0 by {
                        let m1 = if k1 < i { k1 } else { k1 + 1 };
                        let m2 = if k2 < i { k2 } else { k2 + 1 };
                        assert(self.entries@[k1] == pre.entries@[m1]);
                        assert(self.entries@[k2] == pre.entries@[m2]);
                    }
                    if final(self).spec_has(id) {
                        let k = choose|k: int|
                            0 <= k < self.entries@.len() && self.entries@[k].0 == id;
                        let m = if k < i { k } else { k + 1 };
                        assert(pre.entries@[m].0 == id);
                        assert(m != i);
                        pre.lemma_entry_is_queue(id, m);
                        pre.lemma_entry_is_queue(id, i as int);
                        assert(false);
                    }
                    assert forall|o: u64| o != id implies final(self).spec_has(o) == pre.spec_has(
                        o,
                    ) && (pre.spec_has(o) ==> final(self).spec_queue_of(o) == pre.spec_queue_of(
                        o,
                    )) by {
                        if pre.spec_has(o) {
                            let k = choose|k: int|
                                0 <= k < pre.entries@.len() && pre.entries@[k].0 == o;
                            let m = if k < i { k } else { k - 1 };
                            assert(pre.entries@[k].0 == o);
                            assert(k != i);
                            assert(self.entries@[m] == pre.entries@[k]);
                            self.lemma_entry_is_queue(o, m);
                            pre.lemma_entry_is_queue(o, k);
                        } else {
                            if final(self).spec_has(o) {
                                let k = choose|k: int|
                                    0 <= k < self.entries@.len() && self.entries@[k].0 == o;
                                let m = if k < i { k } else { k + 1 };
                                assert(pre.entries@[m].0 == o);
                            }
                        }
                    }
                }
            },
        }
    }

    /// Appends `track` to the queue of session `id` and returns its 1-based
    /// position, or `None` when `id` has no queue; no other session's queue
    /// changes.
    pub fn enqueue_for(&mut self, id: u64, track: Track) -> (r: Option<usize>)
        requires
            old(self).wf(),
            old(self).spec_has(id) ==> old(self).spec_queue_of(id).len() < usize::MAX,
        ensures
            final(self).wf(),
            !old(self).spec_has(id) ==> r is None && *final(self) == *old(self),
            old(self).spec_has(id) ==> {
                &&& final(self).spec_queue_of(id) == old(self).spec_queue_of(id).push(track)
                &&& r == Some((old(self).spec_queue_of(id).len() + 1) as usize)
            },
            forall|o: u64| final(self).spec_has(o) == old(self).spec_has(o),
            forall|o: u64|
                o != id && old(self).spec_has(o) ==> final(self).spec_queue_of(o) == old(
                    self,
                ).spec_queue_of(o),
    {
        match self.find_index(id) {
            None => None,
            Some(i) => {
                let ghost pre = *self;
                let (key, mut q) = self.entries.remove(i);
                let position = q.enqueue(track);
                self.entries.insert(i, (key, q));
                proof {
                    self.lemma_update_one(pre, i as int, id);
                }
                Some(position)
            },
        }
    }

    /// Removes and returns the head of the queue of session `id`; `None`
    /// when `id` has no queue or its queue is empty, in which case nothing
    /// changes. No other session's queue changes.
    pub fn dequeue_for(&mut self, id: u64) -> (removed: Option<Track>)
        requires
            old(self).wf(),
        ensures
            final(self).wf(),
            !old(self).spec_has(id) ==> removed is None && *final(self) == *old(self),
            old(self).spec_has(id) && old(self).spec_queue_of(id).len() == 0 ==> removed is None
                && final(self).spec_queue_of(id) == old(self).spec_queue_of(id),
            old(self).spec_has(id) && old(self).spec_queue_of(id).len() > 0 ==> removed == Some(
                old(self).spec_queue_of(id)[0],
            ) && final(self).spec_queue_of(id) == old(self).spec_queue_of(id).drop_first(),
            forall|o: u64| final(self).spec_has(o) == old(self).spec_has(o),
            forall|o: u64|
                o != id && old(self).spec_has(o) ==> final(self).spec_queue_of(o) == old(
                    self,
                ).spec_queue_of(o),
    {
        match self.find_index(id) {
            None => None,
            Some(i) => {
                let ghost pre = *self;
                let (key, mut q) = self.entries.remove(i);
                let removed = q.dequeue();
                self.entries.insert(i, (key, q));
                proof {
                    self.lemma_update_one(pre, i as int, id);
                }
                removed
            },
        }
    }

    /// A copy of the queue of session `id` at a single instant.
    pub fn snapshot_of(&self, id: u64) -> (r: Option<Vec<Track>>)
        requires
            self.wf(),
        ensures
            match r {
                Some(copy) => self.spec_has(id) && copy@ == self.spec_queue_of(id),
                None => !self.spec_has(id),
            },
    {
        match self.find_index(id) {
            None => None,
            Some(i) => Some(self.entries[i].1.snapshot()),
        }
    }

    /// The length of the queue of session `id`.
    pub fn len_of(&self, id: u64) -> (r: Option<usize>)
        requires
            self.wf(),
        ensures
            match r {
                Some(n) => self.spec_has(id) && n == self.spec_queue_of(id).len(),
                None => !self.spec_has(id),
            },
    {
        match self.find_index(id) {
            None => None,
            Some(i) => Some(self.entries[i].1.len()),
        }
    }

    /// Replacing the queue at one position changes that session's queue and
    /// no other's.
    proof fn lemma_update_one(&self, pre: SessionManager, i: int, id: u64)
        requires
            pre.wf(),
            0 <= i < pre.entries@.len(),
            pre.entries@[i].0 == id,
            self.entries@.len() == pre.entries@.len(),
            self.entries@[i].0 == id,
            forall|j: int| 0 <= j < pre.entries@.len() && j != i ==> self.entries@[j]
                == pre.entries@[j],
        ensures
            self.wf(),
            forall|o: u64| self.spec_has(o) == pre.spec_has(o),
            self.spec_queue_of(id) == self.entries@[i].1@,
            pre.spec_queue_of(id) == pre.entries@[i].1@,
            forall|o: u64|
                o != id && pre.spec_has(o) ==> self.spec_queue_of(o) == pre.spec_queue_of(o),
    {
        assert forall|k1: int, k2: int|
            0 <= k1 < k2 < self.entries@.len() implies self.entries@[k1].0 != self.entries@[k2].0
            by {
            assert(self.entries@[k1].0 == pre.entries@[k1].0);
            assert(self.entries@[k2].0 == pre.entries@[k2].0);
        }
        assert forall|o: u64| self.spec_has(o) == pre.spec_has(o) by {
            assert(forall|k: int|
                0 <= k < pre.entries@.len() ==> self.entries@[k].0 == pre.entries@[k].0);
        }
        self.lemma_entry_is_queue(id, i);
        pre.lemma_entry_is_queue(id, i);
        assert forall|o: u64|
            o != id && pre.spec_has(o) implies self.spec_queue_of(o) == pre.spec_queue_of(o) by {
            let k = choose|k: int| 0 <= k < pre.entries@.len() && pre.entries@[k].0 == o;
            assert(k != i);
            assert(self.entries@[k] == pre.entries@[k]);
            self.lemma_entry_is_queue(o, k);
            pre.lemma_entry_is_queue(o, k);
        }
    }
}

/// Translates "track finished" notifications from the playback engine into
/// queue mutations: one bridge is bound to exactly one session, and it never
/// dequeues from another session's queue.
pub struct EventBridge {
    pub session_id: u64,
}

impl EventBridge {
    /// A bridge bound to session `id`.
    pub fn new(id: u64) -> (b: EventBridge)
        ensures
            b.session_id == id,
    {
        EventBridge { session_id: id }
    }

    /// One completion notification: dequeues the bound session's head
    /// unconditionally. A duplicate or spurious notification finds an empty
    /// queue and is absorbed as a no-op; no other session's queue is ever
    /// touched.
    pub fn on_track_end(&self, mgr: &mut SessionManager) -> (removed: Option<Track>)
        requires
            old(mgr).wf(),
        ensures
            final(mgr).wf(),
            !old(mgr).spec_has(self.session_id) ==> removed is None && *final(mgr) == *old(mgr),
            old(mgr).spec_has(self.session_id) && old(mgr).spec_queue_of(self.session_id).len()
                == 0 ==> removed is None && final(mgr).spec_queue_of(self.session_id)
                == old(mgr).spec_queue_of(self.session_id),
            old(mgr).spec_has(self.session_id) && old(mgr).spec_queue_of(self.session_id).len()
                > 0 ==> removed == Some(old(mgr).spec_queue_of(self.session_id)[0])
                && final(mgr).spec_queue_of(self.session_id)
                == old(mgr).spec_queue_of(self.session_id).drop_first(),
            forall|o: u64| final(mgr).spec_has(o) == old(mgr).spec_has(o),
            forall|o: u64|
                o != self.session_id && old(mgr).spec_has(o) ==> final(mgr).spec_queue_of(o)
                    == old(mgr).spec_queue_of(o),
    {
        mgr.dequeue_for(self.session_id)
    }
}

} // verus!
