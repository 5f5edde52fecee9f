//! The pending-request tracker for server-initiated round trips.
//!
//! When the server sends its own request to the client, the request's
//! id and a caller-chosen completion slot are entered here.  A later
//! inbound response with a matching id takes the entry out and names
//! the slot to resolve; when the connection dies, every live entry is
//! taken out at once, so no round trip is left hanging.  The tracker
//! never holds two live entries with the same id, and it imposes no
//! timeout of its own.

use vstd::prelude::*;
use crate::message::{IdModel, MsgId, id_eq};

verus! {

/// Whether some entry of `t` carries the id `id`.
pub open spec fn tracker_has(t: Seq<(IdModel, usize)>, id: IdModel) -> bool {
    exists|i: int| 0 <= i < t.len() && (#[trigger] t[i]).0 == id
}

/// Whether no two entries of `t` share an id.
pub open spec fn distinct_ids(t: Seq<(IdModel, usize)>) -> bool {
    forall|i: int, j: int| 0 <= i < j < t.len() ==> (#[trigger] t[i]).0 != (#[trigger] t[j]).0
}

/// The live round trips, in the order they were sent.
pub struct PendingTracker {
    entries: Vec<(MsgId, usize)>,
}

impl View for PendingTracker {
    type V = Seq<(IdModel, usize)>;

    closed spec fn view(&self) -> Seq<(IdModel, usize)> {
        self.entries@.map_values(|e: (MsgId, usize)| (e.0@, e.1))
    }
}

impl PendingTracker {
    /// No id is entered twice.
    pub open spec fn wf(&self) -> bool {
        distinct_ids(self@)
    }

    /// An empty tracker.
    pub fn new() -> (r: PendingTracker)
        ensures
            r@ == Seq::<(IdModel, usize)>::empty(),
            r.wf(),
    {
        let r = PendingTracker { entries: Vec::new() };
        proof {
            assert(r@ =~= Seq::<(IdModel, usize)>::empty());
        }
        r
    }

    /// The index of the entry carrying `id`, if any.
    fn find(&self, id: &MsgId) -> (r: Option<usize>)
        ensures
            match r {
                Some(i) => 0 <= i < self@.len() && self@[i as int].0 == id@,
                None => !tracker_has(self@, id@),
            },
    {
        let mut i: usize = 0;
        while i < self.entries.len()
            invariant
                i <= self.entries@.len(),
                self@.len() == self.entries@.len(),
                forall|k: int| 0 <= k < i ==> (#[trigger] self@[k]).0 != id@,
            decreases self.entries@.len() - i,
        {
            if id_eq(&self.entries[i].0, id) {
                proof {
                    assert(self@[i as int].0 == self.entries@[i as int].0@);
                }
                return Some(i);
            }
            proof {
                assert(self@[i as int].0 == self.entries@[i as int].0@);
            }
            i = i + 1;
        }
        None
    }

    /// Whether a round trip with this id is live.
    pub fn contains(&self, id: &MsgId) -> (r: bool)
        ensures
            r == tracker_has(self@, id@),
    {
        match self.find(id) {
            Some(i) => {
                proof {
                    assert(tracker_has(self@, id@));
                }
                true
            },
            None => false,
        }
    }

    /// Enter a round trip.  An id already live is refused, so that no
    /// two entries ever share an id.
    pub fn insert(&mut self, id: MsgId, slot: usize) -> (r: bool)
        requires
            old(self).wf(),
        ensures
            final(self).wf(),
            r == !tracker_has(old(self)@, id@),
            r ==> final(self)@ == old(self)@.push((id@, slot)),
            !r ==> final(self)@ == old(self)@,
    {
        match self.find(&id) {
            Some(_) => {
                proof {
                    assert(tracker_has(self@, id@));
                }
                false
            },
            None => {
                self.entries.push((id, slot));
                proof {
                    assert(self@ =~= old(self)@.push((id@, slot)));
                }
                true
            },
        }
    }

    /// Take out the entry carrying `id` and name its slot.
    pub fn resolve(&mut self, id: &MsgId) -> (r: Option<usize>)
        requires
            old(self).wf(),
        ensures
            final(self).wf(),
            match r {
                Some(slot) => {
                    &&& tracker_has(old(self)@, id@)
                    &&& exists|i: int|
                        0 <= i < old(self)@.len() && #[trigger] old(self)@[i] == (id@, slot)
                            && final(self)@ == old(self)@.remove(i)
                    &&& !tracker_has(final(self)@, id@)
                },
                None => !tracker_has(old(self)@, id@) && final(self)@ == old(self)@,
            },
    {
        match self.find(id) {
            Some(i) => {
                let e = self.entries.remove(i);
                proof {
                    assert(self@ =~= old(self)@.remove(i as int));
                    assert(old(self)@[i as int] == (id@, e.1));
                    assert forall|j: int| 0 <= j < self@.len() implies (#[trigger] self@[j]).0
                        != id@ by {
                        if j < i {
                            assert(self@[j] == old(self)@[j]);
                        } else {
                            assert(self@[j] == old(self)@[j + 1]);
                        }
                    }
                }
                Some(e.1)
            },
            None => None,
        }
    }

    /// Take out every live entry at once, naming all their slots in
    /// order, so that each can be resolved as "connection closed".
    pub fn close_all(&mut self) -> (r: Vec<usize>)
        ensures
            final(self)@.len() == 0,
            final(self).wf(),
            r@.len() == old(self)@.len(),
            forall|i: int| 0 <= i < r@.len() ==> r@[i] == (#[trigger] old(self)@[i]).1,
    {
        let mut out: Vec<usize> = Vec::new();
        while self.entries.len() > 0
            invariant
                out@.len() + self.entries@.len() == old(self)@.len(),
                self@ =~= old(self)@.skip(out@.len() as int),
                forall|i: int| 0 <= i < out@.len() ==> out@[i] == (#[trigger] old(self)@[i]).1,
            decreases self.entries@.len(),
        {
            let ghost k = out@.len() as int;
            let ghost prev = self@;
            let ghost prev_entries = self.entries@;
            let e = self.entries.remove(0);
            out.push(e.1);
            proof {
                assert forall|j: int| 0 <= j < self@.len() implies #[trigger] self@[j]
                    == prev[j + 1] by {
                    assert(self.entries@[j] == prev_entries.remove(0)[j]);
                    assert(prev_entries.remove(0)[j] == prev_entries[j + 1]);
                }
                assert(self@ =~= old(self)@.skip(k + 1)) by {
                    assert(forall|j: int|
                        0 <= j < self@.len() ==> #[trigger] self@[j] == prev[j + 1] && prev[j + 1]
                            == old(self)@[k + j + 1]);
                }
                assert(e == prev_entries[0]);
                assert(e.1 == prev[0].1);
                assert(prev[0] == old(self)@[k]);
            }
        }
        out
    }

    /// How many round trips are live.
    pub fn len(&self) -> (r: usize)
        ensures
            r == self@.len(),
    {
        self.entries.len()
    }
}

} // verus!
