//! The dispatch table: an immutable mapping, built before the loop
//! starts, from method name to a handler.
//!
//! The runtime never calls handler code itself; a handler is known
//! here by a caller-chosen index, and the server loop's actions tell
//! the surrounding process which handler to run.  Unknown methods are
//! not an error at registration time, only at dispatch time.

use vstd::prelude::*;
use crate::json::str_eq;

verus! {

/// Whether some entry of `t` is named `m`.
pub open spec fn table_has(t: Seq<(Seq<char>, usize)>, m: Seq<char>) -> bool {
    exists|i: int| 0 <= i < t.len() && (#[trigger] t[i]).0 == m
}

/// Whether no two entries of `t` share a name.
pub open spec fn distinct_methods(t: Seq<(Seq<char>, usize)>) -> bool {
    forall|i: int, j: int| 0 <= i < j < t.len() ==> (#[trigger] t[i]).0 != (#[trigger] t[j]).0
}

/// The mapping from method names to handlers.
pub struct DispatchTable {
    entries: Vec<(String, usize)>,
}

impl View for DispatchTable {
    type V = Seq<(Seq<char>, usize)>;

    closed spec fn view(&self) -> Seq<(Seq<char>, usize)> {
        self.entries@.map_values(|e: (String, usize)| (e.0@, e.1))
    }
}

impl DispatchTable {
    /// Each method name is registered at most once.
    pub open spec fn wf(&self) -> bool {
        distinct_methods(self@)
    }

    /// An empty table.
    pub fn new() -> (r: DispatchTable)
        ensures
            r@ == Seq::<(Seq<char>, usize)>::empty(),
            r.wf(),
    {
        let r = DispatchTable { entries: Vec::new() };
        proof {
            assert(r@ =~= Seq::<(Seq<char>, usize)>::empty());
        }
        r
    }

    /// Register `handler` under `method`.  A name already present is
    /// refused, so that no request can ever reach two handlers.
    pub fn register(&mut self, method: String, handler: usize) -> (r: bool)
        requires
            old(self).wf(),
        ensures
            final(self).wf(),
            r == !table_has(old(self)@, method@),
            r ==> final(self)@ == old(self)@.push((method@, handler)),
            !r ==> final(self)@ == old(self)@,
    {
        match self.lookup(&method) {
            Some(_) => false,
            None => {
                self.entries.push((method, handler));
                proof {
                    assert(self@ =~= old(self)@.push((method@, handler)));
                }
                true
            },
        }
    }

    /// The handler registered under `method`, if any.
    pub fn lookup(&self, method: &String) -> (r: Option<usize>)
        ensures
            match r {
                Some(h) => exists|i: int|
                    0 <= i < self@.len() && #[trigger] self@[i] == (method@, h),
                None => !table_has(self@, method@),
            },
    {
        let mut i: usize = 0;
        while i < self.entries.len()
            invariant
                i <= self.entries@.len(),
                self@.len() == self.entries@.len(),
                forall|k: int| 0 <= k < i ==> (#[trigger] self@[k]).0 != method@,
            decreases self.entries@.len() - i,
        {
            if str_eq(&self.entries[i].0, method.as_str()) {
                proof {
                    assert(self@[i as int] == (method@, self.entries@[i as int].1));
                }
                return Some(self.entries[i].1);
            }
            proof {
                assert(self@[i as int].0 != method@);
            }
            i = i + 1;
        }
        None
    }

    /// How many methods are registered.
    pub fn len(&self) -> (r: usize)
        ensures
            r == self@.len(),
    {
        self.entries.len()
    }
}

} // verus!
