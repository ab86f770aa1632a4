//! The client registry: the identifiers of the connected clients, in
//! registration order. Identifiers are assigned from a monotonically
//! increasing counter and are never reused for the life of the process.
//! The transport layer keeps each client's outbound delivery handle
//! beside this registry, keyed by the same identifier.

use vstd::prelude::*;

verus! {

/// The registered client identifiers and the next one to hand out.
pub struct ClientRegistry {
    pub next_id: u64,
    pub ids: Vec<u64>,
}

impl ClientRegistry {
    /// The structural invariant: every stored identifier was handed out
    /// earlier than the counter, and no identifier occurs twice.
    pub open spec fn wf(self) -> bool {
        &&& forall|i: int| 0 <= i < self.ids@.len() ==> self.ids@[i] < self.next_id
        &&& forall|i: int, j: int|
            0 <= i < j < self.ids@.len() ==> self.ids@[i] != self.ids@[j]
    }

    /// Creates an empty registry.
    pub fn new() -> (r: ClientRegistry)
        ensures
            r.wf(),
            r.ids@.len() == 0,
            r.next_id == 0,
    {
        ClientRegistry { next_id: 0, ids: Vec::new() }
    }

    /// Registers a new client and returns its fresh identifier, distinct
    /// from every identifier handed out before.
    pub fn register(&mut self) -> (id: u64)
        requires
            old(self).wf(),
            old(self).next_id < u64::MAX,
        ensures
            final(self).wf(),
            id == old(self).next_id,
            !old(self).ids@.contains(id),
            final(self).ids@ == old(self).ids@.push(id),
            final(self).next_id == old(self).next_id + 1,
    {
        let id = self.next_id;
        self.next_id = self.next_id + 1;
        self.ids.push(id);
        proof {
            assert forall|i: int| 0 <= i < old(self).ids@.len()
                implies old(self).ids@[i] != id by {
                assert(old(self).ids@[i] < id);
            };
        }
        id
    }

    /// Index of `id` among the registered clients, if it is one.
    fn find_index(&self, id: u64) -> (r: Option<usize>)
        ensures
            match r {
                Some(k) => k < self.ids@.len() && self.ids@[k as int] == id,
                None => !self.ids@.contains(id),
            },
    {
        let n = self.ids.len();
        let mut k: usize = 0;
        while k < n
            invariant
                k <= n,
                n == self.ids@.len(),
                forall|i: int| 0 <= i < k ==> self.ids@[i] != id,
            decreases n - k,
        {
            if self.ids[k] == id {
                return Some(k);
            }
            k = k + 1;
        }
        None
    }

    /// Removes `id` from the registry; removing an absent identifier is a
    /// no-op. Afterwards `id` is no longer registered.
    pub fn unregister(&mut self, id: u64)
        requires
            old(self).wf(),
        ensures
            final(self).wf(),
            final(self).next_id == old(self).next_id,
            old(self).ids@.contains(id) ==> exists|k: int|
                0 <= k < old(self).ids@.len() && old(self).ids@[k] == id
                    && final(self).ids@ == old(self).ids@.remove(k),
            !old(self).ids@.contains(id) ==> final(self).ids@ == old(self).ids@,
            !final(self).ids@.contains(id),
    {
        match self.find_index(id) {
            Some(k) => {
                let ghost before = self.ids@;
                let ghost ki = k as int;
                self.ids.remove(k);
                proof {
                    assert(self.ids@ == before.remove(ki));
                    assert forall|i: int, j: int| 0 <= i < j < self.ids@.len()
                        implies self.ids@[i] != self.ids@[j] by {
                        assert(self.ids@[i] == if i < ki { before[i] } else { before[i + 1] });
                        assert(self.ids@[j] == if j < ki { before[j] } else { before[j + 1] });
                    };
                    assert forall|i: int| 0 <= i < self.ids@.len()
                        implies self.ids@[i] != id by {
                        assert(self.ids@[i] == if i < ki { before[i] } else { before[i + 1] });
                    };
                    assert(!self.ids@.contains(id));
                }
            },
            None => {},
        }
    }

    /// Number of registered clients.
    pub fn count(&self) -> (r: usize)
        ensures
            r == self.ids@.len(),
    {
        self.ids.len()
    }

    /// Whether `id` is currently registered.
    pub fn contains(&self, id: u64) -> (r: bool)
        ensures
            r == self.ids@.contains(id),
    {
        match self.find_index(id) {
            Some(_) => true,
            None => false,
        }
    }

    /// A point-in-time copy of the registered identifiers, in order; the
    /// broadcast fan-out enumerates this stable snapshot rather than the
    /// live registry.
    pub fn entries(&self) -> (r: Vec<u64>)
        ensures
            r@ == self.ids@,
    {
        let mut out: Vec<u64> = Vec::new();
        let n = self.ids.len();
        let mut k: usize = 0;
        while k < n
            invariant
                k <= n,
                n == self.ids@.len(),
                out@.len() == k,
                forall|i: int| 0 <= i < k ==> out@[i] == self.ids@[i],
            decreases n - k,
        {
            out.push(self.ids[k]);
            k = k + 1;
        }
        proof {
            assert(out@ =~= self.ids@);
        }
        out
    }
}

} // verus!
