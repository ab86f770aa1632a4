//! Broadcast fan-out planning. Given a stable snapshot of the registry,
//! each entry paired with whether its delivery handle was found closed at
//! delivery time, this decides which clients receive the message and which
//! are lazily evicted. The transport layer performs the sends and then
//! removes the evicted identifiers from the registry.

use vstd::prelude::*;

verus! {

/// Whether the registry entry `e` (identifier, handle-closed) receives a
/// broadcast sent by `sender` under the skip-sender flag.
pub open spec fn spec_receives(e: (u64, bool), sender: u64, skip: bool) -> bool {
    !e.1 && !(skip && e.0 == sender)
}

/// The identifiers a fan-out reaches, in enumeration order.
pub open spec fn spec_recipients(entries: Seq<(u64, bool)>, sender: u64, skip: bool) -> Seq<u64>
    decreases entries.len(),
{
    if entries.len() == 0 {
        Seq::empty()
    } else {
        let rest = spec_recipients(entries.drop_last(), sender, skip);
        if spec_receives(entries.last(), sender, skip) {
            rest.push(entries.last().0)
        } else {
            rest
        }
    }
}

/// The identifiers whose delivery handle was found closed, in order.
pub open spec fn spec_evicted(entries: Seq<(u64, bool)>) -> Seq<u64>
    decreases entries.len(),
{
    if entries.len() == 0 {
        Seq::empty()
    } else {
        let rest = spec_evicted(entries.drop_last());
        if entries.last().1 {
            rest.push(entries.last().0)
        } else {
            rest
        }
    }
}

/// Number of occurrences of `id` in a sequence of identifiers.
pub open spec fn count_in(s: Seq<u64>, id: u64) -> int
    decreases s.len(),
{
    if s.len() == 0 {
        0
    } else {
        count_in(s.drop_last(), id) + if s.last() == id { 1int } else { 0int }
    }
}

/// Plans a fan-out over a snapshot of registry entries: returns the
/// identifiers to deliver to and the identifiers to evict.
pub fn plan_broadcast(entries: &Vec<(u64, bool)>, sender_id: u64, skip_sender: bool) -> (r: (
    Vec<u64>,
    Vec<u64>,
))
    ensures
        r.0@ == spec_recipients(entries@, sender_id, skip_sender),
        r.1@ == spec_evicted(entries@),
{
    let mut recipients: Vec<u64> = Vec::new();
    let mut evicted: Vec<u64> = Vec::new();
    let n = entries.len();
    let mut k: usize = 0;
    proof {
        assert(entries@.subrange(0, 0) =~= Seq::<(u64, bool)>::empty());
    }
    while k < n
        invariant
            k <= n,
            n == entries@.len(),
            recipients@ == spec_recipients(entries@.subrange(0, k as int), sender_id, skip_sender),
            evicted@ == spec_evicted(entries@.subrange(0, k as int)),
        decreases n - k,
    {
        let id = entries[k].0;
        let closed = entries[k].1;
        if closed {
            evicted.push(id);
        } else if !(skip_sender && id == sender_id) {
            recipients.push(id);
        }
        k = k + 1;
        proof {
            let sub = entries@.subrange(0, k as int);
            assert(sub.drop_last() =~= entries@.subrange(0, k as int - 1));
            assert(sub.last() == entries@[k as int - 1]);
            assert(recipients@ =~= spec_recipients(sub, sender_id, skip_sender));
            assert(evicted@ =~= spec_evicted(sub));
        }
    }
    proof {
        assert(entries@.subrange(0, n as int) =~= entries@);
    }
    (recipients, evicted)
}

/// With no identifier registered twice, a fan-out reaches `id` exactly
/// once when some entry with that identifier has an open handle and is
/// not the skipped sender, and never otherwise.
pub proof fn lemma_fanout_count(entries: Seq<(u64, bool)>, sender: u64, skip: bool, id: u64)
    requires
        forall|i: int, j: int| 0 <= i < j < entries.len() ==> entries[i].0 != entries[j].0,
    ensures
        count_in(spec_recipients(entries, sender, skip), id) == if (exists|i: int|
            0 <= i < entries.len() && entries[i].0 == id && spec_receives(entries[i], sender, skip)) {
            1int
        } else {
            0int
        },
    decreases entries.len(),
{
    if entries.len() == 0 {
    } else {
        let prefix = entries.drop_last();
        let last = entries.last();
        assert(forall|i: int| 0 <= i < prefix.len() ==> prefix[i] == entries[i]);
        lemma_fanout_count(prefix, sender, skip, id);
        let rest = spec_recipients(prefix, sender, skip);
        let inner = exists|i: int|
            0 <= i < prefix.len() && prefix[i].0 == id && spec_receives(prefix[i], sender, skip);
        let outer = exists|i: int|
            0 <= i < entries.len() && entries[i].0 == id && spec_receives(entries[i], sender, skip);
        if inner {
            let i = choose|i: int|
                0 <= i < prefix.len() && prefix[i].0 == id && spec_receives(
                    prefix[i],
                    sender,
                    skip,
                );
            assert(entries[i] == prefix[i]);
            assert(outer);
            // uniqueness: the last entry cannot also carry `id`
            assert(last.0 != id);
        }
        if last.0 == id && spec_receives(last, sender, skip) {
            assert(outer);
            assert(!inner);
        }
        if outer && !(last.0 == id && spec_receives(last, sender, skip)) {
            let i = choose|i: int|
                0 <= i < entries.len() && entries[i].0 == id && spec_receives(
                    entries[i],
                    sender,
                    skip,
                );
            assert(i < prefix.len());
            assert(prefix[i] == entries[i]);
            assert(inner);
        }
        if spec_receives(last, sender, skip) {
            assert(spec_recipients(entries, sender, skip) == rest.push(last.0));
            assert(rest.push(last.0).drop_last() =~= rest);
        } else {
            assert(spec_recipients(entries, sender, skip) == rest);
        }
    }
}

/// The fan-out delivery law: with unique identifiers, every entry with an
/// open handle is reached exactly once, except the sender when the
/// skip-sender flag is set, who is then never reached; clients with a
/// closed handle, and identifiers not in the snapshot, are never reached.
pub proof fn lemma_fanout_policy(entries: Seq<(u64, bool)>, sender: u64, skip: bool)
    requires
        forall|i: int, j: int| 0 <= i < j < entries.len() ==> entries[i].0 != entries[j].0,
    ensures
        forall|i: int|
            0 <= i < entries.len() && spec_receives(#[trigger] entries[i], sender, skip)
                ==> count_in(spec_recipients(entries, sender, skip), entries[i].0) == 1,
        skip ==> count_in(spec_recipients(entries, sender, skip), sender) == 0,
        forall|id: u64|
            !(exists|i: int|
                0 <= i < entries.len() && entries[i].0 == id && spec_receives(
                    entries[i],
                    sender,
                    skip,
                )) ==> #[trigger] count_in(spec_recipients(entries, sender, skip), id) == 0,
{
    assert forall|i: int|
        0 <= i < entries.len() && spec_receives(#[trigger] entries[i], sender, skip)
        implies count_in(spec_recipients(entries, sender, skip), entries[i].0) == 1 by {
        lemma_fanout_count(entries, sender, skip, entries[i].0);
    };
    if skip {
        lemma_fanout_count(entries, sender, skip, sender);
        assert(!(exists|i: int|
            0 <= i < entries.len() && entries[i].0 == sender && spec_receives(
                entries[i],
                sender,
                skip,
            )));
    }
    assert forall|id: u64|
        !(exists|i: int|
            0 <= i < entries.len() && entries[i].0 == id && spec_receives(
                entries[i],
                sender,
                skip,
            )) implies #[trigger] count_in(spec_recipients(entries, sender, skip), id) == 0 by {
        lemma_fanout_count(entries, sender, skip, id);
    };
}

} // verus!
