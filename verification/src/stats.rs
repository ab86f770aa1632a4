//! The sliding-window request-rate tracker: an ordered sequence of
//! `(timestamp, count)` events, oldest first. Evaluating the window prunes
//! entries older than the window threshold and sums the remaining counts;
//! the caller derives a rate by dividing that sum by the window length.

use vstd::prelude::*;

verus! {

/// Length of the sliding stats window, in seconds.
pub const STATS_WINDOW_SECS: u64 = 10;

/// Sum of the counts of a window sequence.
pub open spec fn spec_total(s: Seq<(u64, u32)>) -> int
    decreases s.len(),
{
    if s.len() == 0 {
        0
    } else {
        spec_total(s.drop_last()) + s.last().1
    }
}

/// The sequence left after dropping leading entries that are older than
/// the window ending at `now`.
pub open spec fn spec_pruned(s: Seq<(u64, u32)>, now: u64) -> Seq<(u64, u32)>
    decreases s.len(),
{
    if s.len() > 0 && s[0].0 + STATS_WINDOW_SECS < now {
        spec_pruned(s.subrange(1, s.len() as int), now)
    } else {
        s
    }
}

/// A window sum is never negative.
pub proof fn lemma_total_nonneg(s: Seq<(u64, u32)>)
    ensures
        spec_total(s) >= 0,
    decreases s.len(),
{
    if s.len() > 0 {
        lemma_total_nonneg(s.drop_last());
    }
}

/// Removing the front entry removes its count from the sum.
pub proof fn lemma_total_remove_front(s: Seq<(u64, u32)>)
    requires
        s.len() > 0,
    ensures
        spec_total(s.subrange(1, s.len() as int)) == spec_total(s) - s[0].1,
    decreases s.len(),
{
    if s.len() == 1 {
        assert(s.subrange(1, 1) =~= Seq::<(u64, u32)>::empty());
        assert(s.drop_last() =~= Seq::<(u64, u32)>::empty());
    } else {
        let t = s.subrange(1, s.len() as int);
        assert(t.drop_last() =~= s.drop_last().subrange(1, s.len() - 1));
        lemma_total_remove_front(s.drop_last());
        assert(s.drop_last()[0] == s[0]);
        assert(t.last() == s.last());
    }
}

/// A prefix of a window sequence sums to no more than the whole.
pub proof fn lemma_total_prefix_le(s: Seq<(u64, u32)>, i: int)
    requires
        0 <= i <= s.len(),
    ensures
        spec_total(s.subrange(0, i)) <= spec_total(s),
    decreases s.len() - i,
{
    if i == s.len() {
        assert(s.subrange(0, i) =~= s);
    } else {
        lemma_total_prefix_le(s, i + 1);
        assert(s.subrange(0, i + 1).drop_last() =~= s.subrange(0, i));
        assert(s.subrange(0, i + 1).last() == s[i]);
    }
}

/// The request-rate event window.
pub struct StatsTracker {
    pub events: Vec<(u64, u32)>,
}

impl StatsTracker {
    /// The structural invariant: events are ordered oldest first, every
    /// timestamp leaves room for the window width, and the total count
    /// fits the summing machine word.
    pub open spec fn wf(self) -> bool {
        &&& forall|i: int, j: int|
            0 <= i <= j < self.events@.len() ==> self.events@[i].0 <= self.events@[j].0
        &&& forall|i: int|
            0 <= i < self.events@.len() ==> self.events@[i].0 <= u64::MAX - STATS_WINDOW_SECS
        &&& spec_total(self.events@) <= u64::MAX
    }

    /// Timestamp of the newest event, or zero when the window is empty.
    pub open spec fn last_time(self) -> u64 {
        if self.events@.len() == 0 {
            0
        } else {
            self.events@.last().0
        }
    }

    /// Creates an empty tracker.
    pub fn new() -> (t: StatsTracker)
        ensures
            t.wf(),
            t.events@.len() == 0,
    {
        StatsTracker { events: Vec::new() }
    }

    /// Appends one `(now, count)` event. Time never runs backwards here:
    /// the caller's clock is monotonic.
    pub fn record(&mut self, now: u64, count: u32)
        requires
            old(self).wf(),
            old(self).last_time() <= now,
            now <= u64::MAX - STATS_WINDOW_SECS,
            spec_total(old(self).events@) + count <= u64::MAX,
        ensures
            final(self).wf(),
            final(self).events@ == old(self).events@.push((now, count)),
            final(self).last_time() == now,
    {
        self.events.push((now, count));
        proof {
            lemma_total_nonneg(old(self).events@);
            assert(self.events@.drop_last() =~= old(self).events@);
            assert(self.events@.last() == (now, count));
            assert forall|i: int, j: int| 0 <= i <= j < self.events@.len()
                implies self.events@[i].0 <= self.events@[j].0 by {
                if j == self.events@.len() - 1 && i < j {
                    assert(old(self).events@[i].0 <= old(self).events@.last().0);
                }
            };
        }
    }

    /// Prunes every event older than the window ending at `now`, then
    /// returns the sum of the counts still inside the window. After the
    /// call no stored event is older than the window threshold.
    pub fn windowed_total(&mut self, now: u64) -> (total: u64)
        requires
            old(self).wf(),
        ensures
            final(self).wf(),
            final(self).events@ == spec_pruned(old(self).events@, now),
            total == spec_total(final(self).events@),
            forall|i: int|
                0 <= i < final(self).events@.len()
                    ==> final(self).events@[i].0 + STATS_WINDOW_SECS >= now,
    {
        let ghost orig = self.events@;
        while self.events.len() > 0 && self.events[0].0 + STATS_WINDOW_SECS < now
            invariant
                self.wf(),
                spec_pruned(orig, now) == spec_pruned(self.events@, now),
            decreases self.events@.len(),
        {
            proof {
                lemma_total_remove_front(self.events@);
                lemma_total_nonneg(self.events@.subrange(1, self.events@.len() as int));
            }
            let ghost before = self.events@;
            self.events.remove(0);
            proof {
                assert(self.events@ =~= before.subrange(1, before.len() as int));
            }
        }
        proof {
            assert(self.events@ == spec_pruned(orig, now));
            assert forall|i: int| 0 <= i < self.events@.len()
                implies self.events@[i].0 + STATS_WINDOW_SECS >= now by {
                assert(self.events@[0].0 <= self.events@[i].0);
            };
        }
        let ghost kept = self.events@;
        let mut total: u64 = 0;
        let n = self.events.len();
        let mut k: usize = 0;
        proof {
            assert(kept.subrange(0, 0) =~= Seq::<(u64, u32)>::empty());
        }
        while k < n
            invariant
                k <= n,
                n == self.events@.len(),
                self.events@ == kept,
                spec_total(kept) <= u64::MAX,
                total == spec_total(kept.subrange(0, k as int)),
            decreases n - k,
        {
            proof {
                lemma_total_prefix_le(kept, k + 1);
                lemma_total_nonneg(kept.subrange(0, k as int));
                assert(kept.subrange(0, k + 1).drop_last() =~= kept.subrange(0, k as int));
                assert(kept.subrange(0, k + 1).last() == kept[k as int]);
            }
            total = total + self.events[k].1 as u64;
            k = k + 1;
        }
        proof {
            assert(kept.subrange(0, kept.len() as int) =~= kept);
        }
        total
    }

    /// Records a completed broadcast fan-out as a single event carrying
    /// the number of recipients reached, and records nothing when no
    /// delivery succeeded.
    pub fn note_fanout(&mut self, now: u64, delivered: u32)
        requires
            old(self).wf(),
            old(self).last_time() <= now,
            now <= u64::MAX - STATS_WINDOW_SECS,
            spec_total(old(self).events@) + delivered <= u64::MAX,
        ensures
            final(self).wf(),
            delivered == 0 ==> final(self).events@ == old(self).events@,
            delivered > 0 ==> final(self).events@ == old(self).events@.push((now, delivered)),
    {
        if delivered > 0 {
            self.record(now, delivered);
        }
    }
}

} // verus!
