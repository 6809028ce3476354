//! The admission gate: keeps the number of dispatched requests inside any
//! rolling window of the configured length at or under the configured
//! budget.
//!
//! Every admitted dispatch leaves its timestamp in the history. A single
//! call, `try_admit`, both checks readiness and counts the dispatch, so no
//! suspension point can fall between the readiness check and the dispatch
//! it admits: two competing dispatches can never both read "ready" and
//! jointly exceed the budget. Timestamps are in any fixed unit (the caller
//! picks seconds or milliseconds) on a monotone clock.

use vstd::prelude::*;

verus! {

/// Number of entries of `hist` inside the half-open interval `(lo, hi]`.
pub open spec fn count_between(hist: Seq<u64>, lo: int, hi: int) -> int
    decreases hist.len(),
{
    if hist.len() == 0 {
        0
    } else {
        count_between(hist.drop_last(), lo, hi) + if lo < hist.last() <= hi {
            1int
        } else {
            0int
        }
    }
}

pub proof fn lemma_count_between_nonneg(hist: Seq<u64>, lo: int, hi: int)
    ensures
        count_between(hist, lo, hi) >= 0,
    decreases hist.len(),
{
    if hist.len() > 0 {
        lemma_count_between_nonneg(hist.drop_last(), lo, hi);
    }
}

/// Widening an interval never lowers the count.
pub proof fn lemma_count_between_mono(hist: Seq<u64>, lo1: int, hi1: int, lo2: int, hi2: int)
    requires
        lo2 <= lo1,
        hi1 <= hi2,
    ensures
        count_between(hist, lo1, hi1) <= count_between(hist, lo2, hi2),
    decreases hist.len(),
{
    if hist.len() > 0 {
        lemma_count_between_mono(hist.drop_last(), lo1, hi1, lo2, hi2);
    }
}

/// Clipping the upper bound down to a value that still lies at or above
/// every entry leaves the count unchanged.
pub proof fn lemma_count_between_clip(hist: Seq<u64>, lo: int, hi: int, hi2: int)
    requires
        hi2 <= hi,
        forall|k: int| 0 <= k < hist.len() ==> hist[k] <= hi2,
    ensures
        count_between(hist, lo, hi) == count_between(hist, lo, hi2),
    decreases hist.len(),
{
    if hist.len() > 0 {
        assert(forall|k: int|
            0 <= k < hist.drop_last().len() ==> #[trigger] hist.drop_last()[k] == hist[k]);
        lemma_count_between_clip(hist.drop_last(), lo, hi, hi2);
        assert(hist.last() == hist[hist.len() - 1]);
    }
}

/// The admission gate. `issued` holds the timestamp of every admitted
/// dispatch, oldest first.
pub struct RateGate {
    /// Greatest number of dispatches allowed inside one window.
    pub budget: usize,
    /// Window length, in the caller's time unit.
    pub window: u64,
    /// The largest `now` value any call was given.
    pub last: u64,
    /// Timestamps of the admitted dispatches, in admission order.
    pub issued: Vec<u64>,
}

impl RateGate {
    /// Well-formedness: timestamps are ordered, none exceeds `last`, and
    /// no window of the configured length holds more than `budget`
    /// admissions.
    pub open spec fn wf(self) -> bool {
        &&& forall|k: int| 0 <= k < self.issued@.len() ==> #[trigger] self.issued@[k] <= self.last
        &&& forall|k1: int, k2: int|
            0 <= k1 <= k2 < self.issued@.len() ==> #[trigger] self.issued@[k1]
                <= #[trigger] self.issued@[k2]
        &&& forall|t: int|
            #[trigger] count_between(self.issued@, t, t + self.window) <= self.budget
    }

    /// Opens a gate that admits at most `budget` dispatches inside any
    /// window of length `window`.
    pub fn new(budget: usize, window: u64) -> (g: RateGate)
        ensures
            g.wf(),
            g.budget == budget,
            g.window == window,
            g.last == 0,
            g.issued@ == Seq::<u64>::empty(),
    {
        let g = RateGate { budget, window, last: 0, issued: Vec::new() };
        proof {
            assert(forall|t: int| #[trigger] count_between(g.issued@, t, t + g.window) == 0);
        }
        g
    }

    /// Dispatches admitted inside the trailing window that ends at `now`.
    pub open spec fn recent(self, now: int) -> int {
        count_between(self.issued@, now - self.window, now)
    }

    /// Checks readiness and, when the trailing window still has room,
    /// records one dispatch at time `now` in the same step. Admission is
    /// granted exactly when fewer than `budget` dispatches fall inside the
    /// trailing window.
    pub fn try_admit(&mut self, now: u64) -> (r: bool)
        requires
            old(self).wf(),
            now >= old(self).last,
        ensures
            final(self).wf(),
            final(self).budget == old(self).budget,
            final(self).window == old(self).window,
            final(self).last == now,
            r == (old(self).recent(now as int) < old(self).budget),
            r ==> final(self).issued@ == old(self).issued@.push(now),
            !r ==> final(self).issued@ == old(self).issued@,
    {
        proof {
            lemma_count_between_nonneg(self.issued@, now - self.window, now as int);
        }
        let w = self.window;
        let n = self.issued.len();
        let mut cnt: usize = 0;
        let mut i: usize = 0;
        while i < n
            invariant
                0 <= i <= n,
                n == self.issued@.len(),
                self.wf(),
                now >= self.last,
                w == self.window,
                cnt == count_between(self.issued@.take(i as int), now - w, now as int),
                cnt <= i,
            decreases n - i,
        {
            let e = self.issued[i];
            proof {
                assert(self.issued@.take(i + 1).drop_last() =~= self.issued@.take(i as int));
                assert(self.issued@.take(i + 1).last() == self.issued@[i as int]);
                assert(e <= self.last <= now);
            }
            if (e as u128) + (w as u128) > (now as u128) {
                cnt = cnt + 1;
            }
            i += 1;
        }
        proof {
            assert(self.issued@.take(n as int) =~= self.issued@);
        }
        self.last = now;
        if cnt < self.budget {
            let ghost oldh = self.issued@;
            self.issued.push(now);
            proof {
                let h = self.issued@;
                let w = self.window as int;
                let b = self.budget as int;
                assert(h.drop_last() =~= oldh);
                assert(h.last() == now);
                assert(forall|k: int| 0 <= k < h.len() ==> #[trigger] h[k] <= now);
                assert forall|t: int| #[trigger] count_between(h, t, t + w) <= b by {
                    assert(count_between(h, t, t + w) == count_between(oldh, t, t + w) + if t
                        < now <= t + w {
                        1int
                    } else {
                        0int
                    });
                    if t < now && now <= t + w {
                        lemma_count_between_clip(oldh, t, t + w, now as int);
                        lemma_count_between_mono(oldh, t, now as int, now - w, now as int);
                        assert(count_between(oldh, t, t + w) <= count_between(
                            oldh,
                            now - w,
                            now as int,
                        ));
                    } else {
                        lemma_count_between_nonneg(oldh, t, t + w);
                    }
                }
            }
            true
        } else {
            false
        }
    }
}

/// Across any window of the configured length, the number of admitted
/// dispatches never exceeds the budget: for every instant `t`, at most
/// `budget` of the recorded dispatch times fall inside `(t, t + window]`.
pub proof fn lemma_rate_budget_respected(g: RateGate, t: int)
    requires
        g.wf(),
    ensures
        count_between(g.issued@, t, t + g.window) <= g.budget,
{
}

} // verus!
