//! The paginated, rate-budgeted fetch planner.
//!
//! Identifiers are partitioned up front into batches of at most the page
//! size, preserving input order. Dispatch is admitted by the rate gate:
//! one call both checks readiness and records the dispatch, so the caller
//! can keep polling in-flight completions while waiting for admission
//! without ever jointly exceeding the budget. Completions are merged in
//! completion order — the final collection's order is the order batches
//! complete, not the order they were submitted. Any batch error aborts the
//! whole fetch: accumulated results are discarded and no partial
//! collection is returned; batches already in flight are not cancelled,
//! only their eventual results are dropped.

use vstd::prelude::*;

use crate::batch::{join_ids, make_batches, spec_batch_count, spec_batch_of, spec_joined};
use crate::rate::RateGate;

verus! {

/// The planner driving one paginated fetch of records of type `T`.
pub struct Fetcher<T> {
    /// The serialized identifier run of each batch, in submission order.
    pub batches: Vec<Vec<u8>>,
    /// How many batches have been dispatched so far.
    pub dispatched: usize,
    /// Dispatched batches whose completion has not arrived yet.
    pub in_flight: usize,
    /// The admission gate.
    pub gate: RateGate,
    /// Fetched records, appended batch by batch in completion order.
    pub out: Vec<T>,
    /// A batch failed; the whole fetch is aborted.
    pub failed: bool,
}

impl<T> Fetcher<T> {
    /// The planner's invariant.
    pub open spec fn wf(self) -> bool {
        &&& self.gate.wf()
        &&& self.dispatched <= self.batches@.len()
        &&& self.in_flight <= self.dispatched
    }

    /// Plans a fetch of `ids` at page size `page` under a budget of
    /// `budget` dispatches per window of length `window`. Batch `i` holds
    /// the comma-joined identifiers of index range `i * page` up to
    /// `min((i + 1) * page, n)`: every identifier lands in exactly one
    /// batch, in input order.
    pub fn new(ids: &Vec<u64>, page: usize, budget: usize, window: u64) -> (f: Fetcher<T>)
        requires
            page >= 1,
        ensures
            f.wf(),
            f.dispatched == 0,
            f.in_flight == 0,
            f.out@ == Seq::<T>::empty(),
            !f.failed,
            f.batches@.len() == spec_batch_count(ids@.len() as int, page as int),
            forall|i: int|
                0 <= i < f.batches@.len() ==> #[trigger] f.batches@[i]@ == spec_joined(
                    spec_batch_of(ids@, page as int, i),
                ),
            f.gate.budget == budget,
            f.gate.window == window,
            f.gate.last == 0,
            f.gate.issued@ == Seq::<u64>::empty(),
    {
        let parts = make_batches(ids, page);
        let mut batches: Vec<Vec<u8>> = Vec::new();
        let n = parts.len();
        let mut i: usize = 0;
        while i < n
            invariant
                0 <= i <= n,
                n == parts@.len(),
                batches@.len() == i,
                forall|k: int|
                    0 <= k < parts@.len() ==> #[trigger] parts@[k]@ == spec_batch_of(
                        ids@,
                        page as int,
                        k,
                    ),
                forall|k: int|
                    0 <= k < i ==> #[trigger] batches@[k]@ == spec_joined(
                        spec_batch_of(ids@, page as int, k),
                    ),
            decreases n - i,
        {
            let joined = join_ids(&parts[i]);
            batches.push(joined);
            i += 1;
        }
        Fetcher {
            batches,
            dispatched: 0,
            in_flight: 0,
            gate: RateGate::new(budget, window),
            out: Vec::new(),
            failed: false,
        }
    }

    /// Tries to dispatch the next pending batch at time `now`. The
    /// readiness check and the dispatch accounting happen in a single
    /// call. On admission, hands back the batch index and its serialized
    /// identifier run; `None` when nothing is pending, the fetch already
    /// failed, or the window's budget is used up.
    pub fn try_dispatch(&mut self, now: u64) -> (r: Option<(usize, Vec<u8>)>)
        requires
            old(self).wf(),
            now >= old(self).gate.last,
        ensures
            final(self).wf(),
            final(self).batches@ == old(self).batches@,
            final(self).out@ == old(self).out@,
            final(self).failed == old(self).failed,
            final(self).gate.budget == old(self).gate.budget,
            final(self).gate.window == old(self).gate.window,
            final(self).gate.last >= old(self).gate.last,
            match r {
                Some((idx, b)) => {
                    &&& !old(self).failed
                    &&& idx == old(self).dispatched
                    &&& old(self).dispatched < old(self).batches@.len()
                    &&& b@ == old(self).batches@[idx as int]@
                    &&& final(self).dispatched == old(self).dispatched + 1
                    &&& final(self).in_flight == old(self).in_flight + 1
                    &&& final(self).gate.issued@ == old(self).gate.issued@.push(now)
                    &&& old(self).gate.recent(now as int) < old(self).gate.budget
                },
                None => {
                    &&& final(self).dispatched == old(self).dispatched
                    &&& final(self).in_flight == old(self).in_flight
                    &&& final(self).gate.issued@ == old(self).gate.issued@
                    &&& (old(self).failed || old(self).dispatched == old(self).batches@.len()
                        || old(self).gate.recent(now as int) >= old(self).gate.budget)
                },
            },
    {
        if self.failed {
            return None;
        }
        if self.dispatched >= self.batches.len() {
            return None;
        }
        if !self.gate.try_admit(now) {
            return None;
        }
        let idx = self.dispatched;
        let mut b: Vec<u8> = Vec::new();
        b.extend_from_slice(self.batches[idx].as_slice());
        proof {
            assert(b@ =~= self.batches@[idx as int]@);
        }
        self.dispatched = idx + 1;
        self.in_flight = self.in_flight + 1;
        Some((idx, b))
    }

    /// Merges one completed batch's records, in completion order. A
    /// completion that arrives after the fetch failed is discarded.
    pub fn on_batch_done(&mut self, items: Vec<T>)
        requires
            old(self).wf(),
            old(self).in_flight >= 1,
        ensures
            final(self).wf(),
            final(self).in_flight == old(self).in_flight - 1,
            final(self).dispatched == old(self).dispatched,
            final(self).batches@ == old(self).batches@,
            final(self).failed == old(self).failed,
            final(self).gate == old(self).gate,
            !old(self).failed ==> final(self).out@ == old(self).out@ + items@,
            old(self).failed ==> final(self).out@ == old(self).out@,
    {
        self.in_flight = self.in_flight - 1;
        if !self.failed {
            let mut items = items;
            self.out.append(&mut items);
        }
    }

    /// Records one failed batch: the whole fetch aborts, and results
    /// already accumulated from other batches are discarded.
    pub fn on_batch_failed(&mut self)
        requires
            old(self).wf(),
            old(self).in_flight >= 1,
        ensures
            final(self).wf(),
            final(self).in_flight == old(self).in_flight - 1,
            final(self).dispatched == old(self).dispatched,
            final(self).batches@ == old(self).batches@,
            final(self).failed,
            final(self).out@ == Seq::<T>::empty(),
            final(self).gate == old(self).gate,
    {
        self.in_flight = self.in_flight - 1;
        self.failed = true;
        self.out = Vec::new();
    }

    /// Whether every batch was dispatched and every completion arrived.
    pub fn is_done(&self) -> (r: bool)
        ensures
            r == (self.dispatched == self.batches@.len() && self.in_flight == 0),
    {
        self.dispatched == self.batches.len() && self.in_flight == 0
    }

    /// Hands the merged collection out: the records of all batches in
    /// completion order, or nothing when any batch failed.
    pub fn into_results(self) -> (r: Option<Vec<T>>)
        ensures
            self.failed ==> r is None,
            !self.failed ==> (r matches Some(v) && v@ == self.out@),
    {
        if self.failed {
            None
        } else {
            Some(self.out)
        }
    }
}

} // verus!
