//! Scan orchestration: the page batches of a fixed-range scan under a
//! concurrency bound, the merge of per-page results that tolerates per-page
//! failures, the final deduplication, and the sequential early-stop scan.
//!
//! The fetch itself is I/O and lives with the caller: the caller issues one
//! request per page of a batch, hands the per-page outcomes back, and the
//! functions here decide everything else. A page's failure never aborts a
//! scan: merging drops failed pages and keeps every successful page's hits.

use vstd::prelude::*;
use crate::HitView;
use crate::ScanError;
use crate::ValidatorHit;
use crate::clone_hit;
use crate::dedup::dedup_hits;
use crate::dedup::spec_dedup;
use crate::dedup::unique_keys;
use crate::hit_views;

verus! {

/// The pages `lo..=hi`, in order; empty when `hi < lo`.
pub open spec fn spec_page_range(lo: int, hi: int) -> Seq<u32> {
    if lo > hi {
        Seq::empty()
    } else {
        Seq::new((hi + 1 - lo) as nat, |i: int| (lo + i) as u32)
    }
}

/// The pages `lo..=hi` cut into consecutive batches of `c` pages, the last
/// batch possibly shorter; empty when `hi < lo`.
pub open spec fn spec_batches(lo: int, hi: int, c: int) -> Seq<Seq<u32>>
    decreases hi + 1 - lo,
{
    if lo > hi || c < 1 {
        Seq::empty()
    } else {
        let m = if lo + c - 1 <= hi {
            lo + c - 1
        } else {
            hi
        };
        seq![spec_page_range(lo, m)] + spec_batches(m + 1, hi, c)
    }
}

/// The views of a sequence of batches.
pub open spec fn batch_views(bs: Seq<Vec<u32>>) -> Seq<Seq<u32>> {
    bs.map_values(|b: Vec<u32>| b@)
}

/// Cuts the inclusive page range into batches of at most `concurrency`
/// pages. The caller fetches the pages of one batch concurrently and waits
/// for the whole batch before starting the next, so at most `concurrency`
/// requests are ever in flight. An inverted range yields no batch at all, so
/// no request is issued for it.
pub fn plan_batches(start_page: u32, end_page: u32, concurrency: usize) -> (batches: Vec<
    Vec<u32>,
>)
    requires
        concurrency >= 1,
    ensures
        batch_views(batches@) == spec_batches(
            start_page as int,
            end_page as int,
            concurrency as int,
        ),
        end_page < start_page ==> batches@.len() == 0,
{
    let mut batches: Vec<Vec<u32>> = Vec::new();
    proof {
        assert(batch_views(batches@) =~= Seq::<Seq<u32>>::empty());
    }
    if end_page < start_page {
        return batches;
    }
    let mut next: u32 = start_page;
    let mut done = false;
    while !done
        invariant
            concurrency >= 1,
            start_page <= end_page,
            !done ==> start_page <= next <= end_page,
            !done ==> spec_batches(start_page as int, end_page as int, concurrency as int)
                == batch_views(batches@) + spec_batches(
                next as int,
                end_page as int,
                concurrency as int,
            ),
            done ==> batch_views(batches@) == spec_batches(
                start_page as int,
                end_page as int,
                concurrency as int,
            ),
        decreases (if done { 0int } else { 1int }), end_page + 1 - next,
    {
        let ghost b0 = next;
        let mut batch: Vec<u32> = Vec::new();
        batch.push(next);
        proof {
            assert(batch@ =~= spec_page_range(b0 as int, next as int));
        }
        while batch.len() < concurrency && next < end_page
            invariant
                b0 <= next <= end_page,
                batch@ == spec_page_range(b0 as int, next as int),
                batch@.len() == next + 1 - b0,
                batch@.len() <= concurrency,
            decreases end_page - next,
        {
            next = next + 1;
            batch.push(next);
            proof {
                assert(batch@ =~= spec_page_range(b0 as int, next as int));
            }
        }
        let ghost old_batches = batches@;
        let is_last = next == end_page;
        batches.push(batch);
        proof {
            assert(batch_views(batches@) =~= batch_views(old_batches).push(
                spec_page_range(b0 as int, next as int),
            ));
            assert(spec_batches(b0 as int, end_page as int, concurrency as int) == seq![
                spec_page_range(b0 as int, next as int),
            ] + spec_batches(next + 1, end_page as int, concurrency as int));
            assert(batch_views(batches@) + spec_batches(
                next + 1,
                end_page as int,
                concurrency as int,
            ) =~= batch_views(old_batches) + spec_batches(
                b0 as int,
                end_page as int,
                concurrency as int,
            ));
        }
        if is_last {
            done = true;
        } else {
            next = next + 1;
        }
    }
    batches
}

/// Law of range inversion: an inverted page range plans no batch at all, so
/// a scan over it issues no request, and with no page outcome the final hit
/// list is empty.
pub proof fn lemma_inverted_range_empty(lo: int, hi: int, c: int)
    requires
        hi < lo,
    ensures
        spec_batches(lo, hi, c) == Seq::<Seq<u32>>::empty(),
        spec_dedup(spec_merge(Seq::empty())) == Seq::<HitView>::empty(),
{
}

/// The hits of every successful page's result, concatenated in result order;
/// a failed page contributes nothing.
pub open spec fn spec_merge(rs: Seq<Result<Vec<ValidatorHit>, ScanError>>) -> Seq<HitView>
    decreases rs.len(),
{
    if rs.len() == 0 {
        Seq::empty()
    } else {
        spec_merge(rs.drop_last()) + (match rs.last() {
            Ok(v) => hit_views(v@),
            Err(_) => Seq::empty(),
        })
    }
}

/// Merges the per-page outcomes of a scan into one hit list: successful
/// pages contribute their hits in order, failed pages are dropped, and no
/// failure ever aborts the merge.
pub fn merge_page_results(results: &Vec<Result<Vec<ValidatorHit>, ScanError>>) -> (all: Vec<
    ValidatorHit,
>)
    ensures
        hit_views(all@) == spec_merge(results@),
{
    let mut all: Vec<ValidatorHit> = Vec::new();
    proof {
        assert(hit_views(all@) =~= Seq::<HitView>::empty());
        assert(results@.take(0) =~= Seq::<Result<Vec<ValidatorHit>, ScanError>>::empty());
    }
    let n = results.len();
    let mut i: usize = 0;
    while i < n
        invariant
            n == results@.len(),
            0 <= i <= n,
            hit_views(all@) == spec_merge(results@.take(i as int)),
        decreases n - i,
    {
        let ghost old_all = all@;
        match &results[i] {
            Ok(page_hits) => {
                let mut j: usize = 0;
                let m = page_hits.len();
                while j < m
                    invariant
                        m == page_hits@.len(),
                        0 <= j <= m,
                        hit_views(all@) == hit_views(old_all) + hit_views(page_hits@).take(
                            j as int,
                        ),
                    decreases m - j,
                {
                    let ghost pre_all = all@;
                    all.push(clone_hit(&page_hits[j]));
                    proof {
                        let pv = hit_views(page_hits@);
                        assert(hit_views(all@) =~= hit_views(pre_all).push(pv[j as int]));
                        assert(pv.take(j + 1) =~= pv.take(j as int).push(pv[j as int]));
                        assert(hit_views(old_all) + pv.take(j + 1) =~= (hit_views(old_all)
                            + pv.take(j as int)).push(pv[j as int]));
                    }
                    j = j + 1;
                }
                proof {
                    assert(hit_views(page_hits@).take(m as int) =~= hit_views(page_hits@));
                }
            },
            Err(_) => {},
        }
        proof {
            assert(results@.take(i + 1).drop_last() =~= results@.take(i as int));
            assert(results@.take(i + 1).last() == results@[i as int]);
        }
        i = i + 1;
    }
    proof {
        assert(results@.take(n as int) =~= results@);
    }
    all
}

/// State of a sequential early-stop scan: pages are fetched one at a time in
/// order, and the scan stops at the first page with no data rows, the
/// dataset-end signal of the upstream table.
pub struct SeqScan {
    /// Page the next request is for.
    pub next_page: u32,
    /// Last page the scan may reach.
    pub last_page: u32,
    /// The scan has ended: the dataset end was seen or the range is
    /// exhausted.
    pub stopped: bool,
}

/// The page the scan requests next, if it is still running.
pub open spec fn spec_current(st: SeqScan) -> Option<u32> {
    if !st.stopped && st.next_page <= st.last_page {
        Some(st.next_page)
    } else {
        None
    }
}

/// The state after moving past the current page: the next page, or stopped
/// when the range is exhausted.
pub open spec fn spec_advance(st: SeqScan) -> SeqScan {
    if st.next_page >= st.last_page {
        SeqScan { next_page: st.next_page, last_page: st.last_page, stopped: true }
    } else {
        SeqScan {
            next_page: (st.next_page + 1) as u32,
            last_page: st.last_page,
            stopped: false,
        }
    }
}

/// The state after recording a fetched page: a page with no data rows stops
/// the scan at once; any other page advances it.
pub open spec fn spec_record(st: SeqScan, data_rows: u32) -> SeqScan {
    if data_rows == 0 {
        SeqScan { next_page: st.next_page, last_page: st.last_page, stopped: true }
    } else {
        spec_advance(st)
    }
}

impl SeqScan {
    /// Starts a sequential scan at `start_page`, bounded by `last_page`.
    pub fn new(start_page: u32, last_page: u32) -> (st: SeqScan)
        ensures
            st.next_page == start_page,
            st.last_page == last_page,
            !st.stopped,
    {
        SeqScan { next_page: start_page, last_page: last_page, stopped: false }
    }

    /// The page to fetch next; `None` once the scan has ended.
    pub fn current_request(&self) -> (r: Option<u32>)
        ensures
            r == spec_current(*self),
    {
        if !self.stopped && self.next_page <= self.last_page {
            Some(self.next_page)
        } else {
            None
        }
    }

    /// Records the number of data rows of the page just fetched: zero rows
    /// is the dataset-end signal and stops the scan, any other count moves
    /// it to the next page.
    pub fn record_page(&mut self, data_rows: u32)
        requires
            spec_current(*old(self)) is Some,
        ensures
            *final(self) == spec_record(*old(self), data_rows),
    {
        if data_rows == 0 || self.next_page >= self.last_page {
            self.stopped = true;
        } else {
            self.next_page = self.next_page + 1;
        }
    }

    /// Records that the page just requested failed: the failure is the
    /// caller's to report, and the scan goes on with the next page.
    pub fn record_failure(&mut self)
        requires
            spec_current(*old(self)) is Some,
        ensures
            *final(self) == spec_advance(*old(self)),
    {
        if self.next_page >= self.last_page {
            self.stopped = true;
        } else {
            self.next_page = self.next_page + 1;
        }
    }
}

/// The pages a sequential early-stop scan fetches, in order, when page `p`
/// holds `rows[p - 1]` data rows: every requested page is recorded until the
/// scan stops. Pages beyond `rows` are treated as holding data.
pub open spec fn spec_scan_trace(st: SeqScan, rows: Seq<u32>) -> Seq<u32>
    decreases st.last_page + 1 - st.next_page, (if st.stopped { 0int } else { 1int }),
{
    if spec_current(st) is None {
        Seq::empty()
    } else {
        let p = st.next_page;
        let rc: u32 = if 1 <= p && p - 1 < rows.len() {
            rows[p - 1]
        } else {
            1u32
        };
        seq![p] + spec_scan_trace(spec_record(st, rc), rows)
    }
}

/// From any running state, the scan fetches exactly the pages up to the next
/// page with no data rows.
proof fn lemma_scan_trace_from(st: SeqScan, rows: Seq<u32>, n: int)
    requires
        !st.stopped,
        1 <= st.next_page <= n <= rows.len(),
        n <= st.last_page,
        rows[n - 1] == 0,
        forall|i: int| st.next_page - 1 <= i < n - 1 ==> rows[i] >= 1,
    ensures
        spec_scan_trace(st, rows) =~= Seq::new(
            (n + 1 - st.next_page) as nat,
            |i: int| (st.next_page + i) as u32,
        ),
    decreases n - st.next_page,
{
    let p = st.next_page;
    if p == n {
        assert(spec_scan_trace(spec_record(st, 0), rows) =~= Seq::<u32>::empty());
    } else {
        lemma_scan_trace_from(spec_advance(st), rows, n);
    }
}

/// Law of early-stop correctness: when pages `1..n - 1` each hold at least
/// one data row and page `n` holds none, a sequential early-stop scan
/// starting at page one fetches exactly pages `1..=n` and no further.
pub proof fn lemma_early_stop_exact(rows: Seq<u32>, n: int, last_page: u32)
    requires
        1 <= n <= rows.len(),
        n <= last_page,
        rows[n - 1] == 0,
        forall|i: int| 0 <= i < n - 1 ==> rows[i] >= 1,
    ensures
        spec_scan_trace(SeqScan { next_page: 1, last_page: last_page, stopped: false }, rows)
            =~= Seq::new(n as nat, |i: int| (i + 1) as u32),
{
    let st = SeqScan { next_page: 1, last_page: last_page, stopped: false };
    lemma_scan_trace_from(st, rows, n);
}

/// Finalizes a scan: merges every page's outcome and deduplicates the merged
/// hits by (public key, color), first seen wins.
pub fn finalize_hits(results: &Vec<Result<Vec<ValidatorHit>, ScanError>>) -> (r: Vec<ValidatorHit>)
    ensures
        hit_views(r@) == spec_dedup(spec_merge(results@)),
        unique_keys(hit_views(r@)),
{
    let all = merge_page_results(results);
    dedup_hits(all)
}

} // verus!
