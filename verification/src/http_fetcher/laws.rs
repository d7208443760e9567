//! What every step of a segmented download keeps.
use vstd::prelude::*;

use crate::http_fetcher::config::HttpFetcherConfig;
use crate::http_fetcher::plan::{most, tiles, ResumeSegment};
use crate::http_fetcher::segment::{
    after_split, claimable, countable, first_pending, lemma_slowest, lemma_top_id, share, slowest,
    stolen, taken, top_id, Segment, SegmentState,
};
use crate::http_fetcher::transfer::{download_fault, settled};

verus! {

/// Some segment holds the byte at offset `b` of the file.
pub open spec fn covered(segs: Seq<Segment>, b: int) -> bool {
    exists|i: int| 0 <= i < segs.len() && #[trigger] segs[i].covers(b)
}

/// No byte belongs to two of the segments.
pub open spec fn apart(segs: Seq<Segment>) -> bool {
    forall|i: int, j: int, b: int|
        #![trigger segs[i].covers(b), segs[j].covers(b)]
        0 <= i < segs.len() && 0 <= j < segs.len() && segs[i].covers(b) && segs[j].covers(b) ==> i
            == j
}

/// The segments hold the same bytes together before and after.
pub open spec fn same_bytes(before: Seq<Segment>, after: Seq<Segment>) -> bool {
    forall|b: int|
        #![trigger covered(before, b)]
        #![trigger covered(after, b)]
        covered(before, b) <==> covered(after, b)
}

/// Every byte of a file of `total` bytes belongs to exactly one of the
/// segments, and the segments hold nothing else.
pub open spec fn partition(segs: Seq<Segment>, total: int) -> bool {
    &&& apart(segs)
    &&& forall|b: int| #[trigger] covered(segs, b) <==> 0 <= b < total
}

/// The segments stand for the same parts of the file as the plan.
pub open spec fn same_parts(plan: Seq<ResumeSegment>, segs: Seq<Segment>) -> bool {
    &&& plan.len() == segs.len()
    &&& forall|i: int|
        0 <= i < plan.len() ==> (#[trigger] segs[i]).begin == plan[i].begin && segs[i].end_ceiling
            == plan[i].end
}

/// The bytes that a segment holds; a segment that ends before it begins holds
/// none.
pub open spec fn bytes_in(s: Segment) -> int {
    most(s.end_ceiling - s.begin + 1, 0)
}

/// The bytes of a segment that are not there yet.
pub open spec fn bytes_lacking(s: Segment) -> int {
    most(bytes_in(s) - s.downloaded, 0)
}

/// The bytes of all segments.
pub open spec fn size_of_all(segs: Seq<Segment>) -> int
    decreases segs.len(),
{
    if segs.len() == 0 {
        0
    } else {
        size_of_all(segs.drop_last()) + bytes_in(segs.last())
    }
}

/// The bytes of all segments that are not there yet.
pub open spec fn left_of_all(segs: Seq<Segment>) -> int
    decreases segs.len(),
{
    if segs.len() == 0 {
        0
    } else {
        left_of_all(segs.drop_last()) + bytes_lacking(segs.last())
    }
}

/// No two segments have the same number.
pub open spec fn distinct_ids(segs: Seq<Segment>) -> bool {
    forall|i: int, j: int|
        #![trigger segs[i], segs[j]]
        0 <= i < segs.len() && 0 <= j < segs.len() && i != j ==> segs[i].id != segs[j].id
}

proof fn lemma_tiles_in_order(plan: Seq<ResumeSegment>, total: int, i: int, j: int)
    requires
        tiles(plan, total),
        0 <= i < j < plan.len(),
    ensures
        plan[i].end < plan[j].begin,
    decreases j - i,
{
    if j > i + 1 {
        lemma_tiles_in_order(plan, total, i, j - 1);
        assert(plan[j].begin == plan[j - 1].end + 1);
    }
}

proof fn lemma_tiles_cover(plan: Seq<ResumeSegment>, total: int, n: int, b: int)
    requires
        tiles(plan, total),
        0 < n <= plan.len(),
        0 <= b <= plan[n - 1].end,
    ensures
        exists|i: int| 0 <= i < n && (#[trigger] plan[i]).begin <= b <= plan[i].end,
    decreases n,
{
    if plan[n - 1].begin <= b {
    } else if n > 1 {
        assert(plan[n - 1].begin == plan[n - 2].end + 1);
        lemma_tiles_cover(plan, total, n - 1, b);
    }
}

/// A plan assigns every byte of the file to exactly one segment.
pub proof fn law_plan_is_partition(plan: Seq<ResumeSegment>, segs: Seq<Segment>, total: int)
    requires
        tiles(plan, total),
        same_parts(plan, segs),
    ensures
        partition(segs, total),
{
    assert forall|i: int, j: int, b: int|
        #![trigger segs[i].covers(b), segs[j].covers(b)]
        0 <= i < segs.len() && 0 <= j < segs.len() && segs[i].covers(b) && segs[j].covers(
            b,
        ) implies i == j by {
        if i < j {
            lemma_tiles_in_order(plan, total, i, j);
        } else if j < i {
            lemma_tiles_in_order(plan, total, j, i);
        }
    }
    assert forall|b: int| #[trigger] covered(segs, b) <==> 0 <= b < total by {
        if 0 <= b < total {
            lemma_tiles_cover(plan, total, plan.len() as int, b);
            let i = choose|i: int|
                0 <= i < plan.len() && (#[trigger] plan[i]).begin <= b <= plan[i].end;
            assert(segs[i].covers(b));
        }
        if covered(segs, b) {
            let i = choose|i: int| 0 <= i < segs.len() && #[trigger] segs[i].covers(b);
            let n = plan.len() - 1;
            if i < n {
                lemma_tiles_in_order(plan, total, i, n);
                assert(plan[n].begin <= plan[n].end);
            }
        }
    }
}

/// The segments of a plan hold as many bytes together as the file.
pub proof fn law_plan_holds_the_file(plan: Seq<ResumeSegment>, segs: Seq<Segment>, total: int)
    requires
        tiles(plan, total),
        same_parts(plan, segs),
        total >= 0,
    ensures
        size_of_all(segs) == total,
{
    if segs.len() > 0 {
        lemma_size_of_prefix(plan, segs, total, segs.len() as int);
        assert(segs.take(segs.len() as int) == segs);
    }
}

proof fn lemma_size_of_prefix(plan: Seq<ResumeSegment>, segs: Seq<Segment>, total: int, n: int)
    requires
        tiles(plan, total),
        same_parts(plan, segs),
        0 < n <= segs.len(),
    ensures
        size_of_all(segs.take(n)) == plan[n - 1].end + 1,
    decreases n,
{
    assert(segs.take(n).drop_last() == segs.take(n - 1));
    assert(segs.take(n).last() == segs[n - 1]);
    assert(plan[n - 1].begin <= plan[n - 1].end);
    if n > 1 {
        lemma_size_of_prefix(plan, segs, total, n - 1);
        assert(plan[n - 1].begin == plan[n - 2].end + 1);
    } else {
        assert(size_of_all(segs.take(0)) == 0);
    }
}

proof fn lemma_size_update(segs: Seq<Segment>, v: int, s: Segment)
    requires
        0 <= v < segs.len(),
    ensures
        size_of_all(segs.update(v, s)) == size_of_all(segs) - bytes_in(segs[v]) + bytes_in(s),
        left_of_all(segs.update(v, s)) == left_of_all(segs) - bytes_lacking(segs[v]) + bytes_lacking(
            s,
        ),
    decreases segs.len(),
{
    if v < segs.len() - 1 {
        lemma_size_update(segs.drop_last(), v, s);
        assert(segs.update(v, s).drop_last() == segs.drop_last().update(v, s));
    } else {
        assert(segs.update(v, s).drop_last() == segs.drop_last());
    }
}

proof fn lemma_split_parts(segs: Seq<Segment>, cfg: HttpFetcherConfig, now: u64)
    requires
        stolen(segs, cfg, now) is Some,
        countable(segs, cfg),
    ensures
        slowest(segs, cfg, now as int) is Some,
        ({
            let v = slowest(segs, cfg, now as int)->0;
            let after = stolen(segs, cfg, now)->0;
            &&& 0 <= v < segs.len()
            &&& after == after_split(segs, v, now)
            &&& after.len() == segs.len() + 1
            &&& after[v].begin == segs[v].begin
            &&& after[v].downloaded == segs[v].downloaded
            &&& after[v].end_ceiling == segs[v].end_ceiling - share(segs, v)
            &&& after[v].begin + after[v].downloaded <= after[v].end_ceiling
            &&& after.last().begin == after[v].end_ceiling + 1
            &&& after.last().end_ceiling == segs[v].end_ceiling
            &&& after.last().downloaded == 0
            &&& after.last().id == top_id(segs) + 1
            &&& forall|i: int| 0 <= i < segs.len() && i != v ==> #[trigger] after[i] == segs[i]
            &&& share(segs, v) >= cfg.steal_min_chunk_size
            &&& segs[v].begin <= segs[v].end_ceiling
        }),
{
    lemma_slowest(segs, cfg, now as int);
    lemma_top_id(segs);
    let v = slowest(segs, cfg, now as int)->0;
    assert(segs[v].fits());
    let k = choose|i: int| 0 <= i < segs.len() && (#[trigger] segs[i]).id == top_id(segs);
    assert(segs[k].id < usize::MAX);
}

/// Splitting a slow segment gives no byte away and brings none in, and leaves
/// no byte with two segments.
pub proof fn law_split_keeps_bytes(segs: Seq<Segment>, cfg: HttpFetcherConfig, now: u64)
    requires
        stolen(segs, cfg, now) is Some,
        countable(segs, cfg),
    ensures
        same_bytes(segs, stolen(segs, cfg, now)->0),
        apart(segs) ==> apart(stolen(segs, cfg, now)->0),
{
    lemma_split_parts(segs, cfg, now);
    let v = slowest(segs, cfg, now as int)->0;
    let after = stolen(segs, cfg, now)->0;
    let last = after.len() - 1;
    assert forall|b: int|
        #![trigger covered(segs, b)]
        #![trigger covered(after, b)]
        covered(segs, b) <==> covered(after, b) by {
        if covered(segs, b) {
            let i = choose|i: int| 0 <= i < segs.len() && #[trigger] segs[i].covers(b);
            if i != v {
                assert(after[i] == segs[i]);
                assert(after[i].covers(b));
            } else if b <= after[v].end_ceiling {
                assert(after[v].covers(b));
            } else {
                assert(after[last].covers(b));
            }
        }
        if covered(after, b) {
            let i = choose|i: int| 0 <= i < after.len() && #[trigger] after[i].covers(b);
            if i == last || i == v {
                assert(segs[v].covers(b));
            } else {
                assert(segs[i].covers(b));
            }
        }
    }
    if apart(segs) {
        assert forall|i: int, j: int, b: int|
            #![trigger after[i].covers(b), after[j].covers(b)]
            0 <= i < after.len() && 0 <= j < after.len() && after[i].covers(b) && after[j].covers(
                b,
            ) implies i == j by {
            let oi = if i < last {
                i
            } else {
                v
            };
            let oj = if j < last {
                j
            } else {
                v
            };
            assert(segs[oi].covers(b) && segs[oj].covers(b));
        }
    }
}

/// Splitting a slow segment leaves every byte with exactly one segment.
pub proof fn law_split_keeps_partition(
    segs: Seq<Segment>,
    cfg: HttpFetcherConfig,
    now: u64,
    total: int,
)
    requires
        partition(segs, total),
        stolen(segs, cfg, now) is Some,
        countable(segs, cfg),
    ensures
        partition(stolen(segs, cfg, now)->0, total),
{
    law_split_keeps_bytes(segs, cfg, now);
}

/// Splitting a slow segment neither adds work nor drops any, and the bytes that
/// are there stay with the segment that fetched them.
pub proof fn law_split_keeps_work(segs: Seq<Segment>, cfg: HttpFetcherConfig, now: u64)
    requires
        stolen(segs, cfg, now) is Some,
        countable(segs, cfg),
    ensures
        size_of_all(stolen(segs, cfg, now)->0) == size_of_all(segs),
        left_of_all(stolen(segs, cfg, now)->0) == left_of_all(segs),
        forall|i: int|
            0 <= i < segs.len() ==> (#[trigger] (stolen(segs, cfg, now)->0)[i]).begin
                == segs[i].begin && (stolen(segs, cfg, now)->0)[i].downloaded == segs[i].downloaded,
{
    lemma_split_parts(segs, cfg, now);
    let v = slowest(segs, cfg, now as int)->0;
    let after = stolen(segs, cfg, now)->0;
    lemma_size_update(segs, v, after[v]);
    assert(after.drop_last() == segs.update(v, after[v]));
}

/// A split leaves both sides at least the smallest part that is worth a request.
pub proof fn law_split_is_worth_it(segs: Seq<Segment>, cfg: HttpFetcherConfig, now: u64)
    requires
        stolen(segs, cfg, now) is Some,
        countable(segs, cfg),
    ensures
        slowest(segs, cfg, now as int) is Some,
        (stolen(segs, cfg, now)->0)[slowest(segs, cfg, now as int)->0].left()
            >= cfg.steal_min_chunk_size,
        (stolen(segs, cfg, now)->0).last().left() >= cfg.steal_min_chunk_size,
{
    lemma_split_parts(segs, cfg, now);
}

/// A split keeps the numbers of the segments apart.
pub proof fn law_split_keeps_ids(segs: Seq<Segment>, cfg: HttpFetcherConfig, now: u64)
    requires
        distinct_ids(segs),
        stolen(segs, cfg, now) is Some,
        countable(segs, cfg),
    ensures
        distinct_ids(stolen(segs, cfg, now)->0),
{
    lemma_split_parts(segs, cfg, now);
    lemma_top_id(segs);
    let after = stolen(segs, cfg, now)->0;
    assert forall|i: int, j: int|
        #![trigger after[i], after[j]]
        0 <= i < after.len() && 0 <= j < after.len() && i != j implies after[i].id != after[j].id by {
        if i < segs.len() && j < segs.len() {
            assert(segs[i].id != segs[j].id);
            assert(after[i].id == segs[i].id && after[j].id == segs[j].id);
        } else if i < segs.len() {
            assert(after[i].id == segs[i].id);
        } else {
            assert(after[j].id == segs[j].id);
        }
    }
}

proof fn lemma_first_pending(segs: Seq<Segment>, i: int)
    requires
        0 <= i,
    ensures
        first_pending(segs, i) matches Some(k) ==> i <= k < segs.len(),
    decreases segs.len() - i,
{
    if i < segs.len() {
        lemma_first_pending(segs, i + 1);
    }
}

/// All bytes of the segment are there.
pub open spec fn complete(s: Segment) -> bool {
    s.begin + s.downloaded > s.end_ceiling
}

/// A segment counts as complete only when all of its bytes are there.
pub open spec fn honest(segs: Seq<Segment>) -> bool {
    forall|i: int|
        0 <= i < segs.len() && (#[trigger] segs[i]).state == SegmentState::Done ==> complete(
            segs[i],
        )
}

/// The byte at offset `b` of the file has been fetched.
pub open spec fn fetched(segs: Seq<Segment>, b: int) -> bool {
    exists|i: int|
        0 <= i < segs.len() && (#[trigger] segs[i]).begin <= b < segs[i].begin + segs[i].downloaded
}

/// Where nothing is lacking by the count of the bytes, the segment is complete.
pub proof fn law_nothing_left_is_complete(s: Segment)
    ensures
        s.downloaded >= s.size() ==> complete(s),
        s.begin <= s.end_ceiling ==> (complete(s) <==> s.left() == 0),
        complete(s) <==> bytes_lacking(s) == 0,
{
}

/// A download that ends well has fetched every byte of its segments.
pub proof fn law_success_means_every_byte(
    outcomes: Seq<Result<(), String>>,
    segs: Seq<Segment>,
    actual: u64,
    total: u64,
)
    requires
        honest(segs),
        download_fault(outcomes, segs, actual, total) is None,
    ensures
        actual == total,
        forall|b: int| #[trigger] covered(segs, b) ==> fetched(segs, b),
{
    assert forall|b: int| #[trigger] covered(segs, b) implies fetched(segs, b) by {
        let i = choose|i: int| 0 <= i < segs.len() && #[trigger] segs[i].covers(b);
        assert(segs[i].state == SegmentState::Done);
        assert(complete(segs[i]));
        assert(segs[i].begin <= b < segs[i].begin + segs[i].downloaded);
    }
}

/// Recording a segment as complete once nothing of it is lacking, or as failed,
/// leaves no segment complete that lacks bytes.
pub proof fn law_settling_is_honest(segs: Seq<Segment>, k: int, done: bool)
    requires
        honest(segs),
        0 <= k < segs.len(),
        done ==> complete(segs[k]),
    ensures
        honest(segs.update(k, settled(segs[k], done))),
{
}

/// Taking work leaves no segment complete that lacks bytes.
pub proof fn law_claim_is_honest(segs: Seq<Segment>, cfg: HttpFetcherConfig, now: u64)
    requires
        honest(segs),
        taken(segs, cfg, now) is Some,
        claimable(segs, cfg),
    ensures
        honest((taken(segs, cfg, now)->0).0),
{
    let after = (taken(segs, cfg, now)->0).0;
    if first_pending(segs, 0) is Some {
        lemma_first_pending(segs, 0);
    } else {
        lemma_split_parts(segs, cfg, now);
        lemma_slowest(segs, cfg, now as int);
        let v = slowest(segs, cfg, now as int)->0;
        assert(after[v].state == SegmentState::Running);
        assert(after.last().state == SegmentState::Running);
    }
    assert forall|i: int|
        0 <= i < after.len() && (#[trigger] after[i]).state == SegmentState::Done implies complete(
        after[i],
    ) by {
        assert(i < segs.len());
        assert(after[i] == segs[i]);
    }
}

/// Changing a segment but for its bounds leaves every byte where it was.
pub proof fn lemma_same_bounds(segs: Seq<Segment>, k: int, seg: Segment)
    requires
        0 <= k < segs.len(),
        seg.begin == segs[k].begin,
        seg.end_ceiling == segs[k].end_ceiling,
    ensures
        same_bytes(segs, segs.update(k, seg)),
        apart(segs) ==> apart(segs.update(k, seg)),
{
    let after = segs.update(k, seg);
    assert forall|b: int|
        #![trigger covered(segs, b)]
        #![trigger covered(after, b)]
        covered(segs, b) <==> covered(after, b) by {
        if covered(segs, b) {
            let i = choose|i: int| 0 <= i < segs.len() && #[trigger] segs[i].covers(b);
            assert(after[i].covers(b));
        }
        if covered(after, b) {
            let i = choose|i: int| 0 <= i < after.len() && #[trigger] after[i].covers(b);
            assert(segs[i].covers(b));
        }
    }
    if apart(segs) {
        assert forall|i: int, j: int, b: int|
            #![trigger after[i].covers(b), after[j].covers(b)]
            0 <= i < after.len() && 0 <= j < after.len() && after[i].covers(b) && after[j].covers(
                b,
            ) implies i == j by {
            assert(segs[i].covers(b) && segs[j].covers(b));
        }
    }
}

/// Taking work, by whichever way, gives no byte away and brings none in, leaves
/// no byte with two segments, and neither adds work nor drops any. What is
/// there stays there.
pub proof fn law_claim_keeps_bytes(segs: Seq<Segment>, cfg: HttpFetcherConfig, now: u64)
    requires
        taken(segs, cfg, now) is Some,
        claimable(segs, cfg),
    ensures
        same_bytes(segs, (taken(segs, cfg, now)->0).0),
        apart(segs) ==> apart((taken(segs, cfg, now)->0).0),
        size_of_all((taken(segs, cfg, now)->0).0) == size_of_all(segs),
        left_of_all((taken(segs, cfg, now)->0).0) == left_of_all(segs),
        forall|b: int| #[trigger] fetched(segs, b) ==> fetched((taken(segs, cfg, now)->0).0, b),
{
    let after = (taken(segs, cfg, now)->0).0;
    match first_pending(segs, 0) {
        Some(k) => {
            lemma_first_pending(segs, 0);
            lemma_size_update(segs, k, segs[k].claimed(now));
            lemma_same_bounds(segs, k, segs[k].claimed(now));
        },
        None => {
            lemma_split_parts(segs, cfg, now);
            law_split_keeps_bytes(segs, cfg, now);
            law_split_keeps_work(segs, cfg, now);
        },
    }
    assert forall|b: int| #[trigger] fetched(segs, b) implies fetched(after, b) by {
        let i = choose|i: int|
            0 <= i < segs.len() && (#[trigger] segs[i]).begin <= b < segs[i].begin
                + segs[i].downloaded;
        assert(after[i].begin == segs[i].begin && after[i].downloaded == segs[i].downloaded);
        assert(i < after.len());
    }
}

/// Taking work, by whichever way, leaves every byte with exactly one segment.
pub proof fn law_claim_keeps_partition(
    segs: Seq<Segment>,
    cfg: HttpFetcherConfig,
    now: u64,
    total: int,
)
    requires
        partition(segs, total),
        taken(segs, cfg, now) is Some,
        claimable(segs, cfg),
    ensures
        partition((taken(segs, cfg, now)->0).0, total),
{
    law_claim_keeps_bytes(segs, cfg, now);
}

} // verus!
