//! A download in segments as a whole: what holds however the workers take
//! turns.
use vstd::prelude::*;

use crate::http_fetcher::config::HttpFetcherConfig;
use crate::http_fetcher::laws::{
    apart, complete, covered, fetched, honest, law_claim_is_honest, law_claim_keeps_bytes,
    law_nothing_left_is_complete, law_plan_is_partition, law_success_means_every_byte,
    lemma_same_bounds, partition, same_bytes,
};
use crate::http_fetcher::plan::{tiles, ResumeSegment};
use crate::http_fetcher::resume::started_from;
use crate::http_fetcher::segment::{claimable, taken, Segment, SegmentState};
use crate::http_fetcher::transfer::{accepted, download_fault, progressed, settled, Transfer};

verus! {

/// An idle worker has taken work.
pub open spec fn claim_step(before: Seq<Segment>, after: Seq<Segment>, cfg: HttpFetcherConfig) -> bool {
    &&& claimable(before, cfg)
    &&& exists|now: u64| (#[trigger] taken(before, cfg, now)) matches Some(t) && t.0 == after
}

/// Bytes have come for segment `k`, by a request that belongs to it.
pub open spec fn bytes_step(before: Seq<Segment>, after: Seq<Segment>, k: int) -> bool {
    exists|t: Transfer, len: u64, now: u64|
        #![trigger progressed(before[k], len, accepted(t, len).take, now)]
        t.follows(before[k]) && after == before.update(
            k,
            progressed(before[k], len, accepted(t, len).take, now),
        )
}

/// The work on segment `k` has ended: it is recorded as complete, where nothing
/// of it was lacking or the check at the end of its response has passed, or as
/// failed.
pub open spec fn settle_step(before: Seq<Segment>, after: Seq<Segment>, k: int) -> bool {
    ||| (complete(before[k]) || before[k].downloaded >= before[k].size()) && after == before.update(
        k,
        settled(before[k], true),
    )
    ||| after == before.update(k, settled(before[k], false))
}

/// One worker has made one step.
pub open spec fn run_step(before: Seq<Segment>, after: Seq<Segment>, cfg: HttpFetcherConfig) -> bool {
    ||| claim_step(before, after, cfg)
    ||| exists|k: int| 0 <= k < before.len() && #[trigger] bytes_step(before, after, k)
    ||| exists|k: int| 0 <= k < before.len() && #[trigger] settle_step(before, after, k)
}

/// The segments one after the other, each step made by some worker.
pub open spec fn is_run(states: Seq<Seq<Segment>>, cfg: HttpFetcherConfig) -> bool {
    &&& states.len() > 0
    &&& forall|i: int|
        0 <= i < states.len() - 1 ==> run_step(#[trigger] states[i], states[i + 1], cfg)
}

/// A download starts in order: the segments of a new plan hold every byte
/// exactly once, and none counts as complete.
pub proof fn law_download_starts_in_order(
    plan: Seq<ResumeSegment>,
    segs: Seq<Segment>,
    total: int,
)
    requires
        tiles(plan, total),
        started_from(plan, segs),
    ensures
        partition(segs, total),
        honest(segs),
{
    law_plan_is_partition(plan, segs, total);
}

/// What a run keeps: the segments hold the same bytes together, no byte comes
/// to belong to two of them, no segment counts as complete that lacks bytes,
/// and what has been fetched stays.
pub open spec fn in_order(before: Seq<Segment>, after: Seq<Segment>) -> bool {
    &&& same_bytes(before, after)
    &&& apart(before) ==> apart(after)
    &&& honest(before) ==> honest(after)
    &&& forall|b: int| #[trigger] fetched(before, b) ==> fetched(after, b)
}

/// Each step of a worker keeps the segments in order.
pub proof fn law_step_keeps_order(before: Seq<Segment>, after: Seq<Segment>, cfg: HttpFetcherConfig)
    requires
        run_step(before, after, cfg),
    ensures
        in_order(before, after),
{
    if claim_step(before, after, cfg) {
        let now = choose|now: u64|
            (#[trigger] taken(before, cfg, now)) matches Some(t) && t.0 == after;
        law_claim_keeps_bytes(before, cfg, now);
        if honest(before) {
            law_claim_is_honest(before, cfg, now);
        }
    } else {
        let k = if exists|k: int| 0 <= k < before.len() && #[trigger] bytes_step(before, after, k) {
            choose|k: int| 0 <= k < before.len() && #[trigger] bytes_step(before, after, k)
        } else {
            choose|k: int| 0 <= k < before.len() && #[trigger] settle_step(before, after, k)
        };
        assert(bytes_step(before, after, k) || settle_step(before, after, k));
        assert(after =~= before.update(k, after[k]));
        lemma_same_bounds(before, k, after[k]);
        assert(before[k].downloaded <= after[k].downloaded);
        assert forall|b: int| #[trigger] fetched(before, b) implies fetched(after, b) by {
            let i = choose|i: int|
                0 <= i < before.len() && (#[trigger] before[i]).begin <= b < before[i].begin
                    + before[i].downloaded;
            assert(after[i].begin <= b < after[i].begin + after[i].downloaded);
        }
        law_nothing_left_is_complete(before[k]);
        assert forall|i: int|
            honest(before) && 0 <= i < after.len() && (#[trigger] after[i]).state
                == SegmentState::Done implies complete(after[i]) by {
            assert(before[i].state == SegmentState::Done ==> complete(before[i]));
        }
    }
}

/// However the workers take turns, the segments stay in order.
pub proof fn law_run_keeps_order(states: Seq<Seq<Segment>>, cfg: HttpFetcherConfig)
    requires
        is_run(states, cfg),
    ensures
        in_order(states[0], states.last()),
    decreases states.len(),
{
    if states.len() > 1 {
        let before = states.drop_last();
        assert forall|i: int| 0 <= i < before.len() - 1 implies run_step(
            #[trigger] before[i],
            before[i + 1],
            cfg,
        ) by {
            assert(states[i] == before[i] && states[i + 1] == before[i + 1]);
        }
        law_run_keeps_order(before, cfg);
        let n = states.len() - 2;
        assert(before.last() == states[n]);
        assert(run_step(states[n], states[n + 1], cfg));
        law_step_keeps_order(states[n], states[n + 1], cfg);
        assert forall|b: int|
            #![trigger covered(states[0], b)]
            #![trigger covered(states.last(), b)]
            covered(states[0], b) <==> covered(states.last(), b) by {
            assert(covered(states[0], b) <==> covered(states[n], b));
        }
        assert forall|b: int| #[trigger] fetched(states[0], b) implies fetched(
            states.last(),
            b,
        ) by {
            assert(fetched(states[n], b));
        }
    }
}

/// However the workers take turns, a download that started with every byte of
/// the file in exactly one segment still has it so.
pub proof fn law_run_keeps_partition(states: Seq<Seq<Segment>>, cfg: HttpFetcherConfig, total: int)
    requires
        is_run(states, cfg),
        partition(states[0], total),
    ensures
        partition(states.last(), total),
{
    law_run_keeps_order(states, cfg);
    assert forall|b: int| #[trigger] covered(states.last(), b) <==> 0 <= b < total by {
        assert(covered(states[0], b) <==> covered(states.last(), b));
    }
}

/// However the workers take turns, a download in segments that ends well has
/// fetched every byte that its segments held when it started. Where those held
/// every byte of the file, the whole file is there.
pub proof fn law_download_is_complete(
    states: Seq<Seq<Segment>>,
    cfg: HttpFetcherConfig,
    outcomes: Seq<Result<(), String>>,
    actual: u64,
    total: u64,
)
    requires
        is_run(states, cfg),
        honest(states[0]),
        download_fault(outcomes, states.last(), actual, total) is None,
    ensures
        actual == total,
        forall|b: int| #[trigger] covered(states[0], b) ==> fetched(states.last(), b),
        partition(states[0], total as int) ==> forall|b: int|
            0 <= b < total ==> #[trigger] fetched(states.last(), b),
{
    law_run_keeps_order(states, cfg);
    law_success_means_every_byte(outcomes, states.last(), actual, total);
    assert forall|b: int| #[trigger] covered(states[0], b) implies fetched(states.last(), b) by {
        assert(covered(states.last(), b));
    }
    if partition(states[0], total as int) {
        assert forall|b: int| 0 <= b < total implies #[trigger] fetched(states.last(), b) by {
            assert(covered(states[0], b));
        }
    }
}

} // verus!
