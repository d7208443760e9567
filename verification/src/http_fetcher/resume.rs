//! Progress that is kept beside the partial file.
use vstd::prelude::*;

use crate::http_fetcher::config::HttpFetcherConfig;
use crate::http_fetcher::laws::{
    apart, covered, fetched, honest, partition, same_bytes, same_parts,
};
use crate::http_fetcher::plan::{plan_segments, segment_count, segment_start, tiles, ResumeSegment};
use crate::http_fetcher::segment::Segment;
use crate::text::same;

verus! {

/// The progress of a download as it is kept between runs.
#[derive(Debug, Clone)]
pub struct ResumeState {
    /// The way in which the file is fetched.
    pub kind: String,
    /// What tells the address of the file from another one.
    pub url_hash: String,
    /// Bytes of the file.
    pub total_bytes: u64,
    /// The parts of the file.
    pub segments: Vec<ResumeSegment>,
}

/// The saved progress belongs to this file.
pub open spec fn usable(state: ResumeState, total: u64, url_hash: Seq<char>) -> bool {
    &&& state.kind@ == "http_segmented"@
    &&& state.total_bytes == total
    &&& state.url_hash@ == url_hash
}

/// The plan for a file of which nothing is there.
pub open spec fn is_new_plan(segs: Seq<ResumeSegment>, total: u64, cfg: HttpFetcherConfig) -> bool {
    let count = segment_count(
        total as int,
        cfg.segment_size_hint as int,
        cfg.concurrent_segments as int,
    );
    &&& total > 0 ==> segs.len() == count && forall|i: int|
        0 <= i < count ==> {
            &&& (#[trigger] segs[i]).begin == segment_start(total as int, count, i)
            &&& segs[i].end == segment_start(total as int, count, i + 1) - 1
            &&& segs[i].downloaded == 0
        }
    &&& total == 0 ==> segs.len() == 0
}

/// The download goes on from the saved progress.
pub open spec fn resumes(
    saved: Option<ResumeState>,
    total: u64,
    url_hash: Seq<char>,
    cfg: HttpFetcherConfig,
) -> bool {
    &&& cfg.use_sidecar_resume
    &&& saved matches Some(state) && usable(state, total, url_hash) && state.segments.len() > 0
}

/// The parts to fetch: those of the saved progress where it belongs to this
/// file, else a new plan.
pub fn initial_segments(
    saved: Option<ResumeState>,
    total: u64,
    url_hash: &str,
    cfg: &HttpFetcherConfig,
) -> (r: Vec<ResumeSegment>)
    ensures
        resumes(saved, total, url_hash@, *cfg) ==> r@ == saved->0.segments@,
        !resumes(saved, total, url_hash@, *cfg) ==> is_new_plan(r@, total, *cfg) && tiles(
            r@,
            total as int,
        ),
{
    if cfg.use_sidecar_resume {
        if let Some(state) = saved {
            if same(state.kind.as_str(), "http_segmented") && state.total_bytes == total && same(
                state.url_hash.as_str(),
                url_hash,
            ) && state.segments.len() > 0 {
                return state.segments;
            }
        }
    }
    plan_segments(total, cfg.segment_size_hint, cfg.concurrent_segments)
}

/// The segments stand for the parts, each with the bytes that are there, and
/// are numbered in order; nobody works on them.
pub open spec fn started_from(specs: Seq<ResumeSegment>, segs: Seq<Segment>) -> bool {
    &&& segs.len() == specs.len()
    &&& forall|i: int|
        0 <= i < specs.len() ==> #[trigger] segs[i] == Segment::fresh(
            i as usize,
            specs[i].begin,
            specs[i].end,
            specs[i].downloaded,
            segs[i].speed_baseline_unix_nanos,
        )
}

/// Makes segments out of the parts to fetch.
pub fn segments_from(specs: &Vec<ResumeSegment>) -> (r: Vec<Segment>)
    ensures
        started_from(specs@, r@),
{
    let mut r: Vec<Segment> = Vec::new();
    let mut i: usize = 0;
    while i < specs.len()
        invariant
            i <= specs.len(),
            started_from(specs@.take(i as int), r@),
        decreases specs.len() - i,
    {
        let s = specs[i];
        r.push(Segment::new(i, s.begin, s.end, s.downloaded));
        i += 1;
    }
    assert(specs@.take(specs@.len() as int) == specs@);
    r
}

/// The part that a segment stands for, and the bytes of it that are there.
pub open spec fn kept(s: Segment) -> ResumeSegment {
    ResumeSegment { begin: s.begin, end: s.end_ceiling, downloaded: s.downloaded }
}

/// The parts that the segments stand for.
pub fn snapshot(segs: &Vec<Segment>) -> (r: Vec<ResumeSegment>)
    ensures
        r@ == segs@.map_values(|s: Segment| kept(s)),
{
    let mut r: Vec<ResumeSegment> = Vec::new();
    let mut i: usize = 0;
    while i < segs.len()
        invariant
            i <= segs.len(),
            r@ == segs@.take(i as int).map_values(|s: Segment| kept(s)),
        decreases segs.len() - i,
    {
        let s = segs[i];
        r.push(ResumeSegment { begin: s.begin, end: s.end_ceiling, downloaded: s.downloaded });
        i += 1;
        assert(r@ =~= segs@.take(i as int).map_values(|s: Segment| kept(s)));
    }
    assert(segs@.take(segs@.len() as int) == segs@);
    r
}

/// The progress to keep.
pub fn resume_state(segs: &Vec<Segment>, url_hash: &str, total: u64) -> (r: ResumeState)
    ensures
        usable(r, total, url_hash@),
        r.segments@ == segs@.map_values(|s: Segment| kept(s)),
{
    ResumeState {
        kind: "http_segmented".to_string(),
        url_hash: url_hash.to_string(),
        total_bytes: total,
        segments: snapshot(segs),
    }
}

/// The bytes of all segments that are there.
pub open spec fn downloaded_of_all(segs: Seq<Segment>) -> int
    decreases segs.len(),
{
    if segs.len() == 0 {
        0
    } else {
        downloaded_of_all(segs.drop_last()) + segs.last().downloaded
    }
}

proof fn lemma_downloaded_grows(segs: Seq<Segment>, i: int)
    requires
        0 <= i <= segs.len(),
    ensures
        0 <= downloaded_of_all(segs.take(i)) <= downloaded_of_all(segs),
    decreases segs.len() - i,
{
    if i < segs.len() {
        lemma_downloaded_grows(segs, i + 1);
        assert(segs.take(i + 1).drop_last() == segs.take(i));
        lemma_downloaded_positive(segs.take(i));
    } else {
        assert(segs.take(i) == segs);
        lemma_downloaded_positive(segs);
    }
}

proof fn lemma_downloaded_positive(segs: Seq<Segment>)
    ensures
        0 <= downloaded_of_all(segs),
    decreases segs.len(),
{
    if segs.len() > 0 {
        lemma_downloaded_positive(segs.drop_last());
    }
}

/// The bytes of all segments that are there.
pub fn downloaded_total(segs: &Vec<Segment>) -> (r: u64)
    requires
        downloaded_of_all(segs@) <= u64::MAX,
    ensures
        r == downloaded_of_all(segs@),
{
    let mut r: u64 = 0;
    let mut i: usize = 0;
    while i < segs.len()
        invariant
            i <= segs.len(),
            downloaded_of_all(segs@) <= u64::MAX,
            r == downloaded_of_all(segs@.take(i as int)),
        decreases segs.len() - i,
    {
        proof {
            lemma_downloaded_grows(segs@, i + 1);
            assert(segs@.take(i + 1).drop_last() == segs@.take(i as int));
        }
        r = r + segs[i].downloaded;
        i += 1;
    }
    assert(segs@.take(segs@.len() as int) == segs@);
    r
}

/// Progress that was kept is found again: the download goes on with the parts
/// and the bytes that it had.
pub proof fn law_resume_round_trip(
    segs: Seq<Segment>,
    saved: ResumeState,
    again: Seq<Segment>,
    total: u64,
    url_hash: Seq<char>,
    cfg: HttpFetcherConfig,
)
    requires
        cfg.use_sidecar_resume,
        segs.len() > 0,
        usable(saved, total, url_hash),
        saved.segments@ == segs.map_values(|s: Segment| kept(s)),
        started_from(saved.segments@, again),
    ensures
        resumes(Some(saved), total, url_hash, cfg),
        same_parts(saved.segments@, again),
        again.len() == segs.len(),
        forall|i: int|
            0 <= i < segs.len() ==> (#[trigger] again[i]).begin == segs[i].begin
                && again[i].end_ceiling == segs[i].end_ceiling && again[i].downloaded
                == segs[i].downloaded && again[i].left() == segs[i].left(),
{
}

/// A download that goes on where it stopped has the same bytes in its segments,
/// none of them in two if it was so, and has fetched the same. No segment counts
/// as complete.
pub proof fn law_resume_keeps_bytes(
    segs: Seq<Segment>,
    saved: Seq<ResumeSegment>,
    again: Seq<Segment>,
)
    requires
        saved == segs.map_values(|s: Segment| kept(s)),
        started_from(saved, again),
    ensures
        same_bytes(segs, again),
        apart(segs) ==> apart(again),
        honest(again),
        forall|b: int| #[trigger] fetched(segs, b) <==> fetched(again, b),
{
    assert forall|i: int| 0 <= i < again.len() implies (#[trigger] again[i]).begin == segs[i].begin
        && again[i].end_ceiling == segs[i].end_ceiling && again[i].downloaded
        == segs[i].downloaded by {}
    assert forall|b: int|
        #![trigger covered(segs, b)]
        #![trigger covered(again, b)]
        covered(segs, b) <==> covered(again, b) by {
        if covered(segs, b) {
            let i = choose|i: int| 0 <= i < segs.len() && #[trigger] segs[i].covers(b);
            assert(again[i].covers(b));
        }
        if covered(again, b) {
            let i = choose|i: int| 0 <= i < again.len() && #[trigger] again[i].covers(b);
            assert(segs[i].covers(b));
        }
    }
    if apart(segs) {
        assert forall|i: int, j: int, b: int|
            #![trigger again[i].covers(b), again[j].covers(b)]
            0 <= i < again.len() && 0 <= j < again.len() && again[i].covers(b) && again[j].covers(
                b,
            ) implies i == j by {
            assert(segs[i].covers(b) && segs[j].covers(b));
        }
    }
    assert forall|b: int| #[trigger] fetched(segs, b) <==> fetched(again, b) by {
        if fetched(segs, b) {
            let i = choose|i: int|
                0 <= i < segs.len() && (#[trigger] segs[i]).begin <= b < segs[i].begin
                    + segs[i].downloaded;
            assert(again[i].begin <= b < again[i].begin + again[i].downloaded);
        }
        if fetched(again, b) {
            let i = choose|i: int|
                0 <= i < again.len() && (#[trigger] again[i]).begin <= b < again[i].begin
                    + again[i].downloaded;
            assert(segs[i].begin <= b < segs[i].begin + segs[i].downloaded);
        }
    }
}

/// A download that goes on where it stopped still has every byte of the file in
/// exactly one segment.
pub proof fn law_resume_keeps_partition(
    segs: Seq<Segment>,
    saved: Seq<ResumeSegment>,
    again: Seq<Segment>,
    total: int,
)
    requires
        partition(segs, total),
        saved == segs.map_values(|s: Segment| kept(s)),
        started_from(saved, again),
    ensures
        partition(again, total),
{
    law_resume_keeps_bytes(segs, saved, again);
    assert forall|b: int| #[trigger] covered(again, b) <==> 0 <= b < total by {
        assert(covered(segs, b) <==> covered(again, b));
    }
}

/// Progress of another address or of a file of another size is not used.
pub proof fn law_foreign_progress_is_not_used(
    saved: ResumeState,
    total: u64,
    url_hash: Seq<char>,
    cfg: HttpFetcherConfig,
)
    requires
        saved.total_bytes != total || saved.url_hash@ != url_hash,
    ensures
        !resumes(Some(saved), total, url_hash, cfg),
{
}

} // verus!
