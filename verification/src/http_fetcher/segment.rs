//! Segments in progress: claiming one, and splitting a slow one.
use vstd::prelude::*;

use crate::clock::now_unix_nanos;
use crate::http_fetcher::config::HttpFetcherConfig;
use crate::http_fetcher::plan::most;

verus! {

/// Nanoseconds in a second.
pub const NANOS_PER_SEC: u64 = 1_000_000_000;

/// The estimate for a segment whose speed is not known.
pub const LONG_TIME_SECS: u64 = 9_223_372_036_854_775_807;

/// Where a segment stands.
#[derive(Debug, Clone, Copy, PartialEq, Eq, Structural)]
pub enum SegmentState {
    /// Nobody works on it yet.
    Pending,
    /// A worker fetches it.
    Running,
    /// All of it is there.
    Done,
    /// It could not be fetched.
    Failed,
}

/// A part of a file that is being fetched.
#[derive(Debug, Clone, Copy, PartialEq, Eq, Structural)]
pub struct Segment {
    /// Number of the segment.
    pub id: usize,
    /// First byte.
    pub begin: u64,
    /// Last byte; a split moves it down.
    pub end_ceiling: u64,
    /// Bytes that are there, counted from `begin`.
    pub downloaded: u64,
    /// Where the segment stands.
    pub state: SegmentState,
    /// Time of the last bytes that came.
    pub last_progress_unix_nanos: u64,
    /// Time from which the speed is measured.
    pub speed_baseline_unix_nanos: u64,
    /// Bytes that were there at that time.
    pub speed_baseline_downloaded: u64,
}

impl Segment {
    /// The numbers of the segment can be added up in 64 bits.
    pub open spec fn fits(self) -> bool {
        &&& self.end_ceiling - self.begin < u64::MAX
        &&& self.begin + self.downloaded <= u64::MAX
    }

    /// Bytes of the segment; a segment that ends before it begins counts as one.
    pub open spec fn size(self) -> int {
        most(self.end_ceiling - self.begin, 0) + 1
    }

    /// Bytes of the segment that are not there yet.
    pub open spec fn left(self) -> int {
        most(self.size() - self.downloaded, 0)
    }

    /// The byte at offset `b` of the file belongs to the segment.
    pub open spec fn covers(self, b: int) -> bool {
        self.begin <= b <= self.end_ceiling
    }

    /// Bytes per second since the start of the measurement.
    pub open spec fn rate(self, now: int) -> int {
        (self.downloaded - self.speed_baseline_downloaded) * NANOS_PER_SEC / (now
            - self.speed_baseline_unix_nanos)
    }

    /// Seconds until the segment is there at its present speed. The speed counts
    /// as known one second after the start of the measurement, if bytes have come.
    pub open spec fn seconds_left(self, now: int, fallback_large: bool) -> int {
        if now - self.speed_baseline_unix_nanos < NANOS_PER_SEC || self.downloaded
            <= self.speed_baseline_downloaded {
            if fallback_large {
                LONG_TIME_SECS as int
            } else {
                0
            }
        } else if self.rate(now) == 0 {
            LONG_TIME_SECS as int
        } else {
            self.left() / self.rate(now)
        }
    }

    /// A segment nobody works on, with the measurement started at `now`.
    pub open spec fn fresh(id: usize, begin: u64, end: u64, downloaded: u64, now: u64) -> Segment {
        Segment {
            id,
            begin,
            end_ceiling: end,
            downloaded,
            state: SegmentState::Pending,
            last_progress_unix_nanos: now,
            speed_baseline_unix_nanos: now,
            speed_baseline_downloaded: downloaded,
        }
    }

    /// The segment when a worker takes it at `now`.
    pub open spec fn claimed(self, now: u64) -> Segment {
        Segment {
            state: SegmentState::Running,
            last_progress_unix_nanos: now,
            speed_baseline_unix_nanos: now,
            speed_baseline_downloaded: self.downloaded,
            ..self
        }
    }

    /// A segment nobody works on, with the measurement started at `now`.
    pub fn new_at(id: usize, begin: u64, end: u64, downloaded: u64, now: u64) -> (r: Segment)
        ensures
            r == Segment::fresh(id, begin, end, downloaded, now),
    {
        Segment {
            id,
            begin,
            end_ceiling: end,
            downloaded,
            state: SegmentState::Pending,
            last_progress_unix_nanos: now,
            speed_baseline_unix_nanos: now,
            speed_baseline_downloaded: downloaded,
        }
    }

    /// A segment nobody works on, with the measurement started now.
    pub fn new(id: usize, begin: u64, end: u64, downloaded: u64) -> (r: Segment)
        ensures
            r == Segment::fresh(id, begin, end, downloaded, r.speed_baseline_unix_nanos),
    {
        Segment::new_at(id, begin, end, downloaded, now_unix_nanos())
    }

    /// Bytes of the segment that are not there yet.
    pub fn remaining(&self) -> (r: u64)
        requires
            self.end_ceiling - self.begin < u64::MAX,
        ensures
            r == self.left(),
    {
        let total: u64 = self.end_ceiling.saturating_sub(self.begin) + 1;
        total.saturating_sub(self.downloaded)
    }

    /// Seconds until the segment is there at the speed that it has at `now`.
    pub fn estimated_seconds_remaining_at(&self, now: u64, fallback_large: bool) -> (r: u64)
        requires
            self.end_ceiling - self.begin < u64::MAX,
        ensures
            r == self.seconds_left(now as int, fallback_large),
    {
        let elapsed_ns: u64 = now.saturating_sub(self.speed_baseline_unix_nanos);
        if elapsed_ns < NANOS_PER_SEC || self.downloaded <= self.speed_baseline_downloaded {
            if fallback_large {
                LONG_TIME_SECS
            } else {
                0
            }
        } else {
            let gained: u64 = self.downloaded - self.speed_baseline_downloaded;
            let bytes_per_sec: u128 = gained as u128 * NANOS_PER_SEC as u128 / elapsed_ns as u128;
            assert(bytes_per_sec == self.rate(now as int));
            if bytes_per_sec == 0 {
                LONG_TIME_SECS
            } else {
                let left: u64 = self.remaining();
                assert(0 <= left as int / bytes_per_sec as int <= left) by (nonlinear_arith)
                    requires
                        bytes_per_sec >= 1,
                ;
                (left as u128 / bytes_per_sec) as u64
            }
        }
    }

    /// Seconds until the segment is there at its present speed.
    pub fn estimated_seconds_remaining(&self, fallback_large: bool) -> (r: u64)
        requires
            self.end_ceiling - self.begin < u64::MAX,
        ensures
            exists|now: u64| r == #[trigger] self.seconds_left(now as int, fallback_large),
    {
        let now = now_unix_nanos();
        let r = self.estimated_seconds_remaining_at(now, fallback_large);
        assert(r == self.seconds_left(now as int, fallback_large));
        r
    }
}

// ---------------------------------------------------------------------------
// Splitting a slow segment
// ---------------------------------------------------------------------------
/// A worker that has nothing to do may take a part of this segment.
pub open spec fn may_split(s: Segment, cfg: HttpFetcherConfig, now: int) -> bool {
    &&& s.state == SegmentState::Running
    &&& s.left() >= cfg.steal_min_chunk_size
    &&& s.seconds_left(now, true) > cfg.steal_threshold.secs
}

/// The numbers that are met when a segment is split fit into the machine's: of
/// each segment that a worker fetches the bytes can be counted, and a split
/// that leaves nothing to one side ends below the last number there is.
pub open spec fn countable(segs: Seq<Segment>, cfg: HttpFetcherConfig) -> bool {
    forall|i: int|
        #![trigger segs[i]]
        0 <= i < segs.len() ==> segs[i].id < usize::MAX && (segs[i].state == SegmentState::Running
            ==> segs[i].fits() && (cfg.steal_min_chunk_size > 0 || segs[i].end_ceiling < u64::MAX))
}

/// Whether the numbers that are met when a segment is split fit into the
/// machine's.
pub fn is_countable(segs: &Vec<Segment>, cfg: &HttpFetcherConfig) -> (r: bool)
    ensures
        r == countable(segs@, *cfg),
{
    let mut i: usize = 0;
    while i < segs.len()
        invariant
            i <= segs.len(),
            countable(segs@.take(i as int), *cfg),
        decreases segs.len() - i,
    {
        let s = segs[i];
        let fits = (s.end_ceiling < s.begin || s.end_ceiling - s.begin < u64::MAX) && s.downloaded
            <= u64::MAX - s.begin;
        if s.id == usize::MAX || (s.state == SegmentState::Running && !(fits && (
        cfg.steal_min_chunk_size > 0 || s.end_ceiling < u64::MAX))) {
            assert(segs@[i as int] == s);
            return false;
        }
        assert forall|j: int|
            #![trigger segs@.take(i + 1)[j]]
            0 <= j < i + 1 implies segs@.take(i + 1)[j].id < usize::MAX && (segs@.take(i + 1)[j].state
            == SegmentState::Running ==> segs@.take(i + 1)[j].fits() && (cfg.steal_min_chunk_size > 0
            || segs@.take(i + 1)[j].end_ceiling < u64::MAX)) by {
            if j < i {
                assert(segs@.take(i as int)[j] == segs@.take(i + 1)[j]);
            }
        }
        i += 1;
    }
    assert(segs@.take(segs@.len() as int) =~= segs@);
    true
}

/// The segment to split: the first of those that would take longest.
pub open spec fn slowest(segs: Seq<Segment>, cfg: HttpFetcherConfig, now: int) -> Option<int>
    decreases segs.len(),
{
    if segs.len() == 0 {
        None
    } else {
        let before = slowest(segs.drop_last(), cfg, now);
        let last = segs.last();
        if may_split(last, cfg, now) && (before matches Some(b) ==> last.seconds_left(now, true)
            > segs[b].seconds_left(now, true)) {
            Some(segs.len() - 1)
        } else {
            before
        }
    }
}

/// The largest number of a segment, or zero where there is none.
pub open spec fn top_id(segs: Seq<Segment>) -> int
    decreases segs.len(),
{
    if segs.len() == 0 {
        0
    } else {
        most(top_id(segs.drop_last()), segs.last().id as int)
    }
}

/// Half of what segment `v` has left, rounded down.
pub open spec fn share(segs: Seq<Segment>, v: int) -> int {
    segs[v].left() / 2
}

/// Segment `v` can give away half of what it has left: both halves are worth a
/// request, and no byte that is there is given away.
pub open spec fn splits(segs: Seq<Segment>, v: int, cfg: HttpFetcherConfig) -> bool {
    &&& share(segs, v) >= cfg.steal_min_chunk_size
    &&& segs[v].end_ceiling - share(segs, v) + 1 > segs[v].begin + segs[v].downloaded
}

/// The segments after `v` has given away the half at its end to a new segment,
/// which a worker takes at `now`.
pub open spec fn after_split(segs: Seq<Segment>, v: int, now: u64) -> Seq<Segment> {
    let victim = segs[v];
    let cut = victim.end_ceiling - share(segs, v);
    segs.update(v, Segment { end_ceiling: cut as u64, ..victim }).push(
        Segment {
            state: SegmentState::Running,
            ..Segment::fresh((top_id(segs) + 1) as usize, (cut + 1) as u64, victim.end_ceiling, 0, now)
        },
    )
}

/// The segments after an idle worker looked for a part of a slow segment, where
/// it found one.
pub open spec fn stolen(segs: Seq<Segment>, cfg: HttpFetcherConfig, now: u64) -> Option<
    Seq<Segment>,
> {
    match slowest(segs, cfg, now as int) {
        Some(v) => if splits(segs, v, cfg) {
            Some(after_split(segs, v, now))
        } else {
            None
        },
        None => None,
    }
}

/// The segment that is chosen is one that may be split.
pub proof fn lemma_slowest(segs: Seq<Segment>, cfg: HttpFetcherConfig, now: int)
    ensures
        slowest(segs, cfg, now) matches Some(v) ==> 0 <= v < segs.len() && may_split(
            segs[v],
            cfg,
            now,
        ),
    decreases segs.len(),
{
    if segs.len() > 0 {
        lemma_slowest(segs.drop_last(), cfg, now);
    }
}

/// No segment has a larger number than [`top_id`], and one has that number.
pub proof fn lemma_top_id(segs: Seq<Segment>)
    ensures
        0 <= top_id(segs),
        forall|i: int| 0 <= i < segs.len() ==> (#[trigger] segs[i]).id <= top_id(segs),
        segs.len() > 0 ==> exists|i: int|
            0 <= i < segs.len() && (#[trigger] segs[i]).id == top_id(segs),
    decreases segs.len(),
{
    if segs.len() > 0 {
        let rest = segs.drop_last();
        lemma_top_id(rest);
        assert forall|i: int| 0 <= i < segs.len() implies (#[trigger] segs[i]).id <= top_id(
            segs,
        ) by {
            if i < segs.len() - 1 {
                assert(rest[i] == segs[i]);
            }
        }
        if top_id(segs) == segs.last().id {
            assert(segs[segs.len() - 1].id == top_id(segs));
        } else {
            let k = choose|i: int| 0 <= i < rest.len() && (#[trigger] rest[i]).id == top_id(rest);
            assert(segs[k] == rest[k]);
        }
    }
}

/// Gives an idle worker the half that a slow segment has furthest to go. The
/// number of the new segment in the list is returned.
pub fn try_steal_at(segs: &mut Vec<Segment>, cfg: &HttpFetcherConfig, now: u64) -> (r: Option<usize>)
    requires
        countable(old(segs)@, *cfg),
    ensures
        match r {
            Some(k) => k == old(segs).len() && stolen(old(segs)@, *cfg, now) == Some(final(segs)@),
            None => stolen(old(segs)@, *cfg, now) is None && final(segs)@ == old(segs)@,
        },
{
    let ghost all = segs@;
    let mut victim: Option<usize> = None;
    let mut victim_score: u64 = 0;
    let mut next_id: usize = 0;
    let mut i: usize = 0;
    while i < segs.len()
        invariant
            segs@ == all,
            i <= segs.len(),
            countable(all, *cfg),
            next_id == top_id(all.take(i as int)),
            next_id < usize::MAX,
            match victim {
                Some(v) => {
                    &&& slowest(all.take(i as int), *cfg, now as int) == Some(v as int)
                    &&& v < i
                    &&& victim_score == all[v as int].seconds_left(now as int, true)
                    &&& may_split(all[v as int], *cfg, now as int)
                },
                None => slowest(all.take(i as int), *cfg, now as int) is None && victim_score == 0,
            },
        decreases segs.len() - i,
    {
        let s = segs[i];
        assert(s == all[i as int]);
        assert(all.take(i + 1).drop_last() == all.take(i as int));
        assert(all.take(i + 1).last() == s);
        assert(victim matches Some(v) ==> all.take(i + 1)[v as int] == all[v as int]);
        if s.id > next_id {
            next_id = s.id;
        }
        if s.state == SegmentState::Running {
            let remain = s.remaining();
            if remain >= cfg.steal_min_chunk_size {
                let est = s.estimated_seconds_remaining_at(now, true);
                if est > cfg.steal_threshold.as_secs() {
                    if est > victim_score {
                        victim_score = est;
                        victim = Some(i);
                    }
                }
            }
        }
        i += 1;
    }
    assert(all.take(all.len() as int) == all);
    let v: usize = match victim {
        Some(v) => v,
        None => {
            return None;
        },
    };
    let chosen = segs[v];
    let remain = chosen.remaining();
    let half: u64 = remain / 2;
    if half < cfg.steal_min_chunk_size {
        return None;
    }
    let old_end: u64 = chosen.end_ceiling;
    let new_end_for_victim: u64 = old_end - half;
    let new_begin_for_helper: u64 = new_end_for_victim + 1;
    if new_begin_for_helper <= chosen.begin + chosen.downloaded {
        return None;
    }
    let mut helper = Segment::new_at(next_id + 1, new_begin_for_helper, old_end, 0, now);
    helper.state = SegmentState::Running;
    segs.set(v, Segment { end_ceiling: new_end_for_victim, ..chosen });
    segs.push(helper);
    let r: usize = segs.len() - 1;
    assert(segs@ =~= after_split(all, v as int, now));
    Some(r)
}

/// Gives an idle worker the half that a slow segment has furthest to go.
pub fn try_steal(segs: &mut Vec<Segment>, cfg: &HttpFetcherConfig) -> (r: Option<usize>)
    requires
        countable(old(segs)@, *cfg),
    ensures
        exists|now: u64|
            match r {
                Some(k) => k == old(segs).len() && #[trigger] stolen(old(segs)@, *cfg, now) == Some(
                    final(segs)@,
                ),
                None => stolen(old(segs)@, *cfg, now) is None && final(segs)@ == old(segs)@,
            },
{
    let now = now_unix_nanos();
    let r = try_steal_at(segs, cfg, now);
    assert(stolen(old(segs)@, *cfg, now) is None || r is Some);
    r
}

// ---------------------------------------------------------------------------
// Claiming work
// ---------------------------------------------------------------------------
/// The first segment that nobody works on.
pub open spec fn first_pending(segs: Seq<Segment>, i: int) -> Option<int>
    decreases segs.len() - i,
{
    if i >= segs.len() {
        None
    } else if segs[i].state == SegmentState::Pending {
        Some(i)
    } else {
        first_pending(segs, i + 1)
    }
}

/// What an idle worker takes: the first segment that nobody works on, else a
/// part of a slow one. The list after it, and the place of what was taken.
pub open spec fn taken(segs: Seq<Segment>, cfg: HttpFetcherConfig, now: u64) -> Option<
    (Seq<Segment>, int),
> {
    match first_pending(segs, 0) {
        Some(k) => Some((segs.update(k, segs[k].claimed(now)), k)),
        None => match stolen(segs, cfg, now) {
            Some(after) => Some((after, segs.len() as int)),
            None => None,
        },
    }
}

/// The numbers that are met when a worker takes work fit into the machine's:
/// either a segment waits for one, or those of a split do.
pub open spec fn claimable(segs: Seq<Segment>, cfg: HttpFetcherConfig) -> bool {
    first_pending(segs, 0) is None ==> countable(segs, cfg)
}

/// The place of the first segment that nobody works on.
pub fn pending_place(segs: &Vec<Segment>) -> (r: Option<usize>)
    ensures
        match r {
            Some(k) => first_pending(segs@, 0) == Some(k as int) && k < segs.len(),
            None => first_pending(segs@, 0) is None,
        },
{
    let mut i: usize = 0;
    while i < segs.len()
        invariant
            i <= segs.len(),
            first_pending(segs@, 0) == first_pending(segs@, i as int),
        decreases segs.len() - i,
    {
        if segs[i].state == SegmentState::Pending {
            return Some(i);
        }
        i += 1;
    }
    None
}

/// Whether the numbers that are met when a worker takes work fit into the
/// machine's.
pub fn is_claimable(segs: &Vec<Segment>, cfg: &HttpFetcherConfig) -> (r: bool)
    ensures
        r == claimable(segs@, *cfg),
{
    pending_place(segs).is_some() || is_countable(segs, cfg)
}

/// Gives an idle worker a segment: one that nobody works on, else a part of a
/// slow one. The place of the segment in the list is returned.
pub fn claim_pending_or_steal_at(
    segs: &mut Vec<Segment>,
    cfg: &HttpFetcherConfig,
    now: u64,
) -> (r: Option<usize>)
    requires
        claimable(old(segs)@, *cfg),
    ensures
        match r {
            Some(k) => taken(old(segs)@, *cfg, now) == Some((final(segs)@, k as int)),
            None => taken(old(segs)@, *cfg, now) is None && final(segs)@ == old(segs)@,
        },
{
    match pending_place(segs) {
        Some(k) => {
            let s = segs[k];
            let claimed = Segment {
                state: SegmentState::Running,
                last_progress_unix_nanos: now,
                speed_baseline_unix_nanos: now,
                speed_baseline_downloaded: s.downloaded,
                ..s
            };
            segs.set(k, claimed);
            Some(k)
        },
        None => try_steal_at(segs, cfg, now),
    }
}

/// Gives an idle worker a segment: one that nobody works on, else a part of a
/// slow one.
pub fn claim_pending_or_steal(segs: &mut Vec<Segment>, cfg: &HttpFetcherConfig) -> (r: Option<usize>)
    requires
        claimable(old(segs)@, *cfg),
    ensures
        exists|now: u64|
            match r {
                Some(k) => #[trigger] taken(old(segs)@, *cfg, now) == Some((final(segs)@, k as int)),
                None => taken(old(segs)@, *cfg, now) is None && final(segs)@ == old(segs)@,
            },
{
    let now = now_unix_nanos();
    let r = claim_pending_or_steal_at(segs, cfg, now);
    assert(taken(old(segs)@, *cfg, now) is None || r is Some);
    r
}

} // verus!
