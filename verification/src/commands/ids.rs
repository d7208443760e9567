//! Identifiers of downloads.
use vstd::prelude::*;

use crate::clock::now_unix_millis;

verus! {

/// The identifiers given out so far: the last of them.
#[derive(Debug, Clone, Copy, PartialEq, Eq, Structural)]
pub struct DownloadIds {
    /// The last identifier given out, or zero.
    pub last: u64,
}

/// The identifier that follows `last` at the time `now_ms`: the time itself,
/// or the next number where that one is taken.
pub open spec fn id_after(last: u64, now_ms: u64) -> int {
    if now_ms > last {
        now_ms as int
    } else {
        last + 1
    }
}

impl DownloadIds {
    /// None is given out yet.
    pub fn new() -> (r: DownloadIds)
        ensures
            r.last == 0,
    {
        DownloadIds { last: 0 }
    }

    /// The next identifier, at the time `now_ms` in milliseconds since the
    /// Unix epoch.
    pub fn next_at(&mut self, now_ms: u64) -> (r: u64)
        requires
            old(self).last < u64::MAX,
        ensures
            r == id_after(old(self).last, now_ms),
            final(self).last == r,
    {
        let next = if now_ms > self.last {
            now_ms
        } else {
            self.last + 1
        };
        self.last = next;
        next
    }
}

/// The next identifier, at the time that the clock says. It is larger than
/// every one before it.
pub fn next_download_id(ids: &mut DownloadIds) -> (r: u64)
    requires
        old(ids).last < u64::MAX,
    ensures
        exists|now_ms: u64| r == #[trigger] id_after(old(ids).last, now_ms),
        final(ids).last == r,
        r > old(ids).last,
{
    let now_ms = now_unix_millis();
    let ghost last = ids.last;
    let r = ids.next_at(now_ms);
    assert(r == id_after(last, now_ms));
    r
}

/// The identifiers that are given out at the times `times`, in order, where
/// `last` was the last one before.
pub open spec fn ids_at(last: int, times: Seq<u64>) -> Seq<int>
    decreases times.len(),
{
    if times.len() == 0 {
        Seq::empty()
    } else {
        let before = ids_at(last, times.drop_last());
        let prev = if before.len() == 0 {
            last
        } else {
            before.last()
        };
        before.push(
            if times.last() > prev {
                times.last() as int
            } else {
                prev + 1
            },
        )
    }
}

/// However the clock runs, forward, backward or not at all, the identifiers
/// rise strictly: no two downloads share one.
pub proof fn law_ids_rise(last: int, times: Seq<u64>)
    ensures
        ids_at(last, times).len() == times.len(),
        forall|i: int| 0 <= i < times.len() ==> #[trigger] ids_at(last, times)[i] > last,
        forall|i: int, j: int|
            0 <= i < j < times.len() ==> #[trigger] ids_at(last, times)[i]
                < #[trigger] ids_at(last, times)[j],
    decreases times.len(),
{
    if times.len() > 0 {
        law_ids_rise(last, times.drop_last());
        let before = ids_at(last, times.drop_last());
        let all = ids_at(last, times);
        let n = before.len() as int;
        assert forall|i: int| 0 <= i < times.len() implies #[trigger] all[i] > last by {
            if i < n {
                assert(all[i] == before[i]);
            } else if n > 0 {
                assert(before[n - 1] > last);
            }
        }
        assert forall|i: int, j: int| 0 <= i < j < times.len() implies #[trigger] all[i]
            < #[trigger] all[j] by {
            assert(all[i] == before[i]);
            if j < n {
                assert(all[j] == before[j]);
            } else if i < n - 1 {
                assert(before[i] < before[n - 1]);
            }
        }
    }
}

} // verus!
