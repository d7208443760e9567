//! Dividing a file into segments.
use vstd::prelude::*;

verus! {

/// A part of a file as it is kept between runs: the first and the last byte,
/// and how many bytes from the first on are there already.
#[derive(Debug, Clone, Copy, PartialEq, Eq, Structural)]
pub struct ResumeSegment {
    /// First byte.
    pub begin: u64,
    /// Last byte.
    pub end: u64,
    /// Bytes that are there already.
    pub downloaded: u64,
}

/// `n / d`, rounded up.
pub open spec fn ceil_div(n: int, d: int) -> int {
    (n + d - 1) / d
}

/// The smaller of two numbers.
pub open spec fn least(a: int, b: int) -> int {
    if a <= b {
        a
    } else {
        b
    }
}

/// The larger of two numbers.
pub open spec fn most(a: int, b: int) -> int {
    if a >= b {
        a
    } else {
        b
    }
}

/// How many segments a file of `total` bytes is divided into: one for each
/// `hint` bytes begun, but no more than `max_segments`.
pub open spec fn segment_count(total: int, hint: int, max_segments: int) -> int {
    least(ceil_div(total, most(hint, 1)), most(max_segments, 1))
}

/// The first byte of segment `i` when `total` bytes are divided into `count`
/// segments, of which the first `total % count` are one byte longer.
pub open spec fn segment_start(total: int, count: int, i: int) -> int {
    i * (total / count) + least(i, total % count)
}

/// The segments follow one another without gap or overlap, none is empty, and
/// together they are the bytes `0` to `total - 1`.
pub open spec fn tiles(segments: Seq<ResumeSegment>, total: int) -> bool {
    &&& total > 0 ==> segments.len() > 0
    &&& forall|i: int|
        0 <= i < segments.len() ==> (#[trigger] segments[i]).begin <= segments[i].end
    &&& forall|i: int, j: int|
        #![trigger segments[i], segments[j]]
        0 <= i < segments.len() && j == i + 1 && j < segments.len() ==> segments[j].begin
            == segments[i].end + 1
    &&& segments.len() > 0 ==> segments[0].begin == 0 && segments.last().end == total - 1
}

/// There is at least one segment, and no more than there are bytes.
pub proof fn lemma_count(total: int, hint: int, max_segments: int)
    requires
        total > 0,
    ensures
        1 <= segment_count(total, hint, max_segments) <= total,
{
    let d = most(hint, 1);
    assert(1 <= (total + d - 1) / d <= total) by (nonlinear_arith)
        requires
            total > 0,
            d >= 1,
    ;
}

/// The segments of a plan are not empty and end where the file does.
pub proof fn lemma_starts(total: int, count: int, i: int)
    requires
        1 <= count <= total,
        0 <= i < count,
    ensures
        0 <= segment_start(total, count, i),
        segment_start(total, count, i) < segment_start(total, count, i + 1) <= total,
        segment_start(total, count, i + 1) - segment_start(total, count, i) == total / count + (if i
            < total % count {
            1int
        } else {
            0
        }),
        segment_start(total, count, 0) == 0,
        segment_start(total, count, count) == total,
        total / count >= 1,
{
    let base = total / count;
    let extra = total % count;
    assert(base >= 1 && total == count * base + extra && 0 <= extra < count) by (nonlinear_arith)
        requires
            1 <= count <= total,
            base == total / count,
            extra == total % count,
    ;
    assert((i + 1) * base == i * base + base) by (nonlinear_arith);
    assert(0 <= i * base && (i + 1) * base <= count * base) by (nonlinear_arith)
        requires
            0 <= i < count,
            base >= 1,
    ;
    assert(0 * base == 0) by (nonlinear_arith);
}

/// Divides a file of `total` bytes into segments of nearly the same size.
pub fn plan_segments(total: u64, hint: u64, max_segments: usize) -> (r: Vec<ResumeSegment>)
    ensures
        total == 0 ==> r.len() == 0,
        total > 0 ==> {
            let count = segment_count(total as int, hint as int, max_segments as int);
            &&& r.len() == count
            &&& forall|i: int|
                0 <= i < count ==> {
                    &&& (#[trigger] r[i]).begin == segment_start(total as int, count, i)
                    &&& r[i].end == segment_start(total as int, count, i + 1) - 1
                    &&& r[i].downloaded == 0
                }
        },
        tiles(r@, total as int),
{
    if total == 0 {
        return Vec::new();
    }
    let max: u64 = if max_segments >= 1 {
        max_segments as u64
    } else {
        1
    };
    let segment_size: u64 = if hint >= 1 {
        hint
    } else {
        1
    };
    let count_by_size: u64 = (total - 1) / segment_size + 1;
    let count: u64 = if count_by_size <= max {
        count_by_size
    } else {
        max
    };
    proof {
        lemma_count(total as int, hint as int, max_segments as int);
        let (n, d) = (total as int, segment_size as int);
        assert((n + d - 1) / d == (n - 1) / d + 1) by (nonlinear_arith)
            requires
                n > 0,
                d >= 1,
        ;
        assert(count == segment_count(total as int, hint as int, max_segments as int));
    }
    let base: u64 = total / count;
    let mut remainder: u64 = total % count;
    let ghost extra = remainder as int;
    let mut segments: Vec<ResumeSegment> = Vec::new();
    let mut cursor: u64 = 0;
    let mut i: u64 = 0;
    proof {
        lemma_starts(total as int, count as int, 0);
    }
    while i < count
        invariant
            1 <= count <= total,
            i <= count,
            base == total / count,
            extra == total % count,
            remainder == (if i < extra {
                extra - i
            } else {
                0
            }),
            cursor == segment_start(total as int, count as int, i as int),
            segments.len() == i,
            forall|k: int|
                0 <= k < i ==> {
                    &&& (#[trigger] segments[k]).begin == segment_start(
                        total as int,
                        count as int,
                        k,
                    )
                    &&& segments[k].end == segment_start(total as int, count as int, k + 1) - 1
                    &&& segments[k].begin <= segments[k].end
                    &&& segments[k].downloaded == 0
                },
        decreases count - i,
    {
        proof {
            lemma_starts(total as int, count as int, i as int);
        }
        let mut size: u64 = base;
        if remainder > 0 {
            size += 1;
            remainder -= 1;
        }
        let begin: u64 = cursor;
        let end: u64 = begin + (size - 1);
        segments.push(ResumeSegment { begin, end, downloaded: 0 });
        cursor = end + 1;
        i += 1;
    }
    proof {
        lemma_starts(total as int, count as int, 0);
    }
    segments
}

} // verus!
