//! Fetching one segment: the request, its response, and the bytes that come.
use vstd::prelude::*;

use crate::http_fetcher::failure::{fatal_text, lemma_harmless, lemma_occurs_in_part};
use crate::http_fetcher::segment::{Segment, SegmentState};
use crate::http_fetcher::stream::{body_fault, cancelled_text, fault_of, BodyEvent};
use crate::text::{contains, decimal, decimal_text, is_digit, lemma_decimal, occurs_in};

verus! {

/// A request for the part of a segment that is not there yet.
#[derive(Debug, Clone, Copy, PartialEq, Eq, Structural)]
pub struct Transfer {
    /// First byte of the segment.
    pub begin: u64,
    /// Last byte that was asked for.
    pub end: u64,
    /// First byte that was asked for.
    pub range_start: u64,
    /// Bytes that were asked for.
    pub target: u64,
    /// Bytes of those that have been written.
    pub written: u64,
}

/// What becomes of the bytes that came.
#[derive(Debug, Clone, Copy, PartialEq, Eq, Structural)]
pub struct ChunkStep {
    /// How many of them are written.
    pub take: u64,
    /// Whether all bytes that were asked for are there.
    pub finished: bool,
}

/// Whether to wait for more bytes of a segment.
#[derive(Debug, Clone)]
pub enum ReadStep {
    /// Wait for more bytes.
    Read,
    /// A part of the segment was given away: look at what is there.
    Stop,
    /// The download was cancelled.
    Fail(String),
}

/// How to go on with what came of waiting.
#[derive(Debug, Clone)]
pub enum TransferStep {
    /// Write this many of the bytes that came; look for more unless all that
    /// were asked for are there.
    Write(ChunkStep),
    /// The body is at its end: look at what is there.
    Stop,
    /// The attempt has failed.
    Fail(String),
}

/// The header that asks for the bytes `from` to `to`.
pub open spec fn range_text(from: nat, to: nat) -> Seq<char> {
    "bytes="@ + decimal(from) + "-"@ + decimal(to)
}

/// Why a response cannot be used, where it cannot: it has to be a partial one,
/// and no web page.
pub open spec fn response_fault(
    status: u16,
    status_text: Seq<char>,
    content_type: Option<Seq<char>>,
) -> Option<Seq<char>> {
    if status != 206 {
        if 200 <= status < 300 {
            Some("server did not honor Range (HTTP 200)"@)
        } else {
            Some("HTTP "@ + status_text)
        }
    } else if content_type matches Some(ct) && occurs_in(ct, "text/html"@) {
        Some("server returned HTML instead of media"@)
    } else {
        None
    }
}

/// The message for a segment of which `got` of `of` bytes are there.
pub open spec fn incomplete_text(got: nat, of: nat) -> Seq<char> {
    "incomplete segment: "@ + decimal(got) + " of "@ + decimal(of) + " bytes"@
}

/// Of `len` bytes that came, those that were asked for are written, the others
/// are dropped.
pub open spec fn accepted(t: Transfer, len: u64) -> ChunkStep {
    let take = if len <= t.target - t.written {
        len
    } else {
        (t.target - t.written) as u64
    };
    ChunkStep { take, finished: len > 0 && t.written + take == t.target }
}

/// The segment when `take` of `len` bytes have been written at `now`.
pub open spec fn progressed(seg: Segment, len: u64, take: u64, now: u64) -> Segment {
    if len == 0 {
        seg
    } else {
        Segment {
            downloaded: (seg.downloaded + take) as u64,
            last_progress_unix_nanos: now,
            ..seg
        }
    }
}

impl Transfer {
    /// The request for what segment `seg` still lacks.
    pub open spec fn of(seg: Segment) -> Transfer {
        Transfer {
            begin: seg.begin,
            end: seg.end_ceiling,
            range_start: (seg.begin + seg.downloaded) as u64,
            target: (seg.end_ceiling - (seg.begin + seg.downloaded) + 1) as u64,
            written: 0,
        }
    }

    /// The request belongs to `seg`: the bytes of the segment are those that
    /// were there before and those that the request has brought.
    pub open spec fn follows(self, seg: Segment) -> bool {
        &&& self.begin == seg.begin
        &&& self.begin <= self.range_start <= self.end
        &&& self.end - self.begin < u64::MAX
        &&& self.target == self.end - self.range_start + 1
        &&& self.written <= self.target
        &&& seg.downloaded == self.range_start - self.begin + self.written
    }

    /// The request when it has brought `take` bytes more.
    pub open spec fn advanced(self, take: u64) -> Transfer {
        Transfer { written: (self.written + take) as u64, ..self }
    }

    /// Starts fetching what `seg` lacks; `None` where nothing is lacking.
    pub fn start(seg: &Segment) -> (r: Option<Transfer>)
        requires
            seg.fits(),
        ensures
            match r {
                Some(t) => seg.begin + seg.downloaded <= seg.end_ceiling && t == Transfer::of(*seg)
                    && t.follows(*seg),
                None => seg.begin + seg.downloaded > seg.end_ceiling,
            },
    {
        let begin: u64 = seg.begin;
        let end: u64 = seg.end_ceiling;
        let already: u64 = seg.downloaded;
        if begin + already > end {
            return None;
        }
        let range_start: u64 = begin + already;
        let target: u64 = (end - range_start) + 1;
        Some(Transfer { begin, end, range_start, target, written: 0 })
    }

    /// The value of the `Range` header.
    pub fn range_header(&self) -> (r: String)
        ensures
            r@ == range_text(self.range_start as nat, self.end as nat),
    {
        let mut r = "bytes=".to_string();
        r.append(decimal_text(self.range_start).as_str());
        r.append("-");
        r.append(decimal_text(self.end).as_str());
        r
    }

    /// Whether a part of the segment was given away since the request was made.
    pub fn interrupted(&self, seg: &Segment) -> (r: bool)
        ensures
            r == (seg.end_ceiling < self.end),
    {
        seg.end_ceiling < self.end
    }

    /// Whether to wait for more bytes.
    pub fn before_read(&self, seg: &Segment, cancelled: bool) -> (r: ReadStep)
        ensures
            match r {
                ReadStep::Fail(e) => cancelled && e@ == cancelled_text(),
                ReadStep::Stop => !cancelled && seg.end_ceiling < self.end,
                ReadStep::Read => !cancelled && seg.end_ceiling >= self.end,
            },
    {
        if cancelled {
            return ReadStep::Fail("Download cancelled".to_string());
        }
        if self.interrupted(seg) {
            return ReadStep::Stop;
        }
        ReadStep::Read
    }

    /// Goes on with what came of waiting.
    pub fn on_event(&mut self, seg: &mut Segment, event: &BodyEvent, now: u64) -> (r: TransferStep)
        requires
            old(self).follows(*old(seg)),
        ensures
            final(self).follows(*final(seg)),
            match r {
                TransferStep::Write(c) => event matches BodyEvent::Chunk { len } && c == accepted(
                    *old(self),
                    *len,
                ) && *final(self) == old(self).advanced(c.take) && *final(seg) == progressed(
                    *old(seg),
                    *len,
                    c.take,
                    now,
                ),
                TransferStep::Stop => event is Ended && *final(self) == *old(self) && *final(seg)
                    == *old(seg),
                TransferStep::Fail(e) => body_fault(*event) == Some(e@) && *final(self) == *old(
                    self,
                ) && *final(seg) == *old(seg),
            },
    {
        if let Some(e) = fault_of(event) {
            return TransferStep::Fail(e);
        }
        match event {
            BodyEvent::Chunk { len } => TransferStep::Write(self.on_chunk(seg, *len, now)),
            _ => TransferStep::Stop,
        }
    }

    /// Takes note of `len` bytes that came at `now`: those that were asked for
    /// are written, the others are dropped.
    pub fn on_chunk(&mut self, seg: &mut Segment, len: u64, now: u64) -> (r: ChunkStep)
        requires
            old(self).follows(*old(seg)),
        ensures
            final(self).follows(*final(seg)),
            r == accepted(*old(self), len),
            *final(self) == old(self).advanced(r.take),
            *final(seg) == progressed(*old(seg), len, r.take, now),
    {
        if len == 0 {
            return ChunkStep { take: 0, finished: false };
        }
        let max_allowed: u64 = self.target - self.written;
        let take: u64 = if len > max_allowed {
            max_allowed
        } else {
            len
        };
        self.written = self.written + take;
        seg.downloaded = seg.downloaded + take;
        seg.last_progress_unix_nanos = now;
        ChunkStep { take, finished: self.written >= self.target }
    }
}

/// Checks that a response brings the bytes that were asked for.
pub fn check_response(status: u16, status_text: &str, content_type: Option<&str>) -> (r: Result<
    (),
    String,
>)
    ensures
        match r {
            Ok(()) => response_fault(
                status,
                status_text@,
                match content_type {
                    Some(ct) => Some(ct@),
                    None => None,
                },
            ) is None,
            Err(e) => response_fault(
                status,
                status_text@,
                match content_type {
                    Some(ct) => Some(ct@),
                    None => None,
                },
            ) == Some(e@),
        },
{
    if status != 206 {
        if 200 <= status && status < 300 {
            return Err("server did not honor Range (HTTP 200)".to_string());
        }
        let mut e = "HTTP ".to_string();
        e.append(status_text);
        return Err(e);
    }
    if let Some(ct) = content_type {
        if contains(ct, "text/html") {
            return Err("server returned HTML instead of media".to_string());
        }
    }
    Ok(())
}

/// Checks at the end of a response that the whole segment is there.
pub fn finish_transfer(seg: &Segment) -> (r: Result<(), String>)
    requires
        seg.begin <= seg.end_ceiling,
        seg.end_ceiling - seg.begin < u64::MAX,
    ensures
        match r {
            Ok(()) => seg.downloaded >= seg.size(),
            Err(e) => seg.downloaded < seg.size() && e@ == incomplete_text(
                seg.downloaded as nat,
                seg.size() as nat,
            ),
        },
{
    let target: u64 = (seg.end_ceiling - seg.begin) + 1;
    if seg.downloaded < target {
        let mut e = "incomplete segment: ".to_string();
        e.append(decimal_text(seg.downloaded).as_str());
        e.append(" of ");
        e.append(decimal_text(target).as_str());
        e.append(" bytes");
        return Err(e);
    }
    Ok(())
}

/// The segment when the work on it has ended, well or not.
pub open spec fn settled(seg: Segment, done: bool) -> Segment {
    Segment {
        state: if done {
            SegmentState::Done
        } else {
            SegmentState::Failed
        },
        ..seg
    }
}

/// Records how the work on segment `k` has ended.
pub fn settle(segs: &mut Vec<Segment>, k: usize, done: bool)
    requires
        k < old(segs).len(),
    ensures
        final(segs)@ == old(segs)@.update(k as int, settled(old(segs)[k as int], done)),
{
    let s = segs[k];
    let state = if done {
        SegmentState::Done
    } else {
        SegmentState::Failed
    };
    segs.set(k, Segment { state, ..s });
}

/// The message of the first failure, where there is one.
pub open spec fn first_failure(outcomes: Seq<Result<(), String>>) -> Option<Seq<char>>
    decreases outcomes.len(),
{
    if outcomes.len() == 0 {
        None
    } else {
        match outcomes[0] {
            Err(e) => Some(e@),
            Ok(()) => first_failure(outcomes.drop_first()),
        }
    }
}

/// Every segment is there.
pub open spec fn all_done(segs: Seq<Segment>) -> bool {
    forall|i: int| 0 <= i < segs.len() ==> (#[trigger] segs[i]).state == SegmentState::Done
}

/// The message for a file of `actual` bytes in place of `total`.
pub open spec fn size_mismatch_text(total: nat, actual: nat) -> Seq<char> {
    "size mismatch: expected "@ + decimal(total) + " bytes, got "@ + decimal(actual)
}

/// How a segmented download has ended: with the first failure of a worker, with
/// segments missing, with a file of the wrong size, or well.
pub open spec fn download_fault(
    outcomes: Seq<Result<(), String>>,
    segs: Seq<Segment>,
    actual: u64,
    total: u64,
) -> Option<Seq<char>> {
    if first_failure(outcomes) is Some {
        first_failure(outcomes)
    } else if !all_done(segs) {
        Some("not all segments completed"@)
    } else if actual != total {
        Some(size_mismatch_text(total as nat, actual as nat))
    } else {
        None
    }
}

/// Decides how a segmented download has ended, from what the workers returned,
/// where the segments stand and the size of the file.
pub fn chunked_outcome(
    outcomes: &Vec<Result<(), String>>,
    segs: &Vec<Segment>,
    actual: u64,
    total: u64,
) -> (r: Result<(), String>)
    ensures
        match r {
            Ok(()) => download_fault(outcomes@, segs@, actual, total) is None,
            Err(e) => download_fault(outcomes@, segs@, actual, total) == Some(e@),
        },
{
    let mut i: usize = 0;
    assert(outcomes@.skip(0) == outcomes@);
    while i < outcomes.len()
        invariant
            i <= outcomes.len(),
            first_failure(outcomes@) == first_failure(outcomes@.skip(i as int)),
        decreases outcomes.len() - i,
    {
        assert(outcomes@.skip(i as int).drop_first() == outcomes@.skip(i + 1));
        if let Err(e) = &outcomes[i] {
            return Err(e.clone());
        }
        i += 1;
    }
    let mut j: usize = 0;
    while j < segs.len()
        invariant
            j <= segs.len(),
            forall|k: int| 0 <= k < j ==> (#[trigger] segs[k]).state == SegmentState::Done,
            first_failure(outcomes@) is None,
        decreases segs.len() - j,
    {
        let state = segs[j].state;
        if state != SegmentState::Done {
            assert(segs@[j as int].state != SegmentState::Done);
            return Err("not all segments completed".to_string());
        }
        j += 1;
    }
    if actual != total {
        let mut e = "size mismatch: expected ".to_string();
        e.append(decimal_text(total).as_str());
        e.append(" bytes, got ");
        e.append(decimal_text(actual).as_str());
        return Err(e);
    }
    Ok(())
}

// ---------------------------------------------------------------------------
// Laws
// ---------------------------------------------------------------------------
/// A request writes nothing outside the bytes that it asked for.
pub proof fn law_writes_stay_in_range(t: Transfer, seg: Segment)
    requires
        t.follows(seg),
    ensures
        t.range_start + t.written <= t.end + 1,
        seg.begin + seg.downloaded == t.range_start + t.written,
{
}

/// A segment is complete once a request for all it lacked has brought every
/// byte, also where a part of the segment was given away meanwhile.
pub proof fn law_full_response_completes(t: Transfer, seg: Segment)
    requires
        t.follows(seg),
        t.written == t.target,
        seg.begin <= seg.end_ceiling <= t.end,
    ensures
        seg.downloaded >= seg.size(),
        seg.left() == 0,
{
}

/// A segment that is cut short, because a part of it was given away or because
/// the response ended early, is tried again.
pub proof fn law_incomplete_is_retried(got: nat, of: nat)
    ensures
        !fatal_text(incomplete_text(got, of)),
{
    reveal_strlit("incomplete segment: ");
    reveal_strlit(" of ");
    reveal_strlit(" bytes");
    lemma_decimal(got);
    lemma_decimal(of);
    let m = incomplete_text(got, of);
    let (a, b) = (decimal(got), decimal(of));
    assert forall|i: int| 0 <= i < m.len() implies #[trigger] m[i] != 'H' && m[i] != 'd' by {
        if 20 <= i < 20 + a.len() {
            assert(m[i] == a[i - 20]);
            assert(is_digit(a[i - 20]));
        } else if 24 + a.len() <= i < 24 + a.len() + b.len() {
            assert(m[i] == b[i - 24 - a.len()]);
            assert(is_digit(b[i - 24 - a.len()]));
        }
    }
    lemma_harmless(m);
}

/// A web page in place of the file ends the download.
pub proof fn law_web_page_is_fatal(status_text: Seq<char>, content_type: Seq<char>)
    requires
        occurs_in(content_type, "text/html"@),
    ensures
        response_fault(206, status_text, Some(content_type)) matches Some(e) && fatal_text(e),
{
    reveal_strlit("server returned HTML instead of media");
    reveal_strlit("HTML instead of media");
    reveal_strlit("server returned ");
    let part = "HTML instead of media"@;
    assert("server returned HTML instead of media"@ =~= "server returned "@ + part
        + Seq::<char>::empty());
    assert(part.subrange(0, part.len() as int) =~= part);
    assert(crate::text::occurs_at(part, part, 0));
    lemma_occurs_in_part("server returned "@, part, Seq::empty(), part);
}

proof fn lemma_names_code(code: Seq<char>, reason: Seq<char>)
    requires
        code.len() == 3,
    ensures
        occurs_in("HTTP "@ + (code + reason), "HTTP "@ + code),
{
    let whole = "HTTP "@ + (code + reason);
    let part = "HTTP "@ + code;
    assert(whole.subrange(0, part.len() as int) =~= part);
    assert(crate::text::occurs_at(whole, part, 0));
}

/// A refusal by the server ends the download: a response is fatal whose status
/// text starts with one of the codes 400, 401, 403, 404, 405, 410 and 451.
pub proof fn law_refusal_is_fatal(
    status: u16,
    code: Seq<char>,
    reason: Seq<char>,
    content_type: Option<Seq<char>>,
)
    requires
        status < 200 || status >= 300,
        code == "400"@ || code == "401"@ || code == "403"@ || code == "404"@ || code == "405"@
            || code == "410"@ || code == "451"@,
    ensures
        response_fault(status, code + reason, content_type) matches Some(e) && fatal_text(e),
{
    reveal_strlit("HTTP ");
    reveal_strlit("400");
    reveal_strlit("401");
    reveal_strlit("403");
    reveal_strlit("404");
    reveal_strlit("405");
    reveal_strlit("410");
    reveal_strlit("451");
    reveal_strlit("HTTP 400");
    reveal_strlit("HTTP 401");
    reveal_strlit("HTTP 403");
    reveal_strlit("HTTP 404");
    reveal_strlit("HTTP 405");
    reveal_strlit("HTTP 410");
    reveal_strlit("HTTP 451");
    assert("HTTP 400"@ =~= "HTTP "@ + "400"@);
    assert("HTTP 401"@ =~= "HTTP "@ + "401"@);
    assert("HTTP 403"@ =~= "HTTP "@ + "403"@);
    assert("HTTP 404"@ =~= "HTTP "@ + "404"@);
    assert("HTTP 405"@ =~= "HTTP "@ + "405"@);
    assert("HTTP 410"@ =~= "HTTP "@ + "410"@);
    assert("HTTP 451"@ =~= "HTTP "@ + "451"@);
    lemma_names_code(code, reason);
}

} // verus!
