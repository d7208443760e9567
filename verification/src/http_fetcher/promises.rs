//! What a download keeps to, said of numbers, bytes and texts.
use vstd::prelude::*;

use crate::http_fetcher::config::{HttpFetcherConfig, Span};
use crate::http_fetcher::failure::{fatal_text, next_step, AfterFailure};
use crate::http_fetcher::fetch::{head_answer, hex_char, hex_text, mode_for, ProbeResult};
use crate::http_fetcher::plan::{
    lemma_count, lemma_starts, segment_count, segment_start, ResumeSegment,
};
use crate::http_fetcher::resume::{
    downloaded_of_all, is_new_plan, kept, resumes, started_from, ResumeState,
};
use crate::http_fetcher::segment::{
    countable, first_pending, lemma_top_id, may_split, slowest, stolen, taken, top_id, Segment,
    SegmentState,
};
use crate::http_fetcher::stream::{body_fault, cancelled_text, BodyEvent};
use crate::http_fetcher::transfer::{
    accepted, download_fault, incomplete_text, progressed, range_text, response_fault, settled,
    Transfer,
};
use crate::http_fetcher::worker::{goes_on, WorkerAction, WorkerEvent, WorkerState};
use crate::text::{decimal, is_digit, lemma_decimal, number_in, occurs_at, occurs_in, split};
use crate::text_laws::{law_decimal_reads_back, lemma_last_piece, lemma_one_piece, without};

verus! {

// ---------------------------------------------------------------------------
// Failures
// ---------------------------------------------------------------------------
/// A failure is final exactly if its message names a refusal of the server, a
/// web page in place of the file, or a cancelled download.
pub proof fn law_final_failures(m: Seq<char>)
    ensures
        fatal_text(m) <==> {
            ||| occurs_in(m, "HTTP 400"@)
            ||| occurs_in(m, "HTTP 401"@)
            ||| occurs_in(m, "HTTP 403"@)
            ||| occurs_in(m, "HTTP 404"@)
            ||| occurs_in(m, "HTTP 405"@)
            ||| occurs_in(m, "HTTP 410"@)
            ||| occurs_in(m, "HTTP 451"@)
            ||| occurs_in(m, "HTML instead of media"@)
            ||| occurs_in(m, "cancelled"@)
        },
{
}

/// A text cannot start inside a part in which its first character does not
/// occur.
proof fn lemma_starts_behind(prefix: Seq<char>, rest: Seq<char>, needle: Seq<char>)
    requires
        needle.len() > 0,
        without(prefix, needle[0]),
        !occurs_in(rest, needle),
    ensures
        !occurs_in(prefix + rest, needle),
{
    let whole = prefix + rest;
    assert forall|i: int| !#[trigger] occurs_at(whole, needle, i) by {
        if occurs_at(whole, needle, i) {
            assert(whole.subrange(i, i + needle.len())[0] == whole[i]);
            if i < prefix.len() {
                assert(whole[i] == prefix[i]);
            } else {
                let k = i - prefix.len();
                assert(rest.subrange(k, k + needle.len()) =~= whole.subrange(
                    i,
                    i + needle.len(),
                ));
                assert(occurs_at(rest, needle, k));
            }
        }
    }
}

proof fn lemma_first_letters()
    ensures
        "HTTP 400"@.len() == 8 && "HTTP 400"@[0] == 'H',
        "HTTP 401"@.len() == 8 && "HTTP 401"@[0] == 'H',
        "HTTP 403"@.len() == 8 && "HTTP 403"@[0] == 'H',
        "HTTP 404"@.len() == 8 && "HTTP 404"@[0] == 'H',
        "HTTP 405"@.len() == 8 && "HTTP 405"@[0] == 'H',
        "HTTP 410"@.len() == 8 && "HTTP 410"@[0] == 'H',
        "HTTP 451"@.len() == 8 && "HTTP 451"@[0] == 'H',
        "HTML instead of media"@.len() == 21 && "HTML instead of media"@[0] == 'H',
        "cancelled"@.len() == 9 && "cancelled"@[0] == 'c',
{
    reveal_strlit("HTTP 400");
    reveal_strlit("HTTP 401");
    reveal_strlit("HTTP 403");
    reveal_strlit("HTTP 404");
    reveal_strlit("HTTP 405");
    reveal_strlit("HTTP 410");
    reveal_strlit("HTTP 451");
    reveal_strlit("HTML instead of media");
    reveal_strlit("cancelled");
}

/// Words without an `H` and without a `c` before a text make nothing final that
/// the text does not.
proof fn lemma_words_before(prefix: Seq<char>, rest: Seq<char>)
    requires
        without(prefix, 'H'),
        without(prefix, 'c'),
        !fatal_text(rest),
    ensures
        !fatal_text(prefix + rest),
{
    lemma_first_letters();
    lemma_starts_behind(prefix, rest, "HTTP 400"@);
    lemma_starts_behind(prefix, rest, "HTTP 401"@);
    lemma_starts_behind(prefix, rest, "HTTP 403"@);
    lemma_starts_behind(prefix, rest, "HTTP 404"@);
    lemma_starts_behind(prefix, rest, "HTTP 405"@);
    lemma_starts_behind(prefix, rest, "HTTP 410"@);
    lemma_starts_behind(prefix, rest, "HTTP 451"@);
    lemma_starts_behind(prefix, rest, "HTML instead of media"@);
    lemma_starts_behind(prefix, rest, "cancelled"@);
}

/// A text without an `H` and without a `c` is never final.
proof fn lemma_no_such_letters(m: Seq<char>)
    requires
        without(m, 'H'),
        without(m, 'c'),
    ensures
        !fatal_text(m),
{
    lemma_first_letters();
    let empty = Seq::<char>::empty();
    assert forall|needle: Seq<char>| needle.len() > 0 implies !occurs_in(empty, needle) by {
        assert forall|i: int| !#[trigger] occurs_at(empty, needle, i) by {}
    }
    assert(!fatal_text(empty));
    lemma_words_before(m, empty);
    assert(m + empty =~= m);
}

/// A stalled or broken connection is never final by itself: only what the
/// connection's own message says can make it so.
pub proof fn law_broken_connection_is_not_final(event: BodyEvent)
    requires
        event is Failed || event is TimedOut,
        event matches BodyEvent::Failed { error } ==> !fatal_text(error@),
        event matches BodyEvent::TimedOut { waited } ==> !fatal_text(waited@),
    ensures
        body_fault(event) matches Some(m) && !fatal_text(m),
{
    reveal_strlit("stream error: ");
    reveal_strlit("read timed out after ");
    match event {
        BodyEvent::Failed { error } => {
            lemma_words_before("stream error: "@, error@);
        },
        BodyEvent::TimedOut { waited } => {
            lemma_words_before("read timed out after "@, waited@);
        },
        _ => {},
    }
}

/// A length of time, as it is written: digits, points and the letters of its
/// units.
pub open spec fn time_text(s: Seq<char>) -> bool {
    forall|i: int|
        0 <= i < s.len() ==> '0' <= #[trigger] s[i] <= '9' || s[i] == '.' || s[i] == 's' || s[i]
            == 'm' || s[i] == 'n' || s[i] == 'µ'
}

/// A read that takes too long is tried again, as long as attempts are left,
/// after a wait of a second for each attempt so far, up to five.
pub proof fn law_stalled_read_is_tried_again(
    waited: String,
    e: String,
    segment: usize,
    attempt: u32,
    max_retries: u32,
    after: WorkerState,
    action: WorkerAction,
)
    requires
        time_text(waited@),
        body_fault(BodyEvent::TimedOut { waited }) == Some(e@),
        attempt + 1 < max_retries,
        goes_on(
            WorkerState::Holding { segment, attempt },
            WorkerEvent::Fetched(Err(e)),
            false,
            max_retries,
            after,
            action,
        ),
    ensures
        after == (WorkerState::Holding { segment, attempt: (attempt + 1) as u32 }),
        action == WorkerAction::Sleep(
            if attempt < 5 {
                (attempt + 1) as u64
            } else {
                5
            },
        ),
{
    lemma_no_such_letters(waited@);
    law_broken_connection_is_not_final(BodyEvent::TimedOut { waited });
}

/// What is said of a stalled or broken connection, of a cancelled download, and
/// that nothing is said of bytes and of the end.
pub proof fn law_connection_messages(event: BodyEvent)
    ensures
        event matches BodyEvent::Failed { error } ==> body_fault(event) == Some(
            "stream error: "@ + error@,
        ),
        event matches BodyEvent::TimedOut { waited } ==> body_fault(event) == Some(
            "read timed out after "@ + waited@,
        ),
        event is Chunk || event is Ended ==> body_fault(event) is None,
        cancelled_text() == "Download cancelled"@,
{
}

/// A server that does not give out parts is asked again.
pub proof fn law_ignored_range_is_tried_again(status: u16, text: Seq<char>, ct: Option<Seq<char>>)
    requires
        200 <= status < 300,
        status != 206,
    ensures
        response_fault(status, text, ct) matches Some(m) && !fatal_text(m),
{
    reveal_strlit("server did not honor Range (HTTP 200)");
    let m = "server did not honor Range (HTTP 200)"@;
    let a = m.take(28);
    let b = m.skip(28);
    assert(m =~= a + b);
    reveal_strlit("400");
    reveal_strlit("401");
    reveal_strlit("403");
    reveal_strlit("404");
    reveal_strlit("405");
    reveal_strlit("410");
    reveal_strlit("451");
    assert("400"@[0] == '4' && "401"@[0] == '4' && "403"@[0] == '4' && "404"@[0] == '4' && "405"@[0]
        == '4' && "410"@[0] == '4' && "451"@[0] == '4');
    assert(seq!['2', '0', '0'][0] == '2');
    lemma_no_such_letters(seq![')']);
    lemma_code_text(seq!['2', '0', '0'], seq![')']);
    reveal_strlit("HTTP ");
    assert(b =~= "HTTP "@ + (seq!['2', '0', '0'] + seq![')']));
    lemma_words_before(a, b);
}

/// A refusal with another code than those that are final says nothing final,
/// unless its reason does.
proof fn lemma_code_text(code: Seq<char>, reason: Seq<char>)
    requires
        code.len() == 3,
        '0' <= code[0] <= '9' && '0' <= code[1] <= '9' && '0' <= code[2] <= '9',
        code != "400"@ && code != "401"@ && code != "403"@ && code != "404"@ && code != "405"@
            && code != "410"@ && code != "451"@,
        !fatal_text(reason),
    ensures
        !fatal_text("HTTP "@ + (code + reason)),
{
    reveal_strlit("HTTP ");
    reveal_strlit("400");
    reveal_strlit("401");
    reveal_strlit("403");
    reveal_strlit("404");
    reveal_strlit("405");
    reveal_strlit("410");
    reveal_strlit("451");
    lemma_first_letters();
    let h = seq!['H'];
    let tail = seq!['T', 'T', 'P', ' '] + code;
    let rest = tail + reason;
    let m = "HTTP "@ + (code + reason);
    assert(m =~= h + rest);
    lemma_words_before(tail, reason);
    assert forall|needle: Seq<char>|
        needle.len() >= 8 && needle[0] == 'H' && (needle.len() == 8 ==> exists|c: Seq<char>|
            #![trigger ("HTTP "@ + c)]
            needle == "HTTP "@ + c && c.len() == 3 && c != code) && (needle.len() != 8 ==> needle[2]
            != 'T') && !occurs_in(rest, needle) implies !#[trigger] occurs_in(m, needle) by {
        assert forall|i: int| !#[trigger] occurs_at(m, needle, i) by {
            if occurs_at(m, needle, i) {
                if i > 0 {
                    assert(rest.subrange(i - 1, i - 1 + needle.len()) =~= m.subrange(
                        i,
                        i + needle.len(),
                    ));
                    assert(occurs_at(rest, needle, i - 1));
                } else {
                    let sub = m.subrange(0, needle.len() as int);
                    assert(sub[2] == m[2]);
                    if needle.len() == 8 {
                        let c = choose|c: Seq<char>|
                            #![trigger ("HTTP "@ + c)]
                            needle == "HTTP "@ + c && c.len() == 3 && c != code;
                        assert(c[0] == sub[5] && c[1] == sub[6] && c[2] == sub[7]);
                        assert(m[5] == code[0] && m[6] == code[1] && m[7] == code[2]);
                        assert(c =~= code);
                    }
                }
            }
        }
    }
    reveal_strlit("HTTP 400");
    reveal_strlit("HTTP 401");
    reveal_strlit("HTTP 403");
    reveal_strlit("HTTP 404");
    reveal_strlit("HTTP 405");
    reveal_strlit("HTTP 410");
    reveal_strlit("HTTP 451");
    reveal_strlit("HTML instead of media");
    assert("HTTP 400"@ =~= "HTTP "@ + "400"@);
    assert("HTTP 401"@ =~= "HTTP "@ + "401"@);
    assert("HTTP 403"@ =~= "HTTP "@ + "403"@);
    assert("HTTP 404"@ =~= "HTTP "@ + "404"@);
    assert("HTTP 405"@ =~= "HTTP "@ + "405"@);
    assert("HTTP 410"@ =~= "HTTP "@ + "410"@);
    assert("HTTP 451"@ =~= "HTTP "@ + "451"@);
    assert("HTML instead of media"@[2] == 'M');
    assert(!occurs_in(m, "HTTP 400"@));
    assert(!occurs_in(m, "HTTP 401"@));
    assert(!occurs_in(m, "HTTP 403"@));
    assert(!occurs_in(m, "HTTP 404"@));
    assert(!occurs_in(m, "HTTP 405"@));
    assert(!occurs_in(m, "HTTP 410"@));
    assert(!occurs_in(m, "HTTP 451"@));
    assert(!occurs_in(m, "HTML instead of media"@));
    assert(without(h, 'c'));
    lemma_starts_behind(h, rest, "cancelled"@);
}

/// A server that is out of order for a while, or busy, is asked again: only
/// seven codes are final.
pub proof fn law_passing_refusal_is_tried_again(
    status: u16,
    code: Seq<char>,
    reason: Seq<char>,
    ct: Option<Seq<char>>,
)
    requires
        status < 200 || status >= 300,
        code.len() == 3,
        '0' <= code[0] <= '9' && '0' <= code[1] <= '9' && '0' <= code[2] <= '9',
        code != "400"@ && code != "401"@ && code != "403"@ && code != "404"@ && code != "405"@
            && code != "410"@ && code != "451"@,
        !fatal_text(reason),
    ensures
        response_fault(status, code + reason, ct) matches Some(m) && !fatal_text(m),
{
    lemma_code_text(code, reason);
}

/// What a worker does when an attempt has failed: it stops where the download
/// is cancelled; else it gives up where the failure is final or no attempt is
/// left; else it waits a second for each attempt so far, up to five, and tries
/// again.
pub proof fn law_after_a_failure(cancelled: bool, message: Seq<char>, attempt: u32, max: u32)
    requires
        attempt < u32::MAX,
    ensures
        next_step(cancelled, message, attempt, max) is Stop <==> cancelled,
        !cancelled && (fatal_text(message) || attempt + 1 >= max) ==> next_step(
            cancelled,
            message,
            attempt,
            max,
        ) is GiveUp,
        !cancelled && !fatal_text(message) && attempt + 1 < max ==> (next_step(
            cancelled,
            message,
            attempt,
            max,
        ) matches AfterFailure::Retry { attempt: n, delay_secs } && n == attempt + 1 && (attempt < 5
            ==> delay_secs == attempt + 1) && (attempt >= 5 ==> delay_secs == 5)),
{
}

/// Turn by turn: a worker looks for a segment, fetches what it took, records it
/// under its own number and looks again; it stops only where nothing is left,
/// where it is cancelled, or where the segment has failed for good.
pub proof fn law_worker_turns(
    before: WorkerState,
    event: WorkerEvent,
    cancelled: bool,
    max: u32,
    after: WorkerState,
    action: WorkerAction,
)
    requires
        goes_on(before, event, cancelled, max, after, action),
        before.expects(event),
    ensures
        !cancelled && event is Started ==> after is Seeking && action is Claim,
        event == WorkerEvent::Claimed(None) ==> after is Stopped && action is Stop,
        !cancelled && (event matches WorkerEvent::Claimed(Some(k))) ==> after
            == (WorkerState::Holding { segment: event->Claimed_0->0, attempt: 0 }) && action
            == WorkerAction::Fetch(event->Claimed_0->0),
        event is Fetched && event->Fetched_0 is Ok && !cancelled ==> after is Seeking && action
            == WorkerAction::DoneThenClaim(before->segment),
        event is Fetched && event->Fetched_0 is Ok && cancelled ==> after is Stopped && action
            == WorkerAction::DoneThenStop(before->segment),
        event is Woke && !cancelled ==> after == before && action == WorkerAction::Fetch(
            before->segment,
        ),
        cancelled && !(event is Fetched && event->Fetched_0 is Ok) ==> after is Stopped
            && action is Stop,
        (event matches WorkerEvent::Fetched(Err(e)) && !cancelled && (fatal_text(e@)
            || before->attempt + 1 >= max)) ==> after is Stopped
                && action == WorkerAction::FailWith(
            before->segment,
            event->Fetched_0->Err_0,
        ),
        (event matches WorkerEvent::Fetched(Err(e)) && !cancelled && !fatal_text(e@)
            && before->attempt + 1 < max && before->attempt < u32::MAX) ==> after
            == (WorkerState::Holding {
            segment: before->segment,
            attempt: (before->attempt + 1) as u32,
        }) && action == WorkerAction::Sleep(
            if before->attempt < 5 {
                (before->attempt + 1) as u64
            } else {
                5
            },
        ),
{
}

// ---------------------------------------------------------------------------
// Requests and responses
// ---------------------------------------------------------------------------
/// A response can be used exactly if it is a partial one and no web page.
pub proof fn law_usable_response(status: u16, text: Seq<char>, ct: Option<Seq<char>>)
    ensures
        response_fault(status, text, ct) is None <==> status == 206 && !(ct matches Some(t)
            && occurs_in(t, "text/html"@)),
        status < 200 || status >= 300 ==> response_fault(status, text, ct) == Some(
            "HTTP "@ + text,
        ),
        status == 206 && (ct matches Some(t) && occurs_in(t, "text/html"@)) ==> response_fault(
            status,
            text,
            ct,
        ) == Some("server returned HTML instead of media"@),
        200 <= status < 300 && status != 206 ==> response_fault(status, text, ct) == Some(
            "server did not honor Range (HTTP 200)"@,
        ),
{
}

/// The request for a segment asks for exactly the bytes that it lacks: from the
/// first one that is not there to its last one.
pub proof fn law_request_asks_for_the_rest(seg: Segment)
    requires
        seg.begin + seg.downloaded <= seg.end_ceiling,
        seg.end_ceiling - seg.begin < u64::MAX,
    ensures
        Transfer::of(seg).range_start == seg.begin + seg.downloaded,
        Transfer::of(seg).end == seg.end_ceiling,
        Transfer::of(seg).target == seg.end_ceiling + 1 - seg.begin - seg.downloaded,
        Transfer::of(seg).written == 0,
        Transfer::of(seg).begin == seg.begin,
{
}

/// The range header reads back as the bytes that it asks for.
pub proof fn law_range_header_reads_back(from: u64, to: u64)
    ensures
        "bytes="@.is_prefix_of(range_text(from as nat, to as nat)),
        ({
            let parts = split(range_text(from as nat, to as nat).skip(6), '-');
            parts.len() == 2 && number_in(parts[0], u64::MAX as nat) == Some(from as nat)
                && number_in(parts[1], u64::MAX as nat) == Some(to as nat)
        }),
{
    reveal_strlit("bytes=");
    reveal_strlit("-");
    let (a, b) = (decimal(from as nat), decimal(to as nat));
    let s = range_text(from as nat, to as nat);
    lemma_decimal(from as nat);
    lemma_decimal(to as nat);
    law_decimal_reads_back(from as nat, u64::MAX as nat);
    law_decimal_reads_back(to as nat, u64::MAX as nat);
    assert(s.subrange(0, 6) =~= "bytes="@);
    assert(s.skip(6) =~= a + seq!['-'] + b);
    assert forall|i: int| 0 <= i < a.len() implies #[trigger] a[i] != '-' by {
        assert(is_digit(a[i]));
    }
    assert forall|i: int| 0 <= i < b.len() implies #[trigger] b[i] != '-' by {
        assert(is_digit(b[i]));
    }
    lemma_one_piece(a, '-');
    lemma_last_piece(a, b, '-');
}

/// Of the bytes that come, as many are written as were asked for and no more;
/// the request is done exactly when the last of them is.
pub proof fn law_bytes_that_come(t: Transfer, len: u64)
    requires
        t.written <= t.target,
        len > 0,
    ensures
        len <= t.target - t.written ==> accepted(t, len).take == len,
        len > t.target - t.written ==> accepted(t, len).take == t.target - t.written,
        accepted(t, len).finished <==> t.written + len >= t.target,
        accepted(t, 0).take == 0 && !accepted(t, 0).finished,
{
}

/// Bytes that are written count for their segment, one for one, and change
/// nothing else of it but the time of its last progress.
pub proof fn law_written_bytes_count(seg: Segment, len: u64, take: u64, now: u64)
    requires
        seg.downloaded + take <= u64::MAX,
    ensures
        len > 0 ==> progressed(seg, len, take, now).downloaded == seg.downloaded + take
            && progressed(seg, len, take, now).last_progress_unix_nanos == now,
        len == 0 ==> progressed(seg, len, take, now) == seg,
        progressed(seg, len, take, now).begin == seg.begin,
        progressed(seg, len, take, now).end_ceiling == seg.end_ceiling,
        progressed(seg, len, take, now).state == seg.state,
        progressed(seg, len, take, now).id == seg.id,
        progressed(seg, len, take, now).speed_baseline_unix_nanos == seg.speed_baseline_unix_nanos,
        progressed(seg, len, take, now).speed_baseline_downloaded == seg.speed_baseline_downloaded,
{
}

/// What is written moves the transfer on by as much, and nothing else changes.
pub proof fn law_transfer_moves_on(t: Transfer, take: u64)
    requires
        t.written + take <= u64::MAX,
    ensures
        t.advanced(take).written == t.written + take,
        t.advanced(take).begin == t.begin,
        t.advanced(take).end == t.end,
        t.advanced(take).range_start == t.range_start,
        t.advanced(take).target == t.target,
{
}

/// Work that ends is recorded as done or failed, and the segment stays as it is.
pub proof fn law_settling_records(seg: Segment)
    ensures
        settled(seg, true).state == SegmentState::Done,
        settled(seg, false).state == SegmentState::Failed,
        forall|done: bool|
            (#[trigger] settled(seg, done)).begin == seg.begin && settled(seg, done).end_ceiling
                == seg.end_ceiling && settled(seg, done).downloaded == seg.downloaded && settled(
                seg,
                done,
            ).id == seg.id,
{
}

/// A download ends well exactly if no worker failed, every segment is done and
/// the file has its size.
pub proof fn law_download_ends_well(
    outcomes: Seq<Result<(), String>>,
    segs: Seq<Segment>,
    actual: u64,
    total: u64,
)
    ensures
        download_fault(outcomes, segs, actual, total) is None <==> {
            &&& forall|i: int| 0 <= i < outcomes.len() ==> #[trigger] outcomes[i] is Ok
            &&& forall|i: int|
                0 <= i < segs.len() ==> (#[trigger] segs[i]).state == SegmentState::Done
            &&& actual == total
        },
    decreases outcomes.len(),
{
    if outcomes.len() > 0 {
        let rest = outcomes.drop_first();
        law_download_ends_well(rest, segs, actual, total);
        if outcomes[0] is Ok {
            assert forall|i: int| 0 <= i < outcomes.len() && (forall|j: int|
                0 <= j < rest.len()
                    ==> #[trigger] rest[j] is Ok) implies #[trigger] outcomes[i] is Ok by {
                if i > 0 {
                    assert(rest[i - 1] == outcomes[i]);
                }
            }
            assert forall|i: int| 0 <= i < rest.len() && (forall|j: int|
                0 <= j < outcomes.len()
                    ==> #[trigger] outcomes[j] is Ok) implies #[trigger] rest[i] is Ok by {
                assert(rest[i] == outcomes[i + 1]);
            }
        }
    }
}

/// A download that fails says why: with the first worker that failed, else that
/// segments are missing, else which size was expected and which is there.
pub proof fn law_download_says_why(
    outcomes: Seq<Result<(), String>>,
    segs: Seq<Segment>,
    actual: u64,
    total: u64,
    k: int,
)
    ensures
        0 <= k < outcomes.len() && outcomes[k] is Err && (forall|j: int|
            0 <= j < k ==> #[trigger] outcomes[j] is Ok) ==> download_fault(
            outcomes,
            segs,
            actual,
            total,
        ) == Some(outcomes[k]->Err_0@),
        (forall|j: int| 0 <= j < outcomes.len() ==> #[trigger] outcomes[j] is Ok) && (exists|j: int|
            0 <= j < segs.len() && (#[trigger] segs[j]).state != SegmentState::Done)
            ==> download_fault(outcomes, segs, actual, total) == Some(
            "not all segments completed"@,
        ),
        (forall|j: int| 0 <= j < outcomes.len() ==> #[trigger] outcomes[j] is Ok) && (forall|j: int|
            0 <= j < segs.len() ==> (#[trigger] segs[j]).state == SegmentState::Done) && actual
            != total ==> download_fault(outcomes, segs, actual, total) == Some(
            "size mismatch: expected "@ + decimal(total as nat) + " bytes, got "@ + decimal(
                actual as nat,
            ),
        ),
    decreases outcomes.len(),
{
    if outcomes.len() > 0 {
        let rest = outcomes.drop_first();
        law_download_says_why(rest, segs, actual, total, k - 1);
        if outcomes[0] is Ok {
            assert forall|j: int| 0 <= j < rest.len() && (j < k - 1 || (forall|m: int|
                0 <= m < outcomes.len() ==> #[trigger] outcomes[m] is Ok)) && (forall|m: int|
                0 <= m < k && m < outcomes.len()
                    ==> #[trigger] outcomes[m] is Ok) implies #[trigger] rest[j] is Ok by {
                assert(rest[j] == outcomes[j + 1]);
            }
            if forall|j: int| 0 <= j < outcomes.len() ==> #[trigger] outcomes[j] is Ok {
                assert forall|j: int| 0 <= j < rest.len() implies #[trigger] rest[j] is Ok by {
                    assert(rest[j] == outcomes[j + 1]);
                }
            }
        }
    }
}

/// What is said of a segment that is not complete.
pub proof fn law_incomplete_message(got: nat, of: nat)
    ensures
        incomplete_text(got, of) == "incomplete segment: "@ + decimal(got) + " of "@ + decimal(of)
            + " bytes"@,
{
}

// ---------------------------------------------------------------------------
// The plan
// ---------------------------------------------------------------------------
/// How many segments: at least one, at most as many as are allowed; as few as
/// keep each within the wanted size, unless that would be too many.
pub proof fn law_number_of_segments(total: int, hint: int, max: int)
    requires
        total > 0,
        hint > 0,
        max > 0,
    ensures
        1 <= segment_count(total, hint, max) <= max,
        segment_count(total, hint, max) < max ==> segment_count(total, hint, max) * hint >= total,
        (segment_count(total, hint, max) - 1) * hint < total,
        segment_count(total, 0, max) == segment_count(total, 1, max),
        segment_count(total, hint, 0) == 1,
{
    lemma_count(total, hint, max);
    lemma_count(total, hint, 0);
    let q = (total + hint - 1) / hint;
    assert(q * hint >= total && (q - 1) * hint < total) by (nonlinear_arith)
        requires
            q == (total + hint - 1) / hint,
            hint > 0,
            total > 0,
    ;
    let n = segment_count(total, hint, max);
    assert((n - 1) * hint <= (q - 1) * hint) by (nonlinear_arith)
        requires
            n <= q,
            hint > 0,
    ;
}

/// The segments of a plan start at the first byte of the file, each where the
/// one before it ends, and the last ends with the file; they are of nearly the
/// same size, the longer ones first.
pub proof fn law_segments_are_even(total: int, count: int, i: int, j: int)
    requires
        1 <= count <= total,
        0 <= i < j < count,
    ensures
        segment_start(total, count, 0) == 0,
        segment_start(total, count, count) == total,
        segment_start(total, count, i) < segment_start(total, count, i + 1),
        ({
            let a = segment_start(total, count, i + 1) - segment_start(total, count, i);
            let b = segment_start(total, count, j + 1) - segment_start(total, count, j);
            b <= a <= b + 1
        }),
{
    lemma_starts(total, count, i);
    lemma_starts(total, count, j);
}

// ---------------------------------------------------------------------------
// Work that is taken
// ---------------------------------------------------------------------------
/// An idle worker takes the first segment that nobody works on, and it is then
/// in work, with the bytes and the bounds that it had.
pub proof fn law_waiting_segment_is_taken(
    segs: Seq<Segment>,
    cfg: HttpFetcherConfig,
    now: u64,
    k: int,
)
    requires
        0 <= k < segs.len(),
        segs[k].state == SegmentState::Pending,
        forall|j: int| 0 <= j < k ==> (#[trigger] segs[j]).state != SegmentState::Pending,
    ensures
        ({
            let w = taken(segs, cfg, now)->0;
            &&& taken(segs, cfg, now) is Some
            &&& w.1 == k
            &&& w.0.len() == segs.len()
            &&& forall|j: int| 0 <= j < segs.len() && j != k ==> #[trigger] w.0[j] == segs[j]
            &&& w.0[k].state == SegmentState::Running
            &&& w.0[k].begin == segs[k].begin
            &&& w.0[k].end_ceiling == segs[k].end_ceiling
            &&& w.0[k].downloaded == segs[k].downloaded
            &&& w.0[k].id == segs[k].id
            &&& w.0[k].last_progress_unix_nanos == now
            &&& w.0[k].speed_baseline_unix_nanos == now
            &&& w.0[k].speed_baseline_downloaded == segs[k].downloaded
        }),
{
    lemma_first_waiting(segs, 0, k);
}

proof fn lemma_first_waiting(segs: Seq<Segment>, from: int, k: int)
    requires
        0 <= from <= k < segs.len(),
        segs[k].state == SegmentState::Pending,
        forall|j: int| from <= j < k ==> (#[trigger] segs[j]).state != SegmentState::Pending,
    ensures
        first_pending(segs, from) == Some(k),
    decreases k - from,
{
    if from < k {
        assert(segs[from].state != SegmentState::Pending);
        lemma_first_waiting(segs, from + 1, k);
    }
}

proof fn lemma_none_waiting(segs: Seq<Segment>, from: int)
    requires
        0 <= from,
        forall|j: int| from <= j < segs.len() ==> (#[trigger] segs[j]).state
            != SegmentState::Pending,
    ensures
        first_pending(segs, from) is None,
    decreases segs.len() - from,
{
    if from < segs.len() {
        assert(segs[from].state != SegmentState::Pending);
        lemma_none_waiting(segs, from + 1);
    }
}

/// A segment may be split exactly if it is in work, lacks enough bytes and
/// would take longer than the settings allow; the one that is split is the
/// first of those that would take longest.
pub proof fn law_slowest_is_split(segs: Seq<Segment>, cfg: HttpFetcherConfig, now: int)
    ensures
        forall|s: Segment| #[trigger]
            may_split(s, cfg, now) <==> s.state == SegmentState::Running && s.left()
                >= cfg.steal_min_chunk_size && s.seconds_left(now, true) > cfg.steal_threshold.secs,
        slowest(segs, cfg, now) matches Some(v) ==> {
            &&& 0 <= v < segs.len()
            &&& may_split(segs[v], cfg, now)
            &&& forall|j: int|
                0 <= j < segs.len() && may_split(#[trigger] segs[j], cfg, now)
                    ==> segs[j].seconds_left(now, true) <= segs[v].seconds_left(now, true) && (j < v
                    ==> segs[j].seconds_left(now, true) < segs[v].seconds_left(now, true))
        },
        slowest(segs, cfg, now) is None ==> forall|j: int|
            0 <= j < segs.len() ==> !may_split(#[trigger] segs[j], cfg, now),
    decreases segs.len(),
{
    if segs.len() > 0 {
        let rest = segs.drop_last();
        law_slowest_is_split(rest, cfg, now);
        assert forall|j: int| 0 <= j < segs.len() - 1 implies rest[j] == #[trigger] segs[j] by {}
        let n = segs.len() - 1;
        assert(segs[n] == segs.last());
        match slowest(segs, cfg, now) {
            Some(v) => {
                assert forall|j: int|
                    0 <= j < segs.len()
                        && may_split(#[trigger] segs[j], cfg, now) implies segs[j].seconds_left(
                    now,
                    true,
                ) <= segs[v].seconds_left(now, true) && (j < v ==> segs[j].seconds_left(now, true)
                    < segs[v].seconds_left(now, true)) by {
                    if j < n {
                        assert(rest[j] == segs[j]);
                    }
                }
            },
            None => {
                assert forall|j: int| 0 <= j < segs.len() implies !may_split(
                    #[trigger] segs[j],
                    cfg,
                    now,
                ) by {
                    if j < n {
                        assert(rest[j] == segs[j]);
                    }
                }
            },
        }
    }
}

/// What is given away is half, rounded down, of what the slowest segment lacks,
/// from its end on, where that is not too little; the slow segment keeps the
/// rest. The half has a new number and nothing of it is there yet.
pub proof fn law_half_is_given_away(
    segs: Seq<Segment>,
    cfg: HttpFetcherConfig,
    now: u64,
    v: int,
)
    requires
        countable(segs, cfg),
        slowest(segs, cfg, now as int) == Some(v),
        segs[v].begin + segs[v].downloaded <= segs[v].end_ceiling,
    ensures
        ({
            let lacking = segs[v].end_ceiling + 1 - segs[v].begin - segs[v].downloaded;
            let t = stolen(segs, cfg, now);
            &&& lacking / 2 >= cfg.steal_min_chunk_size <==> t is Some
            &&& t matches Some(w) ==> {
                &&& w.len() == segs.len() + 1
                &&& w[v].end_ceiling == segs[v].end_ceiling - lacking / 2
                &&& w[v].begin == segs[v].begin
                &&& w[v].downloaded == segs[v].downloaded
                &&& w[v].state == SegmentState::Running
                &&& w[v].id == segs[v].id
                &&& w.last().begin == w[v].end_ceiling + 1
                &&& w.last().end_ceiling == segs[v].end_ceiling
                &&& w.last().downloaded == 0
                &&& w.last().state == SegmentState::Running
                &&& w.last().last_progress_unix_nanos == now
                &&& w.last().speed_baseline_unix_nanos == now
                &&& w.last().speed_baseline_downloaded == 0
                &&& forall|j: int|
                    0 <= j < segs.len() && j != v ==> #[trigger] w[j] == segs[j] && segs[j].id
                        < w.last().id
                &&& w.last().id == top_id(segs) + 1
            }
        }),
{
    law_slowest_is_split(segs, cfg, now as int);
    lemma_top_id(segs);
    assert(segs[v].fits());
    let lacking = segs[v].end_ceiling + 1 - segs[v].begin - segs[v].downloaded;
    assert(segs[v].left() == lacking);
    let k = choose|i: int|
        0 <= i < segs.len() && (#[trigger] segs[i]).id == top_id(segs);
    assert(segs[k].id < usize::MAX);
}

/// An idle worker takes such a half exactly if nothing waits; where there is
/// none to be had, it takes nothing.
pub proof fn law_half_is_taken(segs: Seq<Segment>, cfg: HttpFetcherConfig, now: u64)
    requires
        forall|j: int| 0 <= j < segs.len() ==> (#[trigger] segs[j]).state != SegmentState::Pending,
    ensures
        stolen(segs, cfg, now) matches Some(w) ==> taken(segs, cfg, now) == Some(
            (w, segs.len() as int),
        ),
        stolen(segs, cfg, now) is None ==> taken(segs, cfg, now) is None,
        slowest(segs, cfg, now as int) is None ==> taken(segs, cfg, now) is None,
{
    lemma_none_waiting(segs, 0);
}

/// A segment has the bytes from its first to its last, both counted, and lacks
/// those that are not there; one whose end lies before its start counts as one
/// byte.
pub proof fn law_bytes_of_a_segment(seg: Segment, b: int)
    ensures
        seg.begin <= seg.end_ceiling ==> seg.size() == seg.end_ceiling - seg.begin + 1,
        seg.begin > seg.end_ceiling ==> seg.size() == 1,
        seg.downloaded <= seg.size() ==> seg.left() + seg.downloaded == seg.size(),
        seg.downloaded >= seg.size() ==> seg.left() == 0,
        seg.covers(b) <==> seg.begin <= b && b <= seg.end_ceiling,
{
}

/// A new segment is numbered one higher than the highest.
pub proof fn law_number_of_a_new_segment(segs: Seq<Segment>)
    requires
        segs.len() > 0,
    ensures
        exists|i: int| 0 <= i < segs.len() && top_id(segs) == (#[trigger] segs[i]).id,
        forall|i: int| 0 <= i < segs.len() ==> (#[trigger] segs[i]).id <= top_id(segs),
    decreases segs.len(),
{
    let rest = segs.drop_last();
    if rest.len() > 0 {
        law_number_of_a_new_segment(rest);
        let k = choose|i: int| 0 <= i < rest.len() && top_id(rest) == (#[trigger] rest[i]).id;
        assert(rest[k] == segs[k]);
        assert(segs[segs.len() - 1] == segs.last());
        assert forall|i: int| 0 <= i < segs.len() implies (#[trigger] segs[i]).id <= top_id(
            segs,
        ) by {
            if i < rest.len() {
                assert(rest[i] == segs[i]);
            }
        }
    } else {
        assert(top_id(rest) == 0);
        assert(top_id(segs) == segs[0].id);
    }
}

/// How long a segment will take: as long as what it lacks takes at the speed
/// since the measurement began, in whole seconds. The speed is known a second
/// after that, if bytes have come.
pub proof fn law_time_left(seg: Segment, now: int, large: bool, speed: int)
    requires
        speed >= 0,
    ensures
        ({
            let lacking = seg.left();
            let elapsed = now - seg.speed_baseline_unix_nanos;
            let gained = seg.downloaded - seg.speed_baseline_downloaded;
            let secs = seg.seconds_left(now, large);
            &&& seg.begin + seg.downloaded <= seg.end_ceiling ==> lacking == seg.end_ceiling + 1
                - seg.begin - seg.downloaded
            &&& elapsed >= 1_000_000_000 && gained > 0 && speed * elapsed <= gained * 1_000_000_000
                < (speed + 1) * elapsed ==> if speed == 0 {
                secs == 9_223_372_036_854_775_807
            } else {
                secs * speed <= lacking < (secs + 1) * speed
            }
            &&& elapsed < 1_000_000_000 || gained <= 0 ==> secs == (if large {
                9_223_372_036_854_775_807int
            } else {
                0
            })
        }),
{
    let lacking = seg.left();
    let elapsed = now - seg.speed_baseline_unix_nanos;
    let gained = seg.downloaded - seg.speed_baseline_downloaded;
    if elapsed >= 1_000_000_000 && gained > 0 && speed * elapsed <= gained * 1_000_000_000 < (speed
        + 1) * elapsed {
        let n = gained * 1_000_000_000;
        assert(n / elapsed == speed) by (nonlinear_arith)
            requires
                elapsed > 0,
                speed * elapsed <= n < (speed + 1) * elapsed,
        ;
        assert(seg.rate(now) == speed);
        if speed > 0 {
            let secs = lacking / speed;
            assert(secs * speed <= lacking < (secs + 1) * speed) by (nonlinear_arith)
                requires
                    speed > 0,
                    lacking >= 0,
                    secs == lacking / speed,
            ;
        }
    }
}

// ---------------------------------------------------------------------------
// Progress that is kept
// ---------------------------------------------------------------------------
/// Saved progress is gone on with exactly if that is wanted and it is of the
/// segmented kind, of this address, of a file of this size, and holds segments.
pub proof fn law_when_progress_is_used(
    saved: ResumeState,
    total: u64,
    url_hash: Seq<char>,
    cfg: HttpFetcherConfig,
)
    ensures
        resumes(Some(saved), total, url_hash, cfg) <==> cfg.use_sidecar_resume && saved.kind@
            == "http_segmented"@ && saved.total_bytes == total && saved.url_hash@ == url_hash
            && saved.segments@.len() > 0,
        !resumes(None, total, url_hash, cfg),
{
}

/// A new plan has nothing fetched, starts with the first byte of the file, ends
/// with its last and leaves none out; the sizes of two parts differ by a byte at
/// most.
pub proof fn law_new_plan(
    segs: Seq<ResumeSegment>,
    total: u64,
    cfg: HttpFetcherConfig,
    i: int,
    j: int,
)
    requires
        is_new_plan(segs, total, cfg),
        cfg.segment_size_hint > 0,
        cfg.concurrent_segments > 0,
        0 <= i < j < segs.len(),
    ensures
        segs.len() <= cfg.concurrent_segments,
        segs.len() < cfg.concurrent_segments ==> segs.len() * cfg.segment_size_hint >= total,
        (segs.len() - 1) * cfg.segment_size_hint < total,
        segs[i].downloaded == 0,
        segs[0].begin == 0,
        segs.last().end == total - 1,
        segs[i + 1].begin == segs[i].end + 1,
        ({
            let a = segs[i].end - segs[i].begin;
            let b = segs[j].end - segs[j].begin;
            b <= a <= b + 1
        }),
{
    let hint = cfg.segment_size_hint as int;
    let most = cfg.concurrent_segments as int;
    let count = segment_count(total as int, hint, most);
    law_number_of_segments(total as int, hint, most);
    lemma_count(total as int, hint, most);
    law_segments_are_even(total as int, count, i, j);
    assert(segs[0].begin == segment_start(total as int, count, 0));
    assert(segs[count - 1].end == segment_start(total as int, count, count) - 1);
    assert(segs[i].end == segment_start(total as int, count, i + 1) - 1);
    assert(segs[i + 1].begin == segment_start(total as int, count, i + 1));
    assert(segs[j].end == segment_start(total as int, count, j + 1) - 1);
}

/// A file without bytes has no parts.
pub proof fn law_plan_for_nothing(segs: Seq<ResumeSegment>, cfg: HttpFetcherConfig)
    requires
        is_new_plan(segs, 0, cfg),
    ensures
        segs.len() == 0,
{
}

/// What is kept of a segment: its first and last byte and how many are there.
pub proof fn law_what_is_kept(seg: Segment)
    ensures
        kept(seg).begin == seg.begin,
        kept(seg).end == seg.end_ceiling,
        kept(seg).downloaded == seg.downloaded,
{
}

/// The segments of a download start as the parts say: in order, numbered from
/// zero, waiting, with the bytes that are there.
pub proof fn law_segments_start_waiting(specs: Seq<ResumeSegment>, segs: Seq<Segment>, i: int)
    requires
        started_from(specs, segs),
        0 <= i < specs.len() <= usize::MAX,
    ensures
        segs.len() == specs.len(),
        segs[i].begin == specs[i].begin,
        segs[i].end_ceiling == specs[i].end,
        segs[i].downloaded == specs[i].downloaded,
        segs[i].state == SegmentState::Pending,
        segs[i].id == i,
{
}

/// The bytes that are there add up over the segments.
pub proof fn law_bytes_there_add_up(a: Seq<Segment>, b: Seq<Segment>, seg: Segment)
    ensures
        downloaded_of_all(a + b) == downloaded_of_all(a) + downloaded_of_all(b),
        downloaded_of_all(seq![seg]) == seg.downloaded,
        downloaded_of_all(Seq::empty()) == 0,
    decreases b.len(),
{
    assert(seq![seg].drop_last() =~= Seq::empty());
    assert(downloaded_of_all(Seq::empty()) == 0);
    if b.len() > 0 {
        law_bytes_there_add_up(a, b.drop_last(), seg);
        assert((a + b).drop_last() =~= a + b.drop_last());
    } else {
        assert(a + b =~= a);
    }
}

// ---------------------------------------------------------------------------
// Settings and the way to fetch
// ---------------------------------------------------------------------------
/// The settings that hold where nothing else is said.
pub proof fn law_standard_settings()
    ensures
        ({
            let c = HttpFetcherConfig::standard();
            &&& c.concurrent_segments == 8
            &&& c.segment_size_hint == 4 * 1024 * 1024
            &&& c.min_size_for_chunked == 50 * 1024 * 1024
            &&& c.connect_timeout == Span { secs: 10, nanos: 0 }
            &&& c.read_timeout == Span { secs: 30, nanos: 0 }
            &&& c.max_retries_per_segment == 3
            &&& c.steal_threshold == Span { secs: 3, nanos: 0 }
            &&& c.steal_min_chunk_size == 512 * 1024
            &&& c.use_sidecar_resume
            &&& c.resume_save_interval == Span { secs: 2, nanos: 0 }
            &&& c.known_total_bytes is None
        }),
{
}

/// A file is fetched in segments exactly if its size is known, not zero and
/// large enough, and the server gives out parts; then as many bytes are fetched
/// as it has.
pub proof fn law_way_to_fetch(size: Option<u64>, ranges: bool, cfg: HttpFetcherConfig)
    ensures
        ({
            let mode = mode_for(ProbeResult { content_length: size, accept_ranges: ranges }, cfg);
            &&& mode is Chunked <==> ranges && size is Some && size->0 > 0 && size->0
                >= cfg.min_size_for_chunked
            &&& mode is Chunked ==> mode->total == size->0
        }),
{
}

/// The answer to a question for the size is believed where the server says
/// success, and ranges are supported exactly if it names bytes.
pub proof fn law_head_answer(success: bool, size: Option<u64>, ranges: Option<Seq<char>>)
    ensures
        head_answer(success, size, ranges) is Some <==> success,
        head_answer(success, size, ranges) matches Some(p) ==> p.content_length == size
            && (p.accept_ranges <==> ranges is Some && occurs_in(ranges->0, "bytes"@)),
{
}

/// Bytes in hexadecimal digits: two for each, the higher half first.
pub proof fn law_hex_digits(data: Seq<u8>, i: int)
    requires
        0 <= i < data.len(),
    ensures
        hex_text(data).len() == 2 * data.len(),
        hex_text(data)[2 * i] == "0123456789abcdef"@[data[i] as int / 16],
        hex_text(data)[2 * i + 1] == "0123456789abcdef"@[data[i] as int % 16],
    decreases data.len(),
{
    reveal_strlit("0123456789abcdef");
    lemma_hex_len(data);
    let rest = data.drop_last();
    lemma_hex_len(rest);
    if i < data.len() - 1 {
        law_hex_digits(rest, i);
        assert(rest[i] == data[i]);
        assert(hex_text(data)[2 * i] == hex_text(rest)[2 * i]);
        assert(hex_text(data)[2 * i + 1] == hex_text(rest)[2 * i + 1]);
    } else {
        lemma_hex_char(data[i] as int / 16);
        lemma_hex_char(data[i] as int % 16);
    }
}

proof fn lemma_hex_char(n: int)
    requires
        0 <= n < 16,
    ensures
        hex_char(n) == "0123456789abcdef"@[n],
{
    reveal_strlit("0123456789abcdef");
}

proof fn lemma_hex_len(data: Seq<u8>)
    ensures
        hex_text(data).len() == 2 * data.len(),
    decreases data.len(),
{
    if data.len() > 0 {
        lemma_hex_len(data.drop_last());
    }
}

} // verus!
