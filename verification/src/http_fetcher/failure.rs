//! What a failed request means for the download.
use vstd::prelude::*;

use crate::text::{contains, occurs_at, occurs_in};

verus! {

/// The message tells of a failure that another attempt would not mend: the
/// server refuses the file, sends a web page for it, or the download was
/// cancelled.
pub open spec fn fatal_text(m: Seq<char>) -> bool {
    ||| occurs_in(m, "HTTP 400"@)
    ||| occurs_in(m, "HTTP 401"@)
    ||| occurs_in(m, "HTTP 403"@)
    ||| occurs_in(m, "HTTP 404"@)
    ||| occurs_in(m, "HTTP 405"@)
    ||| occurs_in(m, "HTTP 410"@)
    ||| occurs_in(m, "HTTP 451"@)
    ||| occurs_in(m, "HTML instead of media"@)
    ||| occurs_in(m, "cancelled"@)
}

/// Whether the message tells of a failure that another attempt would not mend.
pub fn is_fatal(message: &str) -> (r: bool)
    ensures
        r == fatal_text(message@),
{
    contains(message, "HTTP 400") || contains(message, "HTTP 401") || contains(message, "HTTP 403")
        || contains(message, "HTTP 404") || contains(message, "HTTP 405") || contains(
        message,
        "HTTP 410",
    ) || contains(message, "HTTP 451") || contains(message, "HTML instead of media") || contains(
        message,
        "cancelled",
    )
}

/// What a worker does after an attempt at a segment has failed.
#[derive(Debug, Clone, Copy, PartialEq, Eq, Structural)]
pub enum AfterFailure {
    /// The download was cancelled: stop without an error.
    Stop,
    /// The segment has failed, and the download with it.
    GiveUp,
    /// Wait, and try again.
    Retry {
        /// Attempts that have failed.
        attempt: u32,
        /// Seconds to wait.
        delay_secs: u64,
    },
}

/// What a worker does when attempt number `attempt + 1` has failed.
pub open spec fn next_step(cancelled: bool, message: Seq<char>, attempt: u32, max: u32) -> AfterFailure {
    if cancelled {
        AfterFailure::Stop
    } else if fatal_text(message) || attempt + 1 >= max {
        AfterFailure::GiveUp
    } else {
        AfterFailure::Retry {
            attempt: (attempt + 1) as u32,
            delay_secs: if attempt + 1 <= 5 {
                (attempt + 1) as u64
            } else {
                5
            },
        }
    }
}

/// Decides how a worker goes on after `attempt` failed attempts and one more.
pub fn after_failure(cancelled: bool, message: &str, attempt: u32, max_retries: u32) -> (r:
    AfterFailure)
    requires
        attempt < u32::MAX,
    ensures
        r == next_step(cancelled, message@, attempt, max_retries),
{
    if cancelled {
        return AfterFailure::Stop;
    }
    if is_fatal(message) {
        return AfterFailure::GiveUp;
    }
    let attempt: u32 = attempt + 1;
    if attempt >= max_retries {
        return AfterFailure::GiveUp;
    }
    let delay_secs: u64 = if attempt <= 5 {
        attempt as u64
    } else {
        5
    };
    AfterFailure::Retry { attempt, delay_secs }
}

/// How many attempts fail in a row before a worker gives up, counted from the
/// state after `attempt` failures, where nothing is fatal and nobody cancels.
pub open spec fn failures_until_give_up(attempt: u32, max: u32) -> int
    decreases max - attempt,
{
    if attempt + 1 >= max {
        1
    } else {
        1 + failures_until_give_up((attempt + 1) as u32, max)
    }
}

/// A segment is tried as often as the settings say, and at least once, before
/// the download fails; the wait grows by a second each time, up to five.
pub proof fn law_attempts_are_limited(message: Seq<char>, attempt: u32, max: u32)
    requires
        !fatal_text(message),
        attempt == 0 || attempt < max,
    ensures
        failures_until_give_up(attempt, max) == (if max > attempt {
            max - attempt
        } else {
            1
        }),
        next_step(false, message, attempt, max) is GiveUp <==> failures_until_give_up(attempt, max)
            == 1,
        next_step(false, message, attempt, max) matches AfterFailure::Retry {
            attempt: a,
            delay_secs,
        } ==> a == attempt + 1 && a < max && 1 <= delay_secs <= 5 && failures_until_give_up(a, max)
            == failures_until_give_up(attempt, max) - 1,
    decreases max - attempt,
{
    if attempt + 1 < max {
        law_attempts_are_limited(message, (attempt + 1) as u32, max);
    }
}

/// A text in which some character of the message does not occur does not hold
/// the message.
pub proof fn lemma_missing_char(text: Seq<char>, message: Seq<char>, at: int)
    requires
        0 <= at < message.len(),
        forall|i: int| 0 <= i < text.len() ==> #[trigger] text[i] != message[at],
    ensures
        !occurs_in(text, message),
{
    assert forall|i: int| !#[trigger] occurs_at(text, message, i) by {
        if occurs_at(text, message, i) {
            assert(text.subrange(i, i + message.len())[at] == text[i + at]);
        }
    }
}

/// A message without a capital `H` and without a `d` is never fatal.
pub proof fn lemma_harmless(m: Seq<char>)
    requires
        forall|i: int| 0 <= i < m.len() ==> #[trigger] m[i] != 'H' && m[i] != 'd',
    ensures
        !fatal_text(m),
{
    reveal_strlit("HTTP 400");
    reveal_strlit("HTTP 401");
    reveal_strlit("HTTP 403");
    reveal_strlit("HTTP 404");
    reveal_strlit("HTTP 405");
    reveal_strlit("HTTP 410");
    reveal_strlit("HTTP 451");
    reveal_strlit("HTML instead of media");
    reveal_strlit("cancelled");
    lemma_missing_char(m, "HTTP 400"@, 0);
    lemma_missing_char(m, "HTTP 401"@, 0);
    lemma_missing_char(m, "HTTP 403"@, 0);
    lemma_missing_char(m, "HTTP 404"@, 0);
    lemma_missing_char(m, "HTTP 405"@, 0);
    lemma_missing_char(m, "HTTP 410"@, 0);
    lemma_missing_char(m, "HTTP 451"@, 0);
    lemma_missing_char(m, "HTML instead of media"@, 0);
    lemma_missing_char(m, "cancelled"@, 8);
}

/// Text that stands somewhere in a part stands in the whole.
pub proof fn lemma_occurs_in_part(before: Seq<char>, part: Seq<char>, behind: Seq<char>, needle: Seq<char>)
    requires
        occurs_in(part, needle),
    ensures
        occurs_in(before + part + behind, needle),
{
    let i = choose|i: int| #[trigger] occurs_at(part, needle, i);
    let whole = before + part + behind;
    assert(whole.subrange(before.len() + i, before.len() + i + needle.len()) =~= part.subrange(
        i,
        i + needle.len(),
    ));
    assert(occurs_at(whole, needle, before.len() + i));
}

} // verus!
