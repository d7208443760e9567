//! One of the workers that fetch a file in segments.
use vstd::prelude::*;

use crate::http_fetcher::failure::{after_failure, next_step, AfterFailure};

verus! {

/// What a worker is at.
#[derive(Debug, Clone, Copy, PartialEq, Eq, Structural)]
pub enum WorkerState {
    /// It looks for a segment.
    Seeking,
    /// It has a segment.
    Holding {
        /// The place of the segment in the list.
        segment: usize,
        /// Attempts at it that have failed.
        attempt: u32,
    },
    /// It has stopped.
    Stopped,
}

/// What a worker is told.
#[derive(Debug)]
pub enum WorkerEvent {
    /// It has been started.
    Started,
    /// It looked for a segment, and this is what it took.
    Claimed(Option<usize>),
    /// The attempt at its segment has ended.
    Fetched(Result<(), String>),
    /// Its wait is over.
    Woke,
}

/// What a worker does next.
#[derive(Debug, Clone)]
pub enum WorkerAction {
    /// Look for a segment.
    Claim,
    /// Fetch the segment.
    Fetch(usize),
    /// Record that the segment is complete, then look for another one.
    DoneThenClaim(usize),
    /// Record that the segment is complete, then stop.
    DoneThenStop(usize),
    /// Wait, in seconds.
    Sleep(u64),
    /// Record that the segment has failed, and stop with the error.
    FailWith(usize, String),
    /// Stop without an error.
    Stop,
}

impl WorkerState {
    /// The worker is still within the attempts that the settings allow.
    pub open spec fn within(self, max_retries: u32) -> bool {
        self matches WorkerState::Holding { attempt, .. } ==> attempt == 0 || attempt < max_retries
    }

    /// The event is one that can follow what the worker does.
    pub open spec fn expects(self, event: WorkerEvent) -> bool {
        match event {
            WorkerEvent::Started | WorkerEvent::Claimed(_) => self is Seeking,
            WorkerEvent::Fetched(_) | WorkerEvent::Woke => self is Holding,
        }
    }
}

/// `after` and `action` are how a worker goes on from `before` when told
/// `event`. A worker that is cancelled stops without an error at every turn; a
/// segment it has fetched is still recorded.
pub open spec fn goes_on(
    before: WorkerState,
    event: WorkerEvent,
    cancelled: bool,
    max_retries: u32,
    after: WorkerState,
    action: WorkerAction,
) -> bool {
    match (before, event) {
        (WorkerState::Seeking, WorkerEvent::Started) => if cancelled {
            after is Stopped && action is Stop
        } else {
            after is Seeking && action is Claim
        },
        (WorkerState::Seeking, WorkerEvent::Claimed(None)) => after is Stopped && action is Stop,
        (WorkerState::Seeking, WorkerEvent::Claimed(Some(k))) => if cancelled {
            after is Stopped && action is Stop
        } else {
            after == (WorkerState::Holding { segment: k, attempt: 0 }) && action
                == WorkerAction::Fetch(k)
        },
        (WorkerState::Holding { segment, .. }, WorkerEvent::Fetched(Ok(()))) => if cancelled {
            after is Stopped && action == WorkerAction::DoneThenStop(segment)
        } else {
            after is Seeking && action == WorkerAction::DoneThenClaim(segment)
        },
        (WorkerState::Holding { segment, attempt }, WorkerEvent::Fetched(Err(e))) => match next_step(
            cancelled,
            e@,
            attempt,
            max_retries,
        ) {
            AfterFailure::Stop => after is Stopped && action is Stop,
            AfterFailure::GiveUp => after is Stopped && action == WorkerAction::FailWith(segment, e),
            AfterFailure::Retry { attempt: n, delay_secs } => after == (WorkerState::Holding {
                segment,
                attempt: n,
            }) && action == WorkerAction::Sleep(delay_secs),
        },
        (WorkerState::Holding { segment, .. }, WorkerEvent::Woke) => if cancelled {
            after is Stopped && action is Stop
        } else {
            after == before && action == WorkerAction::Fetch(segment)
        },
        _ => false,
    }
}

/// Tells a worker how to go on.
pub fn worker_step(state: WorkerState, event: WorkerEvent, cancelled: bool, max_retries: u32) -> (r:
    (WorkerState, WorkerAction))
    requires
        state.expects(event),
        state.within(max_retries),
    ensures
        goes_on(state, event, cancelled, max_retries, r.0, r.1),
        r.0.within(max_retries),
{
    match event {
        WorkerEvent::Started => if cancelled {
            (WorkerState::Stopped, WorkerAction::Stop)
        } else {
            (WorkerState::Seeking, WorkerAction::Claim)
        },
        WorkerEvent::Claimed(claimed) => match claimed {
            None => (WorkerState::Stopped, WorkerAction::Stop),
            Some(k) => if cancelled {
                (WorkerState::Stopped, WorkerAction::Stop)
            } else {
                (WorkerState::Holding { segment: k, attempt: 0 }, WorkerAction::Fetch(k))
            },
        },
        WorkerEvent::Fetched(outcome) => match state {
            WorkerState::Holding { segment, attempt } => match outcome {
                Ok(()) => if cancelled {
                    (WorkerState::Stopped, WorkerAction::DoneThenStop(segment))
                } else {
                    (WorkerState::Seeking, WorkerAction::DoneThenClaim(segment))
                },
                Err(e) => match after_failure(cancelled, e.as_str(), attempt, max_retries) {
                    AfterFailure::Stop => (WorkerState::Stopped, WorkerAction::Stop),
                    AfterFailure::GiveUp => (
                        WorkerState::Stopped,
                        WorkerAction::FailWith(segment, e),
                    ),
                    AfterFailure::Retry { attempt, delay_secs } => (
                        WorkerState::Holding { segment, attempt },
                        WorkerAction::Sleep(delay_secs),
                    ),
                },
            },
            _ => (state, WorkerAction::Stop),
        },
        WorkerEvent::Woke => match state {
            WorkerState::Holding { segment, .. } => if cancelled {
                (WorkerState::Stopped, WorkerAction::Stop)
            } else {
                (state, WorkerAction::Fetch(segment))
            },
            _ => (state, WorkerAction::Stop),
        },
    }
}

/// A worker that is cancelled stops, and never with an error.
pub proof fn law_cancelled_worker_stops(
    before: WorkerState,
    event: WorkerEvent,
    max_retries: u32,
    after: WorkerState,
    action: WorkerAction,
)
    requires
        before.expects(event),
        goes_on(before, event, true, max_retries, after, action),
    ensures
        after is Stopped,
        !(action is FailWith),
{
}

} // verus!
