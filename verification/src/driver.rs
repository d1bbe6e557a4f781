//! The scrape loop as a state machine: what to do next after each thing
//! that happened. The caller performs the action and reports the event.

use vstd::prelude::*;
use crate::fetcher::{FetchError, FetchErrorKind};
use crate::metrics::prometheus::fetch_errors::{ErrorCounters, ErrorCounts};

verus! {

/// Where the scrape loop stands.
#[derive(Clone, Copy, Debug, PartialEq, Eq, Structural)]
pub enum DriverState {
    /// Not started yet.
    Idle,
    /// A fetch of the status document is under way.
    Fetching,
    /// The fetched document is being converted into metrics.
    Converting,
    /// The loop waits for the next tick.
    Sleeping,
    /// The loop has ended on a failure of the binding.
    Stopped,
}

/// What the caller is to do next.
#[derive(Clone, Copy, Debug, PartialEq, Eq, Structural)]
pub enum Action {
    /// Nothing: the loop was not started.
    Wait,
    /// Fetch the status document.
    Fetch,
    /// Convert the fetched document.
    Convert,
    /// Sleep for one period.
    Sleep,
    /// End the loop and report the fatal error.
    Stop,
}

/// What happened.
pub enum Event {
    /// The loop is started.
    Start,
    /// The fetch has ended, with the value under the status key, if there
    /// was one, or with an error of the source.
    Fetched(Result<Option<Vec<u8>>, FetchError>),
    /// The conversion has ended.
    Converted,
    /// The period of sleep is over.
    Woke,
}

/// What an event is for the state machine.
#[derive(Clone, Copy, Debug, PartialEq, Eq, Structural)]
pub enum EventKind {
    Start,
    /// The fetch gave something to convert: a value, or the lack of one.
    FetchedValue,
    /// The fetch failed with an error of a kind.
    FetchFailed(FetchErrorKind),
    Converted,
    Woke,
}

impl Event {
    /// What the event is for the state machine.
    pub open spec fn spec_kind(&self) -> EventKind {
        match self {
            Event::Start => EventKind::Start,
            Event::Fetched(Ok(_)) => EventKind::FetchedValue,
            Event::Fetched(Err(e)) => EventKind::FetchFailed(e.spec_kind()),
            Event::Converted => EventKind::Converted,
            Event::Woke => EventKind::Woke,
        }
    }

    /// What the event is for the state machine.
    #[verifier::when_used_as_spec(spec_kind)]
    pub fn kind(&self) -> (k: EventKind)
        ensures
            k == self.spec_kind(),
    {
        match self {
            Event::Start => EventKind::Start,
            Event::Fetched(Ok(_)) => EventKind::FetchedValue,
            Event::Fetched(Err(e)) => EventKind::FetchFailed(e.kind()),
            Event::Converted => EventKind::Converted,
            Event::Woke => EventKind::Woke,
        }
    }
}

/// What is to be done in a state while nothing new has happened.
pub open spec fn pending(state: DriverState) -> Action {
    match state {
        DriverState::Idle => Action::Wait,
        DriverState::Fetching => Action::Fetch,
        DriverState::Converting => Action::Convert,
        DriverState::Sleeping => Action::Sleep,
        DriverState::Stopped => Action::Stop,
    }
}

/// The state after an event. The loop runs Idle, Fetching, Converting,
/// Sleeping, Fetching and so on. A fetch that fails skips the conversion; it
/// ends the loop if the binding failed, and leads to sleep otherwise. An
/// event that the state does not wait for changes nothing.
pub open spec fn next_state(state: DriverState, event: EventKind) -> DriverState {
    match (state, event) {
        (DriverState::Idle, EventKind::Start) => DriverState::Fetching,
        (DriverState::Fetching, EventKind::FetchedValue) => DriverState::Converting,
        (DriverState::Fetching, EventKind::FetchFailed(FetchErrorKind::FdbBinding)) => {
            DriverState::Stopped
        },
        (DriverState::Fetching, EventKind::FetchFailed(_)) => DriverState::Sleeping,
        (DriverState::Converting, EventKind::Converted) => DriverState::Sleeping,
        (DriverState::Sleeping, EventKind::Woke) => DriverState::Fetching,
        _ => state,
    }
}

/// Whether an event in a state is a failed fetch that the loop survives:
/// such a failure is counted.
pub open spec fn counts_failure(state: DriverState, event: EventKind) -> bool {
    &&& state == DriverState::Fetching
    &&& event matches EventKind::FetchFailed(kind)
    &&& kind != FetchErrorKind::FdbBinding
}

/// The error counts after an event.
pub open spec fn next_counts(counts: ErrorCounts, state: DriverState, event: EventKind) -> ErrorCounts {
    match event {
        EventKind::FetchFailed(kind) => if counts_failure(state, event) {
            counts.counted(kind)
        } else {
            counts
        },
        _ => counts,
    }
}

/// Takes one step of the scrape loop: counts a failed fetch that the loop
/// survives, and says which state comes next and what to do in it.
pub fn step(state: DriverState, event: &Event, errors: &mut ErrorCounters) -> (next: (
    DriverState,
    Action,
))
    ensures
        next.0 == next_state(state, event.kind()),
        next.1 == pending(next.0),
        final(errors)@ == next_counts(old(errors)@, state, event.kind()),
        final(errors).titles() == old(errors).titles(),
{
    match state {
        DriverState::Idle => match event {
            Event::Start => (DriverState::Fetching, Action::Fetch),
            _ => (DriverState::Idle, Action::Wait),
        },
        DriverState::Fetching => match event {
            Event::Fetched(Ok(_)) => (DriverState::Converting, Action::Convert),
            Event::Fetched(Err(e)) => {
                if e.is_fatal() {
                    (DriverState::Stopped, Action::Stop)
                } else {
                    e.to_metrics(errors);
                    (DriverState::Sleeping, Action::Sleep)
                }
            },
            _ => (DriverState::Fetching, Action::Fetch),
        },
        DriverState::Converting => match event {
            Event::Converted => (DriverState::Sleeping, Action::Sleep),
            _ => (DriverState::Converting, Action::Convert),
        },
        DriverState::Sleeping => match event {
            Event::Woke => (DriverState::Fetching, Action::Fetch),
            _ => (DriverState::Sleeping, Action::Sleep),
        },
        DriverState::Stopped => (DriverState::Stopped, Action::Stop),
    }
}

/// The loop never leaves `Stopped`, and only a failure of the binding while
/// fetching leads there.
pub proof fn stopped_is_final(state: DriverState, event: EventKind)
    ensures
        state == DriverState::Stopped ==> next_state(state, event) == DriverState::Stopped,
        state != DriverState::Stopped && next_state(state, event) == DriverState::Stopped ==> state
            == DriverState::Fetching && event == EventKind::FetchFailed(FetchErrorKind::FdbBinding),
{
}

} // verus!
