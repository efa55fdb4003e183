use vstd::prelude::*;

use crate::timer::{Timer, TimerId, TimerState};

verus! {

/// A request from a client.
#[derive(Debug, Clone, Copy, PartialEq, Eq, Structural)]
pub enum Command {
    List,
    /// Start a timer that runs for `duration` milliseconds.
    StartTimer { duration: u64 },
    PauseTimer(TimerId),
    ResumeTimer(TimerId),
    CancelTimer(TimerId),
    /// Start a timer for the duration that was started most recently.
    Again,
}

/// Answer to a listing: one entry per registered timer.
#[derive(Debug, PartialEq, Eq)]
pub enum ListResponse {
    Success { timers: Vec<TimerInfo> },
}

impl ListResponse {
    pub fn ok(timers: Vec<TimerInfo>) -> (r: Self)
        ensures
            r matches ListResponse::Success { timers: t } && t@ == timers@,
    {
        ListResponse::Success { timers }
    }
}

/// Answer to starting a timer: the id it was given.
#[derive(Debug, Clone, Copy, PartialEq, Eq, Structural)]
pub enum StartTimerResponse {
    Success { id: TimerId },
}

impl StartTimerResponse {
    pub fn ok(id: TimerId) -> (r: StartTimerResponse)
        ensures
            r == (StartTimerResponse::Success { id }),
    {
        StartTimerResponse::Success { id }
    }
}

/// Outcome of cancelling a timer.
#[derive(Debug, Clone, Copy, PartialEq, Eq, Structural)]
pub enum CancelTimerResponse {
    Success,
    TimerNotFound,
    AlreadyElapsed,
}

/// Outcome of pausing a timer.
#[derive(Debug, Clone, Copy, PartialEq, Eq, Structural)]
pub enum PauseTimerResponse {
    Success,
    TimerNotFound,
    AlreadyPaused,
    AlreadyElapsed,
}

/// Outcome of resuming a timer.
#[derive(Debug, Clone, Copy, PartialEq, Eq, Structural)]
pub enum ResumeTimerResponse {
    Success,
    TimerNotFound,
    AlreadyRunning,
    AlreadyElapsed,
}

/// Answer to starting again the most recent duration.
#[derive(Debug, Clone, Copy, PartialEq, Eq, Structural)]
pub enum AgainResponse {
    /// The new timer's id and its duration in milliseconds.
    Success { id: TimerId, duration: u64 },
    NonePreviouslyStarted,
}

/// Any answer to a client.
#[derive(Debug, PartialEq, Eq)]
pub enum Response {
    List(ListResponse),
    AddTimer(StartTimerResponse),
    CancelTimer(CancelTimerResponse),
    PauseTimer(PauseTimerResponse),
    ResumeTimer(ResumeTimerResponse),
    Again(AgainResponse),
    Error(String),
}

/// The state of a timer as a client sees it.
#[derive(Debug, Clone, Copy, PartialEq, Eq, Structural)]
pub enum TimerStateClient {
    Paused,
    Running,
    Elapsed,
}

/// A timer as a client sees it at one instant.
#[derive(Debug, Clone, Copy, PartialEq, Eq, Structural)]
pub struct TimerInfo {
    pub id: TimerId,
    pub state: TimerStateClient,
    /// Milliseconds left; zero once elapsed.
    pub remaining: u64,
}

/// How two durations compare.
pub open spec fn cmp_u64(a: u64, b: u64) -> std::cmp::Ordering {
    if a < b {
        std::cmp::Ordering::Less
    } else if a == b {
        std::cmp::Ordering::Equal
    } else {
        std::cmp::Ordering::Greater
    }
}

fn cmp_u64_exec(a: u64, b: u64) -> (r: std::cmp::Ordering)
    ensures
        r == cmp_u64(a, b),
{
    if a < b {
        std::cmp::Ordering::Less
    } else if a == b {
        std::cmp::Ordering::Equal
    } else {
        std::cmp::Ordering::Greater
    }
}

/// The client's view of a timer state.
pub open spec fn client_state(s: TimerState) -> TimerStateClient {
    match s {
        TimerState::Paused(_) => TimerStateClient::Paused,
        TimerState::Running(_) => TimerStateClient::Running,
        TimerState::Elapsed => TimerStateClient::Elapsed,
    }
}

impl TimerInfo {
    /// What a client is shown of `timer`, registered as `id`, at `now`.
    pub open spec fn of(id: TimerId, timer: Timer, now: u64) -> TimerInfo {
        TimerInfo { id, state: client_state(timer.state), remaining: timer.remaining_spec(now) }
    }

    pub fn new(id: TimerId, timer: &Timer, now: u64) -> (r: Self)
        ensures
            r == Self::of(id, *timer, now),
    {
        let state = match timer.state {
            TimerState::Paused(_) => TimerStateClient::Paused,
            TimerState::Running(_) => TimerStateClient::Running,
            TimerState::Elapsed => TimerStateClient::Elapsed,
        };
        TimerInfo { id, state, remaining: timer.remaining(now) }
    }

    /// Orders by time left, soonest first.
    pub fn cmp_by_next_due(t1: &Self, t2: &Self) -> (r: std::cmp::Ordering)
        ensures
            r == cmp_u64(t1.remaining, t2.remaining),
    {
        cmp_u64_exec(t1.remaining, t2.remaining)
    }

    /// Orders by id, smallest first.
    pub fn cmp_by_id(t1: &Self, t2: &Self) -> (r: std::cmp::Ordering)
        ensures
            r == cmp_u64(t1.id.0, t2.id.0),
    {
        cmp_u64_exec(t1.id.0, t2.id.0)
    }
}

} // verus!
