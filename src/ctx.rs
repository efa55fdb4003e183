use vstd::prelude::*;

use crate::message::{
    AgainResponse, CancelTimerResponse, Command, ListResponse, PauseTimerResponse, Response,
    ResumeTimerResponse, StartTimerResponse, TimerInfo,
};
use crate::timer::{sat_sub, Timer, TimerId, TimerState};
use crate::timers::{
    has_free_id, is_awakening, is_listing, is_smallest_free, pause_outcome, resume_outcome, Timers,
};

verus! {

/// A notice from the power manager that the system is about to sleep or has
/// just woken.
#[derive(Debug, Clone, Copy, PartialEq, Eq, Structural)]
pub enum SuspendSignal {
    GoingToSleep,
    WakingUp,
}

/// Whether the time keeper is counting down, or waiting for the system to
/// wake from a sleep that began at `slept_at`, an instant of the wall clock.
#[derive(Debug, Clone, Copy, PartialEq, Eq, Structural)]
pub enum KeepTimeState {
    Awake,
    Asleep { slept_at: u64 },
}

/// What ends the time keeper's wait while the system is awake.
#[derive(Debug, Clone, Copy, PartialEq, Eq, Structural)]
pub enum AwakeEvent {
    /// The registry changed; the next timer to wait on is worked out again.
    Refresh,
    /// The power manager spoke.
    Suspend(SuspendSignal),
    /// The wait on this timer ran its course.
    Due(TimerId),
}

/// The state that a suspend signal leads to while awake: a sleep that begins
/// at `wall_now`, or no change where the signal is a wake-up that never had a
/// sleep before it.
pub open spec fn awake_signal_state(signal: SuspendSignal, wall_now: u64) -> KeepTimeState {
    match signal {
        SuspendSignal::WakingUp => KeepTimeState::Awake,
        SuspendSignal::GoingToSleep => KeepTimeState::Asleep { slept_at: wall_now },
    }
}

pub fn handle_suspend_signal_awake_state(signal: SuspendSignal, wall_now: u64) -> (r:
    KeepTimeState)
    ensures
        r == awake_signal_state(signal, wall_now),
{
    match signal {
        SuspendSignal::WakingUp => KeepTimeState::Awake,
        SuspendSignal::GoingToSleep => KeepTimeState::Asleep { slept_at: wall_now },
    }
}

/// How long the system slept, by the wall clock; zero where the clock went
/// backwards meanwhile.
pub fn sleep_duration(slept_at: u64, woke_at: u64) -> (r: u64)
    ensures
        r == sat_sub(woke_at, slept_at),
{
    woke_at.saturating_sub(slept_at)
}

/// `r` and `after` are what starting a timer at `now` for `duration` answers
/// and makes of the registry `before`.
pub open spec fn is_start(
    before: Map<u64, Timer>,
    after: Map<u64, Timer>,
    r: Option<TimerId>,
    duration: u64,
    now: u64,
) -> bool {
    &&& r is None <==> !has_free_id(before)
    &&& r is None ==> after == before
    &&& r matches Some(id) ==> is_smallest_free(before, id.0) && after == before.insert(
        id.0,
        Timer::running_spec(now, duration),
    )
}

/// `r` and `after` are what starting again at `now` the duration `last`
/// answers and makes of the registry `before`.
pub open spec fn is_again(
    before: Map<u64, Timer>,
    after: Map<u64, Timer>,
    r: AgainResponse,
    last: Option<u64>,
    now: u64,
) -> bool {
    match last {
        Some(d) => if has_free_id(before) {
            r matches AgainResponse::Success { id, duration } && duration == d && is_smallest_free(
                before,
                id.0,
            ) && after == before.insert(id.0, Timer::running_spec(now, d))
        } else {
            r == AgainResponse::NonePreviouslyStarted && after == before
        },
        None => r == AgainResponse::NonePreviouslyStarted && after == before,
    }
}

/// Everything the daemon keeps: the timers, and the duration that was last
/// started, in milliseconds.
pub struct DaemonCtx {
    pub timers: Timers,
    pub last_started: Option<u64>,
}

impl DaemonCtx {
    /// A daemon with no timers, that has started none.
    pub fn new() -> (r: Self)
        ensures
            r.timers@.dom() == Set::<u64>::empty(),
            r.last_started is None,
    {
        DaemonCtx { timers: Timers::new(), last_started: None }
    }

    /// Every timer as a client sees it at `now`, by ascending id.
    pub fn get_timerinfo_for_client(&self, now: u64) -> (r: Vec<TimerInfo>)
        ensures
            is_listing(r@, self.timers@, now),
    {
        self.timers.get_timerinfo_for_client(now)
    }

    /// Starts a timer at `now` for `duration` under the smallest free id and
    /// remembers the duration. `None`, changing nothing, only where every
    /// positive id is in use.
    pub fn start_timer(&mut self, now: u64, duration: u64) -> (r: Option<TimerId>)
        ensures
            is_start(old(self).timers@, final(self).timers@, r, duration, now),
            final(self).last_started == (if r is Some {
                Some(duration)
            } else {
                old(self).last_started
            }),
    {
        let r = self.timers.insert_new(duration, now);
        if r.is_some() {
            self.last_started = Some(duration);
        }
        r
    }

    /// Pauses timer `id` at `now`.
    pub fn pause_timer(&mut self, id: TimerId, now: u64) -> (r: PauseTimerResponse)
        ensures
            (r, final(self).timers@) == pause_outcome(old(self).timers@, id.0, now),
            final(self).last_started == old(self).last_started,
    {
        self.timers.pause(id, now)
    }

    /// Resumes timer `id` at `now`.
    pub fn resume_timer(&mut self, id: TimerId, now: u64) -> (r: ResumeTimerResponse)
        ensures
            (r, final(self).timers@) == resume_outcome(old(self).timers@, id.0, now),
            final(self).last_started == old(self).last_started,
    {
        self.timers.resume(id, now)
    }

    /// Cancels timer `id`, whatever its state.
    pub fn cancel_timer(&mut self, id: TimerId) -> (r: CancelTimerResponse)
        ensures
            r == CancelTimerResponse::Success <==> old(self).timers@.contains_key(id.0),
            r == CancelTimerResponse::TimerNotFound <==> !old(self).timers@.contains_key(id.0),
            final(self).timers@ == old(self).timers@.remove(id.0),
            final(self).last_started == old(self).last_started,
    {
        self.timers.cancel(id)
    }

    /// Starts a new timer at `now` for the duration that was last started.
    /// Where none was, or where every positive id is in use, nothing changes.
    pub fn again(&mut self, now: u64) -> (r: AgainResponse)
        ensures
            final(self).last_started == old(self).last_started,
            is_again(old(self).timers@, final(self).timers@, r, old(self).last_started, now),
    {
        match self.last_started {
            Some(duration) => match self.timers.insert_new(duration, now) {
                Some(id) => AgainResponse::Success { id, duration },
                None => AgainResponse::NonePreviouslyStarted,
            },
            None => AgainResponse::NonePreviouslyStarted,
        }
    }

    /// One turn of the time keeper while the system is awake: what `event`
    /// leads to, at `wall_now` by the wall clock, and the timers that elapsed
    /// on it. A timer that came due is marked elapsed and reported, unless it
    /// stopped running in the meantime.
    pub fn handle_awake_state(&mut self, event: AwakeEvent, wall_now: u64) -> (r: (
        KeepTimeState,
        Vec<TimerId>,
    ))
        ensures
            final(self).last_started == old(self).last_started,
            match event {
                AwakeEvent::Refresh => r.0 == KeepTimeState::Awake && r.1@.len() == 0
                    && final(self).timers@ == old(self).timers@,
                AwakeEvent::Suspend(signal) => r.0 == awake_signal_state(signal, wall_now)
                    && r.1@.len() == 0 && final(self).timers@ == old(self).timers@,
                AwakeEvent::Due(id) => r.0 == KeepTimeState::Awake && if old(
                    self,
                ).timers@.contains_key(id.0) && old(self).timers@[id.0].is_running() {
                    r.1@ == seq![id] && final(self).timers@ == old(self).timers@.insert(
                        id.0,
                        old(self).timers@[id.0].elapsed_spec(),
                    )
                } else {
                    r.1@.len() == 0 && final(self).timers@ == old(self).timers@
                },
            },
    {
        match event {
            AwakeEvent::Refresh => (KeepTimeState::Awake, Vec::new()),
            AwakeEvent::Suspend(signal) => (
                handle_suspend_signal_awake_state(signal, wall_now),
                Vec::new(),
            ),
            AwakeEvent::Due(id) => {
                let mut elapsed: Vec<TimerId> = Vec::new();
                if let Some(timer) = self.timers.get(id) {
                    if let TimerState::Running(_) = timer.state {
                        self.timers.set_elapsed(id);
                        elapsed.push(id);
                    }
                }
                (KeepTimeState::Awake, elapsed)
            },
        }
    }

    /// One turn of the time keeper while the system sleeps since `slept_at`:
    /// a wake-up at `woke_at` by the wall clock and `now` by the monotonic
    /// clock settles the timers for the time slept and reports those that ran
    /// out; a second notice of sleep changes nothing.
    pub fn handle_asleep_state(
        &mut self,
        slept_at: u64,
        signal: SuspendSignal,
        woke_at: u64,
        now: u64,
    ) -> (r: (KeepTimeState, Vec<TimerId>))
        ensures
            final(self).last_started == old(self).last_started,
            signal == SuspendSignal::GoingToSleep ==> r.0 == (KeepTimeState::Asleep { slept_at })
                && r.1@.len() == 0 && final(self).timers@ == old(self).timers@,
            signal == SuspendSignal::WakingUp ==> r.0 == KeepTimeState::Awake && is_awakening(
                old(self).timers@,
                final(self).timers@,
                r.1@,
                sat_sub(woke_at, slept_at),
                now,
            ),
    {
        match signal {
            SuspendSignal::GoingToSleep => (KeepTimeState::Asleep { slept_at }, Vec::new()),
            SuspendSignal::WakingUp => {
                let slept = sleep_duration(slept_at, woke_at);
                let elapsed = self.timers.awaken(slept, now);
                (KeepTimeState::Awake, elapsed)
            },
        }
    }
}

/// Carries out one client request at `now` and gives the answer. Starting a
/// timer when every positive id is in use is answered with an error and
/// changes nothing.
pub fn handle_command(cmd: Command, state: &mut DaemonCtx, now: u64) -> (r: Response)
    ensures
        match cmd {
            Command::List => {
                &&& r matches Response::List(ListResponse::Success { timers }) && is_listing(
                    timers@,
                    old(state).timers@,
                    now,
                )
                &&& final(state).timers@ == old(state).timers@
                &&& final(state).last_started == old(state).last_started
            },
            Command::StartTimer { duration } => if has_free_id(old(state).timers@) {
                &&& r matches Response::AddTimer(StartTimerResponse::Success { id }) && is_start(
                    old(state).timers@,
                    final(state).timers@,
                    Some(id),
                    duration,
                    now,
                )
                &&& final(state).last_started == Some(duration)
            } else {
                &&& r is Error
                &&& final(state).timers@ == old(state).timers@
                &&& final(state).last_started == old(state).last_started
            },
            Command::PauseTimer(id) => {
                &&& r matches Response::PauseTimer(p) && (p, final(state).timers@) == pause_outcome(
                    old(state).timers@,
                    id.0,
                    now,
                )
                &&& final(state).last_started == old(state).last_started
            },
            Command::ResumeTimer(id) => {
                &&& r matches Response::ResumeTimer(p) && (p, final(state).timers@)
                    == resume_outcome(old(state).timers@, id.0, now)
                &&& final(state).last_started == old(state).last_started
            },
            Command::CancelTimer(id) => {
                &&& r == Response::CancelTimer(
                    if old(state).timers@.contains_key(id.0) {
                        CancelTimerResponse::Success
                    } else {
                        CancelTimerResponse::TimerNotFound
                    },
                )
                &&& final(state).timers@ == old(state).timers@.remove(id.0)
                &&& final(state).last_started == old(state).last_started
            },
            Command::Again => {
                &&& r matches Response::Again(a) && is_again(
                    old(state).timers@,
                    final(state).timers@,
                    a,
                    old(state).last_started,
                    now,
                )
                &&& final(state).last_started == old(state).last_started
            },
        },
{
    match cmd {
        Command::List => Response::List(ListResponse::ok(state.get_timerinfo_for_client(now))),
        Command::StartTimer { duration } => match state.start_timer(now, duration) {
            Some(id) => Response::AddTimer(StartTimerResponse::ok(id)),
            None => Response::Error("no timer id is free".to_owned()),
        },
        Command::PauseTimer(id) => Response::PauseTimer(state.pause_timer(id, now)),
        Command::ResumeTimer(id) => Response::ResumeTimer(state.resume_timer(id, now)),
        Command::CancelTimer(id) => Response::CancelTimer(state.cancel_timer(id)),
        Command::Again => Response::Again(state.again(now)),
    }
}

} // verus!
