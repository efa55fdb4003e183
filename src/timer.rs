use vstd::prelude::*;

use crate::duration::{decimal, push_decimal, string_from_chars};
use crate::message::{PauseTimerResponse, ResumeTimerResponse};

verus! {

/// `a - b`, or zero where `b` is past `a`.
pub open spec fn sat_sub(a: u64, b: u64) -> u64 {
    if a >= b {
        (a - b) as u64
    } else {
        0
    }
}

/// `a + b`, or the largest instant where the sum does not fit.
pub open spec fn sat_add(a: u64, b: u64) -> u64 {
    if a + b <= u64::MAX {
        (a + b) as u64
    } else {
        u64::MAX
    }
}

/// Identifier of a registered timer. Unique among the timers that are
/// currently registered; a freed id is handed out again.
#[derive(PartialEq, Eq, PartialOrd, Ord, Hash, Debug, Clone, Copy, Structural)]
pub struct TimerId(pub u64);

impl Default for TimerId {
    /// The first id that the registry hands out.
    fn default() -> (r: Self)
        ensures
            r.0 == 1,
    {
        TimerId(1)
    }
}

impl TimerId {
    /// How the id is shown to users: `#` and the number, as in `#12`.
    pub fn display(&self) -> (r: String)
        ensures
            r@ == seq!['#'] + decimal(self.0 as nat),
    {
        let mut out: Vec<char> = Vec::new();
        out.push('#');
        push_decimal(&mut out, self.0);
        string_from_chars(&out)
    }
}

/// A timer frozen with `remaining` milliseconds left.
#[derive(Debug, Clone, Copy, PartialEq, Eq, Structural)]
pub struct PausedTimer {
    pub remaining: u64,
}

/// A timer counting down to `due`, an instant of the monotonic clock.
#[derive(Debug, Clone, Copy, PartialEq, Eq, Structural)]
pub struct RunningTimer {
    pub due: u64,
}

#[derive(Debug, Clone, Copy, PartialEq, Eq, Structural)]
pub enum TimerState {
    Paused(PausedTimer),
    Running(RunningTimer),
    /// An elapsed timer stays registered, so that its id stays reserved until
    /// it is cancelled or removed.
    Elapsed,
}

#[derive(Debug, Clone, Copy, PartialEq, Eq, Structural)]
pub struct Timer {
    /// The duration that the timer was started with; never changed afterwards.
    pub initial_duration: u64,
    pub state: TimerState,
}

impl Timer {
    /// The running timer started at `now` for `initial_duration`.
    pub open spec fn running_spec(now: u64, initial_duration: u64) -> Timer {
        Timer {
            initial_duration,
            state: TimerState::Running(RunningTimer { due: sat_add(now, initial_duration) }),
        }
    }

    /// Time left at `now`: stored while paused, `due - now` (never negative)
    /// while running, zero once elapsed.
    pub open spec fn remaining_spec(self, now: u64) -> u64 {
        match self.state {
            TimerState::Paused(p) => p.remaining,
            TimerState::Running(r) => sat_sub(r.due, now),
            TimerState::Elapsed => 0,
        }
    }

    pub open spec fn is_running(self) -> bool {
        self.state is Running
    }

    pub open spec fn is_paused(self) -> bool {
        self.state is Paused
    }

    pub open spec fn is_elapsed(self) -> bool {
        self.state is Elapsed
    }

    /// This timer paused at `now`: what was left is frozen.
    pub open spec fn paused_spec(self, now: u64) -> Timer {
        Timer {
            initial_duration: self.initial_duration,
            state: TimerState::Paused(PausedTimer { remaining: self.remaining_spec(now) }),
        }
    }

    /// This timer resumed at `now`: due once what was left has passed.
    pub open spec fn resumed_spec(self, now: u64) -> Timer {
        Timer {
            initial_duration: self.initial_duration,
            state: TimerState::Running(
                RunningTimer { due: sat_add(now, self.remaining_spec(now)) },
            ),
        }
    }

    /// This timer marked elapsed.
    pub open spec fn elapsed_spec(self) -> Timer {
        Timer { initial_duration: self.initial_duration, state: TimerState::Elapsed }
    }

    /// A timer started at `now` that runs for `initial_duration`.
    pub fn new_running(now: u64, initial_duration: u64) -> (r: Self)
        ensures
            r == Self::running_spec(now, initial_duration),
    {
        Timer {
            initial_duration,
            state: TimerState::Running(RunningTimer { due: now.saturating_add(initial_duration) }),
        }
    }

    /// Time left at `now`.
    pub fn remaining(&self, now: u64) -> (r: u64)
        ensures
            r == self.remaining_spec(now),
    {
        match self.state {
            TimerState::Paused(p) => p.remaining,
            TimerState::Running(r) => r.due.saturating_sub(now),
            TimerState::Elapsed => 0,
        }
    }

    /// Running becomes paused at `now`; any other state is left as it is and
    /// reported.
    pub fn pause(&mut self, now: u64) -> (r: PauseTimerResponse)
        ensures
            r == PauseTimerResponse::Success <==> old(self).is_running(),
            r == PauseTimerResponse::AlreadyPaused <==> old(self).is_paused(),
            r == PauseTimerResponse::AlreadyElapsed <==> old(self).is_elapsed(),
            r == PauseTimerResponse::Success ==> *final(self) == old(self).paused_spec(now),
            r != PauseTimerResponse::Success ==> *final(self) == *old(self),
    {
        match self.state {
            TimerState::Running(running) => {
                self.state = TimerState::Paused(
                    PausedTimer { remaining: running.due.saturating_sub(now) },
                );
                PauseTimerResponse::Success
            },
            TimerState::Paused(_) => PauseTimerResponse::AlreadyPaused,
            TimerState::Elapsed => PauseTimerResponse::AlreadyElapsed,
        }
    }

    /// Paused becomes running at `now`; any other state is left as it is and
    /// reported.
    pub fn resume(&mut self, now: u64) -> (r: ResumeTimerResponse)
        ensures
            r == ResumeTimerResponse::Success <==> old(self).is_paused(),
            r == ResumeTimerResponse::AlreadyRunning <==> old(self).is_running(),
            r == ResumeTimerResponse::AlreadyElapsed <==> old(self).is_elapsed(),
            r == ResumeTimerResponse::Success ==> *final(self) == old(self).resumed_spec(now),
            r != ResumeTimerResponse::Success ==> *final(self) == *old(self),
    {
        match self.state {
            TimerState::Paused(paused) => {
                self.state = TimerState::Running(
                    RunningTimer { due: now.saturating_add(paused.remaining) },
                );
                ResumeTimerResponse::Success
            },
            TimerState::Running(_) => ResumeTimerResponse::AlreadyRunning,
            TimerState::Elapsed => ResumeTimerResponse::AlreadyElapsed,
        }
    }
}

/// Pausing a running timer and resuming it at the same instant gives back the
/// timer as it was, provided it was not already overdue.
pub proof fn lemma_pause_resume_round_trip(t: Timer, now: u64)
    requires
        t.is_running(),
        t.state->Running_0.due >= now,
    ensures
        t.paused_spec(now).resumed_spec(now) == t,
{
}

} // verus!
