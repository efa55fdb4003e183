//! Countdown timers that can be paused, resumed and cancelled, kept in a
//! registry keyed by small reusable ids, with a time-keeping state machine that
//! survives system suspend.
//!
//! All instants and durations are whole milliseconds held in `u64`: instants of
//! the monotonic clock for due times, instants of the wall clock for suspend
//! bookkeeping.

pub mod cli;
pub mod ctx;
pub mod duration;
pub mod message;
pub mod socket;
pub mod timer;
pub mod timers;
pub mod ui;
