use sand::message::{
    CancelTimerResponse, PauseTimerResponse, ResumeTimerResponse, TimerInfo, TimerStateClient,
};
use sand::timer::{PausedTimer, RunningTimer, Timer, TimerId, TimerState};
use sand::timers::Timers;

fn ids(timers: &Timers, now: u64) -> Vec<u64> {
    timers
        .get_timerinfo_for_client(now)
        .iter()
        .map(|t| t.id.0)
        .collect()
}

#[test]
fn new_registry_is_empty() {
    let timers = Timers::new();
    assert!(timers.get_timerinfo_for_client(0).is_empty());
    assert_eq!(timers.next_due_running(0), None);
    assert_eq!(timers.get(TimerId(1)), None);
}

#[test]
fn first_start_gets_id_one() {
    let mut timers = Timers::default();
    assert_eq!(timers.first_vacant_entry(), Some(TimerId::default()));
    let id = timers.insert_new(1000, 0).unwrap();
    assert_eq!(id, TimerId(1));
    assert_eq!(
        timers.get(id),
        Some(Timer {
            initial_duration: 1000,
            state: TimerState::Running(RunningTimer { due: 1000 }),
        })
    );
}

#[test]
fn cancelled_id_is_reused_before_a_new_one() {
    let mut timers = Timers::new();
    assert_eq!(timers.insert_new(1000, 0), Some(TimerId(1)));
    assert_eq!(timers.insert_new(1000, 0), Some(TimerId(2)));
    assert_eq!(timers.insert_new(1000, 0), Some(TimerId(3)));
    assert_eq!(timers.cancel(TimerId(2)), CancelTimerResponse::Success);
    assert_eq!(timers.get(TimerId(2)), None);
    assert_eq!(timers.insert_new(500, 10), Some(TimerId(2)));
    assert_eq!(timers.insert_new(500, 10), Some(TimerId(4)));
    assert_eq!(ids(&timers, 10), vec![1, 2, 3, 4]);
}

#[test]
fn smallest_of_several_free_ids_is_taken() {
    let mut timers = Timers::new();
    for _ in 0..5 {
        timers.insert_new(1000, 0).unwrap();
    }
    assert_eq!(timers.cancel(TimerId(4)), CancelTimerResponse::Success);
    assert_eq!(timers.cancel(TimerId(2)), CancelTimerResponse::Success);
    assert_eq!(timers.first_vacant_entry(), Some(TimerId(2)));
    assert_eq!(timers.insert_new(1000, 0), Some(TimerId(2)));
    assert_eq!(timers.insert_new(1000, 0), Some(TimerId(4)));
    assert_eq!(timers.insert_new(1000, 0), Some(TimerId(6)));
}

#[test]
fn cancel_unknown_id_is_not_found() {
    let mut timers = Timers::new();
    assert_eq!(timers.cancel(TimerId(7)), CancelTimerResponse::TimerNotFound);
    timers.insert_new(1000, 0).unwrap();
    assert_eq!(timers.cancel(TimerId(1)), CancelTimerResponse::Success);
    assert_eq!(timers.cancel(TimerId(1)), CancelTimerResponse::TimerNotFound);
}

#[test]
fn cancel_elapsed_timer_frees_its_id() {
    let mut timers = Timers::new();
    let id = timers.insert_new(1000, 0).unwrap();
    timers.set_elapsed(id);
    assert_eq!(timers.get(id).unwrap().state, TimerState::Elapsed);
    assert_eq!(timers.cancel(id), CancelTimerResponse::Success);
    assert_eq!(timers.insert_new(1000, 0), Some(TimerId(1)));
}

#[test]
fn listing_twice_at_same_instant_is_identical() {
    let mut timers = Timers::new();
    timers.insert_new(5000, 0).unwrap();
    timers.insert_new(3000, 100).unwrap();
    timers.pause(TimerId(2), 600);
    let first = timers.get_timerinfo_for_client(1000);
    let second = timers.get_timerinfo_for_client(1000);
    assert_eq!(first, second);
    assert_eq!(
        first,
        vec![
            TimerInfo { id: TimerId(1), state: TimerStateClient::Running, remaining: 4000 },
            TimerInfo { id: TimerId(2), state: TimerStateClient::Paused, remaining: 2500 },
        ]
    );
}

#[test]
fn listing_is_by_ascending_id() {
    let mut timers = Timers::new();
    for _ in 0..6 {
        timers.insert_new(1000, 0).unwrap();
    }
    timers.cancel(TimerId(3));
    timers.cancel(TimerId(1));
    assert_eq!(ids(&timers, 0), vec![2, 4, 5, 6]);
}

#[test]
fn pause_then_resume_at_same_instant_restores_due() {
    let mut timers = Timers::new();
    let id = timers.insert_new(2000, 0).unwrap();
    let before = timers.get(id);
    assert_eq!(timers.pause(id, 700), PauseTimerResponse::Success);
    assert_eq!(
        timers.get(id).unwrap().state,
        TimerState::Paused(PausedTimer { remaining: 1300 })
    );
    assert_eq!(timers.resume(id, 700), ResumeTimerResponse::Success);
    assert_eq!(timers.get(id), before);
}

#[test]
fn pause_of_paused_timer_keeps_remaining() {
    let mut timers = Timers::new();
    let id = timers.insert_new(2000, 0).unwrap();
    assert_eq!(timers.pause(id, 500), PauseTimerResponse::Success);
    assert_eq!(timers.pause(id, 900), PauseTimerResponse::AlreadyPaused);
    assert_eq!(
        timers.get(id).unwrap().state,
        TimerState::Paused(PausedTimer { remaining: 1500 })
    );
}

#[test]
fn pause_errors() {
    let mut timers = Timers::new();
    assert_eq!(timers.pause(TimerId(1), 0), PauseTimerResponse::TimerNotFound);
    let id = timers.insert_new(2000, 0).unwrap();
    timers.set_elapsed(id);
    assert_eq!(timers.pause(id, 0), PauseTimerResponse::AlreadyElapsed);
}

#[test]
fn resume_errors() {
    let mut timers = Timers::new();
    assert_eq!(timers.resume(TimerId(1), 0), ResumeTimerResponse::TimerNotFound);
    let id = timers.insert_new(2000, 0).unwrap();
    assert_eq!(timers.resume(id, 0), ResumeTimerResponse::AlreadyRunning);
    timers.set_elapsed(id);
    assert_eq!(timers.resume(id, 0), ResumeTimerResponse::AlreadyElapsed);
}

#[test]
fn pause_resume_scenario_with_time_passing() {
    let mut timers = Timers::new();
    let id = timers.insert_new(2000, 0).unwrap();
    assert_eq!(timers.pause(id, 500), PauseTimerResponse::Success);
    let listed = timers.get_timerinfo_for_client(500);
    assert_eq!(listed[0].remaining, 1500);
    assert_eq!(listed[0].state, TimerStateClient::Paused);
    assert_eq!(timers.resume(id, 1000), ResumeTimerResponse::Success);
    assert_eq!(
        timers.get(id).unwrap().state,
        TimerState::Running(RunningTimer { due: 2500 })
    );
    assert_eq!(timers.next_due_running(2500), Some((id, 0)));
}

#[test]
fn next_due_picks_least_remaining() {
    let mut timers = Timers::new();
    let long = timers.insert_new(5000, 0).unwrap();
    let short = timers.insert_new(1000, 0).unwrap();
    assert_eq!(timers.next_due_running(200), Some((short, 800)));
    timers.set_elapsed(short);
    assert_eq!(timers.next_due_running(1000), Some((long, 4000)));
}

#[test]
fn next_due_tie_goes_to_smaller_id() {
    let mut timers = Timers::new();
    timers.insert_new(3000, 0).unwrap();
    timers.insert_new(3000, 0).unwrap();
    timers.insert_new(3000, 0).unwrap();
    timers.cancel(TimerId(1));
    assert_eq!(timers.next_due_running(0), Some((TimerId(2), 3000)));
    assert_eq!(timers.next_due_running(9000), Some((TimerId(2), 0)));
}

#[test]
fn next_due_skips_paused_and_elapsed() {
    let mut timers = Timers::new();
    let a = timers.insert_new(100, 0).unwrap();
    let b = timers.insert_new(200, 0).unwrap();
    timers.pause(a, 0);
    timers.set_elapsed(b);
    assert_eq!(timers.next_due_running(0), None);
}

#[test]
fn set_elapsed_leaves_paused_timer_alone() {
    let mut timers = Timers::new();
    let id = timers.insert_new(2000, 0).unwrap();
    timers.pause(id, 100);
    timers.set_elapsed(id);
    assert_eq!(
        timers.get(id).unwrap().state,
        TimerState::Paused(PausedTimer { remaining: 1900 })
    );
    timers.set_elapsed(TimerId(9));
    assert_eq!(timers.get(TimerId(9)), None);
}

#[test]
fn restart_uses_initial_duration() {
    let mut timers = Timers::new();
    let id = timers.insert_new(2000, 0).unwrap();
    timers.set_elapsed(id);
    timers.restart(id, 5000);
    assert_eq!(
        timers.get(id),
        Some(Timer { initial_duration: 2000, state: TimerState::Running(RunningTimer { due: 7000 }) })
    );
    timers.restart(TimerId(3), 0);
    assert_eq!(timers.get(TimerId(3)), None);
}

#[test]
fn remove_forgets_timer() {
    let mut timers = Timers::new();
    let id = timers.insert_new(2000, 0).unwrap();
    timers.remove(id);
    assert_eq!(timers.get(id), None);
    assert!(timers.get_timerinfo_for_client(0).is_empty());
}

#[test]
fn awaken_splits_timers_by_sleep_length() {
    let mut timers = Timers::new();
    let short = timers.insert_new(1000, 0).unwrap();
    let long = timers.insert_new(10000, 0).unwrap();
    let exact = timers.insert_new(3000, 0).unwrap();
    let paused = timers.insert_new(500, 0).unwrap();
    timers.pause(paused, 0);
    let elapsed = timers.awaken(3000, 0);
    assert_eq!(elapsed, vec![short, exact]);
    assert_eq!(timers.get(short).unwrap().state, TimerState::Elapsed);
    assert_eq!(timers.get(exact).unwrap().state, TimerState::Elapsed);
    assert_eq!(
        timers.get(long).unwrap().state,
        TimerState::Running(RunningTimer { due: 7000 })
    );
    assert_eq!(timers.get(long).unwrap().remaining(0), 10000 - 3000);
    assert_eq!(
        timers.get(paused).unwrap().state,
        TimerState::Paused(PausedTimer { remaining: 500 })
    );
}

#[test]
fn awaken_reports_each_timer_once() {
    let mut timers = Timers::new();
    let id = timers.insert_new(1000, 0).unwrap();
    assert_eq!(timers.awaken(5000, 100), vec![id]);
    assert_eq!(timers.awaken(5000, 100), Vec::<TimerId>::new());
}

#[test]
fn awaken_with_no_sleep_elapses_only_overdue() {
    let mut timers = Timers::new();
    let due_now = timers.insert_new(100, 0).unwrap();
    let later = timers.insert_new(200, 0).unwrap();
    assert_eq!(timers.awaken(0, 100), vec![due_now]);
    assert_eq!(
        timers.get(later).unwrap().state,
        TimerState::Running(RunningTimer { due: 200 })
    );
}

#[test]
fn start_saturates_at_end_of_clock() {
    let mut timers = Timers::new();
    let id = timers.insert_new(u64::MAX, 10).unwrap();
    assert_eq!(
        timers.get(id).unwrap().state,
        TimerState::Running(RunningTimer { due: u64::MAX })
    );
}

#[test]
fn remove_elapsed_spares_reused_id() {
    let mut timers = Timers::new();
    let id = timers.insert_new(1000, 0).unwrap();
    assert!(!timers.remove_elapsed(id));
    timers.set_elapsed(id);
    timers.cancel(id);
    let reused = timers.insert_new(5000, 0).unwrap();
    assert_eq!(reused, id);
    assert!(!timers.remove_elapsed(id));
    assert!(timers.get(id).is_some());
    timers.set_elapsed(id);
    assert!(timers.remove_elapsed(id));
    assert_eq!(timers.get(id), None);
}
