use sand::cli::{Cli, ClientCommand, CliCommand, DaemonArgs, StartArgs};
use sand::ctx::{
    handle_command, handle_suspend_signal_awake_state, sleep_duration, AwakeEvent, DaemonCtx,
    KeepTimeState, SuspendSignal,
};
use sand::message::{
    AgainResponse, CancelTimerResponse, Command, ListResponse, PauseTimerResponse, Response,
    ResumeTimerResponse, StartTimerResponse, TimerStateClient,
};
use sand::socket::{systemd_socket_activation_fd, GetSocketError, SYSTEMD_SOCKFD};
use sand::timer::{RunningTimer, TimerId, TimerState};

#[test]
fn pause_resume_then_scheduler_elapses_once() {
    let mut ctx = DaemonCtx::new();
    let id = ctx.start_timer(0, 2000).unwrap();
    assert_eq!(ctx.pause_timer(id, 500), PauseTimerResponse::Success);
    let listed = ctx.get_timerinfo_for_client(500);
    assert_eq!(listed[0].remaining, 1500);
    assert_eq!(ctx.resume_timer(id, 1000), ResumeTimerResponse::Success);
    assert_eq!(
        ctx.timers.get(id).unwrap().state,
        TimerState::Running(RunningTimer { due: 2500 })
    );
    assert_eq!(ctx.timers.next_due_running(1000), Some((id, 1500)));
    let (state, elapsed) = ctx.handle_awake_state(AwakeEvent::Due(id), 77);
    assert_eq!(state, KeepTimeState::Awake);
    assert_eq!(elapsed, vec![id]);
    assert_eq!(ctx.timers.get(id).unwrap().state, TimerState::Elapsed);
    let (_, again) = ctx.handle_awake_state(AwakeEvent::Due(id), 78);
    assert!(again.is_empty());
}

#[test]
fn shorter_timer_is_next_then_the_longer_one() {
    let mut ctx = DaemonCtx::new();
    let long = ctx.start_timer(0, 5000).unwrap();
    let short = ctx.start_timer(0, 1000).unwrap();
    assert_eq!(ctx.timers.next_due_running(0), Some((short, 1000)));
    let (_, elapsed) = ctx.handle_awake_state(AwakeEvent::Due(short), 0);
    assert_eq!(elapsed, vec![short]);
    assert_eq!(ctx.timers.next_due_running(1000), Some((long, 4000)));
}

#[test]
fn suspend_longer_than_remaining_elapses_timer() {
    let mut ctx = DaemonCtx::new();
    let id = ctx.start_timer(0, 10000).unwrap();
    let (state, elapsed) =
        ctx.handle_awake_state(AwakeEvent::Suspend(SuspendSignal::GoingToSleep), 1_000_000);
    assert!(elapsed.is_empty());
    assert_eq!(state, KeepTimeState::Asleep { slept_at: 1_000_000 });
    let KeepTimeState::Asleep { slept_at } = state else { panic!("not asleep") };
    let (state, elapsed) =
        ctx.handle_asleep_state(slept_at, SuspendSignal::WakingUp, 1_015_000, 0);
    assert_eq!(state, KeepTimeState::Awake);
    assert_eq!(elapsed, vec![id]);
    let listed = ctx.get_timerinfo_for_client(0);
    assert!(listed.iter().all(|t| t.state != TimerStateClient::Running));
    assert_eq!(listed[0].state, TimerStateClient::Elapsed);
    assert_eq!(ctx.timers.next_due_running(0), None);
}

#[test]
fn short_suspend_moves_due_time_earlier() {
    let mut ctx = DaemonCtx::new();
    let id = ctx.start_timer(100, 10000).unwrap();
    let (state, elapsed) = ctx.handle_asleep_state(50_000, SuspendSignal::WakingUp, 54_000, 100);
    assert_eq!(state, KeepTimeState::Awake);
    assert!(elapsed.is_empty());
    assert_eq!(ctx.timers.next_due_running(100), Some((id, 6000)));
}

#[test]
fn clock_going_backwards_counts_as_no_sleep() {
    assert_eq!(sleep_duration(5000, 4000), 0);
    assert_eq!(sleep_duration(4000, 5000), 1000);
    let mut ctx = DaemonCtx::new();
    let id = ctx.start_timer(0, 1000).unwrap();
    let (state, elapsed) = ctx.handle_asleep_state(5000, SuspendSignal::WakingUp, 4000, 0);
    assert_eq!(state, KeepTimeState::Awake);
    assert!(elapsed.is_empty());
    assert_eq!(ctx.timers.next_due_running(0), Some((id, 1000)));
}

#[test]
fn out_of_order_suspend_signals_are_ignored() {
    assert_eq!(
        handle_suspend_signal_awake_state(SuspendSignal::WakingUp, 10),
        KeepTimeState::Awake
    );
    assert_eq!(
        handle_suspend_signal_awake_state(SuspendSignal::GoingToSleep, 10),
        KeepTimeState::Asleep { slept_at: 10 }
    );
    let mut ctx = DaemonCtx::new();
    let (state, elapsed) = ctx.handle_asleep_state(7, SuspendSignal::GoingToSleep, 99, 0);
    assert_eq!(state, KeepTimeState::Asleep { slept_at: 7 });
    assert!(elapsed.is_empty());
}

#[test]
fn refresh_changes_nothing() {
    let mut ctx = DaemonCtx::new();
    let id = ctx.start_timer(0, 1000).unwrap();
    let (state, elapsed) = ctx.handle_awake_state(AwakeEvent::Refresh, 0);
    assert_eq!(state, KeepTimeState::Awake);
    assert!(elapsed.is_empty());
    assert_eq!(ctx.timers.next_due_running(0), Some((id, 1000)));
}

#[test]
fn again_restarts_last_duration() {
    let mut ctx = DaemonCtx::new();
    assert_eq!(ctx.again(0), AgainResponse::NonePreviouslyStarted);
    assert_eq!(ctx.start_timer(0, 3000), Some(TimerId(1)));
    assert_eq!(ctx.last_started, Some(3000));
    assert_eq!(ctx.again(100), AgainResponse::Success { id: TimerId(2), duration: 3000 });
    assert_eq!(ctx.timers.next_due_running(100), Some((TimerId(1), 2900)));
    assert_eq!(ctx.cancel_timer(TimerId(1)), CancelTimerResponse::Success);
    assert_eq!(ctx.cancel_timer(TimerId(1)), CancelTimerResponse::TimerNotFound);
}

#[test]
fn commands_are_dispatched() {
    let mut ctx = DaemonCtx::new();
    assert_eq!(
        handle_command(Command::StartTimer { duration: 4000 }, &mut ctx, 0),
        Response::AddTimer(StartTimerResponse::ok(TimerId(1)))
    );
    assert_eq!(
        handle_command(Command::PauseTimer(TimerId(1)), &mut ctx, 1000),
        Response::PauseTimer(PauseTimerResponse::Success)
    );
    assert_eq!(
        handle_command(Command::PauseTimer(TimerId(1)), &mut ctx, 1000),
        Response::PauseTimer(PauseTimerResponse::AlreadyPaused)
    );
    match handle_command(Command::List, &mut ctx, 2000) {
        Response::List(ListResponse::Success { timers }) => {
            assert_eq!(timers.len(), 1);
            assert_eq!(timers[0].remaining, 3000);
            assert_eq!(timers[0].state, TimerStateClient::Paused);
        }
        _ => panic!("expected a listing"),
    }
    assert_eq!(
        handle_command(Command::ResumeTimer(TimerId(1)), &mut ctx, 2000),
        Response::ResumeTimer(ResumeTimerResponse::Success)
    );
    assert_eq!(
        handle_command(Command::ResumeTimer(TimerId(5)), &mut ctx, 2000),
        Response::ResumeTimer(ResumeTimerResponse::TimerNotFound)
    );
    assert_eq!(
        handle_command(Command::Again, &mut ctx, 2000),
        Response::Again(AgainResponse::Success { id: TimerId(2), duration: 4000 })
    );
    assert_eq!(
        handle_command(Command::CancelTimer(TimerId(1)), &mut ctx, 2000),
        Response::CancelTimer(CancelTimerResponse::Success)
    );
    assert_eq!(
        handle_command(Command::CancelTimer(TimerId(1)), &mut ctx, 2000),
        Response::CancelTimer(CancelTimerResponse::TimerNotFound)
    );
}

#[test]
fn list_response_holds_given_timers() {
    assert_eq!(ListResponse::ok(vec![]), ListResponse::Success { timers: vec![] });
}

#[test]
fn cli_command_is_copied() {
    let cli = Cli::new(CliCommand::ClientCommand(ClientCommand::Pause {
        timer_ids: vec![TimerId(3), TimerId(1)],
    }));
    assert_eq!(
        cli.command(),
        CliCommand::ClientCommand(ClientCommand::Pause { timer_ids: vec![TimerId(3), TimerId(1)] })
    );
    let start = Cli::new(CliCommand::ClientCommand(ClientCommand::Start(StartArgs {
        durations: vec![60000, 5000],
    })));
    assert_eq!(
        start.command(),
        CliCommand::ClientCommand(ClientCommand::Start(StartArgs { durations: vec![60000, 5000] }))
    );
    let daemon = Cli::new(CliCommand::Daemon(DaemonArgs {}));
    assert_eq!(daemon.command(), CliCommand::Daemon(DaemonArgs {}));
}

#[test]
fn socket_activation_needs_matching_pid_and_fds() {
    assert_eq!(systemd_socket_activation_fd(Some(42), 42, Some(1)), Ok(SYSTEMD_SOCKFD));
    assert_eq!(systemd_socket_activation_fd(Some(42), 42, Some(2)), Ok(3));
    assert_eq!(systemd_socket_activation_fd(None, 42, Some(1)), Err(GetSocketError::NoListenPID));
    assert_eq!(systemd_socket_activation_fd(Some(7), 42, Some(1)), Err(GetSocketError::PIDMismatch));
    assert_eq!(systemd_socket_activation_fd(Some(42), 42, None), Err(GetSocketError::NoListenFDs));
}
