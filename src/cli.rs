use vstd::prelude::*;

use crate::timer::TimerId;

verus! {

/// Options of the daemon; it takes none.
#[derive(Debug, Clone, Copy, PartialEq, Eq, Structural)]
pub struct DaemonArgs {}

/// Arguments of `start`: durations in milliseconds, run one after the other as
/// one timer.
#[derive(Debug, PartialEq, Eq)]
pub struct StartArgs {
    pub durations: Vec<u64>,
}

/// What the user asked for on the command line.
#[derive(Debug, PartialEq, Eq)]
pub enum CliCommand {
    /// Launch the daemon.
    Daemon(DaemonArgs),
    ClientCommand(ClientCommand),
}

/// A request that a client sends to the daemon.
#[derive(Debug, PartialEq, Eq)]
pub enum ClientCommand {
    /// Start a new timer for the given duration.
    Start(StartArgs),
    /// List the timers.
    Ls,
    /// Show the running timer that is due next, if any.
    NextDue,
    /// Pause the timers with the given ids.
    Pause { timer_ids: Vec<TimerId> },
    /// Resume the timers with the given ids.
    Resume { timer_ids: Vec<TimerId> },
    /// Cancel the timers with the given ids.
    Cancel { timer_ids: Vec<TimerId> },
    /// Start a new timer with the duration of the one started most recently.
    Again,
}

/// The parsed command line.
pub struct Cli {
    command: CliCommand,
}

fn copy_ids(ids: &Vec<TimerId>) -> (r: Vec<TimerId>)
    ensures
        r@ == ids@,
{
    let mut out: Vec<TimerId> = Vec::new();
    let mut i: usize = 0;
    while i < ids.len()
        invariant
            0 <= i <= ids.len(),
            out@ == ids@.subrange(0, i as int),
        decreases ids.len() - i,
    {
        out.push(ids[i]);
        i = i + 1;
    }
    assert(out@ =~= ids@);
    out
}

fn copy_durations(durations: &Vec<u64>) -> (r: Vec<u64>)
    ensures
        r@ == durations@,
{
    let mut out: Vec<u64> = Vec::new();
    let mut i: usize = 0;
    while i < durations.len()
        invariant
            0 <= i <= durations.len(),
            out@ == durations@.subrange(0, i as int),
        decreases durations.len() - i,
    {
        out.push(durations[i]);
        i = i + 1;
    }
    assert(out@ =~= durations@);
    out
}

/// The two commands hold the same request.
pub open spec fn same_command(a: CliCommand, b: CliCommand) -> bool {
    match (a, b) {
        (CliCommand::Daemon(x), CliCommand::Daemon(y)) => x == y,
        (CliCommand::ClientCommand(x), CliCommand::ClientCommand(y)) => match (x, y) {
            (ClientCommand::Start(p), ClientCommand::Start(q)) => p.durations@ == q.durations@,
            (ClientCommand::Ls, ClientCommand::Ls) => true,
            (ClientCommand::NextDue, ClientCommand::NextDue) => true,
            (ClientCommand::Pause { timer_ids: p }, ClientCommand::Pause { timer_ids: q }) => p@
                == q@,
            (ClientCommand::Resume { timer_ids: p }, ClientCommand::Resume { timer_ids: q }) => p@
                == q@,
            (ClientCommand::Cancel { timer_ids: p }, ClientCommand::Cancel { timer_ids: q }) => p@
                == q@,
            (ClientCommand::Again, ClientCommand::Again) => true,
            _ => false,
        },
        _ => false,
    }
}

impl Cli {
    /// The request that the command line holds.
    pub closed spec fn command_spec(&self) -> CliCommand {
        self.command
    }

    pub fn new(command: CliCommand) -> (r: Self)
        ensures
            r.command_spec() == command,
    {
        Cli { command }
    }

    /// A copy of the request that the command line holds.
    pub fn command(&self) -> (r: CliCommand)
        ensures
            same_command(r, self.command_spec()),
    {
        match &self.command {
            CliCommand::Daemon(args) => CliCommand::Daemon(*args),
            CliCommand::ClientCommand(c) => CliCommand::ClientCommand(
                match c {
                    ClientCommand::Start(args) => ClientCommand::Start(
                        StartArgs { durations: copy_durations(&args.durations) },
                    ),
                    ClientCommand::Ls => ClientCommand::Ls,
                    ClientCommand::NextDue => ClientCommand::NextDue,
                    ClientCommand::Pause { timer_ids } => ClientCommand::Pause {
                        timer_ids: copy_ids(timer_ids),
                    },
                    ClientCommand::Resume { timer_ids } => ClientCommand::Resume {
                        timer_ids: copy_ids(timer_ids),
                    },
                    ClientCommand::Cancel { timer_ids } => ClientCommand::Cancel {
                        timer_ids: copy_ids(timer_ids),
                    },
                    ClientCommand::Again => ClientCommand::Again,
                },
            ),
        }
    }
}

} // verus!
