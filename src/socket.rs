use vstd::prelude::*;

verus! {

/// The descriptor on which systemd passes the first activated socket.
pub const SYSTEMD_SOCKFD: i32 = 3;

/// Why the daemon is not running under systemd socket activation.
#[derive(Debug, Clone, Copy, PartialEq, Eq, Structural)]
pub enum GetSocketError {
    /// `LISTEN_PID` is not set.
    NoListenPID,
    /// `LISTEN_FDS` is not set.
    NoListenFDs,
    /// `LISTEN_PID` names another process.
    PIDMismatch,
}

/// The socket that systemd handed over, given `LISTEN_PID` and `LISTEN_FDS`
/// as read from the environment and this process's id. The sockets are meant
/// for this process only where `LISTEN_PID` is its id.
pub fn systemd_socket_activation_fd(
    listen_pid: Option<u32>,
    our_pid: u32,
    listen_fds: Option<u32>,
) -> (r: Result<i32, GetSocketError>)
    ensures
        r == (match listen_pid {
            None => Err(GetSocketError::NoListenPID),
            Some(pid) => if pid != our_pid {
                Err(GetSocketError::PIDMismatch)
            } else if listen_fds is None {
                Err(GetSocketError::NoListenFDs)
            } else {
                Ok(SYSTEMD_SOCKFD)
            },
        }),
{
    match listen_pid {
        None => Err(GetSocketError::NoListenPID),
        Some(pid) => if pid != our_pid {
            Err(GetSocketError::PIDMismatch)
        } else {
            match listen_fds {
                None => Err(GetSocketError::NoListenFDs),
                Some(_) => Ok(SYSTEMD_SOCKFD),
            }
        },
    }
}

} // verus!
