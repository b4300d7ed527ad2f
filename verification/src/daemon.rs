use vstd::prelude::*;

use crate::ipc::{IpcError, ipc_error_text};
use crate::text::concat;

verus! {

/// Why the daemon could not start or serve.
#[derive(Debug)]
pub enum DaemonError {
    Io(String),
    Ipc(IpcError),
    SocketPathOccupied(String),
    AlreadyRunning(String),
}

/// The text a user sees for each daemon error.
pub open spec fn daemon_error_text(error: DaemonError) -> Seq<char> {
    match error {
        DaemonError::Io(detail) => "daemon I/O failed: "@ + detail@,
        DaemonError::Ipc(inner) => "daemon IPC failed: "@ + ipc_error_text(inner),
        DaemonError::SocketPathOccupied(path) => "socket path is occupied by a non-socket file: "@ + path@,
        DaemonError::AlreadyRunning(path) => "a daemon is already listening on: "@ + path@,
    }
}

impl DaemonError {
    /// The human-readable description of the error.
    pub fn message(&self) -> (text: String)
        ensures
            text@ == daemon_error_text(*self),
    {
        match self {
            DaemonError::Io(detail) => concat("daemon I/O failed: ", detail.as_str()),
            DaemonError::Ipc(inner) => {
                let inner_text = inner.message();
                concat("daemon IPC failed: ", inner_text.as_str())
            },
            DaemonError::SocketPathOccupied(path) => concat(
                "socket path is occupied by a non-socket file: ",
                path.as_str(),
            ),
            DaemonError::AlreadyRunning(path) => concat("a daemon is already listening on: ", path.as_str()),
        }
    }
}

/// The socket the daemon listens on, from its command-line arguments: the
/// default without arguments, the path after `--socket`, and otherwise a usage
/// error.
pub fn parse_socket(arguments: &Vec<String>, default_socket: String) -> (socket: Result<String, &'static str>)
    ensures
        arguments@.len() == 0 ==> socket == Ok::<String, &'static str>(default_socket),
        arguments@.len() > 0 && arguments@[0]@ == "--socket"@ && arguments@.len() == 1 ==> (socket matches Err(m)
            && m@ == "missing socket path"@),
        arguments@.len() > 1 && arguments@[0]@ == "--socket"@ ==> socket == Ok::<String, &'static str>(arguments@[1]),
        arguments@.len() > 0 && arguments@[0]@ != "--socket"@ ==> (socket matches Err(m)
            && m@ == "usage: zerobeatd [--socket PATH]"@),
{
    if arguments.len() == 0 {
        return Ok(default_socket);
    }
    let flag = "--socket".to_owned();
    if arguments[0].eq(&flag) {
        if arguments.len() > 1 {
            Ok(arguments[1].clone())
        } else {
            Err("missing socket path")
        }
    } else {
        Err("usage: zerobeatd [--socket PATH]")
    }
}

/// What trying to connect to an existing socket showed.
#[derive(Debug)]
pub enum SocketProbe {
    /// A daemon answered.
    Connected,
    /// Nobody listens there any more.
    Refused,
    /// The socket went away meanwhile.
    Gone,
    /// The probe failed otherwise.
    Failed(String),
}

/// Whether a file found at the socket path may be probed: only a socket may;
/// anything else occupies the path.
pub fn check_socket_file(is_socket: bool, path: &str) -> (checked: Result<(), DaemonError>)
    ensures
        is_socket ==> checked is Ok,
        !is_socket ==> (checked matches Err(DaemonError::SocketPathOccupied(p)) && p@ == path@),
{
    if is_socket {
        Ok(())
    } else {
        Err(DaemonError::SocketPathOccupied(path.to_owned()))
    }
}

/// What a probe of an existing socket means: a live daemon keeps it, a dead or
/// vanished one leaves it to be removed, and any other failure is reported.
pub fn after_socket_probe(probe: SocketProbe, path: &str) -> (stale: Result<(), DaemonError>)
    ensures
        probe is Connected ==> (stale matches Err(DaemonError::AlreadyRunning(p)) && p@ == path@),
        probe is Refused || probe is Gone ==> stale is Ok,
        probe matches SocketProbe::Failed(detail) ==> (stale matches Err(DaemonError::Io(d)) && d == detail),
{
    match probe {
        SocketProbe::Connected => Err(DaemonError::AlreadyRunning(path.to_owned())),
        SocketProbe::Refused => Ok(()),
        SocketProbe::Gone => Ok(()),
        SocketProbe::Failed(detail) => Err(DaemonError::Io(detail)),
    }
}

} // verus!
