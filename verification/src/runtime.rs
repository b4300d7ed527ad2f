use vstd::prelude::*;

use crate::text::{ascii_lowercase_view, concat, decimal, decimal_string, to_ascii_lowercase};

verus! {

/// Why a runtime or data directory could not be used.
#[derive(Debug)]
pub enum RuntimeError {
    Io(String),
    UnsafeDirectory(String),
    MissingHomeDirectory,
}

/// The text a user sees for each runtime error.
pub open spec fn runtime_error_text(error: RuntimeError) -> Seq<char> {
    match error {
        RuntimeError::Io(detail) => "runtime directory I/O failed: "@ + detail@,
        RuntimeError::UnsafeDirectory(path) => "runtime path is not a private directory: "@ + path@,
        RuntimeError::MissingHomeDirectory => "cannot locate the user data directory"@,
    }
}

impl RuntimeError {
    /// The human-readable description of the error.
    pub fn message(&self) -> (text: String)
        ensures
            text@ == runtime_error_text(*self),
    {
        match self {
            RuntimeError::Io(detail) => concat("runtime directory I/O failed: ", detail.as_str()),
            RuntimeError::UnsafeDirectory(path) => concat("runtime path is not a private directory: ", path.as_str()),
            RuntimeError::MissingHomeDirectory => "cannot locate the user data directory".to_owned(),
        }
    }
}

/// `Path::join` on Unix: an absolute `tail` replaces the base; otherwise it is
/// appended, with a `/` between when the base is not empty and does not already
/// end in one.
pub open spec fn unix_join(base: Seq<char>, tail: Seq<char>) -> Seq<char> {
    if tail.len() > 0 && tail[0] == '/' {
        tail
    } else if base.len() > 0 && base.last() != '/' {
        base + "/"@ + tail
    } else {
        base + tail
    }
}

/// Joins two Unix paths as `Path::join` does.
pub fn join_unix(base: &str, tail: &str) -> (joined: String)
    ensures
        joined@ == unix_join(base@, tail@),
{
    if tail.unicode_len() > 0 && tail.get_char(0) == '/' {
        return tail.to_owned();
    }
    let n = base.unicode_len();
    if n > 0 && base.get_char(n - 1) != '/' {
        let with_separator = concat(base, "/");
        concat(with_separator.as_str(), tail)
    } else {
        concat(base, tail)
    }
}

/// `Path::join` on Windows for a plain relative name: appended with a `\` between
/// unless the base is empty or already ends in a separator.
pub open spec fn windows_join(base: Seq<char>, name: Seq<char>) -> Seq<char> {
    if base.len() > 0 && base.last() != '\\' && base.last() != '/' {
        base + "\\"@ + name
    } else {
        base + name
    }
}

/// Appends a plain name to a Windows path.
pub fn join_windows(base: &str, name: &str) -> (joined: String)
    ensures
        joined@ == windows_join(base@, name@),
{
    let n = base.unicode_len();
    if n > 0 && base.get_char(n - 1) != '\\' && base.get_char(n - 1) != '/' {
        let with_separator = concat(base, "\\");
        concat(with_separator.as_str(), name)
    } else {
        concat(base, name)
    }
}

/// Where the daemon keeps its socket on Unix: `zerobeat` under the XDG runtime
/// directory, or a directory of the user's own under `/tmp`.
pub open spec fn runtime_dir_view(xdg_runtime_dir: Option<Seq<char>>, uid: u32) -> Seq<char> {
    match xdg_runtime_dir {
        Some(directory) => unix_join(directory, "zerobeat"@),
        None => "/tmp/zerobeat-"@ + decimal(uid as nat),
    }
}

/// The daemon's runtime directory on Unix.
pub fn runtime_dir(xdg_runtime_dir: Option<&str>, uid: u32) -> (directory: String)
    ensures
        directory@ == runtime_dir_view(
            match xdg_runtime_dir {
                Some(d) => Some(d@),
                None => None,
            },
            uid,
        ),
{
    match xdg_runtime_dir {
        Some(directory) => join_unix(directory, "zerobeat"),
        None => {
            let number = decimal_string(uid as u64);
            concat("/tmp/zerobeat-", number.as_str())
        },
    }
}

/// The daemon socket for a protocol version on Unix, inside the runtime directory.
pub open spec fn socket_path_view(runtime_directory: Seq<char>, protocol_version: u16) -> Seq<char> {
    unix_join(runtime_directory, "daemon-v"@ + decimal(protocol_version as nat) + ".sock"@)
}

/// The daemon socket path for a protocol version on Unix.
pub fn socket_path_in(runtime_directory: &str, protocol_version: u16) -> (path: String)
    ensures
        path@ == socket_path_view(runtime_directory@, protocol_version),
{
    let number = decimal_string(protocol_version as u64);
    let name = concat("daemon-v", number.as_str());
    let name = concat(name.as_str(), ".sock");
    join_unix(runtime_directory, name.as_str())
}

/// The user data directory on Unix: `zerobeat` under `XDG_DATA_HOME`, else
/// `.local/share/zerobeat` under the home directory, else an error.
pub fn data_dir(xdg_data_home: Option<&str>, home_dir: Option<&str>) -> (directory: Result<String, RuntimeError>)
    ensures
        match (xdg_data_home, home_dir) {
            (Some(xdg), _) => directory matches Ok(d) && d@ == unix_join(xdg@, "zerobeat"@),
            (None, Some(home)) => directory matches Ok(d) && d@ == unix_join(home@, ".local/share/zerobeat"@),
            (None, None) => directory matches Err(RuntimeError::MissingHomeDirectory),
        },
{
    match (xdg_data_home, home_dir) {
        (Some(xdg), _) => Ok(join_unix(xdg, "zerobeat")),
        (None, Some(home)) => Ok(join_unix(home, ".local/share/zerobeat")),
        (None, None) => Err(RuntimeError::MissingHomeDirectory),
    }
}

/// The named-pipe namespace that stands for the runtime directory on Windows.
pub fn windows_runtime_dir() -> (directory: String)
    ensures
        directory@ == "\\\\.\\pipe"@,
{
    "\\\\.\\pipe".to_owned()
}

/// The daemon's named pipe for a protocol version on Windows.
pub fn windows_socket_path(protocol_version: u16) -> (path: String)
    ensures
        path@ == "\\\\.\\pipe\\ZeroBeat-daemon-v"@ + decimal(protocol_version as nat),
{
    let number = decimal_string(protocol_version as u64);
    concat("\\\\.\\pipe\\ZeroBeat-daemon-v", number.as_str())
}

/// The user data directory on Windows: `ZeroBeat` under the local application
/// data directory, else `AppData\Local\ZeroBeat` under the user profile, else an
/// error.
pub fn windows_data_dir(local_app_data: Option<&str>, user_profile: Option<&str>) -> (directory: Result<String, RuntimeError>)
    ensures
        match (local_app_data, user_profile) {
            (Some(base), _) => directory matches Ok(d) && d@ == windows_join(base@, "ZeroBeat"@),
            (None, Some(profile)) => directory matches Ok(d) && d@ == windows_join(
                windows_join(windows_join(profile@, "AppData"@), "Local"@),
                "ZeroBeat"@,
            ),
            (None, None) => directory matches Err(RuntimeError::MissingHomeDirectory),
        },
{
    match (local_app_data, user_profile) {
        (Some(base), _) => Ok(join_windows(base, "ZeroBeat")),
        (None, Some(profile)) => {
            let app_data = join_windows(profile, "AppData");
            let local = join_windows(app_data.as_str(), "Local");
            Ok(join_windows(local.as_str(), "ZeroBeat"))
        },
        (None, None) => Err(RuntimeError::MissingHomeDirectory),
    }
}

/// Whether a path is the named-pipe namespace itself, in any letter case.
pub fn is_named_pipe_namespace(path: &str) -> (namespace: bool)
    ensures
        namespace == (ascii_lowercase_view(path@) == "\\\\.\\pipe"@),
{
    let lower = to_ascii_lowercase(path);
    let namespace = "\\\\.\\pipe".to_owned();
    lower.eq(&namespace)
}

/// Whether a directory may hold the daemon's private files: a real directory,
/// not a link, owned by the current user.
pub fn check_private_directory(path: &str, is_dir: bool, is_symlink: bool, owned_by_user: bool) -> (checked: Result<(), RuntimeError>)
    ensures
        is_dir && !is_symlink && owned_by_user ==> checked is Ok,
        !(is_dir && !is_symlink && owned_by_user) ==> (checked matches Err(RuntimeError::UnsafeDirectory(p))
            && p@ == path@),
{
    if !is_dir || is_symlink || !owned_by_user {
        Err(RuntimeError::UnsafeDirectory(path.to_owned()))
    } else {
        Ok(())
    }
}

} // verus!
