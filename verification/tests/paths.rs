use zerobeat::{
    RuntimeError, check_private_directory, data_dir, is_named_pipe_namespace, named_pipe_path,
    runtime_dir, socket_path_in, windows_data_dir, windows_runtime_dir, windows_socket_path,
};

#[test]
fn xdg_runtime_directory_is_namespaced() {
    assert_eq!(runtime_dir(Some("/run/user/1000"), 1000), "/run/user/1000/zerobeat");
}

#[test]
fn fallback_directory_is_unique_to_the_user() {
    assert_eq!(runtime_dir(None, 1001), "/tmp/zerobeat-1001");
}

#[test]
fn daemon_socket_is_namespaced_by_protocol_version() {
    let runtime = "/run/user/1000/zerobeat";

    assert_eq!(
        socket_path_in(runtime, 9),
        "/run/user/1000/zerobeat/daemon-v9.sock"
    );
    assert_ne!(socket_path_in(runtime, 8), socket_path_in(runtime, 9));
    assert_eq!(
        socket_path_in(runtime, 11),
        "/run/user/1000/zerobeat/daemon-v11.sock"
    );
}

#[test]
fn data_directory_follows_xdg_and_home_fallback() {
    assert_eq!(data_dir(Some("/data/me"), None).unwrap(), "/data/me/zerobeat");
    assert_eq!(
        data_dir(None, Some("/home/me")).unwrap(),
        "/home/me/.local/share/zerobeat"
    );
}

#[test]
fn missing_home_is_reported() {
    assert!(matches!(data_dir(None, None), Err(RuntimeError::MissingHomeDirectory)));
    assert_eq!(
        RuntimeError::MissingHomeDirectory.message(),
        "cannot locate the user data directory"
    );
}

#[test]
fn trailing_slashes_and_absolute_names_join_as_paths_do() {
    assert_eq!(runtime_dir(Some("/run/user/1000/"), 1000), "/run/user/1000/zerobeat");
    assert_eq!(socket_path_in("", 3), "daemon-v3.sock");
}

#[test]
fn windows_data_directory_uses_local_app_data() {
    assert_eq!(
        windows_data_dir(Some(r"C:\Users\me\AppData\Local"), None).unwrap(),
        r"C:\Users\me\AppData\Local\ZeroBeat"
    );
    assert_eq!(
        windows_data_dir(None, Some(r"C:\Users\me")).unwrap(),
        r"C:\Users\me\AppData\Local\ZeroBeat"
    );
}

#[test]
fn windows_socket_path_is_a_named_pipe_endpoint() {
    let endpoint = windows_socket_path(11);
    assert_eq!(endpoint, r"\\.\pipe\ZeroBeat-daemon-v11");
    assert_eq!(windows_runtime_dir(), r"\\.\pipe");
}

#[test]
fn named_pipe_namespace_is_recognised_in_any_case() {
    assert!(is_named_pipe_namespace(r"\\.\PIPE"));
    assert!(!is_named_pipe_namespace(r"\\.\pipe\x"));
    assert_eq!(named_pipe_path(r"\\.\Pipe\ZeroBeat-daemon-v11"), r"\\.\Pipe\ZeroBeat-daemon-v11");
    let hashed = named_pipe_path("/tmp/x.sock");
    assert!(hashed.starts_with(r"\\.\pipe\ZeroBeat-test-"));
    assert_eq!(hashed.len(), r"\\.\pipe\ZeroBeat-test-".len() + 16);
    assert_eq!(hashed, named_pipe_path("/tmp/x.sock"));
}

#[test]
fn only_private_directories_are_accepted() {
    assert!(check_private_directory("/run/x", true, false, true).is_ok());
    assert!(matches!(
        check_private_directory("/run/x", true, true, true),
        Err(RuntimeError::UnsafeDirectory(path)) if path == "/run/x"
    ));
}
