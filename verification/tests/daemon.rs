use zerobeat::{DaemonError, SocketProbe, after_socket_probe, check_socket_file, parse_socket};

#[test]
fn explicit_socket_path_is_accepted() {
    let arguments = vec!["--socket".to_owned(), "/tmp/zerobeat-test.sock".to_owned()];
    assert_eq!(
        parse_socket(&arguments, "/default.sock".to_owned()).unwrap(),
        "/tmp/zerobeat-test.sock"
    );
}

#[test]
fn socket_arguments_default_or_fail_with_usage() {
    assert_eq!(parse_socket(&vec![], "/default.sock".to_owned()).unwrap(), "/default.sock");
    assert_eq!(
        parse_socket(&vec!["--socket".to_owned()], "/d".to_owned()),
        Err("missing socket path")
    );
    assert_eq!(
        parse_socket(&vec!["--other".to_owned()], "/d".to_owned()),
        Err("usage: zerobeatd [--socket PATH]")
    );
}

#[test]
fn only_a_dead_socket_is_replaced() {
    assert!(matches!(
        check_socket_file(false, "/run/x.sock"),
        Err(DaemonError::SocketPathOccupied(path)) if path == "/run/x.sock"
    ));
    assert!(check_socket_file(true, "/run/x.sock").is_ok());
    assert!(matches!(
        after_socket_probe(SocketProbe::Connected, "/run/x.sock"),
        Err(DaemonError::AlreadyRunning(_))
    ));
    assert!(after_socket_probe(SocketProbe::Refused, "/run/x.sock").is_ok());
    assert!(after_socket_probe(SocketProbe::Gone, "/run/x.sock").is_ok());
    assert!(matches!(
        after_socket_probe(SocketProbe::Failed("denied".into()), "/run/x.sock"),
        Err(DaemonError::Io(detail)) if detail == "denied"
    ));
    assert_eq!(
        DaemonError::SocketPathOccupied("/x".into()).message(),
        "socket path is occupied by a non-socket file: /x"
    );
}
