use colink::runtime::terminal::{
    check_remote_terminal_open, remote_terminal_support, terminal_env_key_allowed,
    RemoteTerminalSessions, RemoteTerminalSupport,
};

#[test]
fn terminal_support_follows_the_peer_version() {
    assert_eq!(remote_terminal_support(None), RemoteTerminalSupport::Unknown);
    assert_eq!(remote_terminal_support(Some("1.9.0")), RemoteTerminalSupport::Supported);
    assert_eq!(remote_terminal_support(Some("1.8.4")), RemoteTerminalSupport::Unsupported);
    assert_eq!(remote_terminal_support(Some("garbage")), RemoteTerminalSupport::Unsupported);
}

#[test]
fn opening_a_terminal_checks_size_and_peer() {
    assert_eq!(
        check_remote_terminal_open(0, 24, None).unwrap_err().message,
        "terminal dimensions must be positive"
    );
    assert_eq!(
        check_remote_terminal_open(80, 24, Some("1.0.0")).unwrap_err().message,
        "remote device does not support terminal control"
    );
    assert!(check_remote_terminal_open(80, 24, None).is_ok());
    assert!(check_remote_terminal_open(80, 24, Some("1.16.0")).is_ok());
}

#[test]
fn only_locale_and_terminal_variables_pass() {
    assert!(terminal_env_key_allowed("TERM"));
    assert!(terminal_env_key_allowed("LC_ALL"));
    assert!(!terminal_env_key_allowed("PATH"));
    assert!(!terminal_env_key_allowed("term"));
}

#[test]
fn remote_sessions_open_only_on_the_matching_answer() {
    let mut sessions = RemoteTerminalSessions::new();
    sessions.register("peer", "s1", "req-1".to_string());
    assert!(!sessions.is_remote_session("peer", "s1"));
    assert!(!sessions.accept("other", "s1", Some("req-1")));
    assert!(!sessions.accept("peer", "s1", Some("req-2")));
    assert!(sessions.accept("peer", "s1", Some("req-1")));
    assert!(sessions.is_remote_session("peer", "s1"));
    sessions.register("peer", "s2", "req-2".to_string());
    sessions.register("else", "s3", "req-3".to_string());
    sessions.close_for_device("peer");
    assert!(!sessions.is_remote_session("peer", "s1"));
    assert!(!sessions.close("peer", "s2"));
    assert!(sessions.close("else", "s3"));
    sessions.discard("s3");
}
