use alacritty_web::rate_limit::{IpKey, RateLimiter};
use alacritty_web::session::{
    admission, authenticate, exit_code_for, idle_remaining, origin_allowed, session_step,
    token_matches, Admission, Args, ClientEvent, SessionAction,
};

fn args(shell: Option<&str>) -> Args {
    Args {
        bind: "127.0.0.1".to_string(),
        port: 7681,
        shell: shell.map(|s| s.to_string()),
        token: None,
        max_sessions: 5,
        idle_timeout: 300,
        allowed_origins: Vec::new(),
        rate_limit_max: 5,
    }
}

#[test]
fn shell_prefers_flag_then_env_then_default() {
    assert_eq!(args(Some("/bin/bash")).shell(Some("/bin/zsh".to_string())), "/bin/bash");
    assert_eq!(args(None).shell(Some("/bin/zsh".to_string())), "/bin/zsh");
    assert_eq!(args(None).shell(None), "/bin/sh");
}

#[test]
fn origin_rules() {
    let none: Vec<String> = Vec::new();
    let list = vec!["https://example.com".to_string(), "http://localhost:5173".to_string()];
    assert!(origin_allowed(&None, &none));
    assert!(!origin_allowed(&Some("https://example.com".to_string()), &none));
    assert!(origin_allowed(&Some("http://localhost:5173".to_string()), &list));
    assert!(!origin_allowed(&Some("https://evil.example".to_string()), &list));
    assert!(origin_allowed(&None, &list));
}

#[test]
fn token_is_compared_after_trimming() {
    assert!(token_matches("  secret\n", "secret"));
    assert!(token_matches("secret", "secret"));
    assert!(!token_matches("secret2", "secret"));
    assert!(!token_matches("sec ret", "secret"));
    assert!(!token_matches("", "secret"));
    assert!(token_matches("\u{a0}tok\u{3000}", "tok"));
}

#[test]
fn authentication_needs_a_text_frame() {
    assert!(authenticate(Some("abc"), "abc"));
    assert!(!authenticate(Some("abd"), "abc"));
    assert!(!authenticate(None, "abc"));
}

#[test]
fn session_steps() {
    match session_step(ClientEvent::Binary(vec![0, b'l', b's'])) {
        (SessionAction::WritePty(p), true) => assert_eq!(p, b"ls"),
        other => panic!("expected a PTY write, got {:?}", other),
    }
    match session_step(ClientEvent::Binary(vec![1, 0xe8, 0x03, 10, 0, 8, 0, 16, 0])) {
        (SessionAction::ResizePty { cols, rows, cell_w, cell_h }, true) => {
            assert_eq!((cols, rows, cell_w, cell_h), (500, 10, 8, 16))
        },
        other => panic!("expected a resize, got {:?}", other),
    }
    assert!(matches!(session_step(ClientEvent::Binary(vec![9])), (SessionAction::Ignore, false)));
    assert!(matches!(session_step(ClientEvent::OtherFrame), (SessionAction::Ignore, false)));
    assert!(matches!(session_step(ClientEvent::Close), (SessionAction::Stop, false)));
    assert!(matches!(session_step(ClientEvent::ReadError), (SessionAction::Stop, false)));
    assert!(matches!(session_step(ClientEvent::End), (SessionAction::Stop, false)));
    assert!(matches!(session_step(ClientEvent::IdleTimeout), (SessionAction::Stop, false)));
}

#[test]
fn idle_time_left() {
    assert_eq!(idle_remaining(300, 0), 300_000_000_000);
    assert_eq!(idle_remaining(300, 299_000_000_000), 1_000_000_000);
    assert_eq!(idle_remaining(1, 2_000_000_000), 0);
    assert_eq!(idle_remaining(0, 0), 0);
}

#[test]
fn exit_codes() {
    assert_eq!(exit_code_for(Some(0)), Some(0));
    assert_eq!(exit_code_for(Some(1)), Some(1));
    assert_eq!(exit_code_for(Some(2)), Some(2));
    assert_eq!(exit_code_for(Some(255)), Some(255));
    assert_eq!(exit_code_for(Some(256)), Some(255));
    assert_eq!(exit_code_for(None), None);
}

#[test]
fn admission_checks_rate_then_sessions() {
    let mut rl = RateLimiter::new();
    let ip = IpKey::v4(127, 0, 0, 1);
    assert_eq!(admission(&mut rl, ip, 100, 0, 5), Admission::Accept);
    assert_eq!(admission(&mut rl, ip, 100, 5, 5), Admission::TooManySessions);
    assert_eq!(admission(&mut rl, ip, 100, 0, 5), Admission::Accept);
    assert_eq!(admission(&mut rl, ip, 100, 0, 5), Admission::Accept);
    assert_eq!(admission(&mut rl, ip, 100, 0, 5), Admission::Accept);
    // The refused-for-sessions attempt still counted against the rate.
    assert_eq!(admission(&mut rl, ip, 100, 0, 5), Admission::RateLimited);
}
