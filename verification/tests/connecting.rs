use rssh_async::channel::Slot;
use rssh_async::connect::{ConnectAction, ConnectAttempt, ConnectStage, CONNECT_TIMEOUT_SECS};
use rssh_async::error::HostError;
use rssh_async::server::SessionInfo;

fn host() -> SessionInfo {
    SessionInfo {
        hostname: "host1".to_string(),
        ip: "10.0.0.1".to_string(),
        port: 2222,
        user: "cx".to_string(),
        password: "pw".to_string(),
        groupname: "web".to_string(),
    }
}

#[test]
fn an_attempt_opens_the_hosts_address_within_three_seconds() {
    let (attempt, action) = ConnectAttempt::begin(host());
    assert_eq!(attempt.current_stage(), ConnectStage::Connecting);
    match action {
        ConnectAction::Open { address, timeout_secs } => {
            assert_eq!(address, "10.0.0.1:2222");
            assert_eq!(timeout_secs, 3);
            assert_eq!(CONNECT_TIMEOUT_SECS, 3);
        }
        other => panic!("expected to open a connection, not {:?}", other),
    }
}

#[test]
fn an_attempt_that_goes_well_hands_its_host_on() {
    let (mut attempt, _) = ConnectAttempt::begin(host());
    assert!(matches!(attempt.advance(Ok(())), ConnectAction::Handshake));
    assert_eq!(attempt.current_stage(), ConnectStage::Handshaking);
    match attempt.advance(Ok(())) {
        ConnectAction::Authenticate { user, password } => {
            assert_eq!(user, "cx");
            assert_eq!(password, "pw");
        }
        other => panic!("expected to authenticate, not {:?}", other),
    }
    assert_eq!(attempt.current_stage(), ConnectStage::Authenticating);
    assert!(matches!(attempt.advance(Ok(())), ConnectAction::Publish));
    assert_eq!(attempt.current_stage(), ConnectStage::Publishing);
    match attempt.publish(41u32) {
        Ok(Slot::Connected(session)) => {
            assert_eq!(session.host, host());
            assert_eq!(session.transport, 41);
        }
        _ => panic!("expected a connected host"),
    }
    assert!(matches!(attempt.advance(Ok(())), ConnectAction::Complete));
    assert_eq!(attempt.current_stage(), ConnectStage::Finished);
    assert!(matches!(attempt.advance(Ok(())), ConnectAction::Idle));
    assert!(matches!(attempt.advance(Err("late".to_string())), ConnectAction::Idle));
    assert_eq!(attempt.current_stage(), ConnectStage::Finished);
}

fn fails_after(successes: usize, cause: &str) {
    let (mut attempt, _) = ConnectAttempt::begin(host());
    for _ in 0..successes {
        let action = attempt.advance(Ok(()));
        assert!(!matches!(action, ConnectAction::Fail(_) | ConnectAction::Complete));
    }
    match attempt.advance(Err(cause.to_string())) {
        ConnectAction::Fail(HostError::Connect(message)) => assert_eq!(
            message,
            format!("{}, host1_10.0.0.1, port:2222, user:cx, password:pw", cause)
        ),
        other => panic!("expected a connect failure, not {:?}", other),
    }
    assert_eq!(attempt.current_stage(), ConnectStage::Finished);
    for _ in 0..4 {
        assert!(matches!(attempt.advance(Ok(())), ConnectAction::Idle));
    }
}

#[test]
fn a_connection_that_times_out_ends_the_attempt() {
    fails_after(0, "deadline has elapsed");
}

#[test]
fn a_failed_handshake_ends_the_attempt() {
    fails_after(1, "handshake failed");
}

#[test]
fn a_refused_password_ends_the_attempt() {
    fails_after(2, "authentication failed");
}

#[test]
fn a_session_that_cannot_be_pushed_ends_the_attempt() {
    fails_after(3, "channel closed");
}

#[test]
fn only_an_attempt_at_the_push_hands_its_host_on() {
    let (mut attempt, _) = ConnectAttempt::begin(host());
    assert!(matches!(attempt.publish(1u32), Err(1)));
    attempt.advance(Ok(()));
    assert!(matches!(attempt.publish(2u32), Err(2)));
    attempt.advance(Ok(()));
    assert!(matches!(attempt.publish(3u32), Err(3)));
    attempt.advance(Ok(()));
    assert!(matches!(attempt.publish(4u32), Ok(Slot::Connected(_))));
    attempt.advance(Ok(()));
    assert!(matches!(attempt.publish(5u32), Err(5)));
    let (mut failed, _) = ConnectAttempt::begin(host());
    failed.advance(Ok(()));
    failed.advance(Err("handshake failed".to_string()));
    assert!(matches!(failed.publish(6u32), Err(6)));
}

#[test]
fn a_failed_attempt_never_asks_to_push_its_session() {
    for successes in 0..3 {
        let (mut attempt, _) = ConnectAttempt::begin(host());
        let mut asked = false;
        for _ in 0..successes {
            asked |= matches!(attempt.advance(Ok(())), ConnectAction::Publish);
        }
        asked |= matches!(attempt.advance(Err("no".to_string())), ConnectAction::Publish);
        for _ in 0..5 {
            asked |= matches!(attempt.advance(Ok(())), ConnectAction::Publish);
        }
        assert!(!asked);
    }
}
