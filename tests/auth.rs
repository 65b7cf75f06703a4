use hyprlance::auth::{AuthAction, AuthAttempt, AuthData, AuthError, AuthEvent, AuthService, Phase, Platform};

fn data() -> AuthData {
    AuthData { uid: "u1".to_string(), email: "e@x.com".to_string(), token: "t9".to_string() }
}

#[test]
fn unknown_platform_is_unsupported() {
    match AuthService::platform("unknown") {
        Err(AuthError::UnsupportedPlatform(p)) => assert_eq!(p, "unknown"),
        _ => panic!("expected an unsupported platform"),
    }
    assert!(matches!(AuthService::platform("contra"), Ok(Platform::Contra)));
    assert!(AuthService::platform("Contra").is_err());
}

#[test]
fn error_messages() {
    assert_eq!(
        AuthError::UnsupportedPlatform("x".to_string()).message(),
        "Platform 'x' is not supported."
    );
    assert_eq!(AuthError::Timeout.message(), "Authentication timed out after 3 minutes");
}

#[test]
fn credentials_resolve_the_attempt_once() {
    let mut a = AuthAttempt::new();
    assert!(matches!(a.step(AuthEvent::Ready), AuthAction::Continue));
    assert_eq!(a.phase, Phase::Waiting);
    assert!(matches!(a.step(AuthEvent::Malformed), AuthAction::Continue));
    match a.step(AuthEvent::Credentials(data())) {
        AuthAction::Finish(Ok(d)) => {
            assert_eq!(d.uid, "u1");
            assert_eq!(d.email, "e@x.com");
            assert_eq!(d.token, "t9");
        }
        _ => panic!("expected credentials"),
    }
    assert_eq!(a.phase, Phase::Resolved);
    assert!(matches!(a.step(AuthEvent::Deadline), AuthAction::Continue));
    assert!(matches!(a.step(AuthEvent::Credentials(data())), AuthAction::Continue));
}

#[test]
fn deadline_resolves_with_timeout() {
    let mut a = AuthAttempt::new();
    a.step(AuthEvent::Ready);
    assert!(matches!(a.step(AuthEvent::Deadline), AuthAction::Finish(Err(AuthError::Timeout))));
    assert_eq!(a.phase, Phase::Resolved);
}
