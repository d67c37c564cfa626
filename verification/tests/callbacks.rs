use oidc_validator::callback::{
    validate_cb_finish, validate_cb_start, CallbackStep, PG_OAUTH_VALIDATOR_MAGIC,
};
use oidc_validator::validator::ValidationResult;

#[test]
fn readable_arguments_are_submitted() {
    match validate_cb_start(b"head.body.sign", "r\u{f6}le".as_bytes()) {
        CallbackStep::Submit { token, role } => {
            assert_eq!(token, "head.body.sign");
            assert_eq!(role, "r\u{f6}le");
        }
        CallbackStep::Refuse { .. } => panic!("refused"),
    }
}

#[test]
fn an_unreadable_role_is_replaced() {
    match validate_cb_start(b"token", b"\xff") {
        CallbackStep::Submit { token, role } => {
            assert_eq!(token, "token");
            assert_eq!(role, "unknown");
        }
        CallbackStep::Refuse { .. } => panic!("refused"),
    }
}

#[test]
fn an_unreadable_token_is_refused() {
    match validate_cb_start(b"to\xffken", b"role") {
        CallbackStep::Submit { .. } => panic!("submitted"),
        CallbackStep::Refuse { reason, reply } => {
            assert_eq!(reason, "invalid utf-8 sequence of 1 bytes from index 2");
            assert!(!reply.completed);
            assert!(!reply.result.authorized);
            assert_eq!(reply.result.authn_id, None);
        }
    }
}

#[test]
fn an_identity_is_handed_over() {
    let result = ValidationResult { authenticated_id: "alice".to_string(), authorized: true };
    let reply = validate_cb_finish(Ok(result));
    assert!(reply.completed);
    assert!(reply.result.authorized);
    assert_eq!(reply.result.authn_id, Some("alice".to_string()));
}

#[test]
fn an_unauthorized_identity_is_handed_over_as_such() {
    let result = ValidationResult { authenticated_id: "bob".to_string(), authorized: false };
    let reply = validate_cb_finish(Ok(result));
    assert!(reply.completed);
    assert!(!reply.result.authorized);
    assert_eq!(reply.result.authn_id, Some("bob".to_string()));
}

#[test]
fn an_identity_with_a_nul_is_denied() {
    let result = ValidationResult { authenticated_id: "ali\0ce".to_string(), authorized: true };
    let reply = validate_cb_finish(Ok(result));
    assert!(!reply.completed);
    assert!(!reply.result.authorized);
    assert_eq!(reply.result.authn_id, None);
}

#[test]
fn a_failed_validation_is_a_denial() {
    let reply = validate_cb_finish(Err("ExpiredSignature".to_string()));
    assert!(reply.completed);
    assert!(!reply.result.authorized);
    assert_eq!(reply.result.authn_id, None);
}

#[test]
fn the_magic_number() {
    assert_eq!(PG_OAUTH_VALIDATOR_MAGIC, 539296288);
}
