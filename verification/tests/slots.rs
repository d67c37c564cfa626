use oidc_validator::slot::ValidationSlot;

fn taken() -> ValidationSlot {
    let mut slot = ValidationSlot::new();
    assert!(slot.try_acquire(42, 1_000));
    slot
}

#[test]
fn a_new_slot_is_free_and_empty() {
    let slot = ValidationSlot::new();
    assert!(!slot.is_response_ready());
    assert_eq!(slot.get_request(), None);
    assert_eq!(slot.get_response(), (false, false, String::new(), String::new()));
    assert_eq!(slot.backend_latch(), None);
}

#[test]
fn a_slot_is_taken_once() {
    let mut slot = taken();
    assert!(!slot.try_acquire(43, 2_000));
    slot.release();
    assert!(slot.try_acquire(43, 2_000));
}

#[test]
fn the_request_comes_back_as_it_was_written() {
    let mut slot = taken();
    assert_eq!(slot.set_request("head.body.sign", "r\u{f6}le \u{1f511}"), Ok(()));
    assert_eq!(
        slot.get_request(),
        Some(("head.body.sign".to_string(), "r\u{f6}le \u{1f511}".to_string()))
    );
}

#[test]
fn a_shorter_request_replaces_a_longer_one() {
    let mut slot = taken();
    assert_eq!(slot.set_request("a long token", "a long role"), Ok(()));
    assert_eq!(slot.set_request("t", ""), Ok(()));
    assert_eq!(slot.get_request(), Some(("t".to_string(), String::new())));
}

#[test]
fn the_response_comes_back_as_it_was_written() {
    let mut slot = taken();
    assert_eq!(slot.set_response(true, true, "al\u{ef}ce", ""), Ok(()));
    assert!(slot.is_response_ready());
    assert_eq!(slot.get_response(), (true, true, "al\u{ef}ce".to_string(), String::new()));
    assert_eq!(slot.set_response(false, false, "", "no such key"), Ok(()));
    assert_eq!(slot.get_response(), (false, false, String::new(), "no such key".to_string()));
}

#[test]
fn only_a_pending_request_is_handed_out() {
    let mut slot = ValidationSlot::new();
    assert_eq!(slot.set_request("token", "role"), Ok(()));
    assert_eq!(slot.get_request(), None);
    assert!(slot.try_acquire(42, 1_000));
    assert!(slot.get_request().is_some());
    assert_eq!(slot.set_response(true, true, "alice", ""), Ok(()));
    assert_eq!(slot.get_request(), None);
}

#[test]
fn taking_a_slot_discards_the_old_response() {
    let mut slot = taken();
    assert_eq!(slot.set_response(true, true, "alice", ""), Ok(()));
    slot.release();
    assert!(slot.is_response_ready());
    assert!(slot.try_acquire(43, 2_000));
    assert!(!slot.is_response_ready());
}

#[test]
fn the_largest_request_fits() {
    let mut slot = taken();
    let token = "t".repeat(8192);
    let role = "r".repeat(256);
    assert_eq!(slot.set_request(&token, &role), Ok(()));
    assert_eq!(slot.get_request(), Some((token, role)));
}

#[test]
fn a_larger_request_is_refused_and_changes_nothing() {
    let mut slot = taken();
    assert_eq!(slot.set_request("token", "role"), Ok(()));
    assert_eq!(
        slot.set_request(&"t".repeat(8193), &"r".repeat(257)),
        Err("Token too large: 8193 bytes".to_string())
    );
    assert_eq!(
        slot.set_request("token", &"r".repeat(257)),
        Err("Role too large: 257 bytes".to_string())
    );
    assert_eq!(slot.get_request(), Some(("token".to_string(), "role".to_string())));
}

#[test]
fn sizes_are_counted_in_bytes() {
    let mut slot = taken();
    let role = "\u{1f511}".repeat(65);
    assert_eq!(slot.set_request("token", &role), Err("Role too large: 260 bytes".to_string()));
    assert_eq!(slot.set_request("token", &"\u{1f511}".repeat(64)), Ok(()));
}

#[test]
fn a_larger_response_is_refused_and_changes_nothing() {
    let mut slot = taken();
    assert_eq!(slot.set_response(true, true, &"i".repeat(256), &"e".repeat(512)), Ok(()));
    slot.init();
    assert!(slot.try_acquire(42, 1_000));
    assert_eq!(
        slot.set_response(true, true, &"i".repeat(257), &"e".repeat(513)),
        Err("Authn ID too large: 257 bytes".to_string())
    );
    assert_eq!(
        slot.set_response(false, false, "", &"e".repeat(513)),
        Err("Error message too large: 513 bytes".to_string())
    );
    assert!(!slot.is_response_ready());
    assert_eq!(slot.get_response(), (false, false, String::new(), String::new()));
}

#[test]
fn init_clears_a_used_slot() {
    let mut slot = taken();
    slot.set_backend_latch(99);
    assert_eq!(slot.backend_latch(), Some(99));
    assert_eq!(slot.set_request("token", "role"), Ok(()));
    assert_eq!(slot.set_response(true, true, "alice", ""), Ok(()));
    slot.init();
    assert_eq!(slot.backend_latch(), None);
    assert!(!slot.is_response_ready());
    assert_eq!(slot.get_response(), (false, false, String::new(), String::new()));
    assert!(slot.try_acquire(1, 1));
    assert_eq!(slot.get_request(), Some((String::new(), String::new())));
}
