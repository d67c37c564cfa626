use oidc_validator::error::ValidationError;
use oidc_validator::shared::{
    Requester, SharedValidatorState, Statistics, WorkerAction, WorkerEvent,
};
use oidc_validator::validator::ValidationResult;

fn state() -> Box<SharedValidatorState> {
    Box::new(SharedValidatorState::new())
}

fn requester(pid: i32) -> Requester {
    Requester { backend_pid: pid, now: 1_000, latch: 500 + pid as usize }
}

fn alice() -> ValidationResult {
    ValidationResult { authenticated_id: "alice".to_string(), authorized: true }
}

#[test]
fn a_whole_exchange() {
    let mut state = state();
    assert_eq!(state.submit(requester(1), "token", "role"), Ok(0));
    assert_eq!(
        state.worker_step(WorkerEvent::Woken { postmaster_died: false }),
        WorkerAction::Process(0)
    );
    assert_eq!(state.begin_processing(0), Some(("token".to_string(), "role".to_string())));
    let completion = state.finish_processing(0, Ok(alice()));
    assert_eq!(completion.wake, Some(501));
    assert_eq!(completion.stored, Ok(()));
    assert_eq!(state.worker_step(WorkerEvent::Processed), WorkerAction::Sleep(1000));
    let result = state.collect(0, false).unwrap();
    assert_eq!(result.authenticated_id, "alice");
    assert!(result.authorized);
    assert_eq!(
        state.statistics(),
        Statistics { total_validations: 1, successful_validations: 1, failed_validations: 0 }
    );
    assert_eq!(state.submit(requester(2), "token", "role"), Ok(0));
}

#[test]
fn a_refusal_reaches_the_backend_with_its_message() {
    let mut state = state();
    assert_eq!(state.submit(requester(1), "token", "role"), Ok(0));
    assert!(state.begin_processing(0).is_some());
    let refusal = ValidationError::UnknownKey("key-9".to_string());
    assert_eq!(state.finish_processing(0, Err(refusal)).stored, Ok(()));
    assert_eq!(
        state.collect(0, true).map(|result| result.authenticated_id),
        Err("Unknown key ID 'key-9' after refresh".to_string())
    );
    assert_eq!(
        state.statistics(),
        Statistics { total_validations: 1, successful_validations: 0, failed_validations: 1 }
    );
}

#[test]
fn an_identity_without_authorization_is_passed_on() {
    let mut state = state();
    assert_eq!(state.submit(requester(1), "token", "role"), Ok(0));
    let result = ValidationResult { authenticated_id: "bob".to_string(), authorized: false };
    assert_eq!(state.finish_processing(0, Ok(result)).stored, Ok(()));
    let result = state.collect(0, false).unwrap();
    assert_eq!(result.authenticated_id, "bob");
    assert!(!result.authorized);
}

#[test]
fn without_an_answer_the_backend_gives_up() {
    let mut state = state();
    assert_eq!(state.submit(requester(1), "token", "role"), Ok(0));
    assert_eq!(
        state.collect(0, true).map(|result| result.authenticated_id),
        Err("Validation timeout after 5000 ms".to_string())
    );
    assert_eq!(state.submit(requester(1), "token", "role"), Ok(0));
    assert_eq!(
        state.collect(0, false).map(|result| result.authenticated_id),
        Err("Validation interrupted (postmaster died?)".to_string())
    );
}

#[test]
fn a_slot_that_was_given_back_is_not_processed() {
    let mut state = state();
    assert_eq!(state.submit(requester(1), "token", "role"), Ok(0));
    assert!(state.collect(0, true).is_err());
    assert_eq!(state.worker_step(WorkerEvent::Processed), WorkerAction::Process(0));
    assert_eq!(state.begin_processing(0), None);
    assert_eq!(state.statistics().total_validations, 0);
}

#[test]
fn a_request_is_answered_once() {
    let mut state = state();
    assert_eq!(state.submit(requester(1), "token", "role"), Ok(0));
    assert!(state.begin_processing(0).is_some());
    assert_eq!(state.finish_processing(0, Ok(alice())).stored, Ok(()));
    assert_eq!(state.begin_processing(0), None);
    assert_eq!(state.statistics().total_validations, 1);
}

#[test]
fn all_slots_can_be_busy() {
    let mut state = state();
    for i in 0..100usize {
        assert_eq!(state.allocate_slot(7, 1_000), Ok(i));
    }
    let busy = Err("No available validation slots (all busy)".to_string());
    assert_eq!(state.allocate_slot(8, 1_000), busy);
    assert_eq!(state.submit(requester(8), "token", "role"), busy);
    assert!(state.collect(41, true).is_err());
    assert_eq!(state.submit(requester(8), "token", "role"), Ok(41));
}

#[test]
fn all_slots_can_wait_for_the_worker() {
    let mut state = state();
    for i in 0..100usize {
        assert_eq!(state.submit(requester(7), "token", "role"), Ok(i));
    }
    for i in 0..100usize {
        assert_eq!(state.worker_step(WorkerEvent::Processed), WorkerAction::Process(i));
        assert_eq!(state.begin_processing(i), Some(("token".to_string(), "role".to_string())));
    }
    assert_eq!(state.worker_step(WorkerEvent::Processed), WorkerAction::Sleep(1000));
}

#[test]
fn a_slot_used_again_is_queued_once() {
    let mut state = state();
    assert_eq!(state.submit(requester(1), "first", "role"), Ok(0));
    assert!(state.collect(0, true).is_err());
    assert_eq!(state.submit(requester(2), "second", "role"), Ok(0));
    assert_eq!(state.worker_step(WorkerEvent::Processed), WorkerAction::Process(0));
    assert_eq!(state.begin_processing(0), Some(("second".to_string(), "role".to_string())));
    assert_eq!(state.worker_step(WorkerEvent::Processed), WorkerAction::Sleep(1000));
}

#[test]
fn no_request_is_dropped_after_timeouts() {
    let mut state = state();
    for _ in 0..500 {
        assert_eq!(state.submit(requester(1), "late", "role"), Ok(0));
        assert!(state.collect(0, true).is_err());
    }
    for i in 0..100usize {
        assert_eq!(state.submit(requester(2), "token", "role"), Ok(i));
    }
    for i in 0..100usize {
        assert_eq!(state.worker_step(WorkerEvent::Processed), WorkerAction::Process(i));
        assert_eq!(state.begin_processing(i), Some(("token".to_string(), "role".to_string())));
    }
    assert_eq!(state.worker_step(WorkerEvent::Processed), WorkerAction::Sleep(1000));
}

#[test]
fn a_request_that_is_too_large_keeps_its_slot() {
    let mut state = state();
    assert_eq!(
        state.submit(requester(1), "token", &"r".repeat(300)),
        Err("Role too large: 300 bytes".to_string())
    );
    assert_eq!(state.worker_step(WorkerEvent::Processed), WorkerAction::Sleep(1000));
    assert_eq!(state.submit(requester(2), "token", "role"), Ok(1));
}

#[test]
fn an_answer_that_is_too_large_is_lost() {
    let mut state = state();
    assert_eq!(state.submit(requester(1), "token", "role"), Ok(0));
    assert!(state.begin_processing(0).is_some());
    let refusal = ValidationError::FetchFailed("x".repeat(600));
    let completion = state.finish_processing(0, Err(refusal));
    assert_eq!(completion.stored, Err("Error message too large: 600 bytes".to_string()));
    assert_eq!(completion.wake, Some(501));
    assert_eq!(
        state.statistics(),
        Statistics { total_validations: 1, successful_validations: 0, failed_validations: 0 }
    );
    let result =
        ValidationResult { authenticated_id: "i".repeat(257), authorized: true };
    assert_eq!(
        state.finish_processing(0, Ok(result)).stored,
        Err("Authn ID too large: 257 bytes".to_string())
    );
    assert_eq!(
        state.collect(0, true).map(|result| result.authenticated_id),
        Err("Validation timeout after 5000 ms".to_string())
    );
}

#[test]
fn exchanges_do_not_mix() {
    let mut state = state();
    assert_eq!(state.submit(requester(1), "token-1", "role-1"), Ok(0));
    assert_eq!(state.submit(requester(2), "token-2", "role-2"), Ok(1));
    assert_eq!(state.begin_processing(1), Some(("token-2".to_string(), "role-2".to_string())));
    assert_eq!(state.finish_processing(1, Ok(alice())).wake, Some(502));
    assert_eq!(state.begin_processing(0), Some(("token-1".to_string(), "role-1".to_string())));
    assert_eq!(state.collect(1, false).unwrap().authenticated_id, "alice");
    assert!(state.collect(0, true).is_err());
}

#[test]
fn the_worker_starts_and_stops() {
    let mut state = state();
    assert_eq!(state.submit(requester(1), "token", "role"), Ok(0));
    assert_eq!(
        state.worker_step(WorkerEvent::Woken { postmaster_died: true }),
        WorkerAction::Exit
    );
    assert_eq!(state.worker_step(WorkerEvent::Started), WorkerAction::Process(0));
}

#[test]
fn init_clears_a_used_state() {
    let mut state = state();
    assert_eq!(state.submit(requester(1), "token", "role"), Ok(0));
    assert!(state.begin_processing(0).is_some());
    state.init();
    assert_eq!(state.worker_step(WorkerEvent::Processed), WorkerAction::Sleep(1000));
    assert_eq!(state.begin_processing(0), None);
    assert_eq!(
        state.statistics(),
        Statistics { total_validations: 0, successful_validations: 0, failed_validations: 0 }
    );
    assert_eq!(state.submit(requester(2), "token", "role"), Ok(0));
}

#[test]
fn a_backend_without_a_latch_is_not_woken() {
    let mut state = state();
    let requester = Requester { backend_pid: 1, now: 1_000, latch: 0 };
    assert_eq!(state.submit(requester, "token", "role"), Ok(0));
    assert_eq!(state.finish_processing(0, Ok(alice())).wake, None);
}
