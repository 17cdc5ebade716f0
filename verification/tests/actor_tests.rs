use checkout_pool::actor::{check_response, release_value, StateTransferActor, WrappedValue};

/// An actor preloaded with the two entries the checkout tests expect.
fn create_test_transfer_state_actor() -> StateTransferActor<i32> {
    let mut actor = StateTransferActor::new();
    actor.create("test".to_string(), 1);
    actor.create("test_two".to_string(), 2);
    actor
}

#[test]
fn test_yield_and_retrieve_value() {
    let mut actor: StateTransferActor<i32> = StateTransferActor::new();

    actor.create("test".to_string(), 1);
    actor.create("test_two".to_string(), 2);
    assert_eq!(actor.get("test"), Some(&Some(1)));

    // extract present value from state
    let yielded = actor.yield_value("test".to_string());

    assert_eq!(yielded, Some(1));
    assert_eq!(actor.pending_key(), Some(&"test".to_string()));
    assert_eq!(actor.get("test"), None);

    // retrieve value to state
    actor.retrieve_value(Some(1));

    assert_eq!(actor.get("test"), Some(&Some(1)));
    assert_eq!(actor.pending_key(), None);

    // extract non-present value from state
    let yielded = actor.yield_value("test_three".to_string());

    assert_eq!(yielded, None);
}

#[test]
fn test_process_incoming_message_get() {
    let mut actor = create_test_transfer_state_actor();

    // a get checks the value out and hands it to the caller
    let outcome = actor.yield_value("test".to_string());
    assert_eq!(outcome, Some(1));

    // the caller sends the value back and the actor checks it in
    actor.retrieve_value(outcome);

    // assert that value is back in the state actor
    assert_eq!(actor.get("test").unwrap().unwrap(), 1);
}

#[test]
fn test_process_incoming_message_insert() {
    let mut actor = create_test_transfer_state_actor();

    actor.create("test_three".to_string(), 3);

    assert_eq!(actor.get("test_three").unwrap().unwrap(), 3);
}

#[test]
fn test_process_incoming_message_delete() {
    let mut actor = create_test_transfer_state_actor();

    actor.delete("test".to_string());

    match actor.get("test") {
        Some(_) => panic!("Value not deleted from state"),
        None => (),
    }
}

#[test]
fn test_get_value() {
    let mut actor = create_test_transfer_state_actor();

    // first checkout succeeds and passes the caller-facing checks
    let value = actor.yield_value("test".to_string());
    let response = WrappedValue { value, sender: Some(7u32) };
    let checked = check_response(response, "TEST_ACTOR").unwrap();
    assert_eq!(checked.value, Some(1));

    // the caller never returns the value, so the slot comes back empty
    actor.retrieve_value(None);

    // should fail as connection has been removed before
    let value = actor.yield_value("test".to_string());
    let response: WrappedValue<i32, u32> = WrappedValue { value, sender: Some(7u32) };
    match check_response(response, "TEST_ACTOR") {
        Ok(_) => panic!("Value should not be returned"),
        Err(e) => assert_eq!(e, "Error getting TEST_ACTOR: TEST_ACTOR is empty".to_string()),
    }
}

#[test]
fn test_return_value() {
    let mut actor = create_test_transfer_state_actor();

    let value = actor.yield_value("test".to_string());
    let loan = WrappedValue { value, sender: Some(7u32) };
    let loan = check_response(loan, "TEST_ACTOR").unwrap();

    let outcome = release_value(loan, "TEST_ACTOR");
    let (_sender, value) = outcome.unwrap();
    assert_eq!(value, 1);

    actor.retrieve_value(Some(value));
    assert_eq!(actor.get("test"), Some(&Some(1)));
}

#[test]
fn checkout_leaves_slot_empty_until_checkin() {
    let mut actor: StateTransferActor<String> = StateTransferActor::new();
    actor.create("handle".to_string(), "resource".to_string());

    // the first checkout takes the value
    let first = actor.yield_value("handle".to_string());
    assert_eq!(first, Some("resource".to_string()));

    // until check-in, a second checkout observes nothing
    let second = actor.yield_value("handle".to_string());
    assert_eq!(second, None);

    // after check-in the value is observable again
    actor.retrieve_value(first);
    assert_eq!(actor.get("handle"), Some(&Some("resource".to_string())));
}

#[test]
fn checkout_round_trip_yields_twice() {
    let mut actor: StateTransferActor<i32> = StateTransferActor::new();
    actor.create("k".to_string(), 42);

    let first = actor.yield_value("k".to_string());
    assert_eq!(first, Some(42));
    actor.retrieve_value(Some(42));

    let second = actor.yield_value("k".to_string());
    assert_eq!(second, Some(42));
}

#[test]
fn checkout_of_absent_key_is_empty_error() {
    let mut actor: StateTransferActor<i32> = StateTransferActor::new();

    let value = actor.yield_value("never_created".to_string());
    assert_eq!(value, None);

    let response: WrappedValue<i32, u32> = WrappedValue { value, sender: Some(1u32) };
    let err = check_response(response, "CONNECTION").unwrap_err();
    assert_eq!(err, "Error getting CONNECTION: CONNECTION is empty".to_string());
}

#[test]
fn response_without_sender_is_rejected() {
    let response: WrappedValue<i32, u32> = WrappedValue { value: Some(5), sender: None };
    let err = check_response(response, "CONNECTION").unwrap_err();
    assert_eq!(
        err,
        "Error getting CONNECTION: CONNECTION is present but doesn't have a sender".to_string()
    );
}

#[test]
fn return_of_empty_loan_is_rejected() {
    let loan: WrappedValue<i32, u32> = WrappedValue { value: None, sender: Some(1u32) };
    let err = release_value(loan, "CONNECTION").unwrap_err();
    assert_eq!(err, "trying to return empty CONNECTION to CONNECTION actor".to_string());
}

#[test]
fn return_without_sender_is_rejected() {
    let loan: WrappedValue<i32, u32> = WrappedValue { value: Some(5), sender: None };
    let err = release_value(loan, "CONNECTION").unwrap_err();
    assert_eq!(err, "trying to return CONNECTION to CONNECTION actor without a sender".to_string());
}

#[test]
fn delete_twice_and_delete_absent_are_no_ops() {
    let mut actor: StateTransferActor<i32> = StateTransferActor::new();
    actor.create("a".to_string(), 1);
    actor.create("b".to_string(), 2);

    actor.delete("a".to_string());
    actor.delete("a".to_string());
    actor.delete("never_inserted".to_string());

    assert_eq!(actor.get("a"), None);
    assert_eq!(actor.get("b"), Some(&Some(2)));
}
