use checkout_pool::adapter::AdapterConfig;
use checkout_pool::operations::{
    close_routes, open_routes, BasicMessage, CreateData, CreateRoutes, Diff, EmptyState,
    RouteAction, Routes, SetData, SetRoutes,
};
use checkout_pool::routing::Message;
use checkout_pool::text::sum_as_string;
use checkout_pool::transport::{transport_step, TransportEvent, TransportState};

fn sample_row() -> serde_json::Value {
    serde_json::from_str("{\"name\": \"John Doe\", \"age\": 43}").unwrap()
}

#[test]
fn package_send_then_handle_send_round_trips() {
    let message: Message<i32, String> = Message::package_send(5);
    assert_eq!(message.handle_send(), Ok(5));
}

#[test]
fn package_receive_then_handle_recieve_round_trips() {
    let message: Message<i32, String> = Message::package_receive("done".to_string());
    assert_eq!(message.handle_recieve(), Ok("done".to_string()));
}

#[test]
fn handle_send_rejects_wrong_shapes() {
    let empty: Message<i32, String> = Message::Send(None);
    assert_eq!(empty.handle_send(), Err("no send message packaged".to_string()));

    let response: Message<i32, String> = Message::Receive(Some("done".to_string()));
    assert_eq!(response.handle_send(), Err("not a send message".to_string()));
}

#[test]
fn handle_recieve_rejects_wrong_shapes() {
    let empty: Message<i32, String> = Message::Receive(None);
    assert_eq!(empty.handle_recieve(), Err("no receive message packaged".to_string()));

    let request: Message<i32, String> = Message::Send(Some(5));
    assert_eq!(request.handle_recieve(), Err("not a receive message".to_string()));
}

#[test]
fn create_request_routes_to_create_action() {
    let data = CreateData {
        connection_id: "0://abc".to_string(),
        table_name: "user".to_string(),
        data: sample_row(),
    };
    let request = Routes::Create(CreateRoutes::Create(Message::package_send(data)));

    match open_routes(request) {
        Ok(RouteAction::Create(data)) => {
            assert_eq!(data.connection_id, "0://abc");
            assert_eq!(data.table_name, "user");
            assert_eq!(data.data, sample_row());
        },
        _ => panic!("expected a create action"),
    }
}

#[test]
fn set_request_routes_to_set_action() {
    let data = SetData {
        connection_id: "0://abc".to_string(),
        key: "name".to_string(),
        value: sample_row(),
    };
    let request = Routes::SetKey(SetRoutes::SetKey(Message::package_send(data)));

    match open_routes(request) {
        Ok(RouteAction::SetKey(data)) => {
            assert_eq!(data.key, "name");
            assert_eq!(data.value, sample_row());
        },
        _ => panic!("expected a set action"),
    }
}

#[test]
fn malformed_envelopes_are_routing_errors() {
    let unpacked: Routes = Routes::Create(CreateRoutes::Create(Message::Send(None)));
    assert_eq!(open_routes(unpacked).unwrap_err(), "no send message packaged".to_string());

    let response_shaped: Routes =
        Routes::Create(CreateRoutes::Create(Message::Receive(Some(EmptyState))));
    assert_eq!(open_routes(response_shaped).unwrap_err(), "not a send message".to_string());

    let set_response: Routes = Routes::SetKey(SetRoutes::SetKey(Message::Receive(Some(
        BasicMessage { message: "Set".to_string() },
    ))));
    assert_eq!(open_routes(set_response).unwrap_err(), "not a send message".to_string());
}

#[test]
fn responses_match_the_request_route() {
    let create_request = Routes::Create(CreateRoutes::Create(Message::Send(None)));
    match close_routes(&create_request) {
        Routes::Create(CreateRoutes::Create(Message::Receive(Some(EmptyState)))) => (),
        _ => panic!("expected an empty create response"),
    }

    let set_request = Routes::SetKey(SetRoutes::SetKey(Message::Send(None)));
    match close_routes(&set_request) {
        Routes::SetKey(SetRoutes::SetKey(Message::Receive(Some(b)))) => {
            assert_eq!(b.message, "Set");
        },
        _ => panic!("expected a set acknowledgement"),
    }
}

#[test]
fn diff_new_keeps_its_fields() {
    let diff = Diff::new(1, "hello".to_string());
    assert_eq!(diff.operation, 1);
    assert_eq!(diff.text, "hello".to_string());
}

#[test]
fn adapter_config_reports_query_limit() {
    let config = AdapterConfig { strict: true, query_timeout: Some(10), transaction_timeout: Some(10) };
    assert!(config.limits_queries());

    let unlimited = AdapterConfig { strict: false, query_timeout: None, transaction_timeout: None };
    assert!(!unlimited.limits_queries());
}

#[test]
fn sums_render_in_decimal() {
    assert_eq!(sum_as_string(2, 3), "5");
    assert_eq!(sum_as_string(990, 10), "1000");
    assert_eq!(sum_as_string(0, 0), "0");
}

#[test]
fn transport_serves_one_exchange_per_read() {
    // a full exchange: read, dispatch, write, and back to reading
    let s = transport_step(TransportState::Reading, TransportEvent::Received(42));
    assert_eq!(s, TransportState::Dispatching);
    let s = transport_step(s, TransportEvent::Dispatched);
    assert_eq!(s, TransportState::Writing);
    let s = transport_step(s, TransportEvent::Sent);
    assert_eq!(s, TransportState::Reading);

    // a zero-byte read means the peer closed
    let s = transport_step(TransportState::Reading, TransportEvent::Received(0));
    assert_eq!(s, TransportState::Closed);

    // a failed read or write tears the connection down
    let s = transport_step(TransportState::Reading, TransportEvent::ReadFailed);
    assert_eq!(s, TransportState::Closed);
    let s = transport_step(TransportState::Writing, TransportEvent::WriteFailed);
    assert_eq!(s, TransportState::Closed);
}
