//! The operation catalogue of the routing layer: the payloads each
//! operation carries, the per-module route enums, and the dispatch step
//! that turns an inbound envelope into the operation it asks for and a
//! completed operation into the response envelope of the same shape.
//! The operations themselves run against the backing store outside this
//! crate; what is verified here is that every payload is unwrapped and
//! repackaged correctly, with the envelope errors of the routing layer.
use vstd::prelude::*;

use crate::routing::Message;

verus! {

/// JSON payloads travel through the routing layer untouched; the crate
/// never looks inside one.
#[verifier::external_type_specification]
#[verifier::external_body]
pub struct ExValue(serde_json::Value);

/// What a create operation needs: the connection to use, the table, and
/// the row to insert.
#[derive(Debug)]
pub struct CreateData {
    pub connection_id: String,
    pub table_name: String,
    pub data: serde_json::Value,
}

/// The (empty) response of a completed create operation.
#[derive(Debug)]
pub struct EmptyState;

/// What a set operation needs: the connection to use, the key, and the
/// value to bind to it.
#[derive(Debug)]
pub struct SetData {
    pub connection_id: String,
    pub key: String,
    pub value: serde_json::Value,
}

/// A plain acknowledgement message.
#[derive(Debug)]
pub struct BasicMessage {
    pub message: String,
}

/// The create routes: one operation, creating a row.
#[derive(Debug)]
pub enum CreateRoutes {
    Create(Message<CreateData, EmptyState>),
}

/// The set routes: one operation, binding a key.
#[derive(Debug)]
pub enum SetRoutes {
    SetKey(Message<SetData, BasicMessage>),
}

/// The operation modules a request can be routed to.
#[derive(Debug)]
pub enum Routes {
    Create(CreateRoutes),
    SetKey(SetRoutes),
}

/// The core operation a routed request asks for, with its payload.
#[derive(Debug)]
pub enum RouteAction {
    Create(CreateData),
    SetKey(SetData),
}

/// Unwraps a create route into its request payload, with the envelope
/// errors of the routing layer.
pub fn open_create_routes(message: CreateRoutes) -> (r: Result<CreateData, String>)
    ensures
        r is Ok <==> message matches CreateRoutes::Create(Message::Send(Some(_))),
        message matches CreateRoutes::Create(Message::Send(Some(data))) ==> r == Ok::<
            _,
            String,
        >(data),
        message matches CreateRoutes::Create(Message::Send(None::<CreateData>)) ==> r is Err
            && r->Err_0@ == "no send message packaged"@,
        message matches CreateRoutes::Create(Message::Receive(_)) ==> r is Err && r->Err_0@
            == "not a send message"@,
{
    match message {
        CreateRoutes::Create(m) => m.handle_send(),
    }
}

/// The response envelope of a completed create operation.
pub fn close_create_routes() -> (r: CreateRoutes)
    ensures
        r == CreateRoutes::Create(Message::<CreateData, EmptyState>::Receive(Some(EmptyState))),
{
    CreateRoutes::Create(Message::package_receive(EmptyState))
}

/// Unwraps a set route into its request payload, with the envelope
/// errors of the routing layer.
pub fn open_set_routes(message: SetRoutes) -> (r: Result<SetData, String>)
    ensures
        r is Ok <==> message matches SetRoutes::SetKey(Message::Send(Some(_))),
        message matches SetRoutes::SetKey(Message::Send(Some(data))) ==> r == Ok::<_, String>(data),
        message matches SetRoutes::SetKey(Message::Send(None::<SetData>)) ==> r is Err && r->Err_0@
            == "no send message packaged"@,
        message matches SetRoutes::SetKey(Message::Receive(_)) ==> r is Err && r->Err_0@
            == "not a send message"@,
{
    match message {
        SetRoutes::SetKey(m) => m.handle_send(),
    }
}

/// The response envelope of a completed set operation.
pub fn close_set_routes() -> (r: SetRoutes)
    ensures
        r matches SetRoutes::SetKey(Message::Receive(Some(b))) && b.message@ == "Set"@,
{
    SetRoutes::SetKey(Message::package_receive(BasicMessage { message: String::from_str("Set") }))
}

/// Turns an inbound routed request into the core operation it asks for:
/// the payload is unwrapped exactly as the matching handler would, and a
/// malformed envelope is the handler's complaint.
pub fn open_routes(message: Routes) -> (r: Result<RouteAction, String>)
    ensures
        r is Ok <==> (message matches Routes::Create(CreateRoutes::Create(Message::Send(Some(_))))
            || message matches Routes::SetKey(SetRoutes::SetKey(Message::Send(Some(_))))),
        message matches Routes::Create(CreateRoutes::Create(Message::Send(Some(data)))) ==> r
            == Ok::<_, String>(RouteAction::Create(data)),
        message matches Routes::SetKey(SetRoutes::SetKey(Message::Send(Some(data)))) ==> r == Ok::<
            _,
            String,
        >(RouteAction::SetKey(data)),
        message matches Routes::Create(CreateRoutes::Create(Message::Send(None::<CreateData>)))
            ==> r is Err && r->Err_0@ == "no send message packaged"@,
        message matches Routes::SetKey(SetRoutes::SetKey(Message::Send(None::<SetData>))) ==> r is Err
            && r->Err_0@ == "no send message packaged"@,
        message matches Routes::Create(CreateRoutes::Create(Message::Receive(_))) ==> r is Err
            && r->Err_0@ == "not a send message"@,
        message matches Routes::SetKey(SetRoutes::SetKey(Message::Receive(_))) ==> r is Err && r->Err_0@
            == "not a send message"@,
{
    match message {
        Routes::Create(m) => {
            let data = match open_create_routes(m) {
                Ok(data) => data,
                Err(e) => {
                    return Err(e);
                },
            };
            Ok(RouteAction::Create(data))
        },
        Routes::SetKey(m) => {
            let data = match open_set_routes(m) {
                Ok(data) => data,
                Err(e) => {
                    return Err(e);
                },
            };
            Ok(RouteAction::SetKey(data))
        },
    }
}

/// The response envelope matching a request's route: a completed
/// operation answers in the shape of the module it was routed to.
pub fn close_routes(message: &Routes) -> (r: Routes)
    ensures
        message is Create ==> r == Routes::Create(
            CreateRoutes::Create(Message::Receive(Some(EmptyState))),
        ),
        message is SetKey ==> (r matches Routes::SetKey(
            SetRoutes::SetKey(Message::Receive(Some(b))),
        ) && b.message@ == "Set"@),
{
    match message {
        Routes::Create(_) => Routes::Create(close_create_routes()),
        Routes::SetKey(_) => Routes::SetKey(close_set_routes()),
    }
}

/// One step of a text comparison between record versions.
#[derive(Clone, Debug, PartialEq)]
pub struct Diff {
    pub operation: i32,
    pub text: String,
}

impl Diff {
    /// A new diff object with the given operation code and text.
    pub fn new(operation: i32, text: String) -> (r: Diff)
        ensures
            r.operation == operation,
            r.text == text,
    {
        Diff { operation, text }
    }
}

/// One JSON-patch step applied to a stored record: add a value at a
/// path, remove the path, or replace its value.
pub enum Patch {
    Add { path: String, value: serde_json::Value },
    Remove { path: String },
    Replace { path: String, value: serde_json::Value },
}

} // verus!
