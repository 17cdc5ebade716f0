//! The request/response envelope of the routing layer. A message on the
//! wire is either outbound to the worker (`Send`) or inbound from it
//! (`Receive`); each handler unwraps the shape it expects and complains
//! about the other, so a response can never be routed as a request.
use vstd::prelude::*;

verus! {

/// A routed message: a request payload on its way to the worker, or a
/// response payload on its way back.
#[derive(Debug)]
pub enum Message<T, X> {
    Send(Option<T>),
    Receive(Option<X>),
}

impl<T, X> Message<T, X> {
    /// Wraps a request payload for the trip to the worker.
    pub fn package_send(send: T) -> (r: Message<T, X>)
        ensures
            r == Message::<T, X>::Send(Some(send)),
    {
        Message::Send(Some(send))
    }

    /// Wraps a response payload for the trip back to the client.
    pub fn package_receive(receive: X) -> (r: Message<T, X>)
        ensures
            r == Message::<T, X>::Receive(Some(receive)),
    {
        Message::Receive(Some(receive))
    }

    /// Unwraps a request payload at the worker: only a `Send` envelope
    /// with a payload passes.
    pub fn handle_send(self) -> (r: Result<T, String>)
        ensures
            r is Ok <==> self matches Message::Send(Some(_)),
            self matches Message::Send(Some(send)) ==> r == Ok::<T, String>(send),
            self matches Message::Send(None::<T>) ==> r is Err && r->Err_0@
                == "no send message packaged"@,
            self is Receive ==> r is Err && r->Err_0@ == "not a send message"@,
    {
        match self {
            Message::Send(send) => {
                if let Some(send) = send {
                    return Ok(send);
                }
                Err(String::from_str("no send message packaged"))
            },
            Message::Receive(_) => Err(String::from_str("not a send message")),
        }
    }

    /// Unwraps a response payload at the client: only a `Receive`
    /// envelope with a payload passes.
    pub fn handle_recieve(self) -> (r: Result<X, String>)
        ensures
            r is Ok <==> self matches Message::Receive(Some(_)),
            self matches Message::Receive(Some(receive)) ==> r == Ok::<X, String>(receive),
            self matches Message::Receive(None::<X>) ==> r is Err && r->Err_0@
                == "no receive message packaged"@,
            self is Send ==> r is Err && r->Err_0@ == "not a receive message"@,
    {
        match self {
            Message::Receive(receive) => {
                if let Some(receive) = receive {
                    return Ok(receive);
                }
                Err(String::from_str("no receive message packaged"))
            },
            Message::Send(_) => Err(String::from_str("not a receive message")),
        }
    }
}

} // verus!
