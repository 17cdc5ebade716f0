//! The per-connection protocol of the loopback transport. Each accepted
//! connection serves one exchange at a time: read one request, dispatch
//! it, write the one response back, and read again; a closed peer, a
//! failed read or a failed write ends the connection. Dispatching never
//! ends a connection: a request the router rejects still produces an
//! error-shaped response, so one bad request cannot take the worker
//! down. The loop that owns the socket performs the reads and writes
//! and feeds what happened back in; this module decides what comes next.
use vstd::prelude::*;

verus! {

/// Where a connection stands: awaiting a request, having one routed,
/// sending the response back, or done.
#[derive(Clone, Copy, Debug, PartialEq, Eq, Structural)]
pub enum TransportState {
    Reading,
    Dispatching,
    Writing,
    Closed,
}

/// What the socket loop reports back: a completed read (zero bytes
/// means the peer closed), a failed read, a routed request (with an
/// error-shaped response if the router refused it), a completed write,
/// or a failed write.
#[derive(Clone, Copy, Debug, PartialEq, Eq, Structural)]
pub enum TransportEvent {
    Received(usize),
    ReadFailed,
    Dispatched,
    Sent,
    WriteFailed,
}

/// The events that can occur in each state: reads finish while reading,
/// routing finishes while dispatching, writes finish while writing, and
/// a closed connection sees nothing further.
pub open spec fn event_fits(state: TransportState, event: TransportEvent) -> bool {
    match state {
        TransportState::Reading => event matches TransportEvent::Received(_) || event
            is ReadFailed,
        TransportState::Dispatching => event is Dispatched,
        TransportState::Writing => event is Sent || event is WriteFailed,
        TransportState::Closed => false,
    }
}

/// Advances one connection by one completed step of outside work: a
/// read with data leads to dispatching, dispatching always leads to
/// writing the (possibly error-shaped) response, a completed write
/// returns to reading, and a zero-byte read, a failed read or a failed
/// write closes the connection.
pub fn transport_step(state: TransportState, event: TransportEvent) -> (next: TransportState)
    requires
        event_fits(state, event),
    ensures
        state is Reading ==> (event matches TransportEvent::Received(n) ==> next == (if n == 0 {
            TransportState::Closed
        } else {
            TransportState::Dispatching
        })),
        state is Reading && event is ReadFailed ==> next is Closed,
        state is Dispatching ==> next is Writing,
        state is Writing && event is Sent ==> next is Reading,
        state is Writing && event is WriteFailed ==> next is Closed,
{
    match (state, event) {
        (TransportState::Reading, TransportEvent::Received(n)) => {
            if n == 0 {
                TransportState::Closed
            } else {
                TransportState::Dispatching
            }
        },
        (TransportState::Reading, _) => TransportState::Closed,
        (TransportState::Dispatching, _) => TransportState::Writing,
        (TransportState::Writing, TransportEvent::Sent) => TransportState::Reading,
        (TransportState::Writing, _) => TransportState::Closed,
        (TransportState::Closed, _) => TransportState::Closed,
    }
}

} // verus!
