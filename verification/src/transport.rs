//! The transport collaborator contract.
//!
//! The handler only needs one ability from its transport: send one text
//! frame. Inbound traffic reaches the handler the other way around — the
//! host loop feeds each received frame to
//! [`Handler::process_incoming_message`](crate::handler::Handler::process_incoming_message)
//! and reports closure through
//! [`Handler::on_transport_closed`](crate::handler::Handler::on_transport_closed).

pub mod mock;

use vstd::prelude::*;

verus! {

/// The transport refused to send, e.g. because the socket is not open.
#[derive(Clone, Copy, Debug, PartialEq, Eq, Structural)]
pub enum SendingError {
    /// Cannot send a message while the connection is closed.
    TransportClosed,
}

/// A transport able to carry text frames to the peer.
///
/// Implementations decide when sending fails; whatever they decide, a
/// frame is recorded as sent exactly when `send_text` succeeds.
pub trait Transport {
    /// The text frames successfully handed over so far, oldest first.
    spec fn sent(&self) -> Seq<Seq<char>>;

    /// Send one text frame.
    fn send_text(&mut self, message: String) -> (r: Result<(), SendingError>)
        ensures
            r is Ok ==> final(self).sent() == old(self).sent().push(message@),
            r is Err ==> final(self).sent() == old(self).sent(),
    ;
}

} // verus!
