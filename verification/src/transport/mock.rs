//! A mock transport for exercising the handler without a peer.
//!
//! It collects every frame the handler sends, lets a test read them back
//! in order, and can pretend that the connection was closed.

use vstd::prelude::*;

use crate::transport::SendingError;
use crate::transport::Transport;

verus! {

/// Transport double: keeps the frames sent through it.
#[derive(Debug)]
pub struct MockTransport {
    /// Frames sent by the handler and not yet read by the test, oldest
    /// first.
    pub sent_msgs: Vec<String>,
    /// Whether the mocked connection was closed.
    pub is_closed: bool,
}

impl MockTransport {
    /// A fresh, open transport with nothing sent.
    pub fn new() -> (r: MockTransport)
        ensures
            r.sent_msgs@ == Seq::<String>::empty(),
            !r.is_closed,
    {
        MockTransport { sent_msgs: Vec::new(), is_closed: false }
    }

    /// Pretend the peer closed the connection: every further send fails.
    pub fn mock_connection_closed(&mut self)
        ensures
            final(self).is_closed,
            final(self).sent_msgs == old(self).sent_msgs,
    {
        self.is_closed = true;
    }

    /// Take the oldest frame sent by the handler and return its text.
    pub fn expect_message_text(&mut self) -> (r: String)
        requires
            old(self).sent_msgs@.len() > 0,
        ensures
            r == old(self).sent_msgs@[0],
            final(self).sent_msgs@ == old(self).sent_msgs@.drop_first(),
            final(self).is_closed == old(self).is_closed,
    {
        self.sent_msgs.remove(0)
    }
}

impl Transport for MockTransport {
    open spec fn sent(&self) -> Seq<Seq<char>> {
        Seq::new(self.sent_msgs@.len(), |k: int| self.sent_msgs@[k]@)
    }

    /// Sending succeeds exactly while the mocked connection is open.
    fn send_text(&mut self, message: String) -> (r: Result<(), SendingError>)
        ensures
            r is Ok <==> !old(self).is_closed,
            final(self).is_closed == old(self).is_closed,
            r is Err ==> final(self).sent_msgs == old(self).sent_msgs,
            r is Ok ==> final(self).sent_msgs@ == old(self).sent_msgs@.push(message),
    {
        if self.is_closed {
            Err(SendingError::TransportClosed)
        } else {
            let ghost pre = self.sent();
            self.sent_msgs.push(message);
            proof {
                assert(self.sent() =~= pre.push(message@));
            }
            Ok(())
        }
    }
}

} // verus!
