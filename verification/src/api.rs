//! Entities used by client implementors to describe calls into a remote
//! API.
//!
//! A remote method is described by its name and by its input, the latter
//! already serialized to JSON text — the engine is generic over the method
//! catalog and never interprets the input.

use vstd::prelude::*;

use crate::messages::Id;
use crate::messages::Message;
use crate::messages::MethodCall;
use crate::messages::Request;
use crate::messages::Version;

verus! {

/// Make a request message from the given method invocation.
pub fn into_request_message(input: MethodCall, id: Id) -> (r: Message<Request<MethodCall>>)
    ensures
        r.jsonrpc == Version::V2,
        r.payload.id == id,
        r.payload.method == input,
{
    Message::new(Request { id, method: input })
}

} // verus!
