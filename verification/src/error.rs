//! Error types used by this crate. `RpcError` is used in remote call
//! results, while `HandlingError` can be raised by the handler.

use vstd::prelude::*;

use crate::messages::Error;
use crate::messages::ErrorV;
use crate::messages::Response;
use crate::messages::ResponseV;

verus! {

/// Errors that can cause a remote call to fail.
#[derive(Clone, Debug, PartialEq)]
pub enum RpcError {
    /// Error returned by the remote server.
    RemoteError(Error),
    /// Lost connection while waiting for a response.
    LostConnection,
    /// The response payload did not decode into the expected shape; the
    /// text describes the failure.
    DeserializationFailed(String),
}

/// Model of [`RpcError`].
pub ghost enum RpcErrorV {
    /// Error returned by the remote server.
    RemoteError(ErrorV),
    /// Lost connection while waiting for a response.
    LostConnection,
    /// The response payload did not decode into the expected shape.
    DeserializationFailed(Seq<char>),
}

impl View for RpcError {
    type V = RpcErrorV;

    open spec fn view(&self) -> RpcErrorV {
        match self {
            RpcError::RemoteError(e) => RpcErrorV::RemoteError(e@),
            RpcError::LostConnection => RpcErrorV::LostConnection,
            RpcError::DeserializationFailed(s) => RpcErrorV::DeserializationFailed(s@),
        }
    }
}

/// Errors specific to the handler itself, not to any particular request.
///
/// Caused by protocol violations or bugs in the peer; they are reported on
/// the event queue and never interrupt the handler.
#[derive(Clone, Debug, PartialEq)]
pub enum HandlingError {
    /// An inbound text frame could not be decoded; carries the frame.
    InvalidMessage(String),
    /// The peer answered an identifier that matches no pending request.
    UnexpectedResponse(Response),
}

/// Model of [`HandlingError`].
pub ghost enum HandlingErrorV {
    /// An inbound text frame could not be decoded.
    InvalidMessage(Seq<char>),
    /// The peer answered an identifier that matches no pending request.
    UnexpectedResponse(ResponseV),
}

impl View for HandlingError {
    type V = HandlingErrorV;

    open spec fn view(&self) -> HandlingErrorV {
        match self {
            HandlingError::InvalidMessage(s) => HandlingErrorV::InvalidMessage(s@),
            HandlingError::UnexpectedResponse(r) => HandlingErrorV::UnexpectedResponse(r@),
        }
    }
}

} // verus!
