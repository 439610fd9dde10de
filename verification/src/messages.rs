//! Data structures following the JSON-RPC 2.0 scheme.
//!
//! Payloads that the engine does not interpret (call parameters, success
//! results, error data) are carried as their raw JSON text, so that the
//! correlation logic stays independent of any particular method catalog.

use vstd::prelude::*;

verus! {

/// An id identifying a call request.
///
/// Each request made by the client gets an id that is unique within the
/// current session; an auto-incrementing integer is used.
#[derive(Clone, Copy, Debug, PartialEq, Eq, Structural, PartialOrd, Ord, Hash)]
pub struct Id(pub i64);

impl View for Id {
    type V = int;

    open spec fn view(&self) -> int {
        self.0 as int
    }
}

/// JSON-RPC protocol version. Only 2.0 is supported; 1.0 is recognized so
/// that its tag round-trips, but the engine never emits it.
#[derive(Clone, Copy, Debug, PartialEq, Eq, Structural)]
pub enum Version {
    /// Old JSON-RPC 1.0 specification. Not supported.
    V1,
    /// JSON-RPC 2.0 specification. The supported version.
    V2,
}

impl Version {
    /// The version tag as it appears on the wire.
    pub fn as_text(&self) -> (r: &'static str)
        ensures
            *self == Version::V1 ==> r@ == "1.0"@,
            *self == Version::V2 ==> r@ == "2.0"@,
    {
        match self {
            Version::V1 => "1.0",
            Version::V2 => "2.0",
        }
    }

    /// Read a wire tag back; together with [`Version::as_text`] the two
    /// tags round-trip, and any other text is refused.
    pub fn from_text(s: &str) -> (r: Option<Version>)
        ensures
            s@ == "2.0"@ ==> r == Some(Version::V2),
            s@ == "1.0"@ ==> r == Some(Version::V1),
            s@ != "2.0"@ && s@ != "1.0"@ ==> r is None,
    {
        proof {
            reveal_strlit("2.0");
            reveal_strlit("1.0");
            assert("2.0"@[0] == '2' && "1.0"@[0] == '1');
            assert("2.0"@ != "1.0"@);
        }
        let owned = String::from_str(s);
        if crate::text::string_eq(&owned, "2.0") {
            Some(Version::V2)
        } else if crate::text::string_eq(&owned, "1.0") {
            Some(Version::V1)
        } else {
            None
        }
    }
}

/// All JSON-RPC messages bear a `jsonrpc` version tag.
#[derive(Debug, PartialEq)]
pub struct Message<T> {
    /// JSON-RPC protocol version.
    pub jsonrpc: Version,
    /// Payload: a request, response or notification.
    pub payload: T,
}

impl<T> Message<T> {
    /// Wraps the given payload into a JSON-RPC 2.0 message.
    pub fn new(t: T) -> (r: Message<T>)
        ensures
            r.jsonrpc == Version::V2,
            r.payload == t,
    {
        Message { jsonrpc: Version::V2, payload: t }
    }
}

/// A method invocation: the remote method's name, and its arguments already
/// serialized to JSON text.
#[derive(Clone, Debug, PartialEq)]
pub struct MethodCall {
    /// Name of the remote method.
    pub method: String,
    /// The method's arguments, as JSON text.
    pub input: String,
}

/// A non-notification request.
#[derive(Debug, PartialEq)]
pub struct Request<In> {
    /// Identifier correlating this request to its eventual response.
    pub id: Id,
    /// The invocation this request carries.
    pub method: In,
}

/// Value yielded by a successful remote call.
#[derive(Clone, Debug, PartialEq)]
pub struct Success<Res> {
    /// The call's result, as the peer sent it.
    pub result: Res,
}

/// Error raised on a failed remote call.
#[derive(Clone, Debug, PartialEq)]
pub struct Error {
    /// Error code assigned by the peer.
    pub code: i64,
    /// Human-readable description of the failure.
    pub message: String,
    /// Additional JSON data attached to the error, if any.
    pub data: Option<String>,
}

/// Protocol-level outcome of a remote call, before the result payload is
/// decoded into any method-specific type.
#[derive(Clone, Debug, PartialEq)]
pub enum RawResult {
    /// The peer answered the call; the payload is the `result` member's
    /// JSON text.
    Success(Success<String>),
    /// The peer rejected the call.
    Error(Error),
}

/// A response from the peer to one of our requests.
#[derive(Clone, Debug, PartialEq)]
pub struct Response {
    /// Identifier of the request being answered.
    pub id: Id,
    /// Outcome the peer reported.
    pub res: RawResult,
}

/// A notification from the peer: no reply is expected and no id is carried.
#[derive(Clone, Debug, PartialEq)]
pub struct Notification {
    /// Name of the notification method.
    pub method: String,
    /// The notification's payload as JSON text, if a `params` member was
    /// present.
    pub params: Option<String>,
}

/// Any message the peer may send us.
#[derive(Clone, Debug, PartialEq)]
pub enum IncomingMessage {
    /// An answer to one of our requests.
    Response(Response),
    /// A method invocation directed at us that expects no reply.
    Notification(Notification),
}

// === Mathematical models ===
//
// Contracts about decoding and about the handler's evolution speak of these
// views rather than of the executable structures, so that they can be stated
// over sequences of characters and unbounded integers.

/// Model of [`Error`].
pub ghost struct ErrorV {
    /// Error code.
    pub code: int,
    /// Description text.
    pub message: Seq<char>,
    /// Attached JSON data, if any.
    pub data: Option<Seq<char>>,
}

/// Model of [`RawResult`].
pub ghost enum RawResultV {
    /// Successful outcome carrying the result's JSON text.
    Success(Seq<char>),
    /// Failed outcome carrying the peer's error report.
    Error(ErrorV),
}

/// Model of [`Response`].
pub ghost struct ResponseV {
    /// Identifier of the answered request.
    pub id: int,
    /// Reported outcome.
    pub res: RawResultV,
}

/// Model of [`Notification`].
pub ghost struct NotificationV {
    /// Method name.
    pub method: Seq<char>,
    /// Payload JSON text, if present.
    pub params: Option<Seq<char>>,
}

/// Model of [`IncomingMessage`].
pub ghost enum IncomingV {
    /// An answer to one of our requests.
    Response(ResponseV),
    /// A notification.
    Notification(NotificationV),
}

impl View for Error {
    type V = ErrorV;

    open spec fn view(&self) -> ErrorV {
        ErrorV {
            code: self.code as int,
            message: self.message@,
            data: match self.data {
                Some(d) => Some(d@),
                None => None,
            },
        }
    }
}

impl View for RawResult {
    type V = RawResultV;

    open spec fn view(&self) -> RawResultV {
        match self {
            RawResult::Success(s) => RawResultV::Success(s.result@),
            RawResult::Error(e) => RawResultV::Error(e@),
        }
    }
}

impl View for Response {
    type V = ResponseV;

    open spec fn view(&self) -> ResponseV {
        ResponseV { id: self.id@, res: self.res@ }
    }
}

impl View for Notification {
    type V = NotificationV;

    open spec fn view(&self) -> NotificationV {
        NotificationV {
            method: self.method@,
            params: match self.params {
                Some(p) => Some(p@),
                None => None,
            },
        }
    }
}

impl View for IncomingMessage {
    type V = IncomingV;

    open spec fn view(&self) -> IncomingV {
        match self {
            IncomingMessage::Response(r) => IncomingV::Response(r@),
            IncomingMessage::Notification(n) => IncomingV::Notification(n@),
        }
    }
}

} // verus!
