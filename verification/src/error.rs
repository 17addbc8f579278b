//! The typed errors of the protocol.

use vstd::prelude::*;
use vstd::string::StringExecFns;

use crate::text;

verus! {

/// Stable machine-readable error codes that a peer can branch on.
#[derive(Debug, Clone, Copy, PartialEq, Eq, Structural)]
pub enum ErrorCode {
    /// The request is malformed or lacks a required field.
    BadRequest,
    /// Authentication failed (wrong user name, password or token).
    AuthFailed,
    /// The sender is not authenticated, or the session is not valid.
    NotAuthenticated,
    /// The sender lacks the role that the operation needs.
    Forbidden,
    /// The requested resource does not exist.
    NotFound,
    /// The resource exists already.
    Conflict,
    /// Refused because of a rate limit or back pressure.
    RateLimited,
    /// An unexpected fault of the server.
    Internal,
    /// The peer speaks a protocol version that this end does not know.
    VersionMismatch,
    /// Protocol-level validation failed (framing, envelope).
    Protocol,
    /// The target room does not exist.
    RoomNotFound,
    /// The user to be registered exists already.
    UserExists,
    /// The caller is not a member of the room.
    NotInRoom,
    /// The name is reserved for the server.
    ReservedName,
}

impl ErrorCode {
    /// The default message of each code.
    pub open spec fn text(self) -> Seq<char> {
        match self {
            ErrorCode::BadRequest => "Malformed request"@,
            ErrorCode::AuthFailed => "Authentication failed"@,
            ErrorCode::NotAuthenticated => "Not authenticated"@,
            ErrorCode::Forbidden => "Permission denied"@,
            ErrorCode::NotFound => "Not found"@,
            ErrorCode::Conflict => "Already exists"@,
            ErrorCode::RateLimited => "Rate limited"@,
            ErrorCode::Internal => "Internal server error"@,
            ErrorCode::VersionMismatch => "Protocol version mismatch"@,
            ErrorCode::Protocol => "Protocol error"@,
            ErrorCode::RoomNotFound => "Room not found"@,
            ErrorCode::UserExists => "User already exists"@,
            ErrorCode::NotInRoom => "Not in room"@,
            ErrorCode::ReservedName => "Reserved name"@,
        }
    }

    /// The name of each code.
    pub open spec fn label(self) -> Seq<char> {
        match self {
            ErrorCode::BadRequest => "BadRequest"@,
            ErrorCode::AuthFailed => "AuthFailed"@,
            ErrorCode::NotAuthenticated => "NotAuthenticated"@,
            ErrorCode::Forbidden => "Forbidden"@,
            ErrorCode::NotFound => "NotFound"@,
            ErrorCode::Conflict => "Conflict"@,
            ErrorCode::RateLimited => "RateLimited"@,
            ErrorCode::Internal => "Internal"@,
            ErrorCode::VersionMismatch => "VersionMismatch"@,
            ErrorCode::Protocol => "Protocol"@,
            ErrorCode::RoomNotFound => "RoomNotFound"@,
            ErrorCode::UserExists => "UserExists"@,
            ErrorCode::NotInRoom => "NotInRoom"@,
            ErrorCode::ReservedName => "ReservedName"@,
        }
    }

    /// A short default message for each code. The server may override it; it gives a client
    /// something sensible to show.
    pub fn as_str(self) -> (t: &'static str)
        ensures
            t@ == self.text(),
    {
        match self {
            ErrorCode::BadRequest => "Malformed request",
            ErrorCode::AuthFailed => "Authentication failed",
            ErrorCode::NotAuthenticated => "Not authenticated",
            ErrorCode::Forbidden => "Permission denied",
            ErrorCode::NotFound => "Not found",
            ErrorCode::Conflict => "Already exists",
            ErrorCode::RateLimited => "Rate limited",
            ErrorCode::Internal => "Internal server error",
            ErrorCode::VersionMismatch => "Protocol version mismatch",
            ErrorCode::Protocol => "Protocol error",
            ErrorCode::RoomNotFound => "Room not found",
            ErrorCode::UserExists => "User already exists",
            ErrorCode::NotInRoom => "Not in room",
            ErrorCode::ReservedName => "Reserved name",
        }
    }

    /// The name of the code, as it is written in the source.
    pub fn name(self) -> (t: &'static str)
        ensures
            t@ == self.label(),
    {
        match self {
            ErrorCode::BadRequest => "BadRequest",
            ErrorCode::AuthFailed => "AuthFailed",
            ErrorCode::NotAuthenticated => "NotAuthenticated",
            ErrorCode::Forbidden => "Forbidden",
            ErrorCode::NotFound => "NotFound",
            ErrorCode::Conflict => "Conflict",
            ErrorCode::RateLimited => "RateLimited",
            ErrorCode::Internal => "Internal",
            ErrorCode::VersionMismatch => "VersionMismatch",
            ErrorCode::Protocol => "Protocol",
            ErrorCode::RoomNotFound => "RoomNotFound",
            ErrorCode::UserExists => "UserExists",
            ErrorCode::NotInRoom => "NotInRoom",
            ErrorCode::ReservedName => "ReservedName",
        }
    }
}

/// The view of a [`ProtocolError`].
pub ghost struct ProtocolErrorView {
    pub code: ErrorCode,
    pub message: Seq<char>,
    pub retryable: bool,
}

impl ProtocolErrorView {
    /// An error with the default message of its code.
    pub open spec fn plain(code: ErrorCode) -> ProtocolErrorView {
        ProtocolErrorView { code, message: code.text(), retryable: false }
    }

    /// An error with a message of its own.
    pub open spec fn saying(code: ErrorCode, message: Seq<char>) -> ProtocolErrorView {
        ProtocolErrorView { code, message, retryable: false }
    }
}

/// The structured error that a `sys.error` frame carries.
#[derive(Debug, Clone, PartialEq, Eq)]
pub struct ProtocolError {
    pub code: ErrorCode,
    pub message: String,
    pub retryable: bool,
}

impl View for ProtocolError {
    type V = ProtocolErrorView;

    open spec fn view(&self) -> ProtocolErrorView {
        ProtocolErrorView {
            code: self.code,
            message: self.message@,
            retryable: self.retryable,
        }
    }
}

impl ProtocolError {
    /// An error with the default message of its code.
    pub fn new(code: ErrorCode) -> (err: Self)
        ensures
            err@ == ProtocolErrorView::plain(code),
    {
        ProtocolError { code, message: code.as_str().to_owned(), retryable: false }
    }

    /// Replaces the message (builder style).
    pub fn with_message(self, message: &str) -> (err: Self)
        ensures
            err@ == (ProtocolErrorView { message: message@, ..self@ }),
    {
        ProtocolError { code: self.code, message: message.to_owned(), retryable: self.retryable }
    }

    /// An error with a code and a message.
    pub fn with_text(code: ErrorCode, message: &str) -> (err: Self)
        ensures
            err@ == ProtocolErrorView::saying(code, message@),
    {
        ProtocolError { code, message: message.to_owned(), retryable: false }
    }

    /// Marks the error as one after which a retry makes sense.
    pub fn retryable(self) -> (err: Self)
        ensures
            err@ == (ProtocolErrorView { retryable: true, ..self@ }),
    {
        ProtocolError { code: self.code, message: self.message, retryable: true }
    }

    /// The error in one line: the code's name in square brackets, then the message.
    pub fn display(&self) -> (t: String)
        ensures
            t@ == "["@ + self.code.label() + "] "@ + self.message@,
    {
        let mut t = text::join("[", self.code.name());
        t.append("] ");
        t.append(self.message.as_str());
        t
    }
}

/// The refusal of a frame whose declared length is over the limit.
#[derive(Debug, Clone, Copy, PartialEq, Eq, Structural)]
pub struct FrameError {
    /// The length that was declared.
    pub len: u32,
    /// The longest length that is accepted.
    pub max: u32,
}

impl FrameError {
    /// The message of the refusal.
    pub open spec fn text(self) -> Seq<char> {
        "frame length "@ + text::decimal(self.len as nat) + " exceeds max "@ + text::decimal(
            self.max as nat,
        )
    }

    /// The message of the refusal.
    pub fn message(self) -> (t: String)
        ensures
            t@ == self.text(),
    {
        let mut t = text::join("frame length ", text::decimal_text(self.len as u64).as_str());
        t.append(" exceeds max ");
        t.append(text::decimal_text(self.max as u64).as_str());
        t
    }
}

/// The view of a [`TransportError`].
pub ghost enum TransportErrorView {
    Io(Seq<char>),
    Encode(Seq<char>),
    Decode(Seq<char>),
    Closed,
    Other(Seq<char>),
}

impl TransportErrorView {
    /// The error in one line.
    pub open spec fn text(self) -> Seq<char> {
        match self {
            TransportErrorView::Io(message) => "io: "@ + message,
            TransportErrorView::Encode(message) => "encode: "@ + message,
            TransportErrorView::Decode(message) => "decode: "@ + message,
            TransportErrorView::Closed => "connection closed"@,
            TransportErrorView::Other(message) => "transport: "@ + message,
        }
    }
}

/// What the transport layer reports when it sends or receives frames. The errors of the layers
/// below are carried as their messages.
#[derive(Debug, Clone, PartialEq, Eq)]
#[non_exhaustive]
pub enum TransportError {
    /// An I/O error (socket, stream).
    Io(String),
    /// A frame could not be encoded.
    Encode(String),
    /// A payload could not be decoded.
    Decode(String),
    /// The peer closed the stream or the connection.
    Closed,
    /// Any other fault.
    Other(String),
}

impl View for TransportError {
    type V = TransportErrorView;

    open spec fn view(&self) -> TransportErrorView {
        match self {
            TransportError::Io(message) => TransportErrorView::Io(message@),
            TransportError::Encode(message) => TransportErrorView::Encode(message@),
            TransportError::Decode(message) => TransportErrorView::Decode(message@),
            TransportError::Closed => TransportErrorView::Closed,
            TransportError::Other(message) => TransportErrorView::Other(message@),
        }
    }
}

impl TransportError {
    /// An [`TransportError::Other`] error.
    pub fn other(message: &str) -> (err: Self)
        ensures
            err@ == TransportErrorView::Other(message@),
    {
        TransportError::Other(message.to_owned())
    }

    /// The error in one line.
    pub fn message(&self) -> (t: String)
        ensures
            t@ == self@.text(),
    {
        match self {
            TransportError::Io(message) => text::join("io: ", message.as_str()),
            TransportError::Encode(message) => text::join("encode: ", message.as_str()),
            TransportError::Decode(message) => text::join("decode: ", message.as_str()),
            TransportError::Closed => "connection closed".to_owned(),
            TransportError::Other(message) => text::join("transport: ", message.as_str()),
        }
    }
}

/// Every code has a name and a text of its own, so that a peer can tell any two apart by either;
/// the name is the one under which the code is written.
pub proof fn law_codes_are_told_apart(a: ErrorCode, b: ErrorCode)
    ensures
        a != b ==> a.label() != b.label() && a.text() != b.text(),
        a.label() == "BadRequest"@ <==> a == ErrorCode::BadRequest,
        a.label() == "AuthFailed"@ <==> a == ErrorCode::AuthFailed,
        a.label() == "NotAuthenticated"@ <==> a == ErrorCode::NotAuthenticated,
        a.label() == "Forbidden"@ <==> a == ErrorCode::Forbidden,
        a.label() == "NotFound"@ <==> a == ErrorCode::NotFound,
        a.label() == "Conflict"@ <==> a == ErrorCode::Conflict,
        a.label() == "RateLimited"@ <==> a == ErrorCode::RateLimited,
        a.label() == "Internal"@ <==> a == ErrorCode::Internal,
        a.label() == "VersionMismatch"@ <==> a == ErrorCode::VersionMismatch,
        a.label() == "Protocol"@ <==> a == ErrorCode::Protocol,
        a.label() == "RoomNotFound"@ <==> a == ErrorCode::RoomNotFound,
        a.label() == "UserExists"@ <==> a == ErrorCode::UserExists,
        a.label() == "NotInRoom"@ <==> a == ErrorCode::NotInRoom,
        a.label() == "ReservedName"@ <==> a == ErrorCode::ReservedName,
{
    reveal_strlit("BadRequest");
    assert("BadRequest"@.len() == 10 && "BadRequest"@[3] == 'R');
    reveal_strlit("Malformed request");
    assert("Malformed request"@.len() == 17 && "Malformed request"@[0] == 'M');
    reveal_strlit("AuthFailed");
    assert("AuthFailed"@.len() == 10 && "AuthFailed"@[3] == 'h');
    reveal_strlit("Authentication failed");
    assert("Authentication failed"@.len() == 21 && "Authentication failed"@[0] == 'A');
    reveal_strlit("NotAuthenticated");
    assert("NotAuthenticated"@.len() == 16 && "NotAuthenticated"@[3] == 'A');
    reveal_strlit("Not authenticated");
    assert("Not authenticated"@.len() == 17 && "Not authenticated"@[0] == 'N');
    reveal_strlit("Forbidden");
    assert("Forbidden"@.len() == 9 && "Forbidden"@[3] == 'b');
    reveal_strlit("Permission denied");
    assert("Permission denied"@.len() == 17 && "Permission denied"@[0] == 'P');
    reveal_strlit("NotFound");
    assert("NotFound"@.len() == 8 && "NotFound"@[3] == 'F');
    reveal_strlit("Not found");
    assert("Not found"@.len() == 9 && "Not found"@[0] == 'N');
    reveal_strlit("Conflict");
    assert("Conflict"@.len() == 8 && "Conflict"@[3] == 'f');
    reveal_strlit("Already exists");
    assert("Already exists"@.len() == 14 && "Already exists"@[0] == 'A');
    reveal_strlit("RateLimited");
    assert("RateLimited"@.len() == 11 && "RateLimited"@[3] == 'e');
    reveal_strlit("Rate limited");
    assert("Rate limited"@.len() == 12 && "Rate limited"@[0] == 'R');
    reveal_strlit("Internal");
    assert("Internal"@.len() == 8 && "Internal"@[3] == 'e');
    reveal_strlit("Internal server error");
    assert("Internal server error"@.len() == 21 && "Internal server error"@[0] == 'I');
    reveal_strlit("VersionMismatch");
    assert("VersionMismatch"@.len() == 15 && "VersionMismatch"@[3] == 's');
    reveal_strlit("Protocol version mismatch");
    assert("Protocol version mismatch"@.len() == 25 && "Protocol version mismatch"@[0] == 'P');
    reveal_strlit("Protocol");
    assert("Protocol"@.len() == 8 && "Protocol"@[3] == 't');
    reveal_strlit("Protocol error");
    assert("Protocol error"@.len() == 14 && "Protocol error"@[0] == 'P');
    reveal_strlit("RoomNotFound");
    assert("RoomNotFound"@.len() == 12 && "RoomNotFound"@[3] == 'm');
    reveal_strlit("Room not found");
    assert("Room not found"@.len() == 14 && "Room not found"@[0] == 'R');
    reveal_strlit("UserExists");
    assert("UserExists"@.len() == 10 && "UserExists"@[3] == 'r');
    reveal_strlit("User already exists");
    assert("User already exists"@.len() == 19 && "User already exists"@[0] == 'U');
    reveal_strlit("NotInRoom");
    assert("NotInRoom"@.len() == 9 && "NotInRoom"@[3] == 'I');
    reveal_strlit("Not in room");
    assert("Not in room"@.len() == 11 && "Not in room"@[0] == 'N');
    reveal_strlit("ReservedName");
    assert("ReservedName"@.len() == 12 && "ReservedName"@[3] == 'e');
    reveal_strlit("Reserved name");
    assert("Reserved name"@.len() == 13 && "Reserved name"@[0] == 'R');
}

/// An error is shown with what went wrong and where: what the layer below reported behind the name
/// of the layer, and for a frame the length that was declared and the one that is allowed.
pub proof fn law_faults_are_shown(message: Seq<char>, err: FrameError)
    ensures
        TransportErrorView::Io(message).text() == "io: "@ + message,
        TransportErrorView::Encode(message).text() == "encode: "@ + message,
        TransportErrorView::Decode(message).text() == "decode: "@ + message,
        TransportErrorView::Other(message).text() == "transport: "@ + message,
        TransportErrorView::Closed.text() == "connection closed"@,
        err.text() == "frame length "@ + text::decimal(err.len as nat) + " exceeds max "@
            + text::decimal(err.max as nat),
{
}

/// An error is not one after which a retry makes sense, unless it is marked so; it has the text of
/// its code, or the one it was given.
pub proof fn law_errors_are_final(code: ErrorCode, message: Seq<char>)
    ensures
        ProtocolErrorView::plain(code) == (ProtocolErrorView {
            code,
            message: code.text(),
            retryable: false,
        }),
        ProtocolErrorView::saying(code, message) == (ProtocolErrorView {
            code,
            message,
            retryable: false,
        }),
{
}

} // verus!
