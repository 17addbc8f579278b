//! The envelope that each length-prefixed frame carries.
//!
//! A [`Frame`] wraps a [`Message`] with the protocol version and a correlation id. A request has
//! a non-zero `id`; the response and any error repeat it. A push of the server has `id == 0`.

use vstd::prelude::*;
use vstd::string::StringExecFns;

use crate::error::{ProtocolError, ProtocolErrorView, TransportError, TransportErrorView};
use crate::message::{Message, MessageView};
use crate::text;

verus! {

/// The protocol version. The envelope carries it, so that a peer can refuse another one.
pub const PROTOCOL_VERSION: u16 = 1;

/// The view of a [`Frame`].
pub ghost struct FrameView {
    pub ver: u16,
    pub id: u64,
    pub msg: MessageView,
}

impl FrameView {
    /// A frame of this protocol version.
    pub open spec fn of(id: u64, msg: MessageView) -> FrameView {
        FrameView { ver: PROTOCOL_VERSION, id, msg }
    }

    /// A push of the server.
    pub open spec fn push(msg: MessageView) -> FrameView {
        FrameView::of(0, msg)
    }

    /// An error frame.
    pub open spec fn error(id: u64, err: ProtocolErrorView) -> FrameView {
        FrameView::of(
            id,
            MessageView::Error { code: err.code, message: err.message, retryable: err.retryable },
        )
    }
}

/// The envelope of every frame.
#[derive(Debug, Clone, PartialEq, Eq)]
pub struct Frame {
    /// The protocol version. A peer refuses a version other than its own.
    pub ver: u16,
    /// The correlation id; `0` is a push.
    pub id: u64,
    /// The message itself.
    pub msg: Message,
}

impl View for Frame {
    type V = FrameView;

    open spec fn view(&self) -> FrameView {
        FrameView { ver: self.ver, id: self.id, msg: self.msg@ }
    }
}

/// The message about a version that is not the one spoken here.
pub open spec fn version_text(ver: u16) -> Seq<char> {
    "protocol version "@ + text::decimal(ver as nat) + " != "@ + text::decimal(
        PROTOCOL_VERSION as nat,
    )
}

impl Frame {
    /// A request with the given correlation id.
    pub fn request(id: u64, msg: Message) -> (frame: Self)
        ensures
            frame == (Frame { ver: PROTOCOL_VERSION, id, msg }),
            frame@ == FrameView::of(id, msg@),
    {
        Frame { ver: PROTOCOL_VERSION, id, msg }
    }

    /// A response that repeats the id of the request.
    pub fn response(id: u64, msg: Message) -> (frame: Self)
        ensures
            frame == (Frame { ver: PROTOCOL_VERSION, id, msg }),
            frame@ == FrameView::of(id, msg@),
    {
        Frame { ver: PROTOCOL_VERSION, id, msg }
    }

    /// A push of the server (`id == 0`).
    pub fn push(msg: Message) -> (frame: Self)
        ensures
            frame == (Frame { ver: PROTOCOL_VERSION, id: 0, msg }),
            frame@ == FrameView::push(msg@),
    {
        Frame { ver: PROTOCOL_VERSION, id: 0, msg }
    }

    /// An error response that repeats `id`.
    pub fn error(id: u64, err: ProtocolError) -> (frame: Self)
        ensures
            frame@ == FrameView::error(id, err@),
    {
        Frame {
            ver: PROTOCOL_VERSION,
            id,
            msg: Message::Error {
                code: err.code,
                message: err.message,
                retryable: err.retryable,
            },
        }
    }

    /// Accepts a decoded payload only where its version is the one spoken here. A payload that
    /// could not be decoded comes in as the message of the decoder.
    pub fn from_payload_v(decoded: Result<Frame, String>) -> (checked: Result<
        Frame,
        TransportError,
    >)
        ensures
            match decoded {
                Err(message) => checked matches Err(err) && err@ == TransportErrorView::Decode(
                    message@,
                ),
                Ok(frame) => if frame.ver == PROTOCOL_VERSION {
                    checked == Ok::<Frame, TransportError>(frame)
                } else {
                    checked matches Err(err) && err@ == TransportErrorView::Other(
                        version_text(frame.ver),
                    )
                },
            },
            decoded matches Ok(frame) ==> match version_refusal(frame.ver) {
                None => checked is Ok,
                Some(why) => checked matches Err(err) && err@ == why,
            },
    {
        match decoded {
            Err(message) => Err(TransportError::Decode(message)),
            Ok(frame) => {
                if frame.ver != PROTOCOL_VERSION {
                    let mut t = text::join(
                        "protocol version ",
                        text::decimal_text(frame.ver as u64).as_str(),
                    );
                    t.append(" != ");
                    t.append(text::decimal_text(PROTOCOL_VERSION as u64).as_str());
                    return Err(TransportError::Other(t));
                }
                Ok(frame)
            },
        }
    }
}

/// Why a frame of a version is refused, if it is.
pub open spec fn version_refusal(ver: u16) -> Option<TransportErrorView> {
    if ver == PROTOCOL_VERSION {
        None
    } else {
        Some(TransportErrorView::Other(version_text(ver)))
    }
}

/// Frames of version 1 are taken, and all others are refused with their version and that one.
pub proof fn law_version_is_one(ver: u16)
    ensures
        version_refusal(ver) is None <==> ver == 1,
        ver != 1 ==> version_refusal(ver) == Some(
            TransportErrorView::Other(
                "protocol version "@ + text::decimal(ver as nat) + " != "@ + text::decimal(1),
            ),
        ),
{
}

/// A response and an error carry the id of the request that they answer, a push carries none.
pub proof fn law_ids_correlate(id: u64, msg: MessageView, err: ProtocolErrorView)
    ensures
        FrameView::of(id, msg).id == id,
        FrameView::error(id, err).id == id,
        FrameView::push(msg).id == 0,
{
}

} // verus!
