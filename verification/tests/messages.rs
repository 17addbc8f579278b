//! Messages, roles, errors and the envelope.

use sinrana::error::ErrorCode;
use sinrana::handle::reader_end;
use sinrana::server::role_from_str;
use sinrana::{Frame, Message, ProtocolError, Role, TransportError, PROTOCOL_VERSION};

#[test]
fn request_response_and_push_have_correct_ids() {
    let req = Frame::request(7, Message::Ping);
    assert_eq!(req.id, 7);
    let res = Frame::response(7, Message::Pong);
    assert_eq!(res.id, 7);
    let push = Frame::push(Message::Pong);
    assert_eq!(push.id, 0);
}

#[test]
fn version_mismatch_is_detected() {
    let bad = Frame {
        ver: 999,
        id: 1,
        msg: Message::Ping,
    };
    assert!(Frame::from_payload_v(Ok(bad)).is_err());
}

#[test]
fn the_version_error_names_both_versions() {
    let bad = Frame { ver: 999, id: 1, msg: Message::Ping };
    let err = Frame::from_payload_v(Ok(bad)).unwrap_err();
    assert_eq!(err, TransportError::Other("protocol version 999 != 1".to_string()));
    assert_eq!(err.message(), "transport: protocol version 999 != 1");
}

#[test]
fn a_frame_of_this_version_is_taken() {
    let frame = Frame::request(3, Message::Ping);
    assert_eq!(frame.ver, PROTOCOL_VERSION);
    assert_eq!(Frame::from_payload_v(Ok(frame.clone())).unwrap(), frame);
}

#[test]
fn a_payload_that_does_not_decode_is_reported() {
    let err = Frame::from_payload_v(Err("broken".to_string())).unwrap_err();
    assert_eq!(err, TransportError::Decode("broken".to_string()));
    assert_eq!(err.message(), "decode: broken");
}

#[test]
fn role_ordering_is_low_to_high() {
    assert!(Role::User < Role::Manager);
    assert!(Role::Manager < Role::Admin);
    let roles = [Role::User, Role::Manager, Role::Admin];
    for a in roles {
        for b in roles {
            assert_eq!(a.partial_cmp(&b), a.rank().partial_cmp(&b.rank()));
            assert_eq!(a.cmp(&b), a.rank().cmp(&b.rank()));
        }
    }
}

#[test]
fn ranks_and_names_of_roles() {
    assert_eq!(Role::User.rank(), 0);
    assert_eq!(Role::Manager.rank(), 1);
    assert_eq!(Role::Admin.rank(), 2);
    for role in [Role::User, Role::Manager, Role::Admin] {
        assert_eq!(role_from_str(role.name()), role);
    }
    assert_eq!(role_from_str("Admin"), Role::User);
    assert_eq!(role_from_str(""), Role::User);
}

#[test]
fn pushes_are_no_responses() {
    let push = Message::PushText {
        room: "general".to_string(),
        from: "alice".to_string(),
        body: "hey".to_string(),
        seq: 42,
        ts: 1_700_000_000,
    };
    assert!(push.is_push());
    assert!(!push.is_response());
    let res = Message::RoomJoinRes { name: "general".to_string() };
    assert!(res.is_response());
    assert!(!res.is_push());
    assert!(!Message::Ping.is_push());
    assert!(!Message::Ping.is_response());
    assert!(Message::Pong.is_response());
}

#[test]
fn an_error_frame_carries_the_error() {
    let err = ProtocolError::with_text(ErrorCode::RoomNotFound, "no such room").retryable();
    assert!(err.retryable);
    let frame = Frame::error(9, err);
    assert_eq!(frame.id, 9);
    assert_eq!(
        frame.msg,
        Message::Error {
            code: ErrorCode::RoomNotFound,
            message: "no such room".to_string(),
            retryable: true,
        }
    );
}

#[test]
fn an_error_has_the_text_of_its_code() {
    let err = ProtocolError::new(ErrorCode::AuthFailed);
    assert_eq!(err.message, ErrorCode::AuthFailed.as_str());
    assert!(!err.retryable);
    assert_eq!(err.clone().with_message("no").message, "no");
    assert_eq!(err.display(), "[AuthFailed] Authentication failed");
}

#[test]
fn transport_errors_read_as_one_line() {
    assert_eq!(TransportError::other("x").message(), "transport: x");
    assert_eq!(TransportError::Io("x".to_string()).message(), "io: x");
    assert_eq!(TransportError::Encode("x".to_string()).message(), "encode: x");
    assert_eq!(TransportError::Closed.message(), "connection closed");
}

#[test]
fn a_reader_ends_in_order_when_the_peer_closes() {
    assert_eq!(reader_end(&TransportError::Closed), Ok(()));
    assert_eq!(reader_end(&TransportError::other("reset")), Err("recv: transport: reset".to_string()));
}
