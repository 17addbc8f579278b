//! The client and its command line.

use sinrana::error::ErrorCode;
use sinrana::repl::{drain, greet, handle, interpret, print_message, render, CliAction, DrainStep, Shown};
use sinrana::{Client, Frame, HistoryItem, Message, Role};

fn push(text: &str) -> Frame {
    Frame::push(Message::Notice { text: text.into(), level: "info".into() })
}

#[test]
fn the_answer_is_found_among_pushes() {
    let mut client = Client::new();
    let frame = client.request(Message::Ping);
    assert_eq!(frame, Frame::request(1, Message::Ping));
    assert_eq!(client.next_id(), 2);
    assert_eq!(client.accept(1, push("a")), None);
    assert_eq!(client.accept(1, Frame::response(9, Message::Pong)), None);
    assert_eq!(client.accept(1, push("b")), None);
    assert_eq!(client.accept(1, Frame::response(1, Message::Pong)), Some(Message::Pong));
    assert_eq!(client.recv_push(), Some(push("a")));
    assert_eq!(client.recv_push(), Some(Frame::response(9, Message::Pong)));
    assert_eq!(client.recv_push(), Some(push("b")));
    assert_eq!(client.recv_push(), None);
}

#[test]
fn ids_are_never_used_twice() {
    let mut client = Client::new();
    let ids: Vec<u64> = (0..4).map(|_| client.request(Message::Ping).id).collect();
    assert_eq!(ids, vec![1, 2, 3, 4]);
}

#[test]
fn the_text_of_an_error() {
    let err = Message::Error { code: ErrorCode::Forbidden, message: "no".into(), retryable: false };
    assert_eq!(Client::error_text(&err), Some("no"));
    assert_eq!(Client::error_text(&Message::Pong), None);
}

fn asks(line: &str) -> Message {
    match interpret(line) {
        CliAction::Request(msg) => msg,
        other => panic!("{line}: {other:?}"),
    }
}

#[test]
fn commands_become_requests() {
    let name = || "my room".to_string();
    assert_eq!(asks("/create my room"), Message::RoomCreate { name: name() });
    assert_eq!(asks("/delete my room"), Message::RoomDelete { name: name() });
    assert_eq!(asks("/join  my room "), Message::RoomJoin { name: name() });
    assert_eq!(asks("/leave my room"), Message::RoomLeave { name: name() });
    assert_eq!(asks("/members my room"), Message::RoomMembers { name: name() });
    assert_eq!(asks("/rooms"), Message::RoomList);
    assert_eq!(asks("/users"), Message::UserOnline);
    assert_eq!(asks("/managers"), Message::UserManagers);
    assert_eq!(asks("/info"), Message::ServerInfo);
    assert_eq!(
        asks("/register  ann \t secret more"),
        Message::Register { username: "ann".into(), password: "secret".into() }
    );
}

#[test]
fn texts_keep_their_spaces() {
    assert_eq!(
        asks("/send den hello  there\n"),
        Message::SendText { room: Some("den".into()), to: None, body: "hello  there".into() }
    );
    assert_eq!(
        asks("/dm bob  hi"),
        Message::SendText { room: None, to: Some("bob".into()), body: " hi".into() }
    );
}

#[test]
fn history_has_a_default_limit() {
    let history = |room: &str, limit: u32| Message::History { room: room.into(), limit, before_seq: None };
    assert_eq!(asks("/history den 7"), history("den", 7));
    assert_eq!(asks("/history den"), history("den", 50));
    assert_eq!(asks("/history den many"), history("den", 50));
    assert_eq!(asks("/history"), history("", 50));
    assert_eq!(asks("/history den +3"), history("den", 3));
}

#[test]
fn what_is_incomplete_is_explained() {
    let say = |t: &str| CliAction::Say(t.to_string());
    assert_eq!(interpret("/register ann"), say("usage: /register <user> <pass>"));
    assert_eq!(interpret("/send den"), say("usage: /send <room> <text>"));
    assert_eq!(interpret("/dm"), say("usage: /dm <user> <text>"));
    assert_eq!(interpret("/nope x"), say("unknown command: /nope"));
    assert_eq!(interpret("hello"), say("unknown command: hello"));
}

#[test]
fn quitting_and_empty_lines() {
    assert_eq!(interpret(" /quit \n"), CliAction::Quit);
    assert_eq!(interpret("  \n"), CliAction::Nothing);
    assert_eq!(handle(""), CliAction::Nothing);
    match interpret("/help") {
        CliAction::Say(t) => {
            assert_eq!(t.lines().count(), 6);
            assert_eq!(t.lines().next(), Some("Commands:"));
            assert!(t.ends_with("/quit"));
        }
        other => panic!("unexpected: {other:?}"),
    }
}

fn shown(msg: Message) -> String {
    match print_message(&msg) {
        Shown::Out(t) => t,
        other => panic!("unexpected: {other:?}"),
    }
}

#[test]
fn messages_are_shown() {
    let list = || vec!["a b".to_string(), "\"q\"".to_string()];
    assert_eq!(shown(Message::RegisterRes { username: "ann".into() }), "Registered: ann");
    assert_eq!(
        shown(Message::RoomListRes { rooms: list(), mine: vec![] }),
        "Rooms: [\"a b\", \"\\\"q\\\"\"]\nMine: []"
    );
    assert_eq!(shown(Message::RoomCreateRes { name: "x".into() }), "Created room: x");
    assert_eq!(shown(Message::RoomJoinRes { name: "x".into() }), "Joined: x");
    assert_eq!(shown(Message::RoomLeaveRes { name: "x".into() }), "Left: x");
    assert_eq!(shown(Message::RoomDeleteRes { name: "x".into() }), "Deleted room: x");
    assert_eq!(
        shown(Message::RoomMembersRes { name: "x".into(), members: vec!["a".into()] }),
        "x members: [\"a\"]"
    );
    assert_eq!(shown(Message::UserOnlineRes { users: list() }), "Online: [\"a b\", \"\\\"q\\\"\"]");
    assert_eq!(shown(Message::UserManagersRes { managers: vec![] }), "Managers: []");
    assert_eq!(shown(Message::PushUserManifest { users: vec![] }), "[manifest] online: []");
    assert_eq!(
        shown(Message::ServerInfoRes {
            protocol: 1,
            name: "Sinrana".into(),
            version: "0.1.0".into(),
            rooms: 2,
            online: 13,
        }),
        "Sinrana v0.1.0 (protocol 1): 2 rooms, 13 online"
    );
    assert_eq!(shown(Message::SendTextRes { seq: 5, ts: -3 }), "Sent (seq 5, ts -3)");
    assert_eq!(
        shown(Message::PushText { room: "r".into(), from: "f".into(), body: "b".into(), seq: 1, ts: 2 }),
        "[r] f: b (2)"
    );
    assert_eq!(shown(Message::PushPrivate { from: "f".into(), body: "b".into(), ts: 2 }), "[DM] f: b");
    assert_eq!(shown(Message::Notice { text: "t".into(), level: "warn".into() }), "[warn] t");
    assert_eq!(shown(Message::Pong), "pong");
}

#[test]
fn a_history_is_shown_line_by_line() {
    let item = |ts: i64, body: &str| HistoryItem {
        seq: 1,
        room: "r".into(),
        from: "f".into(),
        body: body.into(),
        ts,
    };
    assert_eq!(
        shown(Message::HistoryRes { room: "r".into(), messages: vec![item(1, "a"), item(2, "b")] }),
        "History in r:\n  [1] f: a\n  [2] f: b"
    );
    assert_eq!(shown(Message::HistoryRes { room: "r".into(), messages: vec![] }), "History in r:");
}

#[test]
fn errors_and_everything_else() {
    let err = Message::Error { code: ErrorCode::NotInRoom, message: "no".into(), retryable: false };
    assert_eq!(print_message(&err), Shown::Failure("[error NotInRoom] no".to_string()));
    assert_eq!(print_message(&Message::UserKickRes { target: "x".into() }), Shown::Raw);
    assert_eq!(print_message(&Message::Ping), Shown::Raw);
}

#[test]
fn rendering_takes_lists_as_they_are_shown() {
    let msg = Message::RoomListRes { rooms: vec![], mine: vec![] };
    assert_eq!(render(&msg, "R", "M"), Shown::Out("Rooms: R\nMine: M".to_string()));
    let msg = Message::UserOnlineRes { users: vec![] };
    assert_eq!(render(&msg, "U", ""), Shown::Out("Online: U".to_string()));
}

#[test]
fn frames_are_shown_while_they_come() {
    assert_eq!(drain(0, true), DrainStep::Wait(20));
    assert_eq!(drain(31, true), DrainStep::Wait(20));
    assert_eq!(drain(32, true), DrainStep::Stop);
    assert_eq!(drain(0, false), DrainStep::Stop);
    assert_eq!(drain(5, false), DrainStep::Stop);
}

#[test]
fn only_a_login_is_greeted() {
    let login = |roles: Vec<Role>| Message::LoginRes {
        user_id: 7,
        username: "ann".into(),
        roles,
        token: "abc".into(),
    };
    assert_eq!(
        greet(&login(vec![Role::User])),
        Some("Logged in as ann (roles: [User])\nTo reconnect, resume token: abc".to_string())
    );
    assert_eq!(
        greet(&login(vec![Role::Admin, Role::Manager, Role::User])),
        Some("Logged in as ann (roles: [Admin, Manager, User])\nTo reconnect, resume token: abc".to_string())
    );
    assert_eq!(
        greet(&login(vec![])),
        Some("Logged in as ann (roles: [])\nTo reconnect, resume token: abc".to_string())
    );
    assert_eq!(greet(&Message::Pong), None);
    assert_eq!(greet(&Message::ResumeRes { username: "ann".into(), roles: vec![Role::User] }), None);
}
