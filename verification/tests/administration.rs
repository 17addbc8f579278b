//! The web interface and its terminal.

use sinrana::auth::{hash_with_salt, AuthError};
use sinrana::db::{DbWrite, Lookup, UserRecord};
use sinrana::server::Output;
use sinrana::terminal::{
    dispatch_command, handle_terminal, on_client_message, on_hash, on_lookup, on_request, on_write, read_request,
    request_from, settle_hash, AfterTermHash, AfterTermWrite, ClientRequest, TermAction, TermInput, TermReply, TermStep,
};
use sinrana::web::{
    api_config, api_config_save, api_history, api_info, api_online, api_rooms, bearer_token, hello, judge_login,
    stream_event, LoginOutcome, RoomEntry, StreamAction, StreamEvent, StreamInput, WebError, WebState,
};
use sinrana::{Config, Frame, Message, Role, State};

const ROOM: &str = "Sinrana! Chatting Room";

fn state() -> State {
    let mut state = State::new(Config::default(), "0.1.0".to_string(), 1000);
    for (i, name) in ["ann", "admin"].iter().enumerate() {
        let role = if *name == "admin" { Role::Admin } else { Role::User };
        state.register_online(name, role, i as u64);
        state.create_room(ROOM, name);
    }
    state
}

fn record(role: &str, banned: i64, hash: &str) -> Lookup {
    Lookup::Found(UserRecord {
        username: "admin".into(),
        password_hash: hash.into(),
        role: role.into(),
        banned,
    })
}

/// A web interface with one session, the header that carries its token, and its user.
fn web() -> (WebState, Option<&'static str>, Lookup) {
    let mut web = WebState::new();
    web.grant("abc".to_string(), "admin".to_string());
    (web, Some("Bearer abc"), record("admin", 0, ""))
}

#[test]
fn web_ui_admin_login_returns_token() {
    let mut web = WebState::new();
    let hash = hash_with_salt("admin", &[7u8; 16]).unwrap();
    let found = record("admin", 0, &hash);
    assert_eq!(web.api_login(&found, "wrong"), LoginOutcome::Refused(WebError::InvalidCredentials));
    let token = match web.api_login(&found, "admin") {
        LoginOutcome::Granted(res) => {
            assert_eq!(res.username, "admin");
            res.token
        }
        other => panic!("login failed: {other:?}"),
    };
    assert_eq!(token.len(), 64);
    assert_eq!(web.session_user(&token), Some("admin".to_string()));
    assert_eq!(web.authorized(&token, &found), Some("admin".to_string()));

    let header = format!("Bearer {token}");
    let info = api_info(&web, Some(&header), &found, &state(), 1500).unwrap();
    assert_eq!(info.name, "Sinrana");
    assert_eq!(info.online, 2);
    assert!(info.rooms >= 1);
}

#[test]
fn web_ui_serves_index_and_rejects_anonymous() {
    let (web, _, found) = web();
    let refused = api_info(&web, None, &found, &state(), 1500).unwrap_err();
    assert_eq!(refused.status(), 401);
    assert_eq!(refused.message(), "unauthorized");
}

#[test]
fn requests_without_a_session_are_refused() {
    let (web, header, found) = web();
    let mut state = state();
    let edited = Config { lock_server: true, ..Config::default() };
    assert_eq!(web.claimed_user(header), Some("admin".to_string()));
    assert_eq!(web.authorize(header, &found), Ok("admin".to_string()));
    let banned = record("admin", 1, "");
    let demoted = record("manager", 0, "");
    let another = Lookup::Found(UserRecord {
        username: "max".into(),
        password_hash: String::new(),
        role: "admin".into(),
        banned: 0,
    });
    for (header, found) in [
        (None, &found),
        (Some(""), &found),
        (Some("abc"), &found),
        (Some("bearer abc"), &found),
        (Some("Bearer abcd"), &found),
        (Some("Bearer abc"), &banned),
        (Some("Bearer abc"), &demoted),
        (Some("Bearer abc"), &another),
        (Some("Bearer abc"), &Lookup::Missing),
        (Some("Bearer abc"), &Lookup::Failed),
    ] {
        let no = WebError::Unauthorized;
        assert_eq!(web.authorize(header, found), Err(no));
        assert_eq!(api_info(&web, header, found, &state, 0), Err(no));
        assert_eq!(api_online(&web, header, found, &state), Err(no));
        assert_eq!(api_rooms(&web, header, found, &state), Err(no));
        assert_eq!(api_history(&web, header, found, &state, None, None), Err(no));
        assert_eq!(api_config(&web, header, found, &state).map(|_| ()), Err(no));
        assert_eq!(api_config_save(&web, header, found, &mut state, &edited), Err(no));
    }
    assert!(!state.config().lock_server);
    assert_eq!(web.claimed_user(None), None);
    assert_eq!(web.claimed_user(Some("Bearer abcd")), None);
}

#[test]
fn web_logins_that_are_refused() {
    assert_eq!(judge_login(&Lookup::Missing, true), Err(WebError::InvalidCredentials));
    assert_eq!(judge_login(&Lookup::Failed, true), Err(WebError::Internal));
    assert_eq!(judge_login(&record("admin", 0, ""), false), Err(WebError::InvalidCredentials));
    assert_eq!(judge_login(&record("admin", 1, ""), true), Err(WebError::Banned));
    assert_eq!(judge_login(&record("manager", 0, ""), true), Err(WebError::AdminOnly));
    assert_eq!(judge_login(&record("admin", 0, ""), true), Ok("admin".to_string()));
}

#[test]
fn refusals_have_a_status_and_a_text() {
    for (err, status, text) in [
        (WebError::InvalidCredentials, 401, "invalid credentials"),
        (WebError::Internal, 500, "internal"),
        (WebError::Banned, 403, "banned"),
        (WebError::AdminOnly, 403, "admin only"),
        (WebError::Unauthorized, 401, "unauthorized"),
        (WebError::RoomRequired, 400, "room required"),
        (WebError::DefaultRoomEmpty, 400, "default_room must not be empty"),
        (WebError::SaveFailed, 500, "failed to save config"),
    ] {
        assert_eq!(err.status(), status);
        assert_eq!(err.message(), text);
    }
}

#[test]
fn a_session_ends_with_the_role() {
    let mut web = WebState::new();
    web.grant("t".to_string(), "admin".to_string());
    assert_eq!(web.authorized("t", &record("admin", 0, "")), Some("admin".to_string()));
    assert_eq!(web.authorized("t", &record("admin", 1, "")), None);
    assert_eq!(web.authorized("t", &record("user", 0, "")), None);
    assert_eq!(web.authorized("t", &Lookup::Missing), None);
    assert_eq!(web.authorized("t", &Lookup::Failed), None);
    assert_eq!(web.authorized("u", &record("admin", 0, "")), None);
    assert_eq!(web.session_user("u"), None);
}

#[test]
fn bearer_tokens_are_cut_out() {
    assert_eq!(bearer_token("Bearer abc"), Some("abc".to_string()));
    assert_eq!(bearer_token("Bearer "), Some(String::new()));
    assert_eq!(bearer_token("Bearer"), None);
    assert_eq!(bearer_token("bearer abc"), None);
    assert_eq!(bearer_token(""), None);
    assert_eq!(bearer_token("Basic Bearer x"), None);
}

#[test]
fn the_status_is_shown() {
    let (web, header, found) = web();
    let info = api_info(&web, header, &found, &state(), 1500).unwrap();
    assert_eq!(info.protocol, 1);
    assert_eq!(info.version, "0.1.0");
    assert_eq!(info.uptime_ms, 500);
    assert_eq!(info.server_seq, 1);
    assert_eq!(info.bind_addr, "127.0.0.1:8080");
    assert_eq!(info.web_addr, "127.0.0.1:8090");
    assert!(info.web_enabled);
    assert_eq!(info.default_room, ROOM);
    assert_eq!(info.db_path, "server/data/sinrana.sqlite");
    let hi = hello(&state(), "admin");
    assert_eq!(hi.username, "admin");
    assert_eq!(hi.room_count, 1);
    assert_eq!(hi.online, 2);
    assert_eq!(hi.rooms, vec![ROOM.to_string()]);
}

#[test]
fn rooms_are_shown_with_their_members() {
    let (web, header, found) = web();
    let mut state = state();
    state.create_room("Aquarium", "ann");
    assert_eq!(
        api_online(&web, header, &found, &state).unwrap(),
        vec![("admin".to_string(), Role::Admin), ("ann".to_string(), Role::User)]
    );
    assert_eq!(
        api_rooms(&web, header, &found, &state).unwrap(),
        vec![
            RoomEntry { name: "Aquarium".into(), member_names: vec!["ann".into()] },
            RoomEntry {
                name: ROOM.into(),
                member_names: vec!["admin".into(), "ann".into(), "system".into()],
            },
        ]
    );
}

#[test]
fn histories_are_shown() {
    let (web, header, found) = web();
    let mut state = state();
    for i in 0..60 {
        state.broadcast_text("ann", ROOM, &format!("m{i}"), i);
    }
    assert_eq!(api_history(&web, header, &found, &state, None, None), Err(WebError::RoomRequired));
    assert_eq!(api_history(&web, header, &found, &state, Some(String::new()), None), Err(WebError::RoomRequired));
    let (room, items) = api_history(&web, header, &found, &state, Some(ROOM.into()), None).unwrap();
    assert_eq!(room, ROOM);
    assert_eq!(items.len(), 50);
    assert_eq!(items[0].body, "m10");
    assert_eq!(api_history(&web, header, &found, &state, Some(ROOM.into()), Some(2)).unwrap().1.len(), 2);
    assert_eq!(api_history(&web, header, &found, &state, Some(ROOM.into()), Some(0)).unwrap().1.len(), 60);
    assert_eq!(api_history(&web, header, &found, &state, Some("no".into()), None).unwrap().1, vec![]);
}

#[test]
fn a_configuration_is_saved_live() {
    let (web, header, found) = web();
    let mut state = state();
    let mut cfg = Config::default();
    cfg.default_room = " \t ".to_string();
    cfg.lock_server = true;
    assert_eq!(api_config_save(&web, header, &found, &mut state, &cfg), Err(WebError::DefaultRoomEmpty));
    assert!(!state.config().lock_server);
    cfg.default_room = "Lounge".to_string();
    cfg.db_path = "elsewhere".to_string();
    assert_eq!(api_config_save(&web, header, &found, &mut state, &cfg), Ok(()));
    assert!(state.config().lock_server);
    assert_eq!(state.config().default_room, "Lounge");
    assert_eq!(api_config(&web, header, &found, &state).unwrap().default_room, "Lounge");
    assert_eq!(state.config().db_path, Config::default().db_path);
}

#[test]
fn events_are_streamed() {
    assert_eq!(
        stream_event(StreamInput::Message(Some("{}".into()))),
        StreamAction::Send(StreamEvent { comment: None, event: None, data: "{}".into() })
    );
    assert_eq!(stream_event(StreamInput::Message(None)), StreamAction::Skip);
    assert_eq!(
        stream_event(StreamInput::Lagged),
        StreamAction::Send(StreamEvent {
            comment: Some("lagged; reconnect".into()),
            event: Some("lagged".into()),
            data: "true".into(),
        })
    );
    assert_eq!(stream_event(StreamInput::Ended), StreamAction::End);
}

#[test]
fn json_of_a_terminal_is_read() {
    assert_eq!(
        read_request(r#"{"type":"chat","body":"hi \u00e4","room":"den"}"#),
        ClientRequest::Chat { body: "hi ä".into(), room: Some("den".into()) }
    );
    assert_eq!(
        read_request(r#"{"type":"chat","body":5}"#),
        ClientRequest::Chat { body: String::new(), room: None }
    );
    assert_eq!(
        read_request(r#" {"line":"  /rooms  ","type":"cmd"}"#),
        ClientRequest::Command("/rooms".into())
    );
    assert_eq!(read_request(r#"{"type":"ping"}"#), ClientRequest::Ping);
    assert_eq!(read_request(r#"{"type":"nope"}"#), ClientRequest::Unknown);
    assert_eq!(read_request("[1]"), ClientRequest::Unknown);
    match read_request("{") {
        ClientRequest::BadJson(why) => assert!(why.contains("EOF")),
        other => panic!("unexpected: {other:?}"),
    }
}

#[test]
fn requests_by_their_fields() {
    let some = |t: &str| Some(t.to_string());
    assert_eq!(request_from(None, some("b"), None, None), ClientRequest::Unknown);
    assert_eq!(
        request_from(some("chat"), None, some("r"), None),
        ClientRequest::Chat { body: String::new(), room: some("r") }
    );
    assert_eq!(request_from(some("cmd"), None, None, None), ClientRequest::Command(String::new()));
    assert_eq!(request_from(some("ping"), some("b"), None, None), ClientRequest::Ping);
}

fn error(text: &str) -> TermStep {
    TermStep::Reply(TermReply::Error { text: text.into() })
}

fn notice(text: &str) -> TermStep {
    TermStep::Reply(TermReply::Notice { level: "info".into(), text: text.into() })
}

fn command(line: &str) -> TermStep {
    dispatch_command(&mut state(), line, 1500)
}

#[test]
fn the_terminal_chats_as_the_server() {
    let mut state = state();
    let chat = |body: &str, room: Option<&str>| ClientRequest::Chat {
        body: body.into(),
        room: room.map(|r| r.to_string()),
    };
    assert_eq!(on_request(&mut state, chat("", None), 5), error("empty message"));
    assert_eq!(on_request(&mut state, chat("x", Some("no")), 5), error("room not found"));
    assert_eq!(
        on_request(&mut state, chat("hi", None), 5),
        TermStep::Reply(TermReply::ChatAck { seq: 1, ts: 5 })
    );
    assert_eq!(
        state.take_outbox(),
        vec![Output::Publish {
            conns: vec![1, 0],
            frame: Frame::push(Message::PushText {
                room: ROOM.into(),
                from: "Server".into(),
                body: "hi".into(),
                seq: 1,
                ts: 5,
            }),
        }]
    );
    assert_eq!(on_request(&mut state, ClientRequest::Ping, 5), TermStep::Reply(TermReply::Pong));
    assert_eq!(on_request(&mut state, ClientRequest::Unknown, 5), error("unknown message type"));
    assert_eq!(on_request(&mut state, ClientRequest::BadJson("x".into()), 5), error("bad json: x"));
}

#[test]
fn the_terminal_acts_on_its_text() {
    let mut state = state();
    assert_eq!(
        on_client_message(&mut state, r#"{"type":"cmd","line":"/rooms"}"#),
        TermStep::Reply(TermReply::Rooms { rooms: vec![ROOM.into()] })
    );
    match on_client_message(&mut state, r#"{"type":"chat","body":"hi"}"#) {
        TermStep::Reply(TermReply::ChatAck { seq: 1, ts }) => assert!(ts > 1_577_836_800_000),
        other => panic!("unexpected: {other:?}"),
    }
}

#[test]
fn the_terminal_shows() {
    match command("/help") {
        TermStep::Reply(TermReply::Notice { level, text }) => {
            assert_eq!(level, "info");
            assert!(text.starts_with("/kick <u>  /ban <u> [r]"));
            assert!(text.ends_with("/info  /rooms  /online"));
        }
        other => panic!("unexpected: {other:?}"),
    }
    assert_eq!(
        command("/info"),
        TermStep::Reply(TermReply::Info {
            rooms: 1,
            online: 2,
            uptime_ms: 500,
            server_seq: 1,
            bind_addr: "127.0.0.1:8080".into(),
        })
    );
    assert_eq!(
        command("/online"),
        TermStep::Reply(TermReply::Online {
            users: vec![("admin".into(), Role::Admin), ("ann".into(), Role::User)],
        })
    );
    assert_eq!(command(""), error("empty command"));
    assert_eq!(command("/nope now"), error("unknown command: /nope (try /help)"));
}

#[test]
fn the_terminal_kicks() {
    assert_eq!(command("/kick"), error("usage: /kick <user>"));
    assert_eq!(command("/kick eve"), error("target not online"));
    assert_eq!(command("/kick admin"), error("cannot kick admin"));
    let mut state = state();
    assert_eq!(dispatch_command(&mut state, "/kick ann", 0), notice("kicked ann"));
    assert!(!state.is_online("ann"));
    assert_eq!(
        state.take_outbox()[0],
        Output::Send {
            conn: 0,
            frame: Frame::push(Message::Notice {
                text: "kicked from server by web admin".into(),
                level: "warn".into(),
            }),
        }
    );
}

#[test]
fn the_terminal_bans_and_restores() {
    for line in ["/ban", "/ban admin", "/ban admin why"] {
        assert_eq!(command(line), error("invalid target"));
    }
    let mut state = state();
    let then = match dispatch_command(&mut state, "/ban ann too  loud", 0) {
        TermStep::Write { write, then } => {
            assert_eq!(write, DbWrite::SetBanned { username: "ann".into(), banned: true });
            then
        }
        other => panic!("unexpected: {other:?}"),
    };
    assert_eq!(then, AfterTermWrite::Ban { target: "ann".into(), reason: Some("too  loud".into()) });
    assert_eq!(on_write(&mut state, then.clone(), false), error("db error"));
    assert!(state.is_online("ann"));
    assert_eq!(on_write(&mut state, then, true), notice("banned ann"));
    assert!(!state.is_online("ann"));
    assert_eq!(
        state.take_outbox()[0],
        Output::Send {
            conn: 0,
            frame: Frame::push(Message::Notice {
                text: "banned from server: too  loud".into(),
                level: "warn".into(),
            }),
        }
    );
    assert_eq!(command("/restore"), error("usage: /restore <user>"));
    match command("/restore ann") {
        TermStep::Write { write, then } => {
            assert_eq!(write, DbWrite::SetBanned { username: "ann".into(), banned: false });
            assert_eq!(on_write(&mut state, then, true), notice("restored ann"));
        }
        other => panic!("unexpected: {other:?}"),
    }
}

#[test]
fn the_terminal_sets_roles_and_passwords() {
    assert_eq!(command("/setrole ann"), error("usage: /setrole <user> <role>"));
    assert_eq!(command("/setrole ann boss"), error("invalid target/role"));
    assert_eq!(command("/setrole admin user"), error("invalid target/role"));
    let mut state = state();
    match dispatch_command(&mut state, "/setrole ann manager", 0) {
        TermStep::Write { write, then } => {
            assert_eq!(write, DbWrite::SetRole { username: "ann".into(), role: "manager".into() });
            assert_eq!(on_write(&mut state, then, true), notice("ann role -> manager"));
        }
        other => panic!("unexpected: {other:?}"),
    }
    assert_eq!(state.managers(), vec!["admin".to_string(), "ann".to_string()]);
    assert_eq!(command("/setpwd ann"), error("usage: /setpwd <user> <password>"));
    match command("/setpwd ann my secret") {
        TermStep::Hash { password, then } => {
            assert_eq!(password, "my secret");
            assert_eq!(then, AfterTermHash::SetPwd { target: "ann".into() });
            match on_hash(then.clone(), Ok("H".into())) {
                TermStep::Write { write, then } => {
                    assert_eq!(
                        write,
                        DbWrite::SetPassword { username: "ann".into(), password_hash: "H".into() }
                    );
                    assert_eq!(on_write(&mut state, then.clone(), true), notice("password updated for ann"));
                    assert_eq!(on_write(&mut state, then, false), error("failed to set password"));
                }
                other => panic!("unexpected: {other:?}"),
            }
            assert_eq!(on_hash(then.clone(), Err(AuthError::Hash)), error("failed to set password"));
            assert_eq!(on_hash(then, Err(AuthError::RandomUnavailable)), TermStep::NoRandom);
        }
        other => panic!("unexpected: {other:?}"),
    }
}

#[test]
fn the_terminal_makes_and_deletes_rooms() {
    let mut state = state();
    assert_eq!(dispatch_command(&mut state, "/create", 0), error("usage: /create <room>"));
    assert_eq!(dispatch_command(&mut state, "/create ann", 0), error("room exists"));
    assert_eq!(dispatch_command(&mut state, "/create the den", 0), notice("created room the den"));
    assert_eq!(state.room_members("the den"), vec!["Server".to_string()]);
    assert_eq!(dispatch_command(&mut state, "/create the den", 0), error("room exists"));
    assert_eq!(dispatch_command(&mut state, "/delete", 0), error("usage: /delete <room>"));
    assert_eq!(dispatch_command(&mut state, "/delete no", 0), error("room not found"));
    assert_eq!(dispatch_command(&mut state, "/delete the den", 0), notice("deleted room the den"));
    assert!(!state.has_room("the den"));
    assert_eq!(
        state.take_outbox(),
        vec![
            Output::Persist(DbWrite::CreateRoom { name: "the den".into() }),
            Output::Persist(DbWrite::DeleteRoom { name: "the den".into() }),
        ]
    );
}

#[test]
fn the_terminal_makes_accounts() {
    assert_eq!(
        command("/createuser max pw"),
        error("usage: /createuser <user> <password> <role>")
    );
    match command("/createuser max  pw\tmanager more") {
        TermStep::Lookup { username, password, role } => {
            assert_eq!((username.as_str(), password.as_str(), role.as_str()), ("max", "pw", "manager"));
            let found = record("user", 0, "");
            assert_eq!(
                on_lookup(username.clone(), password.clone(), role.clone(), &found),
                error("user exists")
            );
            match on_lookup(username, password, role, &Lookup::Failed) {
                TermStep::Hash { password, then } => {
                    assert_eq!(password, "pw");
                    assert_eq!(on_hash(then.clone(), Err(AuthError::Hash)), error("failed to create user"));
                    match on_hash(then, Ok("H".into())) {
                        TermStep::Write { write, then } => {
                            assert_eq!(
                                write,
                                DbWrite::CreateUser {
                                    username: "max".into(),
                                    password_hash: "H".into(),
                                    role: "manager".into(),
                                }
                            );
                            let mut state = state();
                            assert_eq!(
                                on_write(&mut state, then.clone(), true),
                                notice("created user max as manager")
                            );
                            assert_eq!(on_write(&mut state, then, false), error("failed to create user"));
                        }
                        other => panic!("unexpected: {other:?}"),
                    }
                }
                other => panic!("unexpected: {other:?}"),
            }
        }
        other => panic!("unexpected: {other:?}"),
    }
}

#[test]
fn the_terminal_hashes_for_real() {
    let then = AfterTermHash::SetPwd { target: "ann".into() };
    match settle_hash("pw", then) {
        TermStep::Write { write: DbWrite::SetPassword { password_hash, .. }, .. } => {
            assert!(sinrana::auth::verify_password("pw", &password_hash));
        }
        other => panic!("unexpected: {other:?}"),
    }
}

#[test]
fn the_terminal_speaks_to_all_rooms() {
    let mut state = state();
    state.create_room("den", "ann");
    assert_eq!(dispatch_command(&mut state, "/broadcast", 9), error("usage: /broadcast <text>"));
    assert_eq!(
        dispatch_command(&mut state, "/broadcast  maintenance soon", 9),
        notice("broadcast sent to all rooms")
    );
    for room in [ROOM, "den"] {
        let items = state.history_for(room, 0, None);
        assert_eq!(items.len(), 1);
        assert_eq!(items[0].body, "maintenance soon");
        assert_eq!(items[0].from, "Server");
        assert_eq!(items[0].ts, 9);
    }
    assert_eq!(state.server_seq(), 3);
    assert_eq!(state.take_outbox().len(), 2);
}

#[test]
fn an_open_terminal_acts_on_what_happens() {
    let event = Message::PushUserManifest { users: vec![] };
    assert_eq!(handle_terminal(TermInput::Text("x".into())), TermAction::Act("x".into()));
    assert_eq!(handle_terminal(TermInput::Event(event.clone())), TermAction::ShowEvent(event));
    assert_eq!(
        handle_terminal(TermInput::Lagged),
        TermAction::Say(TermReply::Notice { level: "warn".into(), text: "event stream lagged".into() })
    );
    assert_eq!(handle_terminal(TermInput::Other), TermAction::Ignore);
    assert_eq!(handle_terminal(TermInput::Closed), TermAction::Stop);
    assert_eq!(handle_terminal(TermInput::EventsEnded), TermAction::Stop);
}
