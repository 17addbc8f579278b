//! Requests of clients, from end to end, with a database in memory.

use sinrana::db::{DbWrite, Lookup, UserRecord};
use sinrana::error::ErrorCode;
use sinrana::server::Output;
use sinrana::step::{AfterHash, AfterLookup, AfterWrite, Step};
use sinrana::{Config, Frame, Handle, HistoryItem, Message, Role, State};

const ROOM: &str = "Sinrana! Chatting Room";

/// A server with a database in memory and some connections.
struct Net {
    state: State,
    users: Vec<UserRecord>,
    rooms: Vec<String>,
    who: Vec<Option<(String, Role)>>,
    inbox: Vec<Vec<Frame>>,
    events: Vec<Message>,
    broken: bool,
    next_id: u64,
}

impl Net {
    fn new() -> Net {
        Net::with(Config::default())
    }

    fn with(cfg: Config) -> Net {
        Net {
            state: State::new(cfg, "0.1.0".to_string(), 1000),
            users: Vec::new(),
            rooms: Vec::new(),
            who: Vec::new(),
            inbox: Vec::new(),
            events: Vec::new(),
            broken: false,
            next_id: 1,
        }
    }

    fn connect(&mut self) -> usize {
        self.who.push(None);
        self.inbox.push(Vec::new());
        self.who.len() - 1
    }

    fn lookup(&self, username: &str) -> Lookup {
        if self.broken {
            return Lookup::Failed;
        }
        match self.users.iter().find(|u| u.username == username) {
            Some(record) => Lookup::Found(record.clone()),
            None => Lookup::Missing,
        }
    }

    fn write(&mut self, write: DbWrite) -> bool {
        if self.broken {
            return false;
        }
        match write {
            DbWrite::CreateUser { username, password_hash, role } => {
                if self.users.iter().any(|u| u.username == username) {
                    return false;
                }
                self.users.push(UserRecord { username, password_hash, role, banned: 0 });
            }
            DbWrite::SetRole { username, role } => {
                for u in self.users.iter_mut().filter(|u| u.username == username) {
                    u.role = role.clone();
                }
            }
            DbWrite::SetPassword { username, password_hash } => {
                for u in self.users.iter_mut().filter(|u| u.username == username) {
                    u.password_hash = password_hash.clone();
                }
            }
            DbWrite::SetBanned { username, banned } => {
                for u in self.users.iter_mut().filter(|u| u.username == username) {
                    u.banned = banned as i64;
                }
            }
            DbWrite::DeleteUser { username } => self.users.retain(|u| u.username != username),
            DbWrite::CreateRoom { name } => self.rooms.push(name),
            DbWrite::DeleteRoom { name } => self.rooms.retain(|r| *r != name),
        }
        true
    }

    fn deliver(&mut self) {
        for output in self.state.take_outbox() {
            match output {
                Output::Send { conn, frame } => self.inbox[conn as usize].push(frame),
                Output::Publish { conns, frame } => {
                    self.events.push(frame.msg.clone());
                    for conn in conns {
                        self.inbox[conn as usize].push(frame.clone());
                    }
                }
                Output::Persist(write) => {
                    self.write(write);
                }
            }
        }
    }

    /// Hands a request over and works on it until it is done. The password `""` of a record
    /// stands for one that never matches; otherwise the record holds the password itself.
    fn send(&mut self, conn: usize, id: u64, msg: Message, now: i64) {
        let handle = Handle { conn: conn as u64 };
        let mut identity = self.who[conn].take();
        let mut step =
            handle.handle_message_at(&mut self.state, &mut identity, Frame::request(id, msg), now);
        loop {
            step = match step {
                Step::Done => break,
                Step::Lookup { username, then } => {
                    let found = self.lookup(&username);
                    match (&then, &found) {
                        (AfterLookup::Login { password }, Lookup::Found(record)) => {
                            let matches = record.password_hash == *password;
                            handle.on_login_lookup(&mut self.state, id, username, &found, matches)
                        }
                        _ => handle.on_lookup(&mut self.state, id, username, then, &found),
                    }
                }
                Step::Hash { password, then } => handle.on_hash(&mut self.state, id, then, Ok(password)),
                Step::Token { username, role } => {
                    let token = Some(format!("token-{username}"));
                    handle.on_token(&mut self.state, &mut identity, id, username, role, token)
                }
                Step::Write { write, then } => {
                    let written = self.write(write);
                    handle.on_write(&mut self.state, id, then, written);
                    Step::Done
                }
                Step::Unexpected { msg } => {
                    handle.on_unexpected(&mut self.state, id, &format!("{msg:?}"));
                    Step::Done
                }
                Step::NoRandom => panic!("no random"),
            };
        }
        self.who[conn] = identity;
        self.deliver();
    }

    /// Sends a request and returns its answer; checks that there is exactly one.
    fn ask_at(&mut self, conn: usize, msg: Message, now: i64) -> Message {
        let id = self.next_id;
        self.next_id += 1;
        self.send(conn, id, msg, now);
        let at: Vec<usize> =
            (0..self.inbox[conn].len()).filter(|i| self.inbox[conn][*i].id == id).collect();
        assert_eq!(at.len(), 1, "answers to {id}");
        self.inbox[conn].remove(at[0]).msg
    }

    fn ask(&mut self, conn: usize, msg: Message) -> Message {
        self.ask_at(conn, msg, 5000)
    }

    fn pushes(&mut self, conn: usize) -> Vec<Message> {
        let taken: Vec<Frame> = self.inbox[conn].drain(..).collect();
        assert!(taken.iter().all(|f| f.id == 0 && f.ver == 1));
        taken.into_iter().map(|f| f.msg).collect()
    }

    fn register_and_login(&mut self, username: &str, password: &str) -> usize {
        let conn = self.connect();
        let res = self.ask(conn, Message::Register { username: username.into(), password: password.into() });
        assert_eq!(res, Message::RegisterRes { username: username.into() });
        self.login(conn, username, password);
        conn
    }

    fn login(&mut self, conn: usize, username: &str, password: &str) {
        let res = self.ask(conn, Message::Login { username: username.into(), password: password.into() });
        assert!(matches!(res, Message::LoginRes { .. }), "login failed: {res:?}");
    }

    fn admin(&mut self) -> usize {
        self.users.push(UserRecord {
            username: "admin".into(),
            password_hash: "admin".into(),
            role: "admin".into(),
            banned: 0,
        });
        let conn = self.connect();
        self.login(conn, "admin", "admin");
        conn
    }

    fn user(&mut self, name: &str) -> usize {
        let conn = self.register_and_login(name, "password");
        self.pushes(conn);
        conn
    }
}

fn code(msg: &Message) -> Option<ErrorCode> {
    match msg {
        Message::Error { code, .. } => Some(*code),
        _ => None,
    }
}

fn refusal(code: ErrorCode, text: &str) -> Message {
    Message::Error { code, message: text.into(), retryable: false }
}

fn plain(code: ErrorCode) -> Message {
    refusal(code, code.as_str())
}

fn text_for(room: &str, body: &str) -> Message {
    Message::SendText { room: Some(room.into()), to: None, body: body.into() }
}

#[test]
fn register_login_broadcast_and_history() {
    let mut net = Net::new();
    let alice = net.register_and_login("alice", "password1");
    let bob = net.register_and_login("bob", "password2");
    let room = "Sinrana! Chatting Room";
    net.pushes(alice);
    net.pushes(bob);

    let res = net.ask_at(alice, text_for(room, "hello bob"), 77);
    assert_eq!(res, Message::SendTextRes { seq: 1, ts: 77 });

    let push = Message::PushText {
        room: room.into(),
        from: "alice".into(),
        body: "hello bob".into(),
        seq: 1,
        ts: 77,
    };
    assert_eq!(net.pushes(bob), vec![push.clone()]);
    // The sender sees the text as well.
    assert_eq!(net.pushes(alice), vec![push]);

    match net.ask(alice, Message::History { room: room.into(), limit: 50, before_seq: None }) {
        Message::HistoryRes { messages, .. } => {
            assert_eq!(messages.len(), 1);
            assert_eq!(messages[0].body, "hello bob");
        }
        other => panic!("unexpected history: {other:?}"),
    }
}

#[test]
fn private_message_and_online_list() {
    let mut net = Net::new();
    let alice = net.register_and_login("carol", "password1");
    let bob = net.register_and_login("dave", "password2");
    let eve = net.user("eve");
    net.pushes(alice);
    net.pushes(bob);
    net.events.clear();

    match net.ask(alice, Message::UserOnline) {
        Message::UserOnlineRes { users } => {
            assert!(users.contains(&"carol".to_string()));
            assert!(users.contains(&"dave".to_string()));
        }
        other => panic!("unexpected: {other:?}"),
    }

    let msg = Message::SendText { room: None, to: Some("dave".into()), body: "psst".into() };
    assert_eq!(net.ask_at(alice, msg, 9), Message::SendTextRes { seq: 0, ts: 9 });
    let push = Message::PushPrivate { from: "carol".into(), body: "psst".into(), ts: 9 };
    assert_eq!(net.pushes(bob), vec![push]);
    // Nobody else sees it, observers included.
    assert_eq!(net.pushes(alice), vec![]);
    assert_eq!(net.pushes(eve), vec![]);
    assert_eq!(net.events, vec![]);
}

#[test]
fn admin_can_create_room_but_user_cannot() {
    let mut net = Net::new();
    let user = net.register_and_login("eve", "password1");
    match net.ask(user, Message::RoomCreate { name: "secret".into() }) {
        Message::Error { code: ErrorCode::Forbidden, .. } => {}
        other => panic!("expected forbidden, got {other:?}"),
    }

    let admin = net.admin();
    match net.ask(admin, Message::RoomCreate { name: "secret".into() }) {
        Message::RoomCreateRes { name } => assert_eq!(name, "secret"),
        other => panic!("create failed: {other:?}"),
    }
    assert_eq!(net.rooms, vec!["secret".to_string()]);
    assert!(net.state.in_room("secret", "admin"));
    assert_eq!(
        net.pushes(admin).pop(),
        Some(Message::Notice { text: "admin created room secret".into(), level: "info".into() })
    );
}

#[test]
fn a_login_is_answered_then_shown_the_rooms_then_published() {
    let mut net = Net::new();
    let conn = net.connect();
    net.ask(conn, Message::Register { username: "ann".into(), password: "pass".into() });
    net.send(conn, 7, Message::Login { username: "ann".into(), password: "pass".into() }, 0);
    let frames: Vec<(u64, Message)> = net.inbox[conn].iter().map(|f| (f.id, f.msg.clone())).collect();
    assert_eq!(
        frames,
        vec![
            (
                7,
                Message::LoginRes {
                    user_id: 1,
                    username: "ann".into(),
                    roles: vec![Role::User],
                    token: "token-ann".into(),
                }
            ),
            (0, Message::RoomListRes { rooms: vec![ROOM.into()], mine: vec![ROOM.into()] }),
            (0, Message::PushUserManifest { users: vec!["ann".into()] }),
        ]
    );
    assert_eq!(net.who[conn], Some(("ann".to_string(), Role::User)));
    assert!(net.state.in_room(ROOM, "ann"));
}

#[test]
fn logins_that_are_refused() {
    let mut net = Net::new();
    let conn = net.connect();
    let login = |name: &str, pass: &str| Message::Login { username: name.into(), password: pass.into() };
    assert_eq!(net.ask(conn, login("ann", "pass")), plain(ErrorCode::AuthFailed));
    let ann = net.register_and_login("ann", "pass");
    assert_eq!(net.ask(conn, login("ann", "wrong")), plain(ErrorCode::AuthFailed));
    assert_eq!(net.ask(conn, login("ann", "pass")), refusal(ErrorCode::Conflict, "already online"));
    assert_eq!(net.ask(ann, login("ann", "pass")), refusal(ErrorCode::Forbidden, "already logged in"));
    net.users[0].banned = 1;
    assert_eq!(net.ask(conn, login("ann", "pass")), refusal(ErrorCode::Forbidden, "banned"));
    net.broken = true;
    assert_eq!(net.ask(conn, login("ann", "pass")), plain(ErrorCode::Internal));
    assert_eq!(net.who[conn], None);
}

#[test]
fn a_locked_server_lets_only_administrators_in() {
    let mut cfg = Config::default();
    cfg.lock_server = true;
    let mut net = Net::with(cfg);
    let conn = net.connect();
    net.ask(conn, Message::Register { username: "ann".into(), password: "pass".into() });
    assert_eq!(
        net.ask(conn, Message::Login { username: "ann".into(), password: "pass".into() }),
        refusal(ErrorCode::Forbidden, "server locked")
    );
    net.admin();
    assert!(net.state.is_online("admin"));
}

#[test]
fn registrations_that_are_refused() {
    let mut net = Net::new();
    let conn = net.connect();
    let register = |name: &str, pass: &str| Message::Register { username: name.into(), password: pass.into() };
    for name in ["Server", "admin"] {
        assert_eq!(net.ask(conn, register(name, "pass")), plain(ErrorCode::ReservedName), "{name}");
    }
    for name in ["", "123456789012345678901", "ääääääääääa"] {
        assert_eq!(
            net.ask(conn, register(name, "pass")),
            refusal(ErrorCode::BadRequest, "invalid username"),
            "{name}"
        );
    }
    assert_eq!(net.ask(conn, register("ann", "123")), refusal(ErrorCode::BadRequest, "password too short"));
    // Twenty bytes and four bytes are enough.
    let name = "12345678901234567890";
    assert_eq!(net.ask(conn, register(name, "1234")), Message::RegisterRes { username: name.into() });
    assert_eq!(net.ask(conn, register(name, "1234")), plain(ErrorCode::UserExists));
    net.broken = true;
    assert_eq!(net.ask(conn, register("bob", "1234")), plain(ErrorCode::Internal));
}

#[test]
fn registration_can_be_switched_off() {
    let mut cfg = Config::default();
    cfg.allow_register = false;
    let mut net = Net::with(cfg);
    let conn = net.connect();
    assert_eq!(
        net.ask(conn, Message::Register { username: "ann".into(), password: "pass".into() }),
        refusal(ErrorCode::Forbidden, "registration disabled")
    );
}

#[test]
fn without_a_login_everything_is_refused() {
    let mut net = Net::new();
    let conn = net.connect();
    for msg in [
        Message::Ping,
        Message::RoomList,
        Message::Logout,
        text_for(ROOM, "x"),
        Message::AdminUserDelete { target: "ann".into() },
        Message::Pong,
    ] {
        assert_eq!(net.ask(conn, msg), plain(ErrorCode::NotAuthenticated));
    }
}

#[test]
fn a_token_resumes_while_the_user_is_online() {
    let mut net = Net::new();
    net.user("ann");
    let other = net.connect();
    let resume = Message::Resume { token: "token-ann".into() };
    assert_eq!(net.ask(other, Message::Resume { token: "x".into() }), plain(ErrorCode::NotAuthenticated));
    assert_eq!(
        net.ask(other, resume.clone()),
        Message::ResumeRes { username: "ann".into(), roles: vec![Role::User] }
    );
    assert_eq!(
        net.pushes(other),
        vec![Message::RoomListRes { rooms: vec![ROOM.into()], mine: vec![ROOM.into()] }]
    );
    assert_eq!(net.ask(other, Message::Ping), Message::Pong);
    assert_eq!(net.ask(other, resume), refusal(ErrorCode::Forbidden, "already logged in"));
}

#[test]
fn a_token_survives_the_connection() {
    let mut net = Net::new();
    let ann = net.user("ann");
    let bob = net.user("bob");
    let identity = net.who[ann].clone();
    Handle { conn: ann as u64 }.disconnect(&mut net.state, &identity);
    net.deliver();
    assert!(!net.state.is_online("ann"));
    net.pushes(bob);

    let again = net.connect();
    assert_eq!(
        net.ask(again, Message::Resume { token: "token-ann".into() }),
        Message::ResumeRes { username: "ann".into(), roles: vec![Role::User] }
    );
    assert!(net.state.is_online("ann"));
    assert!(net.state.in_room(ROOM, "ann"));
    let manifest = Message::PushUserManifest { users: vec!["ann".into(), "bob".into()] };
    assert_eq!(
        net.pushes(again),
        vec![
            Message::RoomListRes { rooms: vec![ROOM.into()], mine: vec![ROOM.into()] },
            manifest.clone(),
        ]
    );
    assert_eq!(net.pushes(bob), vec![manifest]);
    assert_eq!(net.ask(again, Message::Ping), Message::Pong);
    net.ask(bob, text_for(ROOM, "welcome back"));
    assert_eq!(net.pushes(again).len(), 1);
}

#[test]
fn a_token_ends_with_the_session() {
    let mut net = Net::new();
    let admin = net.admin();
    for (name, end) in [
        ("ann", Message::Logout),
        ("bob", Message::UserKick { target: "bob".into(), reason: None }),
        ("eve", Message::AdminUserBan { target: "eve".into(), reason: None }),
        ("max", Message::AdminUserDelete { target: "max".into() }),
    ] {
        let conn = net.user(name);
        let by = if end == Message::Logout { conn } else { admin };
        assert_eq!(code(&net.ask(by, end)), None);
        let later = net.connect();
        let resume = Message::Resume { token: format!("token-{name}") };
        assert_eq!(net.ask(later, resume), plain(ErrorCode::NotAuthenticated), "{name}");
        assert!(!net.state.is_online(name));
    }
}

/// Ends the connection of a user.
fn lose(net: &mut Net, conn: usize) {
    let identity = net.who[conn].take();
    Handle { conn: conn as u64 }.disconnect(&mut net.state, &identity);
    net.deliver();
}

#[test]
fn an_old_token_is_good_while_the_user_is_online_again() {
    let mut net = Net::new();
    let first = net.user("ann");
    net.ask(first, Message::Logout);
    let second = net.connect();
    let handle = Handle { conn: second as u64 };
    let mut identity = None;
    let step =
        handle.on_token(&mut net.state, &mut identity, 7, "ann".into(), Role::User, Some("new".into()));
    assert_eq!(step, Step::Done);
    net.who[second] = identity;
    net.deliver();
    let old = || Message::Resume { token: "token-ann".into() };
    let res = Message::ResumeRes { username: "ann".into(), roles: vec![Role::User] };
    let other = net.connect();
    assert_eq!(net.ask(other, old()), res);
    lose(&mut net, second);
    let third = net.connect();
    assert_eq!(net.ask(third, old()), plain(ErrorCode::NotAuthenticated));
    assert_eq!(net.ask(third, Message::Resume { token: "new".into() }), res);
}

#[test]
fn a_locked_server_lets_only_administrators_back_in() {
    let mut net = Net::new();
    let admin = net.admin();
    let ann = net.user("ann");
    let bob = net.user("bob");
    lose(&mut net, admin);
    lose(&mut net, ann);
    let locked = Config { lock_server: true, ..Config::default() };
    net.state.apply_runtime_config(&locked);
    let resume = |name: &str| Message::Resume { token: format!("token-{name}") };
    let conn = net.connect();
    assert_eq!(net.ask(conn, resume("ann")), refusal(ErrorCode::Forbidden, "server locked"));
    assert!(!net.state.is_online("ann"));
    assert_eq!(
        net.ask(conn, resume("admin")),
        Message::ResumeRes { username: "admin".into(), roles: vec![Role::Admin] }
    );
    // Who is online stays in.
    let other = net.connect();
    assert!(net.who[bob].is_some());
    assert_eq!(
        net.ask(other, resume("bob")),
        Message::ResumeRes { username: "bob".into(), roles: vec![Role::User] }
    );
}

#[test]
fn a_user_comes_back_with_the_role_of_the_day() {
    let mut net = Net::new();
    let admin = net.admin();
    let set = |role: Role| Message::AdminSetRole { target: "ann".into(), role };
    let resume = || Message::Resume { token: "token-ann".into() };
    let res = |role: Role| Message::ResumeRes { username: "ann".into(), roles: vec![role] };
    let ann = net.user("ann");
    net.ask(admin, set(Role::Manager));
    // The login was that of a user.
    let other = net.connect();
    assert_eq!(net.ask(other, resume()), res(Role::User));
    lose(&mut net, other);
    net.who[ann] = None;
    let back = net.connect();
    assert_eq!(net.ask(back, resume()), res(Role::Manager));
    lose(&mut net, back);
    net.ask(admin, set(Role::Admin));
    net.ask(admin, set(Role::User));
    let again = net.connect();
    assert_eq!(net.ask(again, resume()), res(Role::User));
    assert_eq!(net.ask(again, Message::RoomCreate { name: "den".into() }), plain(ErrorCode::Forbidden));
}

#[test]
fn a_user_is_let_in_once() {
    let mut net = Net::new();
    net.user("ann");
    let second = net.connect();
    let handle = Handle { conn: second as u64 };
    for token in [Some("new".to_string()), None] {
        let mut identity = None;
        let step = handle.on_token(&mut net.state, &mut identity, 9, "ann".into(), Role::User, token);
        assert_eq!(step, Step::Done);
        assert_eq!(identity, None);
        net.deliver();
        let answer = net.inbox[second].pop().unwrap();
        assert_eq!(answer, Frame::response(9, refusal(ErrorCode::Conflict, "already online")));
    }
    assert_eq!(
        net.ask(second, Message::Resume { token: "new".into() }),
        plain(ErrorCode::NotAuthenticated)
    );
}

#[test]
fn a_ban_ends_the_session_of_an_absent_user() {
    let mut net = Net::new();
    let admin = net.admin();
    for (name, end) in [
        ("ann", Message::AdminUserBan { target: "ann".into(), reason: None }),
        ("bob", Message::AdminUserDelete { target: "bob".into() }),
    ] {
        let conn = net.user(name);
        let identity = net.who[conn].clone();
        Handle { conn: conn as u64 }.disconnect(&mut net.state, &identity);
        net.deliver();
        assert_eq!(code(&net.ask(admin, end)), None);
        let later = net.connect();
        let resume = Message::Resume { token: format!("token-{name}") };
        assert_eq!(net.ask(later, resume), plain(ErrorCode::NotAuthenticated), "{name}");
    }
}

#[test]
fn logging_out_ends_the_presence() {
    let mut net = Net::new();
    let ann = net.user("ann");
    let bob = net.user("bob");
    net.pushes(ann);
    assert_eq!(
        net.ask(ann, Message::Logout),
        Message::Notice { text: "logged out".into(), level: "info".into() }
    );
    assert!(!net.state.is_online("ann"));
    assert!(!net.state.in_room(ROOM, "ann"));
    assert_eq!(net.pushes(bob), vec![Message::PushUserManifest { users: vec!["bob".into()] }]);
    assert_eq!(net.pushes(ann), vec![]);
    assert_eq!(net.ask(ann, Message::Ping), plain(ErrorCode::NotAuthenticated));
}

#[test]
fn a_lost_connection_takes_its_user_along() {
    let mut net = Net::new();
    let ann = net.user("ann");
    let bob = net.user("bob");
    net.pushes(ann);
    let identity = net.who[ann].clone();
    Handle { conn: ann as u64 }.disconnect(&mut net.state, &identity);
    net.deliver();
    assert_eq!(net.state.online_usernames(), vec!["bob".to_string()]);
    assert_eq!(net.state.room_members(ROOM), vec!["bob".to_string(), "system".to_string()]);
    assert_eq!(net.pushes(bob), vec![Message::PushUserManifest { users: vec!["bob".into()] }]);
    Handle { conn: 9 }.disconnect(&mut net.state, &None);
    assert_eq!(net.state.take_outbox(), vec![]);
}

#[test]
fn rooms_are_joined_and_left() {
    let mut net = Net::new();
    let admin = net.admin();
    let ann = net.user("ann");
    net.ask(admin, Message::RoomCreate { name: "den".into() });
    net.pushes(admin);
    assert_eq!(net.ask(ann, text_for("den", "x")), plain(ErrorCode::NotInRoom));
    assert_eq!(net.ask(ann, Message::RoomJoin { name: "den".into() }), Message::RoomJoinRes { name: "den".into() });
    let joined = Message::Notice { text: "ann joined den".into(), level: "info".into() };
    assert_eq!(net.pushes(admin), vec![joined.clone()]);
    assert_eq!(net.pushes(ann), vec![joined]);
    assert_eq!(
        net.ask(ann, Message::RoomMembers { name: "den".into() }),
        Message::RoomMembersRes { name: "den".into(), members: vec!["admin".into(), "ann".into()] }
    );
    assert_eq!(
        net.ask(ann, Message::RoomList),
        Message::RoomListRes {
            rooms: vec![ROOM.into(), "den".into()],
            mine: vec![ROOM.into(), "den".into()],
        }
    );
    assert_eq!(net.ask(ann, Message::RoomLeave { name: "den".into() }), Message::RoomLeaveRes { name: "den".into() });
    // Who has left is not told of it any more.
    assert_eq!(net.pushes(ann), vec![]);
    assert_eq!(
        net.pushes(admin),
        vec![Message::Notice { text: "ann left den".into(), level: "info".into() }]
    );
    assert!(!net.state.in_room("den", "ann"));
    assert_eq!(net.ask(ann, Message::RoomLeave { name: "no".into() }), Message::RoomLeaveRes { name: "no".into() });
    assert_eq!(net.ask(ann, Message::RoomJoin { name: "no".into() }), plain(ErrorCode::RoomNotFound));
    assert_eq!(net.ask(ann, Message::RoomMembers { name: "no".into() }), plain(ErrorCode::RoomNotFound));
}

#[test]
fn the_default_room_cannot_be_left() {
    let mut net = Net::new();
    let ann = net.user("ann");
    assert_eq!(
        net.ask(ann, Message::RoomLeave { name: ROOM.into() }),
        refusal(ErrorCode::Forbidden, "cannot leave the default room")
    );
    assert!(net.state.in_room(ROOM, "ann"));
}

#[test]
fn a_room_name_is_taken_by_rooms_and_users() {
    let mut net = Net::new();
    let admin = net.admin();
    net.user("ann");
    for name in [ROOM, "ann"] {
        assert_eq!(
            net.ask(admin, Message::RoomCreate { name: name.into() }),
            refusal(ErrorCode::Conflict, "room exists")
        );
    }
}

#[test]
fn a_deleted_room_is_forgotten() {
    let mut net = Net::new();
    let admin = net.admin();
    let ann = net.user("ann");
    net.ask(admin, Message::RoomCreate { name: "den".into() });
    net.ask(admin, text_for("den", "old"));
    assert_eq!(net.ask(ann, Message::RoomDelete { name: "den".into() }), plain(ErrorCode::Forbidden));
    assert_eq!(
        net.ask(admin, Message::RoomDelete { name: "den".into() }),
        Message::RoomDeleteRes { name: "den".into() }
    );
    assert_eq!(net.ask(admin, Message::RoomDelete { name: "den".into() }), plain(ErrorCode::RoomNotFound));
    assert!(net.rooms.is_empty());
    let history = Message::History { room: "den".into(), limit: 0, before_seq: None };
    assert_eq!(net.ask(admin, history.clone()), plain(ErrorCode::RoomNotFound));
    net.ask(admin, Message::RoomCreate { name: "den".into() });
    assert_eq!(net.ask(admin, history), Message::HistoryRes { room: "den".into(), messages: vec![] });
}

#[test]
fn texts_that_are_refused() {
    let mut net = Net::new();
    let ann = net.user("ann");
    net.user("bob");
    let send = |room: Option<&str>, to: Option<&str>, body: &str| Message::SendText {
        room: room.map(|r| r.to_string()),
        to: to.map(|t| t.to_string()),
        body: body.to_string(),
    };
    assert_eq!(net.ask(ann, send(Some(ROOM), None, "")), refusal(ErrorCode::BadRequest, "empty message"));
    let both = refusal(ErrorCode::BadRequest, "specify room or recipient");
    assert_eq!(net.ask(ann, send(None, None, "x")), both);
    assert_eq!(net.ask(ann, send(Some(ROOM), Some("bob"), "x")), both);
    assert_eq!(net.ask(ann, send(None, Some("eve"), "x")), refusal(ErrorCode::NotFound, "recipient not online"));
    assert_eq!(net.ask(ann, send(Some("no"), None, "x")), plain(ErrorCode::NotInRoom));
    assert_eq!(net.state.server_seq(), 1);
}

#[test]
fn history_is_numbered_bounded_and_paged() {
    let mut net = Net::new();
    let ann = net.user("ann");
    for i in 0..520 {
        net.ask_at(ann, text_for(ROOM, &format!("m{i}")), i);
    }
    let page = |net: &mut Net, limit: u32, before_seq: Option<u64>| -> Vec<HistoryItem> {
        match net.ask(ann, Message::History { room: ROOM.into(), limit, before_seq }) {
            Message::HistoryRes { messages, .. } => messages,
            other => panic!("unexpected: {other:?}"),
        }
    };
    let all = page(&mut net, 0, None);
    assert_eq!(all.len(), 512);
    assert_eq!(all[0].seq, 9);
    assert!(all.windows(2).all(|w| w[0].seq < w[1].seq));
    let last = page(&mut net, 2, None);
    assert_eq!(last.iter().map(|m| m.seq).collect::<Vec<_>>(), vec![519, 520]);
    assert_eq!(
        last[1],
        HistoryItem { seq: 520, room: ROOM.into(), from: "ann".into(), body: "m519".into(), ts: 519 }
    );
    let before = page(&mut net, 3, Some(100));
    assert_eq!(before.iter().map(|m| m.seq).collect::<Vec<_>>(), vec![97, 98, 99]);
    assert_eq!(page(&mut net, 5, Some(9)), vec![]);
    assert_eq!(page(&mut net, 1000, Some(11)).len(), 2);
}

#[test]
fn users_are_kicked_by_managers() {
    let mut net = Net::new();
    let admin = net.admin();
    let ann = net.user("ann");
    let bob = net.user("bob");
    let kick = |name: &str, reason: Option<&str>| Message::UserKick {
        target: name.into(),
        reason: reason.map(|r| r.to_string()),
    };
    assert_eq!(net.ask(ann, kick("bob", None)), plain(ErrorCode::Forbidden));
    assert_eq!(net.ask(admin, kick("eve", None)), refusal(ErrorCode::NotFound, "target not online"));
    assert_eq!(net.ask(admin, kick("admin", None)), refusal(ErrorCode::Forbidden, "cannot kick self/admin"));
    net.pushes(bob);
    net.pushes(ann);
    assert_eq!(net.ask(admin, kick("bob", Some("spam"))), Message::UserKickRes { target: "bob".into() });
    assert_eq!(
        net.pushes(bob),
        vec![Message::Notice { text: "kicked from server: spam".into(), level: "warn".into() }]
    );
    assert_eq!(
        net.pushes(ann),
        vec![Message::PushUserManifest { users: vec!["admin".into(), "ann".into()] }]
    );
    assert!(!net.state.is_online("bob"));
    net.ask(admin, kick("ann", None));
    assert_eq!(
        net.pushes(ann),
        vec![Message::Notice { text: "kicked from server".into(), level: "warn".into() }]
    );
}

#[test]
fn accounts_are_made_and_changed_by_administrators() {
    let mut net = Net::new();
    let admin = net.admin();
    let ann = net.user("ann");
    let create = |name: &str, role: Role| Message::AdminUserCreate {
        username: name.into(),
        password: "pw".into(),
        role,
    };
    assert_eq!(net.ask(ann, create("max", Role::User)), plain(ErrorCode::Forbidden));
    assert_eq!(
        net.ask(admin, create("max", Role::Manager)),
        Message::AdminUserCreateRes { username: "max".into(), role: Role::Manager }
    );
    for taken in ["max", "ann"] {
        assert_eq!(net.ask(admin, create(taken, Role::User)), plain(ErrorCode::UserExists));
    }
    assert_eq!(net.ask(admin, create("Server", Role::User)), plain(ErrorCode::ReservedName));
    let max = net.connect();
    net.login(max, "max", "pw");
    assert_eq!(
        net.ask(ann, Message::UserManagers),
        Message::UserManagersRes { managers: vec!["admin".into(), "max".into()] }
    );
    assert_eq!(
        net.ask(admin, Message::AdminSetPwd { target: "max".into(), password: "new".into() }),
        Message::AdminSetPwdRes { target: "max".into() }
    );
    assert_eq!(net.users[2].password_hash, "new");
    assert_eq!(
        net.ask(admin, Message::AdminSetRole { target: "max".into(), role: Role::User }),
        Message::AdminSetRoleRes { target: "max".into(), role: Role::User }
    );
    assert_eq!(net.users[2].role, "user");
    assert_eq!(
        net.ask(ann, Message::UserManagers),
        Message::UserManagersRes { managers: vec!["admin".into()] }
    );
    assert_eq!(
        net.ask(admin, Message::AdminSetRole { target: "admin".into(), role: Role::User }),
        refusal(ErrorCode::Forbidden, "cannot change admin role")
    );
}

#[test]
fn accounts_are_banned_restored_and_deleted() {
    let mut net = Net::new();
    let admin = net.admin();
    let ann = net.user("ann");
    net.pushes(ann);
    assert_eq!(
        net.ask(admin, Message::AdminUserBan { target: "ann".into(), reason: Some("spam".into()) }),
        Message::AdminUserBanRes { target: "ann".into() }
    );
    assert_eq!(net.pushes(ann), vec![Message::Notice { text: "banned: spam".into(), level: "warn".into() }]);
    assert!(!net.state.is_online("ann"));
    let again = net.connect();
    let login = Message::Login { username: "ann".into(), password: "password".into() };
    assert_eq!(net.ask(again, login.clone()), refusal(ErrorCode::Forbidden, "banned"));
    assert_eq!(
        net.ask(admin, Message::AdminUserRestore { target: "ann".into() }),
        Message::AdminUserRestoreRes { target: "ann".into() }
    );
    assert!(matches!(net.ask(again, login.clone()), Message::LoginRes { .. }));
    net.pushes(again);
    assert_eq!(
        net.ask(admin, Message::AdminUserDelete { target: "ann".into() }),
        Message::AdminUserDeleteRes { target: "ann".into() }
    );
    assert_eq!(
        net.pushes(again),
        vec![Message::Notice { text: "your account was deleted".into(), level: "warn".into() }]
    );
    let fresh = net.connect();
    assert_eq!(net.ask(fresh, login), plain(ErrorCode::AuthFailed));
    for (msg, text) in [
        (Message::AdminUserBan { target: "admin".into(), reason: None }, "cannot ban self/admin"),
        (Message::AdminUserDelete { target: "admin".into() }, "cannot delete self/admin"),
    ] {
        assert_eq!(net.ask(admin, msg), refusal(ErrorCode::Forbidden, text));
    }
}

#[test]
fn a_broken_database_is_reported() {
    let mut net = Net::new();
    let admin = net.admin();
    net.broken = true;
    for msg in [
        Message::AdminUserBan { target: "x".into(), reason: None },
        Message::AdminUserDelete { target: "x".into() },
        Message::AdminUserRestore { target: "x".into() },
        Message::AdminSetPwd { target: "x".into(), password: "y".into() },
        Message::AdminUserCreate { username: "x".into(), password: "y".into(), role: Role::User },
    ] {
        assert_eq!(net.ask(admin, msg), plain(ErrorCode::Internal));
    }
    assert_eq!(
        net.ask(admin, Message::AdminSetRole { target: "x".into(), role: Role::User }),
        refusal(ErrorCode::Forbidden, "cannot change admin role")
    );
}

#[test]
fn roles_are_needed() {
    let mut net = Net::new();
    let ann = net.user("ann");
    for msg in [
        Message::RoomCreate { name: "x".into() },
        Message::RoomDelete { name: ROOM.into() },
        Message::UserKick { target: "ann".into(), reason: None },
        Message::AdminUserCreate { username: "x".into(), password: "y".into(), role: Role::User },
        Message::AdminSetPwd { target: "x".into(), password: "y".into() },
        Message::AdminSetRole { target: "admin".into(), role: Role::User },
        Message::AdminUserDelete { target: "admin".into() },
        Message::AdminUserBan { target: "admin".into(), reason: None },
        Message::AdminUserRestore { target: "x".into() },
    ] {
        assert_eq!(net.ask(ann, msg), plain(ErrorCode::Forbidden));
    }
}

#[test]
fn the_server_tells_about_itself() {
    let mut net = Net::new();
    let ann = net.user("ann");
    assert_eq!(
        net.ask(ann, Message::ServerInfo),
        Message::ServerInfoRes {
            protocol: 1,
            name: "Sinrana".into(),
            version: "0.1.0".into(),
            rooms: 1,
            online: 1,
        }
    );
    assert_eq!(net.ask(ann, Message::Ping), Message::Pong);
}

#[test]
fn a_message_that_no_client_sends_is_refused() {
    let mut net = Net::new();
    let ann = net.user("ann");
    assert_eq!(net.ask(ann, Message::Pong), refusal(ErrorCode::BadRequest, "unexpected message: Pong"));
    let res = net.ask(ann, Message::UserKickRes { target: "x".into() });
    assert_eq!(code(&res), Some(ErrorCode::BadRequest));
}

#[test]
fn a_refused_request_leaves_no_trace() {
    let mut net = Net::new();
    let admin = net.admin();
    let ann = net.user("ann");
    net.pushes(admin);
    net.events.clear();
    net.ask(ann, Message::RoomDelete { name: ROOM.into() });
    net.ask(ann, text_for("no", "x"));
    assert_eq!(net.pushes(admin), vec![]);
    assert_eq!(net.events, vec![]);
    assert_eq!(net.state.room_names(), vec![ROOM.to_string()]);
}

#[test]
fn observers_see_what_is_published() {
    let mut net = Net::new();
    let ann = net.user("ann");
    assert_eq!(net.events, vec![Message::PushUserManifest { users: vec!["ann".into()] }]);
    net.events.clear();
    net.ask_at(ann, text_for(ROOM, "hi"), 3);
    assert_eq!(
        net.events,
        vec![Message::PushText { room: ROOM.into(), from: "ann".into(), body: "hi".into(), seq: 1, ts: 3 }]
    );
}

#[test]
fn numbers_are_shared_by_all_rooms() {
    let mut net = Net::new();
    let admin = net.admin();
    net.ask(admin, Message::RoomCreate { name: "den".into() });
    assert_eq!(net.ask(admin, text_for(ROOM, "a")), Message::SendTextRes { seq: 1, ts: 5000 });
    assert_eq!(net.ask(admin, text_for("den", "b")), Message::SendTextRes { seq: 2, ts: 5000 });
    assert_eq!(net.ask(admin, text_for(ROOM, "c")), Message::SendTextRes { seq: 3, ts: 5000 });
}

#[test]
fn the_present_time_is_used() {
    let mut state = State::new(Config::default(), "v".to_string(), 0);
    let handle = Handle { conn: 1 };
    let mut identity = None;
    handle.on_token(&mut state, &mut identity, 1, "ann".into(), Role::User, Some("t".into()));
    state.take_outbox();
    let step = handle.handle_message(&mut state, &mut identity, Frame::request(2, text_for(ROOM, "x")));
    assert_eq!(step, Step::Done);
    match state.take_outbox().pop() {
        Some(Output::Send { conn: 1, frame }) => match frame.msg {
            Message::SendTextRes { seq: 1, ts } => assert!(ts > 1_577_836_800_000),
            other => panic!("unexpected: {other:?}"),
        },
        other => panic!("unexpected: {other:?}"),
    }
}

#[test]
fn real_passwords_and_tokens_work_together() {
    let mut state = State::new(Config::default(), "v".to_string(), 0);
    let handle = Handle { conn: 1 };
    let mut identity = None;
    let then = AfterHash::Register { username: "ann".into() };
    let hash = match handle.settle_hash(&mut state, 1, "secret", then) {
        Step::Write {
            write: DbWrite::CreateUser { username, password_hash, role },
            then: AfterWrite::Register { username: same },
        } => {
            assert_eq!(username, "ann");
            assert_eq!(same, "ann");
            assert_eq!(role, "user");
            password_hash
        }
        other => panic!("unexpected: {other:?}"),
    };
    let found = Lookup::Found(UserRecord {
        username: "ann".into(),
        password_hash: hash,
        role: "user".into(),
        banned: 0,
    });
    let login = |password: &str| AfterLookup::Login { password: password.into() };
    let refused = handle.on_lookup(&mut state, 2, "ann".into(), login("wrong"), &found);
    assert_eq!(refused, Step::Done);
    match handle.on_lookup(&mut state, 3, "ann".into(), login("secret"), &found) {
        Step::Token { username, role } => {
            assert_eq!(handle.settle_token(&mut state, &mut identity, 3, username, role), Step::Done);
        }
        other => panic!("unexpected: {other:?}"),
    }
    assert_eq!(identity, Some(("ann".to_string(), Role::User)));
    let token = state.take_outbox().into_iter().find_map(|o| match o {
        Output::Send { frame: Frame { msg: Message::LoginRes { token, .. }, .. }, .. } => Some(token),
        _ => None,
    });
    let token = token.unwrap();
    assert_eq!(token.len(), 64);
    assert_eq!(state.lookup_session(&token).unwrap().username, "ann");
}

#[test]
fn without_random_bytes_a_request_stops() {
    let mut state = State::new(Config::default(), "v".to_string(), 0);
    let handle = Handle { conn: 1 };
    let mut identity = None;
    let then = AfterHash::SetPwd { target: "ann".into() };
    let unavailable = Err(sinrana::auth::AuthError::RandomUnavailable);
    assert_eq!(handle.on_hash(&mut state, 1, then.clone(), unavailable), Step::NoRandom);
    assert_eq!(
        handle.on_token(&mut state, &mut identity, 1, "ann".into(), Role::User, None),
        Step::NoRandom
    );
    assert_eq!(identity, None);
    assert!(!state.is_online("ann"));
    assert_eq!(state.take_outbox(), vec![]);
    let refused = Err(sinrana::auth::AuthError::Hash);
    assert_eq!(handle.on_hash(&mut state, 1, then, refused), Step::Done);
    assert_eq!(
        state.take_outbox(),
        vec![Output::Send {
            conn: 1,
            frame: Frame::response(1, plain(ErrorCode::Internal)),
        }]
    );
}

#[test]
fn nobody_expels_themselves() {
    let mut net = Net::new();
    let admin = net.admin();
    net.ask(
        admin,
        Message::AdminUserCreate { username: "root".into(), password: "pw".into(), role: Role::Admin },
    );
    let root = net.connect();
    net.login(root, "root", "pw");
    for (msg, text) in [
        (Message::UserKick { target: "root".into(), reason: None }, "cannot kick self/admin"),
        (Message::AdminUserBan { target: "root".into(), reason: None }, "cannot ban self/admin"),
        (Message::AdminUserDelete { target: "root".into() }, "cannot delete self/admin"),
        (Message::UserKick { target: "admin".into(), reason: None }, "cannot kick self/admin"),
    ] {
        assert_eq!(net.ask(root, msg), refusal(ErrorCode::Forbidden, text));
    }
    assert!(net.state.is_online("root"));
    assert!(net.state.is_online("admin"));
}
