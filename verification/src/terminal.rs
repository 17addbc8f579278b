//! The terminal of the web interface: what an administrator types, and what it does.
//!
//! A command is worked on until it needs something from outside. It then stops with a
//! [`TermStep`], and goes on with [`on_lookup`], [`on_hash`] or [`on_write`].

use vstd::prelude::*;
use vstd::string::StringExecFns;

use crate::auth;
use crate::auth::AuthError;
use crate::clock;
use crate::db::{DbWrite, DbWriteView, Lookup, LookupView};
use crate::handle;
use crate::message::{Message, MessageView, Role};
use crate::model;
use crate::model::{OutputView, StateView};
use crate::protocol;
use crate::server;
use crate::server::{Output, State};
use crate::text;

verus! {

/// Why `serde_json::from_str` refuses a text as a JSON value, where it does.
pub uninterp spec fn json_error(text: Seq<char>) -> Option<Seq<char>>;

/// The string that a JSON text holds under a key, where the text is an object that has the key
/// with a string.
pub uninterp spec fn json_string(text: Seq<char>, key: Seq<char>) -> Option<Seq<char>>;

/// Parses a text with `serde_json::from_str` into a `serde_json::Value`, and hands out what
/// `Value::as_str` gives of the value that indexing with the key finds (`Null`, and so nothing,
/// where there is none). Both are functions of the text and the key alone; what JSON is, is not
/// said here.
#[verifier::external_body]
fn json_field(text: &str, key: &str) -> (field: Result<Option<String>, String>)
    ensures
        match field {
            Ok(found) => json_error(text@) is None && text::opt_view(found) == json_string(
                text@,
                key@,
            ),
            Err(err) => json_error(text@) == Some(err@),
        },
{
    match serde_json::from_str::<serde_json::Value>(text) {
        Ok(value) => Ok(value[key].as_str().map(|found| found.to_string())),
        Err(err) => Err(err.to_string()),
    }
}

/// The view of a [`ClientRequest`].
pub ghost enum ClientRequestView {
    BadJson(Seq<char>),
    Chat { body: Seq<char>, room: Option<Seq<char>> },
    Command(Seq<char>),
    Ping,
    Unknown,
}

/// What a terminal sends.
#[derive(Debug, Clone, PartialEq, Eq)]
pub enum ClientRequest {
    /// A text that is no JSON, and why.
    BadJson(String),
    /// A text for a room, the default room where none is named.
    Chat { body: String, room: Option<String> },
    /// A command line.
    Command(String),
    Ping,
    /// JSON of no known kind.
    Unknown,
}

impl View for ClientRequest {
    type V = ClientRequestView;

    open spec fn view(&self) -> ClientRequestView {
        match self {
            ClientRequest::BadJson(why) => ClientRequestView::BadJson(why@),
            ClientRequest::Chat { body, room } => ClientRequestView::Chat {
                body: body@,
                room: text::opt_view(*room),
            },
            ClientRequest::Command(line) => ClientRequestView::Command(line@),
            ClientRequest::Ping => ClientRequestView::Ping,
            ClientRequest::Unknown => ClientRequestView::Unknown,
        }
    }
}

/// A string, or the empty text where there is none.
pub open spec fn or_empty(field: Option<Seq<char>>) -> Seq<char> {
    match field {
        Some(t) => t,
        None => Seq::empty(),
    }
}

/// What a terminal sends, by the string fields of its JSON object.
pub open spec fn request_of(
    kind: Option<Seq<char>>,
    body: Option<Seq<char>>,
    room: Option<Seq<char>>,
    line: Option<Seq<char>>,
) -> ClientRequestView {
    if kind == Some("chat"@) {
        ClientRequestView::Chat { body: or_empty(body), room }
    } else if kind == Some("cmd"@) {
        ClientRequestView::Command(text::trimmed(or_empty(line)))
    } else if kind == Some("ping"@) {
        ClientRequestView::Ping
    } else {
        ClientRequestView::Unknown
    }
}

fn text_or_empty(field: Option<String>) -> (t: String)
    ensures
        t@ == or_empty(text::opt_view(field)),
{
    match field {
        Some(t) => t,
        None => {
            let t = String::new();
            assert(t@ =~= Seq::empty());
            t
        },
    }
}

/// What a terminal sends, by the string fields of its JSON object.
pub fn request_from(
    kind: Option<String>,
    body: Option<String>,
    room: Option<String>,
    line: Option<String>,
) -> (req: ClientRequest)
    ensures
        req@ == request_of(
            text::opt_view(kind),
            text::opt_view(body),
            text::opt_view(room),
            text::opt_view(line),
        ),
{
    let kind = match kind {
        Some(kind) => kind,
        None => {
            return ClientRequest::Unknown;
        },
    };
    if text::same_text(kind.as_str(), "chat") {
        ClientRequest::Chat { body: text_or_empty(body), room }
    } else if text::same_text(kind.as_str(), "cmd") {
        let line = text_or_empty(line);
        ClientRequest::Command(text::trim(line.as_str()))
    } else if text::same_text(kind.as_str(), "ping") {
        ClientRequest::Ping
    } else {
        ClientRequest::Unknown
    }
}

/// What a terminal sends, by its JSON text.
pub open spec fn json_request(message: Seq<char>) -> ClientRequestView {
    match json_error(message) {
        Some(why) => ClientRequestView::BadJson(why),
        None => request_of(
            json_string(message, "type"@),
            json_string(message, "body"@),
            json_string(message, "room"@),
            json_string(message, "line"@),
        ),
    }
}

/// Reads what a terminal sends.
pub fn read_request(message: &str) -> (req: ClientRequest)
    ensures
        req@ == json_request(message@),
{
    let kind = match json_field(message, "type") {
        Ok(kind) => kind,
        Err(why) => {
            return ClientRequest::BadJson(why);
        },
    };
    let body = match json_field(message, "body") {
        Ok(body) => body,
        Err(_) => None,
    };
    let room = match json_field(message, "room") {
        Ok(room) => room,
        Err(_) => None,
    };
    let line = match json_field(message, "line") {
        Ok(line) => line,
        Err(_) => None,
    };
    request_from(kind, body, room, line)
}

/// The view of a [`TermReply`].
pub ghost enum TermReplyView {
    Error { text: Seq<char> },
    Notice { level: Seq<char>, text: Seq<char> },
    ChatAck { seq: u64, ts: i64 },
    Pong,
    Info { rooms: usize, online: usize, uptime_ms: i64, server_seq: u64, bind_addr: Seq<char> },
    Rooms { rooms: Seq<Seq<char>> },
    Online { users: Seq<(Seq<char>, Role)> },
}

/// What a terminal is answered.
#[derive(Debug, Clone, PartialEq, Eq)]
pub enum TermReply {
    Error { text: String },
    Notice { level: String, text: String },
    ChatAck { seq: u64, ts: i64 },
    Pong,
    Info { rooms: usize, online: usize, uptime_ms: i64, server_seq: u64, bind_addr: String },
    Rooms { rooms: Vec<String> },
    Online { users: Vec<(String, Role)> },
}

impl View for TermReply {
    type V = TermReplyView;

    open spec fn view(&self) -> TermReplyView {
        match self {
            TermReply::Error { text } => TermReplyView::Error { text: text@ },
            TermReply::Notice { level, text } => TermReplyView::Notice {
                level: level@,
                text: text@,
            },
            TermReply::ChatAck { seq, ts } => TermReplyView::ChatAck { seq: *seq, ts: *ts },
            TermReply::Pong => TermReplyView::Pong,
            TermReply::Info { rooms, online, uptime_ms, server_seq, bind_addr } => {
                TermReplyView::Info {
                    rooms: *rooms,
                    online: *online,
                    uptime_ms: *uptime_ms,
                    server_seq: *server_seq,
                    bind_addr: bind_addr@,
                }
            },
            TermReply::Rooms { rooms } => TermReplyView::Rooms { rooms: text::views(rooms@) },
            TermReply::Online { users } => TermReplyView::Online { users: text::views(users@) },
        }
    }
}

/// The view of an [`AfterTermHash`].
pub ghost enum AfterTermHashView {
    SetPwd { target: Seq<char> },
    CreateUser { username: Seq<char>, role: Seq<char> },
}

/// What goes on once a password has been hashed.
#[derive(Debug, Clone, PartialEq, Eq)]
pub enum AfterTermHash {
    SetPwd { target: String },
    CreateUser { username: String, role: String },
}

impl View for AfterTermHash {
    type V = AfterTermHashView;

    open spec fn view(&self) -> AfterTermHashView {
        match self {
            AfterTermHash::SetPwd { target } => AfterTermHashView::SetPwd { target: target@ },
            AfterTermHash::CreateUser { username, role } => AfterTermHashView::CreateUser {
                username: username@,
                role: role@,
            },
        }
    }
}

/// The view of an [`AfterTermWrite`].
pub ghost enum AfterTermWriteView {
    Ban { target: Seq<char>, reason: Option<Seq<char>> },
    Restore { target: Seq<char> },
    SetRole { target: Seq<char>, role: Seq<char> },
    SetPwd { target: Seq<char> },
    CreateUser { username: Seq<char>, role: Seq<char> },
}

/// What goes on once the database has been changed, or has failed to.
#[derive(Debug, Clone, PartialEq, Eq)]
pub enum AfterTermWrite {
    Ban { target: String, reason: Option<String> },
    Restore { target: String },
    SetRole { target: String, role: String },
    SetPwd { target: String },
    CreateUser { username: String, role: String },
}

impl View for AfterTermWrite {
    type V = AfterTermWriteView;

    open spec fn view(&self) -> AfterTermWriteView {
        match self {
            AfterTermWrite::Ban { target, reason } => AfterTermWriteView::Ban {
                target: target@,
                reason: text::opt_view(*reason),
            },
            AfterTermWrite::Restore { target } => AfterTermWriteView::Restore { target: target@ },
            AfterTermWrite::SetRole { target, role } => AfterTermWriteView::SetRole {
                target: target@,
                role: role@,
            },
            AfterTermWrite::SetPwd { target } => AfterTermWriteView::SetPwd { target: target@ },
            AfterTermWrite::CreateUser { username, role } => AfterTermWriteView::CreateUser {
                username: username@,
                role: role@,
            },
        }
    }
}

/// The view of a [`TermStep`].
pub ghost enum TermStepView {
    Reply(TermReplyView),
    Lookup { username: Seq<char>, password: Seq<char>, role: Seq<char> },
    Hash { password: Seq<char>, then: AfterTermHashView },
    Write { write: DbWriteView, then: AfterTermWriteView },
    NoRandom,
}

/// What a command of a terminal needs next.
#[derive(Debug, Clone, PartialEq, Eq)]
pub enum TermStep {
    /// Nothing more: this is the answer.
    Reply(TermReply),
    /// The user of this name, to see whether the name of a new account is taken.
    Lookup { username: String, password: String, role: String },
    /// A hash of a password.
    Hash { password: String, then: AfterTermHash },
    /// A change of the database.
    Write { write: DbWrite, then: AfterTermWrite },
    /// The operating system has no random bytes.
    NoRandom,
}

impl View for TermStep {
    type V = TermStepView;

    open spec fn view(&self) -> TermStepView {
        match self {
            TermStep::Reply(reply) => TermStepView::Reply(reply@),
            TermStep::Lookup { username, password, role } => TermStepView::Lookup {
                username: username@,
                password: password@,
                role: role@,
            },
            TermStep::Hash { password, then } => TermStepView::Hash {
                password: password@,
                then: then@,
            },
            TermStep::Write { write, then } => TermStepView::Write { write: write@, then: then@ },
            TermStep::NoRandom => TermStepView::NoRandom,
        }
    }
}

impl TermStepView {
    /// The answer that something is wrong.
    pub open spec fn error(text: Seq<char>) -> TermStepView {
        TermStepView::Reply(TermReplyView::Error { text })
    }

    /// The answer that something is done.
    pub open spec fn notice(text: Seq<char>) -> TermStepView {
        TermStepView::Reply(TermReplyView::Notice { level: "info"@, text })
    }
}

/// Two texts around the first space, each without white space around it.
pub open spec fn two(rest: Seq<char>) -> Option<(Seq<char>, Seq<char>)> {
    match text::cut_at_space(rest) {
        Some((a, b)) => Some((text::trimmed(a), text::trimmed(b))),
        None => None,
    }
}

/// Whether a name is that of a role.
pub open spec fn names_role(name: Seq<char>) -> bool {
    name == "user"@ || name == "manager"@ || name == "admin"@
}

/// What `/help` shows.
pub open spec fn help_text() -> Seq<char> {
    "/kick <u>  /ban <u> [r]  /restore <u>  /setrole <u> <role>  /setpwd <u> <p>  /create <room>  /delete <room>  /broadcast <text>  /createuser <u> <p> <role>  /info  /rooms  /online"@
}

impl StateView {
    /// A text that an administrator says in a room, under the name `Server`.
    pub open spec fn term_chat(
        self,
        body: Seq<char>,
        room: Option<Seq<char>>,
        now: i64,
    ) -> (StateView, TermStepView) {
        let name = match room {
            Some(name) => name,
            None => self.cfg.default_room,
        };
        if body.len() == 0 {
            (self, TermStepView::error("empty message"@))
        } else if !self.rooms.contains_key(name) {
            (self, TermStepView::error("room not found"@))
        } else {
            (
                self.broadcast_text("Server"@, name, body, now),
                TermStepView::Reply(TermReplyView::ChatAck { seq: self.next_seq, ts: now }),
            )
        }
    }

    /// `/kick`.
    pub open spec fn term_kick(self, target: Seq<char>) -> (StateView, TermStepView) {
        if target.len() == 0 {
            (self, TermStepView::error("usage: /kick <user>"@))
        } else if !self.online.contains_key(target) {
            (self, TermStepView::error("target not online"@))
        } else if target == "admin"@ {
            (self, TermStepView::error("cannot kick admin"@))
        } else {
            (
                self.expel(target, "kicked from server by web admin"@),
                TermStepView::notice("kicked "@ + target),
            )
        }
    }

    /// `/create`.
    pub open spec fn term_create(self, room: Seq<char>) -> (StateView, TermStepView) {
        if room.len() == 0 {
            (self, TermStepView::error("usage: /create <room>"@))
        } else if self.rooms.contains_key(room) || self.online.contains_key(room) {
            (self, TermStepView::error("room exists"@))
        } else {
            (
                self.create_room(room, "Server"@).put(
                    OutputView::Persist(DbWriteView::CreateRoom { name: room }),
                ),
                TermStepView::notice("created room "@ + room),
            )
        }
    }

    /// `/delete`.
    pub open spec fn term_delete(self, room: Seq<char>) -> (StateView, TermStepView) {
        if room.len() == 0 {
            (self, TermStepView::error("usage: /delete <room>"@))
        } else if !self.rooms.contains_key(room) {
            (self, TermStepView::error("room not found"@))
        } else {
            (
                self.delete_room(room).put(
                    OutputView::Persist(DbWriteView::DeleteRoom { name: room }),
                ),
                TermStepView::notice("deleted room "@ + room),
            )
        }
    }

    /// `/broadcast`.
    pub open spec fn term_broadcast(self, body: Seq<char>, now: i64) -> (StateView, TermStepView) {
        if body.len() == 0 {
            (self, TermStepView::error("usage: /broadcast <text>"@))
        } else {
            (
                self.broadcast_texts("Server"@, self.room_names(), body, now),
                TermStepView::notice("broadcast sent to all rooms"@),
            )
        }
    }

    /// A command line of a terminal: the state and the next step.
    pub open spec fn term_command(self, line: Seq<char>, now: i64) -> (StateView, TermStepView) {
        let (cmd, rest) = text::command(line);
        if cmd == "/help"@ {
            (self, TermStepView::notice(help_text()))
        } else if cmd == "/info"@ {
            (
                self,
                TermStepView::Reply(
                    TermReplyView::Info {
                        rooms: self.room_names().len() as usize,
                        online: self.online_names().len() as usize,
                        uptime_ms: now.wrapping_sub(self.started_at),
                        server_seq: self.next_seq,
                        bind_addr: self.cfg.bind_addr,
                    },
                ),
            )
        } else if cmd == "/rooms"@ {
            (self, TermStepView::Reply(TermReplyView::Rooms { rooms: self.room_names() }))
        } else if cmd == "/online"@ {
            (
                self,
                TermStepView::Reply(
                    TermReplyView::Online {
                        users: self.online_names().map_values(
                            |user: Seq<char>| (user, self.online[user].role),
                        ),
                    },
                ),
            )
        } else if cmd == "/kick"@ {
            self.term_kick(rest)
        } else if cmd == "/ban"@ {
            (self, ban(rest))
        } else if cmd == "/restore"@ {
            (self, restore(rest))
        } else if cmd == "/setrole"@ {
            (self, set_role(rest))
        } else if cmd == "/setpwd"@ {
            (self, set_pwd(rest))
        } else if cmd == "/create"@ {
            self.term_create(rest)
        } else if cmd == "/delete"@ {
            self.term_delete(rest)
        } else if cmd == "/createuser"@ {
            (self, create_user(rest))
        } else if cmd == "/broadcast"@ {
            self.term_broadcast(rest, now)
        } else if cmd.len() == 0 {
            (self, TermStepView::error("empty command"@))
        } else {
            (self, TermStepView::error("unknown command: "@ + cmd + " (try /help)"@))
        }
    }

    /// Whatever a terminal sends: the state and the next step.
    pub open spec fn term_request(self, req: ClientRequestView, now: i64) -> (
        StateView,
        TermStepView,
    ) {
        match req {
            ClientRequestView::BadJson(why) => (self, TermStepView::error("bad json: "@ + why)),
            ClientRequestView::Chat { body, room } => self.term_chat(body, room, now),
            ClientRequestView::Command(line) => self.term_command(line, now),
            ClientRequestView::Ping => (self, TermStepView::Reply(TermReplyView::Pong)),
            ClientRequestView::Unknown => (self, TermStepView::error("unknown message type"@)),
        }
    }

    /// The state and the answer once the database has been changed, or has failed to.
    pub open spec fn term_on_write(self, then: AfterTermWriteView, written: bool) -> (
        StateView,
        TermStepView,
    ) {
        if !written {
            (
                self,
                match then {
                    AfterTermWriteView::SetPwd { .. } => TermStepView::error(
                        "failed to set password"@,
                    ),
                    AfterTermWriteView::CreateUser { .. } => TermStepView::error(
                        "failed to create user"@,
                    ),
                    _ => TermStepView::error("db error"@),
                },
            )
        } else {
            match then {
                AfterTermWriteView::Ban { target, reason } => (
                    if self.online.contains_key(target) {
                        self.expel(target, protocol::with_reason("banned from server"@, reason))
                    } else {
                        self.end_sessions(target)
                    },
                    TermStepView::notice("banned "@ + target),
                ),
                AfterTermWriteView::Restore { target } => (
                    self,
                    TermStepView::notice("restored "@ + target),
                ),
                AfterTermWriteView::SetRole { target, role } => (
                    self.set_role(target, model::role_of(role)),
                    TermStepView::notice(target + " role -> "@ + role),
                ),
                AfterTermWriteView::SetPwd { target } => (
                    self,
                    TermStepView::notice("password updated for "@ + target),
                ),
                AfterTermWriteView::CreateUser { username, role } => (
                    self,
                    TermStepView::notice("created user "@ + username + " as "@ + role),
                ),
            }
        }
    }
}

/// `/ban`.
pub open spec fn ban(rest: Seq<char>) -> TermStepView {
    let (target, reason) = match two(rest) {
        Some((t, r)) => (t, Some(r)),
        None => (text::trimmed(rest), None),
    };
    if target.len() == 0 || target == "admin"@ {
        TermStepView::error("invalid target"@)
    } else {
        TermStepView::Write {
            write: DbWriteView::SetBanned { username: target, banned: true },
            then: AfterTermWriteView::Ban { target, reason },
        }
    }
}

/// `/restore`.
pub open spec fn restore(target: Seq<char>) -> TermStepView {
    if target.len() == 0 {
        TermStepView::error("usage: /restore <user>"@)
    } else {
        TermStepView::Write {
            write: DbWriteView::SetBanned { username: target, banned: false },
            then: AfterTermWriteView::Restore { target },
        }
    }
}

/// `/setrole`.
pub open spec fn set_role(rest: Seq<char>) -> TermStepView {
    match two(rest) {
        Some((target, role)) if target.len() > 0 && role.len() > 0 => if target == "admin"@
            || !names_role(role) {
            TermStepView::error("invalid target/role"@)
        } else {
            TermStepView::Write {
                write: DbWriteView::SetRole { username: target, role },
                then: AfterTermWriteView::SetRole { target, role },
            }
        },
        _ => TermStepView::error("usage: /setrole <user> <role>"@),
    }
}

/// `/setpwd`.
pub open spec fn set_pwd(rest: Seq<char>) -> TermStepView {
    match two(rest) {
        Some((target, password)) if target.len() > 0 && password.len() > 0 => {
            TermStepView::Hash { password, then: AfterTermHashView::SetPwd { target } }
        },
        _ => TermStepView::error("usage: /setpwd <user> <password>"@),
    }
}

/// `/createuser`.
pub open spec fn create_user(rest: Seq<char>) -> TermStepView {
    let parts = text::words(rest);
    if parts.len() < 3 {
        TermStepView::error("usage: /createuser <user> <password> <role>"@)
    } else {
        TermStepView::Lookup { username: parts[0], password: parts[1], role: parts[2] }
    }
}

/// The next step once the name of a new account has been looked up.
pub open spec fn looked_up(
    username: Seq<char>,
    password: Seq<char>,
    role: Seq<char>,
    found: LookupView,
) -> TermStepView {
    if found is Found {
        TermStepView::error("user exists"@)
    } else {
        TermStepView::Hash { password, then: AfterTermHashView::CreateUser { username, role } }
    }
}

/// The next step once a password has been hashed.
pub open spec fn hashed(
    then: AfterTermHashView,
    hash: Result<Seq<char>, AuthError>,
) -> TermStepView {
    match hash {
        Err(AuthError::RandomUnavailable) => TermStepView::NoRandom,
        Err(AuthError::Hash) => match then {
            AfterTermHashView::SetPwd { .. } => TermStepView::error("failed to set password"@),
            AfterTermHashView::CreateUser { .. } => TermStepView::error(
                "failed to create user"@,
            ),
        },
        Ok(password_hash) => match then {
            AfterTermHashView::SetPwd { target } => TermStepView::Write {
                write: DbWriteView::SetPassword { username: target, password_hash },
                then: AfterTermWriteView::SetPwd { target },
            },
            AfterTermHashView::CreateUser { username, role } => TermStepView::Write {
                write: DbWriteView::CreateUser { username, password_hash, role },
                then: AfterTermWriteView::CreateUser { username, role },
            },
        },
    }
}

/// The view of a [`TermInput`].
pub ghost enum TermInputView {
    Text(Seq<char>),
    Other,
    Closed,
    Event(MessageView),
    Lagged,
    EventsEnded,
}

/// What happens at an open terminal.
#[derive(Debug, Clone, PartialEq, Eq)]
pub enum TermInput {
    /// The administrator sends a text.
    Text(String),
    /// The browser sends something that is no text.
    Other,
    /// The browser closes, or is gone.
    Closed,
    /// The server has published something.
    Event(Message),
    /// Some of what the server has published was missed.
    Lagged,
    /// The server publishes nothing more.
    EventsEnded,
}

impl View for TermInput {
    type V = TermInputView;

    open spec fn view(&self) -> TermInputView {
        match self {
            TermInput::Text(t) => TermInputView::Text(t@),
            TermInput::Other => TermInputView::Other,
            TermInput::Closed => TermInputView::Closed,
            TermInput::Event(msg) => TermInputView::Event(msg@),
            TermInput::Lagged => TermInputView::Lagged,
            TermInput::EventsEnded => TermInputView::EventsEnded,
        }
    }
}

/// The view of a [`TermAction`].
pub ghost enum TermActionView {
    Act(Seq<char>),
    ShowEvent(MessageView),
    Say(TermReplyView),
    Ignore,
    Stop,
}

/// What an open terminal does about it.
#[derive(Debug, Clone, PartialEq, Eq)]
pub enum TermAction {
    /// Act on the text, with [`on_client_message`], and send the answer.
    Act(String),
    /// Send the event.
    ShowEvent(Message),
    /// Send this.
    Say(TermReply),
    Ignore,
    /// Close the terminal.
    Stop,
}

impl View for TermAction {
    type V = TermActionView;

    open spec fn view(&self) -> TermActionView {
        match self {
            TermAction::Act(t) => TermActionView::Act(t@),
            TermAction::ShowEvent(msg) => TermActionView::ShowEvent(msg@),
            TermAction::Say(reply) => TermActionView::Say(reply@),
            TermAction::Ignore => TermActionView::Ignore,
            TermAction::Stop => TermActionView::Stop,
        }
    }
}

/// What an open terminal does about what happens.
pub open spec fn term_action(input: TermInputView) -> TermActionView {
    match input {
        TermInputView::Text(t) => TermActionView::Act(t),
        TermInputView::Event(msg) => TermActionView::ShowEvent(msg),
        TermInputView::Lagged => TermActionView::Say(
            TermReplyView::Notice { level: "warn"@, text: "event stream lagged"@ },
        ),
        TermInputView::Other => TermActionView::Ignore,
        TermInputView::Closed | TermInputView::EventsEnded => TermActionView::Stop,
    }
}

/// An open terminal acts on every text and shows every event, unchanged; it closes exactly when
/// the browser is gone or no events are left, and warns exactly of events that were missed.
pub proof fn law_open_terminal(input: TermInputView, t: Seq<char>, msg: MessageView)
    ensures
        term_action(input) == TermActionView::Act(t) <==> input == TermInputView::Text(t),
        term_action(input) == TermActionView::ShowEvent(msg) <==> input == TermInputView::Event(
            msg,
        ),
        term_action(input) is Stop <==> input is Closed || input is EventsEnded,
        term_action(input) is Ignore <==> input is Other,
        term_action(input) is Say <==> input is Lagged,
        term_action(input) matches TermActionView::Say(reply) ==> (reply matches TermReplyView::Notice {
            level,
            text,
        } && level == "warn"@ && text == "event stream lagged"@),
{
}

/// What an open terminal does about what happens.
pub fn handle_terminal(input: TermInput) -> (action: TermAction)
    ensures
        action@ == match input@ {
            TermInputView::Text(t) => TermActionView::Act(t),
            TermInputView::Other => TermActionView::Ignore,
            TermInputView::Event(msg) => TermActionView::ShowEvent(msg),
            TermInputView::Lagged => TermActionView::Say(
                TermReplyView::Notice { level: "warn"@, text: "event stream lagged"@ },
            ),
            TermInputView::Closed | TermInputView::EventsEnded => TermActionView::Stop,
        },
        action@ == term_action(input@),
{
    match input {
        TermInput::Text(t) => TermAction::Act(t),
        TermInput::Other => TermAction::Ignore,
        TermInput::Event(msg) => TermAction::ShowEvent(msg),
        TermInput::Lagged => TermAction::Say(
            TermReply::Notice {
                level: "warn".to_owned(),
                text: "event stream lagged".to_owned(),
            },
        ),
        TermInput::Closed | TermInput::EventsEnded => TermAction::Stop,
    }
}

fn error(text: &str) -> (step: TermStep)
    ensures
        step@ == TermStepView::error(text@),
{
    TermStep::Reply(TermReply::Error { text: text.to_owned() })
}

fn notice(text: String) -> (step: TermStep)
    ensures
        step@ == TermStepView::notice(text@),
{
    TermStep::Reply(TermReply::Notice { level: "info".to_owned(), text })
}

fn split_two(rest: &str) -> (parts: Option<(String, String)>)
    ensures
        match parts {
            Some((a, b)) => two(rest@) == Some((a@, b@)),
            None => two(rest@) is None,
        },
{
    match text::split_once_space(rest) {
        Some((a, b)) => Some((text::trim(a.as_str()), text::trim(b.as_str()))),
        None => None,
    }
}

/// Acts on what a terminal sends at the present time.
pub fn on_client_message(state: &mut State, message: &str) -> (step: TermStep)
    ensures
        exists|now: i64|
            (final(state)@, step@) == #[trigger] old(state)@.term_request(
                json_request(message@),
                now,
            ),
{
    let req = read_request(message);
    let now = clock::now_ms();
    on_request(state, req, now)
}

/// Acts on what a terminal sends.
pub fn on_request(state: &mut State, req: ClientRequest, now: i64) -> (step: TermStep)
    ensures
        (final(state)@, step@) == old(state)@.term_request(req@, now),
{
    match req {
        ClientRequest::BadJson(why) => {
            let t = text::join("bad json: ", why.as_str());
            error(t.as_str())
        },
        ClientRequest::Chat { body, room } => chat(state, body.as_str(), room, now),
        ClientRequest::Command(line) => dispatch_command(state, line.as_str(), now),
        ClientRequest::Ping => TermStep::Reply(TermReply::Pong),
        ClientRequest::Unknown => error("unknown message type"),
    }
}

fn chat(state: &mut State, body: &str, room: Option<String>, now: i64) -> (step: TermStep)
    ensures
        (final(state)@, step@) == old(state)@.term_chat(body@, text::opt_view(room), now),
{
    if body.is_empty() {
        return error("empty message");
    }
    let name = match room {
        Some(name) => name,
        None => state.config().default_room,
    };
    if !state.has_room(name.as_str()) {
        return error("room not found");
    }
    let (seq, ts) = state.broadcast_text("Server", name.as_str(), body, now);
    TermStep::Reply(TermReply::ChatAck { seq, ts })
}

/// Carries out a command line. The terminal acts as `Server`.
pub fn dispatch_command(state: &mut State, line: &str, now: i64) -> (step: TermStep)
    ensures
        (final(state)@, step@) == old(state)@.term_command(line@, now),
{
    let (cmd, rest) = text::split_command(line);
    let cmd = cmd.as_str();
    let rest = rest.as_str();
    if text::same_text(cmd, "/help") {
        notice(
            "/kick <u>  /ban <u> [r]  /restore <u>  /setrole <u> <role>  /setpwd <u> <p>  /create <room>  /delete <room>  /broadcast <text>  /createuser <u> <p> <role>  /info  /rooms  /online".to_owned(),
        )
    } else if text::same_text(cmd, "/info") {
        TermStep::Reply(
            TermReply::Info {
                rooms: state.room_count(),
                online: state.online_count(),
                uptime_ms: state.uptime_ms(now),
                server_seq: state.server_seq(),
                bind_addr: state.config().bind_addr,
            },
        )
    } else if text::same_text(cmd, "/rooms") {
        TermStep::Reply(TermReply::Rooms { rooms: state.room_names() })
    } else if text::same_text(cmd, "/online") {
        TermStep::Reply(TermReply::Online { users: state.online_users() })
    } else if text::same_text(cmd, "/kick") {
        kick(state, rest)
    } else if text::same_text(cmd, "/ban") {
        start_ban(rest)
    } else if text::same_text(cmd, "/restore") {
        start_restore(rest)
    } else if text::same_text(cmd, "/setrole") {
        start_set_role(rest)
    } else if text::same_text(cmd, "/setpwd") {
        start_set_pwd(rest)
    } else if text::same_text(cmd, "/create") {
        create(state, rest)
    } else if text::same_text(cmd, "/delete") {
        delete(state, rest)
    } else if text::same_text(cmd, "/createuser") {
        start_create_user(rest)
    } else if text::same_text(cmd, "/broadcast") {
        broadcast(state, rest, now)
    } else if cmd.is_empty() {
        error("empty command")
    } else {
        let t = text::join3("unknown command: ", cmd, " (try /help)");
        error(t.as_str())
    }
}

fn kick(state: &mut State, target: &str) -> (step: TermStep)
    ensures
        (final(state)@, step@) == old(state)@.term_kick(target@),
{
    if target.is_empty() {
        error("usage: /kick <user>")
    } else if !state.is_online(target) {
        error("target not online")
    } else if text::same_text(target, "admin") {
        error("cannot kick admin")
    } else {
        state.expel(target, "kicked from server by web admin".to_owned());
        notice(text::join("kicked ", target))
    }
}

fn create(state: &mut State, room: &str) -> (step: TermStep)
    ensures
        (final(state)@, step@) == old(state)@.term_create(room@),
{
    if room.is_empty() {
        error("usage: /create <room>")
    } else if state.has_room(room) || state.is_online(room) {
        error("room exists")
    } else {
        state.create_room(room, "Server");
        state.put(Output::Persist(DbWrite::CreateRoom { name: room.to_owned() }));
        notice(text::join("created room ", room))
    }
}

fn delete(state: &mut State, room: &str) -> (step: TermStep)
    ensures
        (final(state)@, step@) == old(state)@.term_delete(room@),
{
    if room.is_empty() {
        error("usage: /delete <room>")
    } else if !state.has_room(room) {
        error("room not found")
    } else {
        state.delete_room(room);
        state.put(Output::Persist(DbWrite::DeleteRoom { name: room.to_owned() }));
        notice(text::join("deleted room ", room))
    }
}

fn broadcast(state: &mut State, body: &str, now: i64) -> (step: TermStep)
    ensures
        (final(state)@, step@) == old(state)@.term_broadcast(body@, now),
{
    if body.is_empty() {
        error("usage: /broadcast <text>")
    } else {
        state.broadcast_everywhere("Server", body, now);
        notice("broadcast sent to all rooms".to_owned())
    }
}

fn start_ban(rest: &str) -> (step: TermStep)
    ensures
        step@ == ban(rest@),
{
    let (target, reason) = match split_two(rest) {
        Some((target, reason)) => (target, Some(reason)),
        None => (text::trim(rest), None),
    };
    if target.as_str().is_empty() || text::same_text(target.as_str(), "admin") {
        error("invalid target")
    } else {
        TermStep::Write {
            write: DbWrite::SetBanned { username: target.clone(), banned: true },
            then: AfterTermWrite::Ban { target, reason },
        }
    }
}

fn start_restore(target: &str) -> (step: TermStep)
    ensures
        step@ == restore(target@),
{
    if target.is_empty() {
        error("usage: /restore <user>")
    } else {
        TermStep::Write {
            write: DbWrite::SetBanned { username: target.to_owned(), banned: false },
            then: AfterTermWrite::Restore { target: target.to_owned() },
        }
    }
}

fn start_set_role(rest: &str) -> (step: TermStep)
    ensures
        step@ == set_role(rest@),
{
    match split_two(rest) {
        Some((target, role)) => {
            if target.as_str().is_empty() || role.as_str().is_empty() {
                error("usage: /setrole <user> <role>")
            } else if text::same_text(target.as_str(), "admin") || !(text::same_text(
                role.as_str(),
                "user",
            ) || text::same_text(role.as_str(), "manager") || text::same_text(
                role.as_str(),
                "admin",
            )) {
                error("invalid target/role")
            } else {
                TermStep::Write {
                    write: DbWrite::SetRole { username: target.clone(), role: role.clone() },
                    then: AfterTermWrite::SetRole { target, role },
                }
            }
        },
        None => error("usage: /setrole <user> <role>"),
    }
}

fn start_set_pwd(rest: &str) -> (step: TermStep)
    ensures
        step@ == set_pwd(rest@),
{
    match split_two(rest) {
        Some((target, password)) => {
            if target.as_str().is_empty() || password.as_str().is_empty() {
                error("usage: /setpwd <user> <password>")
            } else {
                TermStep::Hash { password, then: AfterTermHash::SetPwd { target } }
            }
        },
        None => error("usage: /setpwd <user> <password>"),
    }
}

fn start_create_user(rest: &str) -> (step: TermStep)
    ensures
        step@ == create_user(rest@),
{
    let parts = text::split_words(rest);
    let ghost all = text::words(rest@);
    if parts.len() < 3 {
        return error("usage: /createuser <user> <password> <role>");
    }
    assert(all[0] == parts@[0]@ && all[1] == parts@[1]@ && all[2] == parts@[2]@);
    TermStep::Lookup {
        username: parts[0].clone(),
        password: parts[1].clone(),
        role: parts[2].clone(),
    }
}

/// Goes on with a new account whose name was looked up.
pub fn on_lookup(username: String, password: String, role: String, found: &Lookup) -> (step:
    TermStep)
    ensures
        step@ == looked_up(username@, password@, role@, found@),
{
    if let Lookup::Found(_) = found {
        return error("user exists");
    }
    TermStep::Hash { password, then: AfterTermHash::CreateUser { username, role } }
}

/// Goes on with a password that was hashed.
pub fn on_hash(then: AfterTermHash, hash: Result<String, AuthError>) -> (step: TermStep)
    ensures
        step@ == hashed(then@, auth::hash_view(hash)),
{
    match hash {
        Err(AuthError::RandomUnavailable) => TermStep::NoRandom,
        Err(AuthError::Hash) => match then {
            AfterTermHash::SetPwd { .. } => error("failed to set password"),
            AfterTermHash::CreateUser { .. } => error("failed to create user"),
        },
        Ok(password_hash) => match then {
            AfterTermHash::SetPwd { target } => TermStep::Write {
                write: DbWrite::SetPassword { username: target.clone(), password_hash },
                then: AfterTermWrite::SetPwd { target },
            },
            AfterTermHash::CreateUser { username, role } => TermStep::Write {
                write: DbWrite::CreateUser {
                    username: username.clone(),
                    password_hash,
                    role: role.clone(),
                },
                then: AfterTermWrite::CreateUser { username, role },
            },
        },
    }
}

/// Hashes a password, and goes on with the hash.
pub fn settle_hash(password: &str, then: AfterTermHash) -> (step: TermStep)
    ensures
        exists|hash: Result<Seq<char>, AuthError>| #[trigger]
            auth::may_hash(password@, hash) && step@ == hashed(then@, hash),
{
    let hash = auth::hash_password(password);
    let ghost seen = auth::hash_view(hash);
    assert(auth::may_hash(password@, seen));
    on_hash(then, hash)
}

/// Goes on once the database has been changed, or has failed to.
pub fn on_write(state: &mut State, then: AfterTermWrite, written: bool) -> (step: TermStep)
    ensures
        (final(state)@, step@) == old(state)@.term_on_write(then@, written),
{
    if !written {
        return match then {
            AfterTermWrite::SetPwd { .. } => error("failed to set password"),
            AfterTermWrite::CreateUser { .. } => error("failed to create user"),
            _ => error("db error"),
        };
    }
    match then {
        AfterTermWrite::Ban { target, reason } => {
            if state.is_online(target.as_str()) {
                let why = handle::with_reason("banned from server", &reason);
                state.expel(target.as_str(), why);
            } else {
                state.end_sessions(target.as_str());
            }
            notice(text::join("banned ", target.as_str()))
        },
        AfterTermWrite::Restore { target } => notice(text::join("restored ", target.as_str())),
        AfterTermWrite::SetRole { target, role } => {
            let new_role = server::role_from_str(role.as_str());
            state.set_role(target.as_str(), new_role);
            notice(text::join3(target.as_str(), " role -> ", role.as_str()))
        },
        AfterTermWrite::SetPwd { target } => notice(
            text::join("password updated for ", target.as_str()),
        ),
        AfterTermWrite::CreateUser { username, role } => {
            let mut t = text::join3("created user ", username.as_str(), " as ");
            t.append(role.as_str());
            notice(t)
        },
    }
}

} // verus!
