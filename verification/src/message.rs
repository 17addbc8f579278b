//! The message set: the strongly typed payload of every envelope.
//!
//! * A request that expects an answer is correlated by the envelope's `id`; the response, or a
//!   `sys.error`, carries the same `id`.
//! * A push is started by the server and carries no request `id`.
//! * The `*Res` variants and `Pong` are the responses to requests.

use std::cmp::Ordering;
use vstd::prelude::*;
use vstd::std_specs::cmp::{PartialOrdSpec, PartialOrdSpecImpl};

use crate::error::ErrorCode;
use crate::text;

verus! {

/// The three roles, from the lowest rights to the highest.
#[derive(Debug, Clone, Copy, PartialEq, Eq, Ord, Hash, Structural)]
pub enum Role {
    User,
    Manager,
    Admin,
}

impl View for Role {
    type V = Role;

    open spec fn view(&self) -> Role {
        *self
    }
}

impl Role {
    /// The level of a role (`Admin > Manager > User`).
    pub open spec fn level(self) -> u8 {
        match self {
            Role::User => 0,
            Role::Manager => 1,
            Role::Admin => 2,
        }
    }

    /// The name of a role in the protocol and in the database.
    pub open spec fn label(self) -> Seq<char> {
        match self {
            Role::User => "user"@,
            Role::Manager => "manager"@,
            Role::Admin => "admin"@,
        }
    }

    /// The level by which rights are compared (`Admin > Manager > User`).
    pub fn rank(self) -> (rank: u8)
        ensures
            rank == self.level(),
    {
        match self {
            Role::User => 0,
            Role::Manager => 1,
            Role::Admin => 2,
        }
    }

    /// The name of the role in the protocol and in the database.
    pub fn name(self) -> (t: &'static str)
        ensures
            t@ == self.label(),
    {
        match self {
            Role::User => "user",
            Role::Manager => "manager",
            Role::Admin => "admin",
        }
    }
}

impl PartialOrd for Role {
    fn partial_cmp(&self, other: &Role) -> (order: Option<Ordering>) {
        let (a, b) = (self.rank(), other.rank());
        if a < b {
            Some(Ordering::Less)
        } else if a == b {
            Some(Ordering::Equal)
        } else {
            Some(Ordering::Greater)
        }
    }
}

impl PartialOrdSpecImpl for Role {
    open spec fn obeys_partial_cmp_spec() -> bool {
        true
    }

    open spec fn partial_cmp_spec(&self, other: &Role) -> Option<Ordering> {
        if self.level() < other.level() {
            Some(Ordering::Less)
        } else if self.level() == other.level() {
            Some(Ordering::Equal)
        } else {
            Some(Ordering::Greater)
        }
    }
}

/// The roles are ordered `user < manager < admin`; the order of two roles is that of their
/// levels, and different roles have different levels.
pub proof fn law_roles_are_ordered(a: Role, b: Role)
    ensures
        Role::User.level() == 0,
        Role::Manager.level() == 1,
        Role::Admin.level() == 2,
        a.level() < b.level() <==> PartialOrdSpec::partial_cmp_spec(&a, &b) == Some(Ordering::Less),
        a.level() > b.level() <==> PartialOrdSpec::partial_cmp_spec(&a, &b) == Some(Ordering::Greater),
        a.level() == b.level() <==> a == b,
        a == b <==> PartialOrdSpec::partial_cmp_spec(&a, &b) == Some(Ordering::Equal),
{
}

/// The view of a [`HistoryItem`].
pub ghost struct HistoryItemView {
    pub seq: u64,
    pub room: Seq<char>,
    pub from: Seq<char>,
    pub body: Seq<char>,
    pub ts: i64,
}

/// One chat message of the past, as `chat.history` returns it.
#[derive(Debug, Clone, PartialEq, Eq)]
pub struct HistoryItem {
    pub seq: u64,
    pub room: String,
    pub from: String,
    pub body: String,
    pub ts: i64,
}

impl View for HistoryItem {
    type V = HistoryItemView;

    open spec fn view(&self) -> HistoryItemView {
        HistoryItemView {
            seq: self.seq,
            room: self.room@,
            from: self.from@,
            body: self.body@,
            ts: self.ts,
        }
    }
}

impl HistoryItem {
    /// Another item with the same contents.
    pub fn copy(&self) -> (item: Self)
        ensures
            item@ == self@,
    {
        HistoryItem {
            seq: self.seq,
            room: self.room.clone(),
            from: self.from.clone(),
            body: self.body.clone(),
            ts: self.ts,
        }
    }
}

/// The complete message set.
#[derive(Debug, Clone, PartialEq, Eq)]
pub enum Message {
    // ---- authentication
    Login { username: String, password: String },
    LoginRes { user_id: u64, username: String, roles: Vec<Role>, token: String },
    Register { username: String, password: String },
    RegisterRes { username: String },
    Resume { token: String },
    ResumeRes { username: String, roles: Vec<Role> },
    Logout,
    // ---- chat
    /// A client sends to a room or to a user: exactly one of `room` and `to` is set.
    SendText { room: Option<String>, to: Option<String>, body: String },
    SendTextRes { seq: u64, ts: i64 },
    /// Push: a message was delivered to a room that the client is in.
    PushText { room: String, from: String, body: String, seq: u64, ts: i64 },
    /// Push: a private message for the client.
    PushPrivate { from: String, body: String, ts: i64 },
    History { room: String, limit: u32, before_seq: Option<u64> },
    HistoryRes { room: String, messages: Vec<HistoryItem> },
    // ---- rooms
    RoomList,
    RoomListRes { rooms: Vec<String>, mine: Vec<String> },
    RoomCreate { name: String },
    RoomCreateRes { name: String },
    RoomJoin { name: String },
    RoomJoinRes { name: String },
    RoomLeave { name: String },
    RoomLeaveRes { name: String },
    RoomDelete { name: String },
    RoomDeleteRes { name: String },
    RoomMembers { name: String },
    RoomMembersRes { name: String, members: Vec<String> },
    // ---- users and administration
    UserOnline,
    UserOnlineRes { users: Vec<String> },
    /// Push: the list of users online has changed.
    PushUserManifest { users: Vec<String> },
    UserManagers,
    UserManagersRes { managers: Vec<String> },
    UserKick { target: String, reason: Option<String> },
    UserKickRes { target: String },
    AdminUserCreate { username: String, password: String, role: Role },
    AdminUserCreateRes { username: String, role: Role },
    AdminSetPwd { target: String, password: String },
    AdminSetPwdRes { target: String },
    AdminSetRole { target: String, role: Role },
    AdminSetRoleRes { target: String, role: Role },
    AdminUserDelete { target: String },
    AdminUserDeleteRes { target: String },
    AdminUserBan { target: String, reason: Option<String> },
    AdminUserBanRes { target: String },
    AdminUserRestore { target: String },
    AdminUserRestoreRes { target: String },
    // ---- system
    Ping,
    Pong,
    ServerInfo,
    ServerInfoRes { protocol: u16, name: String, version: String, rooms: usize, online: usize },
    /// Push: a notice of the system (kick, ban, room events).
    Notice { text: String, level: String },
    /// A structured error, as a response or a push.
    Error { code: ErrorCode, message: String, retryable: bool },
}

/// The view of a [`Message`].
pub ghost enum MessageView {
    // ---- authentication
    Login { username: Seq<char>, password: Seq<char> },
    LoginRes { user_id: u64, username: Seq<char>, roles: Seq<Role>, token: Seq<char> },
    Register { username: Seq<char>, password: Seq<char> },
    RegisterRes { username: Seq<char> },
    Resume { token: Seq<char> },
    ResumeRes { username: Seq<char>, roles: Seq<Role> },
    Logout,
    // ---- chat
    /// A client sends to a room or to a user: exactly one of `room` and `to` is set.
    SendText { room: Option<Seq<char>>, to: Option<Seq<char>>, body: Seq<char> },
    SendTextRes { seq: u64, ts: i64 },
    /// Push: a message was delivered to a room that the client is in.
    PushText { room: Seq<char>, from: Seq<char>, body: Seq<char>, seq: u64, ts: i64 },
    /// Push: a private message for the client.
    PushPrivate { from: Seq<char>, body: Seq<char>, ts: i64 },
    History { room: Seq<char>, limit: u32, before_seq: Option<u64> },
    HistoryRes { room: Seq<char>, messages: Seq<HistoryItemView> },
    // ---- rooms
    RoomList,
    RoomListRes { rooms: Seq<Seq<char>>, mine: Seq<Seq<char>> },
    RoomCreate { name: Seq<char> },
    RoomCreateRes { name: Seq<char> },
    RoomJoin { name: Seq<char> },
    RoomJoinRes { name: Seq<char> },
    RoomLeave { name: Seq<char> },
    RoomLeaveRes { name: Seq<char> },
    RoomDelete { name: Seq<char> },
    RoomDeleteRes { name: Seq<char> },
    RoomMembers { name: Seq<char> },
    RoomMembersRes { name: Seq<char>, members: Seq<Seq<char>> },
    // ---- users and administration
    UserOnline,
    UserOnlineRes { users: Seq<Seq<char>> },
    /// Push: the list of users online has changed.
    PushUserManifest { users: Seq<Seq<char>> },
    UserManagers,
    UserManagersRes { managers: Seq<Seq<char>> },
    UserKick { target: Seq<char>, reason: Option<Seq<char>> },
    UserKickRes { target: Seq<char> },
    AdminUserCreate { username: Seq<char>, password: Seq<char>, role: Role },
    AdminUserCreateRes { username: Seq<char>, role: Role },
    AdminSetPwd { target: Seq<char>, password: Seq<char> },
    AdminSetPwdRes { target: Seq<char> },
    AdminSetRole { target: Seq<char>, role: Role },
    AdminSetRoleRes { target: Seq<char>, role: Role },
    AdminUserDelete { target: Seq<char> },
    AdminUserDeleteRes { target: Seq<char> },
    AdminUserBan { target: Seq<char>, reason: Option<Seq<char>> },
    AdminUserBanRes { target: Seq<char> },
    AdminUserRestore { target: Seq<char> },
    AdminUserRestoreRes { target: Seq<char> },
    // ---- system
    Ping,
    Pong,
    ServerInfo,
    ServerInfoRes { protocol: u16, name: Seq<char>, version: Seq<char>, rooms: usize, online: usize },
    /// Push: a notice of the system (kick, ban, room events).
    Notice { text: Seq<char>, level: Seq<char> },
    /// A structured error, as a response or a push.
    Error { code: ErrorCode, message: Seq<char>, retryable: bool },
}

impl View for Message {
    type V = MessageView;

    open spec fn view(&self) -> MessageView {
        match self {
            Message::Login { username, password } => MessageView::Login {
                username: username@,
                password: password@,
            },
            Message::LoginRes { user_id, username, roles, token } => MessageView::LoginRes {
                user_id: *user_id,
                username: username@,
                roles: roles@,
                token: token@,
            },
            Message::Register { username, password } => MessageView::Register {
                username: username@,
                password: password@,
            },
            Message::RegisterRes { username } => MessageView::RegisterRes {
                username: username@,
            },
            Message::Resume { token } => MessageView::Resume {
                token: token@,
            },
            Message::ResumeRes { username, roles } => MessageView::ResumeRes {
                username: username@,
                roles: roles@,
            },
            Message::Logout => MessageView::Logout,
            Message::SendText { room, to, body } => MessageView::SendText {
                room: text::opt_view(*room),
                to: text::opt_view(*to),
                body: body@,
            },
            Message::SendTextRes { seq, ts } => MessageView::SendTextRes {
                seq: *seq,
                ts: *ts,
            },
            Message::PushText { room, from, body, seq, ts } => MessageView::PushText {
                room: room@,
                from: from@,
                body: body@,
                seq: *seq,
                ts: *ts,
            },
            Message::PushPrivate { from, body, ts } => MessageView::PushPrivate {
                from: from@,
                body: body@,
                ts: *ts,
            },
            Message::History { room, limit, before_seq } => MessageView::History {
                room: room@,
                limit: *limit,
                before_seq: *before_seq,
            },
            Message::HistoryRes { room, messages } => MessageView::HistoryRes {
                room: room@,
                messages: text::views(messages@),
            },
            Message::RoomList => MessageView::RoomList,
            Message::RoomListRes { rooms, mine } => MessageView::RoomListRes {
                rooms: text::views(rooms@),
                mine: text::views(mine@),
            },
            Message::RoomCreate { name } => MessageView::RoomCreate {
                name: name@,
            },
            Message::RoomCreateRes { name } => MessageView::RoomCreateRes {
                name: name@,
            },
            Message::RoomJoin { name } => MessageView::RoomJoin {
                name: name@,
            },
            Message::RoomJoinRes { name } => MessageView::RoomJoinRes {
                name: name@,
            },
            Message::RoomLeave { name } => MessageView::RoomLeave {
                name: name@,
            },
            Message::RoomLeaveRes { name } => MessageView::RoomLeaveRes {
                name: name@,
            },
            Message::RoomDelete { name } => MessageView::RoomDelete {
                name: name@,
            },
            Message::RoomDeleteRes { name } => MessageView::RoomDeleteRes {
                name: name@,
            },
            Message::RoomMembers { name } => MessageView::RoomMembers {
                name: name@,
            },
            Message::RoomMembersRes { name, members } => MessageView::RoomMembersRes {
                name: name@,
                members: text::views(members@),
            },
            Message::UserOnline => MessageView::UserOnline,
            Message::UserOnlineRes { users } => MessageView::UserOnlineRes {
                users: text::views(users@),
            },
            Message::PushUserManifest { users } => MessageView::PushUserManifest {
                users: text::views(users@),
            },
            Message::UserManagers => MessageView::UserManagers,
            Message::UserManagersRes { managers } => MessageView::UserManagersRes {
                managers: text::views(managers@),
            },
            Message::UserKick { target, reason } => MessageView::UserKick {
                target: target@,
                reason: text::opt_view(*reason),
            },
            Message::UserKickRes { target } => MessageView::UserKickRes {
                target: target@,
            },
            Message::AdminUserCreate { username, password, role } => MessageView::AdminUserCreate {
                username: username@,
                password: password@,
                role: *role,
            },
            Message::AdminUserCreateRes { username, role } => MessageView::AdminUserCreateRes {
                username: username@,
                role: *role,
            },
            Message::AdminSetPwd { target, password } => MessageView::AdminSetPwd {
                target: target@,
                password: password@,
            },
            Message::AdminSetPwdRes { target } => MessageView::AdminSetPwdRes {
                target: target@,
            },
            Message::AdminSetRole { target, role } => MessageView::AdminSetRole {
                target: target@,
                role: *role,
            },
            Message::AdminSetRoleRes { target, role } => MessageView::AdminSetRoleRes {
                target: target@,
                role: *role,
            },
            Message::AdminUserDelete { target } => MessageView::AdminUserDelete {
                target: target@,
            },
            Message::AdminUserDeleteRes { target } => MessageView::AdminUserDeleteRes {
                target: target@,
            },
            Message::AdminUserBan { target, reason } => MessageView::AdminUserBan {
                target: target@,
                reason: text::opt_view(*reason),
            },
            Message::AdminUserBanRes { target } => MessageView::AdminUserBanRes {
                target: target@,
            },
            Message::AdminUserRestore { target } => MessageView::AdminUserRestore {
                target: target@,
            },
            Message::AdminUserRestoreRes { target } => MessageView::AdminUserRestoreRes {
                target: target@,
            },
            Message::Ping => MessageView::Ping,
            Message::Pong => MessageView::Pong,
            Message::ServerInfo => MessageView::ServerInfo,
            Message::ServerInfoRes { protocol, name, version, rooms, online } => MessageView::ServerInfoRes {
                protocol: *protocol,
                name: name@,
                version: version@,
                rooms: *rooms,
                online: *online,
            },
            Message::Notice { text, level } => MessageView::Notice {
                text: text@,
                level: level@,
            },
            Message::Error { code, message, retryable } => MessageView::Error {
                code: *code,
                message: message@,
                retryable: *retryable,
            },
        }
    }
}

impl MessageView {
    /// Whether the server starts this message by itself.
    pub open spec fn is_push(self) -> bool {
        match self {
            MessageView::PushText { .. }
            | MessageView::PushPrivate { .. }
            | MessageView::PushUserManifest { .. }
            | MessageView::Notice { .. } => true,
            _ => false,
        }
    }

    /// Whether this message answers a request.
    pub open spec fn is_response(self) -> bool {
        match self {
            MessageView::LoginRes { .. }
            | MessageView::RegisterRes { .. }
            | MessageView::ResumeRes { .. }
            | MessageView::SendTextRes { .. }
            | MessageView::HistoryRes { .. }
            | MessageView::RoomListRes { .. }
            | MessageView::RoomCreateRes { .. }
            | MessageView::RoomJoinRes { .. }
            | MessageView::RoomLeaveRes { .. }
            | MessageView::RoomDeleteRes { .. }
            | MessageView::RoomMembersRes { .. }
            | MessageView::UserOnlineRes { .. }
            | MessageView::UserManagersRes { .. }
            | MessageView::UserKickRes { .. }
            | MessageView::AdminUserCreateRes { .. }
            | MessageView::AdminSetPwdRes { .. }
            | MessageView::AdminSetRoleRes { .. }
            | MessageView::AdminUserDeleteRes { .. }
            | MessageView::AdminUserBanRes { .. }
            | MessageView::AdminUserRestoreRes { .. }
            | MessageView::ServerInfoRes { .. }
            | MessageView::Pong => true,
            _ => false,
        }
    }
}

impl Message {
    /// Whether the variant is a push of the server (which needs no request id).
    pub fn is_push(&self) -> (r: bool)
        ensures
            r == self@.is_push(),
    {
        match self {
            Message::PushText { .. }
            | Message::PushPrivate { .. }
            | Message::PushUserManifest { .. }
            | Message::Notice { .. } => true,
            _ => false,
        }
    }

    /// Whether the variant is the response to a request.
    pub fn is_response(&self) -> (r: bool)
        ensures
            r == self@.is_response(),
    {
        match self {
            Message::LoginRes { .. }
            | Message::RegisterRes { .. }
            | Message::ResumeRes { .. }
            | Message::SendTextRes { .. }
            | Message::HistoryRes { .. }
            | Message::RoomListRes { .. }
            | Message::RoomCreateRes { .. }
            | Message::RoomJoinRes { .. }
            | Message::RoomLeaveRes { .. }
            | Message::RoomDeleteRes { .. }
            | Message::RoomMembersRes { .. }
            | Message::UserOnlineRes { .. }
            | Message::UserManagersRes { .. }
            | Message::UserKickRes { .. }
            | Message::AdminUserCreateRes { .. }
            | Message::AdminSetPwdRes { .. }
            | Message::AdminSetRoleRes { .. }
            | Message::AdminUserDeleteRes { .. }
            | Message::AdminUserBanRes { .. }
            | Message::AdminUserRestoreRes { .. }
            | Message::ServerInfoRes { .. }
            | Message::Pong => true,
            _ => false,
        }
    }
}

/// No message is both a push and a response.
pub proof fn law_push_is_no_response(msg: MessageView)
    ensures
        !(msg.is_push() && msg.is_response()),
{
}

/// The pushes are the texts, the list of who is online and the notices; the responses are the
/// answers to requests, each of its own kind. Requests and errors are neither.
pub proof fn law_kinds_of_messages(msg: MessageView)
    ensures
        msg.is_push() <==> msg is PushText || msg is PushPrivate || msg is PushUserManifest
            || msg is Notice,
        !msg.is_push() && !msg.is_response() <==> msg is Login || msg is Register || msg is Resume
            || msg is Logout || msg is SendText || msg is History || msg is RoomList
            || msg is RoomCreate || msg is RoomJoin || msg is RoomLeave || msg is RoomDelete
            || msg is RoomMembers || msg is UserOnline || msg is UserManagers || msg is UserKick
            || msg is AdminUserCreate || msg is AdminSetPwd || msg is AdminSetRole
            || msg is AdminUserDelete || msg is AdminUserBan || msg is AdminUserRestore
            || msg is Ping || msg is ServerInfo || msg is Error,
{
}

/// A role is stored under its own name, and no two roles under one.
pub proof fn law_role_names(role: Role)
    ensures
        role.label() == "user"@ <==> role == Role::User,
        role.label() == "manager"@ <==> role == Role::Manager,
        role.label() == "admin"@ <==> role == Role::Admin,
{
    reveal_strlit("user");
    reveal_strlit("manager");
    reveal_strlit("admin");
    assert("user"@.len() != "manager"@.len() && "user"@.len() != "admin"@.len() && "manager"@.len()
        != "admin"@.len());
}

} // verus!
