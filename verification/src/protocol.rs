//! The rules of the protocol: what each request does to the state, and what it is answered.

use vstd::prelude::*;

use crate::auth::AuthError;
use crate::db::{DbWriteView, LookupView};
use crate::envelope::{FrameView, PROTOCOL_VERSION};
use crate::error::{ErrorCode, ProtocolErrorView, TransportErrorView};
use crate::message::{MessageView, Role};
use crate::model;
use crate::model::{OutputView, SessionView, StateView};
use crate::names;
use crate::step::{AfterHashView, AfterLookupView, AfterWriteView, StepView};

verus! {

/// A text, and behind a colon the reason, where there is one.
pub open spec fn with_reason(what: Seq<char>, reason: Option<Seq<char>>) -> Seq<char> {
    match reason {
        Some(why) => what + ": "@ + why,
        None => what,
    }
}

/// Whether a name has the size of a user name: one to twenty bytes.
pub open spec fn fits(username: Seq<char>) -> bool {
    username.len() > 0 && vstd::utf8::encode_utf8(username).len() as usize <= 20
}

/// Whether a name is reserved: nobody may register it.
pub open spec fn reserved(username: Seq<char>) -> bool {
    username == "Server"@ || username == "admin"@
}

/// What is reported of a connection that has ended, if anything is.
pub open spec fn end_report(err: TransportErrorView) -> Option<Seq<char>> {
    match err {
        TransportErrorView::Closed => None,
        _ => Some("recv: "@ + err.text()),
    }
}

impl StateView {
    /// Answers a request on its own connection.
    pub open spec fn reply(self, conn: u64, id: u64, msg: MessageView) -> StateView {
        self.put(OutputView::Send { conn, frame: FrameView::of(id, msg) })
    }

    /// Refuses a request on its own connection.
    pub open spec fn refuse(self, conn: u64, id: u64, err: ProtocolErrorView) -> StateView {
        self.put(OutputView::Send { conn, frame: FrameView::error(id, err) })
    }

    /// Publishes a notice in a room.
    pub open spec fn notice_room(self, room: Seq<char>, text: Seq<char>) -> StateView {
        self.broadcast_room(
            room,
            FrameView::push(MessageView::Notice { text, level: "info"@ }),
        )
    }

    /// Tells a user why, ends the user's presence and sessions, and publishes the new list.
    pub open spec fn expel(self, target: Seq<char>, text: Seq<char>) -> StateView {
        self.send_to(
            target,
            FrameView::push(MessageView::Notice { text, level: "warn"@ }),
        ).unregister(target).end_sessions(target).broadcast_manifest()
    }

    /// Why a login is refused, given what the database knows of the user and whether the password
    /// matches.
    pub open spec fn login_refusal(
        self,
        username: Seq<char>,
        found: LookupView,
        password_matches: bool,
    ) -> Option<ProtocolErrorView> {
        match found {
            LookupView::Missing => Some(ProtocolErrorView::plain(ErrorCode::AuthFailed)),
            LookupView::Failed => Some(ProtocolErrorView::plain(ErrorCode::Internal)),
            LookupView::Found(record) => if !password_matches {
                Some(ProtocolErrorView::plain(ErrorCode::AuthFailed))
            } else if record.banned != 0 {
                Some(ProtocolErrorView::saying(ErrorCode::Forbidden, "banned"@))
            } else if self.cfg.lock_server && model::role_of(record.role) != Role::Admin {
                Some(ProtocolErrorView::saying(ErrorCode::Forbidden, "server locked"@))
            } else if self.online.contains_key(username) {
                Some(ProtocolErrorView::saying(ErrorCode::Conflict, "already online"@))
            } else {
                None
            },
        }
    }

    /// Logs a user in with a fresh session token: online, in the default room, answered, shown
    /// the rooms, and published.
    pub open spec fn logged_in(
        self,
        conn: u64,
        id: u64,
        username: Seq<char>,
        role: Role,
        token: Seq<char>,
    ) -> StateView {
        let entered = StateView {
            next_id: self.next_id.wrapping_add(1),
            ..self
        }.register_online(username, role, conn).store_session(
            token,
            SessionView { username, role, returns_as: Some(role) },
        ).create_room(self.cfg.default_room, username);
        entered.reply(
            conn,
            id,
            MessageView::LoginRes { user_id: self.next_id, username, roles: seq![role], token },
        ).reply(
            conn,
            0,
            MessageView::RoomListRes {
                rooms: entered.room_names(),
                mine: entered.rooms_of(username),
            },
        ).broadcast_manifest()
    }

    /// The state and the next step once a session token has been made. A user who has come online
    /// in the meantime is refused.
    pub open spec fn on_token(
        self,
        conn: u64,
        id: u64,
        username: Seq<char>,
        role: Role,
        token: Option<Seq<char>>,
    ) -> (StateView, StepView) {
        if self.online.contains_key(username) {
            (
                self.refuse(
                    conn,
                    id,
                    ProtocolErrorView::saying(ErrorCode::Conflict, "already online"@),
                ),
                StepView::Done,
            )
        } else {
            match token {
                Some(t) => (self.logged_in(conn, id, username, role, t), StepView::Done),
                None => (
                    StateView { next_id: self.next_id.wrapping_add(1), ..self },
                    StepView::NoRandom,
                ),
            }
        }
    }

    /// Who a connection is once a session token has been made: the user, where there is a token and
    /// the user has not come online in the meantime.
    pub open spec fn identified(
        self,
        identity: Option<(Seq<char>, Role)>,
        username: Seq<char>,
        role: Role,
        token: Option<Seq<char>>,
    ) -> Option<(Seq<char>, Role)> {
        if token is Some && !self.online.contains_key(username) {
            Some((username, role))
        } else {
            identity
        }
    }

    /// Refuses a message that is no request, given how it is shown.
    pub open spec fn unexpected(self, conn: u64, id: u64, shown: Seq<char>) -> StateView {
        self.refuse(
            conn,
            id,
            ProtocolErrorView::saying(ErrorCode::BadRequest, "unexpected message: "@ + shown),
        )
    }

    /// Asks to register.
    pub open spec fn register(
        self,
        conn: u64,
        id: u64,
        username: Seq<char>,
        password: Seq<char>,
    ) -> (StateView, StepView) {
        if !self.cfg.allow_register {
            (
                self.refuse(
                    conn,
                    id,
                    ProtocolErrorView::saying(ErrorCode::Forbidden, "registration disabled"@),
                ),
                StepView::Done,
            )
        } else if !fits(username) {
            (
                self.refuse(
                    conn,
                    id,
                    ProtocolErrorView::saying(ErrorCode::BadRequest, "invalid username"@),
                ),
                StepView::Done,
            )
        } else if reserved(username) {
            (
                self.refuse(conn, id, ProtocolErrorView::plain(ErrorCode::ReservedName)),
                StepView::Done,
            )
        } else if (vstd::utf8::encode_utf8(password).len() as usize) < 4 {
            (
                self.refuse(
                    conn,
                    id,
                    ProtocolErrorView::saying(ErrorCode::BadRequest, "password too short"@),
                ),
                StepView::Done,
            )
        } else {
            (self, StepView::Lookup { username, then: AfterLookupView::Register { password } })
        }
    }

    /// The state and the next step once a user has been looked up, given whether the password
    /// matches the one found.
    pub open spec fn on_lookup(
        self,
        conn: u64,
        id: u64,
        username: Seq<char>,
        then: AfterLookupView,
        found: LookupView,
        password_matches: bool,
    ) -> (StateView, StepView) {
        match then {
            AfterLookupView::Login { .. } => match self.login_refusal(
                username,
                found,
                password_matches,
            ) {
                Some(err) => (self.refuse(conn, id, err), StepView::Done),
                None => (
                    self,
                    StepView::Token { username, role: model::role_of(found->Found_0.role) },
                ),
            },
            AfterLookupView::Register { password } => if found is Found {
                (
                    self.refuse(conn, id, ProtocolErrorView::plain(ErrorCode::UserExists)),
                    StepView::Done,
                )
            } else {
                (self, StepView::Hash { password, then: AfterHashView::Register { username } })
            },
            AfterLookupView::AdminCreate { password, role } => if username == "Server"@ {
                (
                    self.refuse(conn, id, ProtocolErrorView::plain(ErrorCode::ReservedName)),
                    StepView::Done,
                )
            } else if found is Found || self.online.contains_key(username) {
                (
                    self.refuse(conn, id, ProtocolErrorView::plain(ErrorCode::UserExists)),
                    StepView::Done,
                )
            } else {
                (
                    self,
                    StepView::Hash {
                        password,
                        then: AfterHashView::AdminCreate { username, role },
                    },
                )
            },
        }
    }

    /// The state and the next step once a password has been hashed.
    pub open spec fn on_hash(
        self,
        conn: u64,
        id: u64,
        then: AfterHashView,
        hash: Result<Seq<char>, AuthError>,
    ) -> (StateView, StepView) {
        match hash {
            Err(AuthError::RandomUnavailable) => (self, StepView::NoRandom),
            Err(AuthError::Hash) => (
                self.refuse(conn, id, ProtocolErrorView::plain(ErrorCode::Internal)),
                StepView::Done,
            ),
            Ok(password_hash) => (
                self,
                match then {
                    AfterHashView::Register { username } => StepView::Write {
                        write: DbWriteView::CreateUser { username, password_hash, role: "user"@ },
                        then: AfterWriteView::Register { username },
                    },
                    AfterHashView::AdminCreate { username, role } => StepView::Write {
                        write: DbWriteView::CreateUser {
                            username,
                            password_hash,
                            role: role.label(),
                        },
                        then: AfterWriteView::AdminCreate { username, role },
                    },
                    AfterHashView::SetPwd { target } => StepView::Write {
                        write: DbWriteView::SetPassword { username: target, password_hash },
                        then: AfterWriteView::SetPwd { target },
                    },
                },
            ),
        }
    }

    /// The state once the database has been changed, or has failed to.
    pub open spec fn on_write(
        self,
        conn: u64,
        id: u64,
        then: AfterWriteView,
        written: bool,
    ) -> StateView {
        if !written {
            self.refuse(
                conn,
                id,
                if then is SetRole {
                    ProtocolErrorView::saying(ErrorCode::Forbidden, "cannot change admin role"@)
                } else {
                    ProtocolErrorView::plain(ErrorCode::Internal)
                },
            )
        } else {
            match then {
                AfterWriteView::Register { username } => self.reply(
                    conn,
                    id,
                    MessageView::RegisterRes { username },
                ),
                AfterWriteView::AdminCreate { username, role } => self.reply(
                    conn,
                    id,
                    MessageView::AdminUserCreateRes { username, role },
                ),
                AfterWriteView::SetPwd { target } => self.reply(
                    conn,
                    id,
                    MessageView::AdminSetPwdRes { target },
                ),
                AfterWriteView::SetRole { target, role } => self.set_role(target, role).reply(
                    conn,
                    id,
                    MessageView::AdminSetRoleRes { target, role },
                ),
                AfterWriteView::Delete { target } => (if self.online.contains_key(target) {
                    self.expel(target, "your account was deleted"@)
                } else {
                    self.end_sessions(target)
                }).reply(conn, id, MessageView::AdminUserDeleteRes { target }),
                AfterWriteView::Ban { target, reason } => (if self.online.contains_key(target) {
                    self.expel(target, with_reason("banned"@, reason))
                } else {
                    self.end_sessions(target)
                }).reply(conn, id, MessageView::AdminUserBanRes { target }),
                AfterWriteView::Restore { target } => self.reply(
                    conn,
                    id,
                    MessageView::AdminUserRestoreRes { target },
                ),
            }
        }
    }

    /// Gives a user another role: at once where the user is online, and with every session that
    /// brings the user back later.
    pub open spec fn set_role(self, user: Seq<char>, role: Role) -> StateView {
        self.set_online_role(user, role).revise_sessions(user, Some(role))
    }

    /// The role that resuming a session gives: that of the login while the user is online, and
    /// otherwise the one with which the session brings the user back, if it does.
    pub open spec fn resumed_role(self, info: SessionView) -> Option<Role> {
        if self.online.contains_key(info.username) {
            Some(info.role)
        } else {
            info.returns_as
        }
    }

    /// Why a token is refused, if it is. A locked server lets only administrators back in.
    pub open spec fn resume_refusal(self, token: Seq<char>) -> Option<ProtocolErrorView> {
        let info = self.sessions[token];
        if !self.sessions.contains_key(token) || self.resumed_role(info) is None {
            Some(ProtocolErrorView::plain(ErrorCode::NotAuthenticated))
        } else if self.cfg.lock_server && !self.online.contains_key(info.username)
            && self.resumed_role(info) != Some(Role::Admin) {
            Some(ProtocolErrorView::saying(ErrorCode::Forbidden, "server locked"@))
        } else {
            None
        }
    }

    /// Puts a user online again, unless the user still is: on this connection, and in the default
    /// room.
    pub open spec fn back(self, conn: u64, user: Seq<char>, role: Role) -> StateView {
        if self.online.contains_key(user) {
            self
        } else {
            self.register_online(user, role, conn).create_room(self.cfg.default_room, user)
        }
    }

    /// Resumes a session: the user is online again, answered, shown the rooms, and published;
    /// and the connection is that user.
    pub open spec fn resumed(
        self,
        conn: u64,
        id: u64,
        identity: Option<(Seq<char>, Role)>,
        token: Seq<char>,
    ) -> (StateView, Option<(Seq<char>, Role)>) {
        if identity is Some {
            (
                self.refuse(
                    conn,
                    id,
                    ProtocolErrorView::saying(ErrorCode::Forbidden, "already logged in"@),
                ),
                identity,
            )
        } else {
            match self.resume_refusal(token) {
                Some(err) => (self.refuse(conn, id, err), identity),
                None => {
                    let username = self.sessions[token].username;
                    let role = self.resumed_role(self.sessions[token])->0;
                    let entered = self.back(conn, username, role);
                    (
                        entered.reply(
                            conn,
                            id,
                            MessageView::ResumeRes { username, roles: seq![role] },
                        ).reply(
                            conn,
                            0,
                            MessageView::RoomListRes {
                                rooms: entered.room_names(),
                                mine: entered.rooms_of(username),
                            },
                        ).broadcast_manifest(),
                        Some((username, role)),
                    )
                },
            }
        }
    }

    /// Sends a text to a room or to a user: exactly one of the two is named.
    pub open spec fn sent_text(
        self,
        conn: u64,
        id: u64,
        user: Seq<char>,
        room: Option<Seq<char>>,
        to: Option<Seq<char>>,
        body: Seq<char>,
        now: i64,
    ) -> StateView {
        if body.len() == 0 {
            self.refuse(
                conn,
                id,
                ProtocolErrorView::saying(ErrorCode::BadRequest, "empty message"@),
            )
        } else {
            match (room, to) {
                (Some(name), None) => if !self.in_room(name, user) {
                    self.refuse(conn, id, ProtocolErrorView::plain(ErrorCode::NotInRoom))
                } else {
                    self.broadcast_text(user, name, body, now).reply(
                        conn,
                        id,
                        MessageView::SendTextRes { seq: self.next_seq, ts: now },
                    )
                },
                (None, Some(target)) => if !self.online.contains_key(target) {
                    self.refuse(
                        conn,
                        id,
                        ProtocolErrorView::saying(ErrorCode::NotFound, "recipient not online"@),
                    )
                } else {
                    self.send_to(
                        target,
                        FrameView::push(MessageView::PushPrivate { from: user, body, ts: now }),
                    ).reply(conn, id, MessageView::SendTextRes { seq: 0, ts: now })
                },
                _ => self.refuse(
                    conn,
                    id,
                    ProtocolErrorView::saying(
                        ErrorCode::BadRequest,
                        "specify room or recipient"@,
                    ),
                ),
            }
        }
    }

    /// Creates a room (managers and administrators).
    pub open spec fn room_created(
        self,
        conn: u64,
        id: u64,
        user: Seq<char>,
        role: Role,
        name: Seq<char>,
    ) -> StateView {
        if role.level() < Role::Manager.level() {
            self.refuse(conn, id, ProtocolErrorView::plain(ErrorCode::Forbidden))
        } else if self.rooms.contains_key(name) || self.online.contains_key(name) {
            self.refuse(conn, id, ProtocolErrorView::saying(ErrorCode::Conflict, "room exists"@))
        } else {
            self.create_room(name, user).put(
                OutputView::Persist(DbWriteView::CreateRoom { name }),
            ).reply(conn, id, MessageView::RoomCreateRes { name }).notice_room(
                name,
                user + " created room "@ + name,
            )
        }
    }

    /// Joins a room.
    pub open spec fn room_joined(
        self,
        conn: u64,
        id: u64,
        user: Seq<char>,
        name: Seq<char>,
    ) -> StateView {
        if !self.rooms.contains_key(name) {
            self.refuse(conn, id, ProtocolErrorView::plain(ErrorCode::RoomNotFound))
        } else {
            self.add_to_room(user, name).reply(
                conn,
                id,
                MessageView::RoomJoinRes { name },
            ).notice_room(name, user + " joined "@ + name)
        }
    }

    /// Leaves a room. The default room cannot be left.
    pub open spec fn room_left(
        self,
        conn: u64,
        id: u64,
        user: Seq<char>,
        name: Seq<char>,
    ) -> StateView {
        if name == self.cfg.default_room {
            self.refuse(
                conn,
                id,
                ProtocolErrorView::saying(
                    ErrorCode::Forbidden,
                    "cannot leave the default room"@,
                ),
            )
        } else {
            self.remove_from_room(user, name).reply(
                conn,
                id,
                MessageView::RoomLeaveRes { name },
            ).notice_room(name, user + " left "@ + name)
        }
    }

    /// Deletes a room (administrators).
    pub open spec fn room_deleted(
        self,
        conn: u64,
        id: u64,
        role: Role,
        name: Seq<char>,
    ) -> StateView {
        if role != Role::Admin {
            self.refuse(conn, id, ProtocolErrorView::plain(ErrorCode::Forbidden))
        } else if !self.rooms.contains_key(name) {
            self.refuse(conn, id, ProtocolErrorView::plain(ErrorCode::RoomNotFound))
        } else {
            self.delete_room(name).put(
                OutputView::Persist(DbWriteView::DeleteRoom { name }),
            ).reply(conn, id, MessageView::RoomDeleteRes { name })
        }
    }

    /// Kicks a user (managers and administrators).
    pub open spec fn kicked(
        self,
        conn: u64,
        id: u64,
        user: Seq<char>,
        role: Role,
        target: Seq<char>,
        reason: Option<Seq<char>>,
    ) -> StateView {
        if role.level() < Role::Manager.level() {
            self.refuse(conn, id, ProtocolErrorView::plain(ErrorCode::Forbidden))
        } else if !self.online.contains_key(target) {
            self.refuse(
                conn,
                id,
                ProtocolErrorView::saying(ErrorCode::NotFound, "target not online"@),
            )
        } else if target == "admin"@ || target == user {
            self.refuse(
                conn,
                id,
                ProtocolErrorView::saying(ErrorCode::Forbidden, "cannot kick self/admin"@),
            )
        } else {
            self.expel(target, with_reason("kicked from server"@, reason)).reply(
                conn,
                id,
                MessageView::UserKickRes { target },
            )
        }
    }

    /// Lets an administrator go on to the next step, and refuses everybody else.
    pub open spec fn admin_only(self, conn: u64, id: u64, role: Role, next: StepView) -> (
        StateView,
        StepView,
    ) {
        if role != Role::Admin {
            (
                self.refuse(conn, id, ProtocolErrorView::plain(ErrorCode::Forbidden)),
                StepView::Done,
            )
        } else {
            (self, next)
        }
    }

    /// Lets an administrator go on to the next step against somebody, unless that is the caller
    /// or the account `admin`.
    pub open spec fn admin_against(
        self,
        conn: u64,
        id: u64,
        user: Seq<char>,
        role: Role,
        target: Seq<char>,
        refusal: Seq<char>,
        next: StepView,
    ) -> (StateView, StepView) {
        if role == Role::Admin && (target == "admin"@ || target == user) {
            (
                self.refuse(
                    conn,
                    id,
                    ProtocolErrorView::saying(ErrorCode::Forbidden, refusal),
                ),
                StepView::Done,
            )
        } else {
            self.admin_only(conn, id, role, next)
        }
    }

    /// A request of a user who is logged in: the state and the next step.
    pub open spec fn authed(
        self,
        conn: u64,
        id: u64,
        user: Seq<char>,
        role: Role,
        msg: MessageView,
        now: i64,
    ) -> (StateView, StepView) {
        match msg {
            MessageView::SendText { room, to, body } => (
                self.sent_text(conn, id, user, room, to, body, now),
                StepView::Done,
            ),
            MessageView::History { room, limit, before_seq } => (
                if self.rooms.contains_key(room) {
                    self.reply(
                        conn,
                        id,
                        MessageView::HistoryRes {
                            room,
                            messages: self.history_for(room, limit, before_seq),
                        },
                    )
                } else {
                    self.refuse(conn, id, ProtocolErrorView::plain(ErrorCode::RoomNotFound))
                },
                StepView::Done,
            ),
            MessageView::RoomList => (
                self.reply(
                    conn,
                    id,
                    MessageView::RoomListRes {
                        rooms: self.room_names(),
                        mine: self.rooms_of(user),
                    },
                ),
                StepView::Done,
            ),
            MessageView::RoomCreate { name } => (
                self.room_created(conn, id, user, role, name),
                StepView::Done,
            ),
            MessageView::RoomJoin { name } => (
                self.room_joined(conn, id, user, name),
                StepView::Done,
            ),
            MessageView::RoomLeave { name } => (
                self.room_left(conn, id, user, name),
                StepView::Done,
            ),
            MessageView::RoomDelete { name } => (
                self.room_deleted(conn, id, role, name),
                StepView::Done,
            ),
            MessageView::RoomMembers { name } => (
                if self.rooms.contains_key(name) {
                    self.reply(
                        conn,
                        id,
                        MessageView::RoomMembersRes {
                            name,
                            members: names::listing(self.rooms[name]),
                        },
                    )
                } else {
                    self.refuse(conn, id, ProtocolErrorView::plain(ErrorCode::RoomNotFound))
                },
                StepView::Done,
            ),
            MessageView::UserOnline => (
                self.reply(conn, id, MessageView::UserOnlineRes { users: self.online_names() }),
                StepView::Done,
            ),
            MessageView::UserManagers => (
                self.reply(
                    conn,
                    id,
                    MessageView::UserManagersRes { managers: self.managers() },
                ),
                StepView::Done,
            ),
            MessageView::UserKick { target, reason } => (
                self.kicked(conn, id, user, role, target, reason),
                StepView::Done,
            ),
            MessageView::AdminUserCreate { username, password, role: new_role } => self.admin_only(
                conn,
                id,
                role,
                StepView::Lookup {
                    username,
                    then: AfterLookupView::AdminCreate { password, role: new_role },
                },
            ),
            MessageView::AdminSetPwd { target, password } => self.admin_only(
                conn,
                id,
                role,
                StepView::Hash { password, then: AfterHashView::SetPwd { target } },
            ),
            MessageView::AdminSetRole { target, role: new_role } => if role == Role::Admin && target
                == "admin"@ {
                (
                    self.refuse(
                        conn,
                        id,
                        ProtocolErrorView::saying(
                            ErrorCode::Forbidden,
                            "cannot change admin role"@,
                        ),
                    ),
                    StepView::Done,
                )
            } else {
                self.admin_only(
                    conn,
                    id,
                    role,
                    StepView::Write {
                        write: DbWriteView::SetRole { username: target, role: new_role.label() },
                        then: AfterWriteView::SetRole { target, role: new_role },
                    },
                )
            },
            MessageView::AdminUserDelete { target } => self.admin_against(
                conn,
                id,
                user,
                role,
                target,
                "cannot delete self/admin"@,
                StepView::Write {
                    write: DbWriteView::DeleteUser { username: target },
                    then: AfterWriteView::Delete { target },
                },
            ),
            MessageView::AdminUserBan { target, reason } => self.admin_against(
                conn,
                id,
                user,
                role,
                target,
                "cannot ban self/admin"@,
                StepView::Write {
                    write: DbWriteView::SetBanned { username: target, banned: true },
                    then: AfterWriteView::Ban { target, reason },
                },
            ),
            MessageView::AdminUserRestore { target } => self.admin_only(
                conn,
                id,
                role,
                StepView::Write {
                    write: DbWriteView::SetBanned { username: target, banned: false },
                    then: AfterWriteView::Restore { target },
                },
            ),
            MessageView::ServerInfo => (
                self.reply(
                    conn,
                    id,
                    MessageView::ServerInfoRes {
                        protocol: PROTOCOL_VERSION,
                        name: "Sinrana"@,
                        version: self.version,
                        rooms: self.room_names().len() as usize,
                        online: self.online_names().len() as usize,
                    },
                ),
                StepView::Done,
            ),
            MessageView::Ping => (self.reply(conn, id, MessageView::Pong), StepView::Done),
            _ => (self, StepView::Unexpected { msg }),
        }
    }

    /// Any request: the state, who the connection is afterwards, and the next step.
    pub open spec fn handled(
        self,
        conn: u64,
        identity: Option<(Seq<char>, Role)>,
        id: u64,
        msg: MessageView,
        now: i64,
    ) -> (StateView, Option<(Seq<char>, Role)>, StepView) {
        match msg {
            MessageView::Login { username, password } => if identity is Some {
                (
                    self.refuse(
                        conn,
                        id,
                        ProtocolErrorView::saying(ErrorCode::Forbidden, "already logged in"@),
                    ),
                    identity,
                    StepView::Done,
                )
            } else {
                (
                    self,
                    identity,
                    StepView::Lookup { username, then: AfterLookupView::Login { password } },
                )
            },
            MessageView::Register { username, password } => {
                let (after, step) = self.register(conn, id, username, password);
                (after, identity, step)
            },
            MessageView::Resume { token } => {
                let (after, who) = self.resumed(conn, id, identity, token);
                (after, who, StepView::Done)
            },
            MessageView::Logout => match identity {
                Some((name, _)) => (
                    self.unregister(name).end_sessions(name).broadcast_manifest().reply(
                        conn,
                        id,
                        MessageView::Notice { text: "logged out"@, level: "info"@ },
                    ),
                    None,
                    StepView::Done,
                ),
                None => (
                    self.refuse(conn, id, ProtocolErrorView::plain(ErrorCode::NotAuthenticated)),
                    identity,
                    StepView::Done,
                ),
            },
            _ => match identity {
                Some((user, role)) => {
                    let (after, step) = self.authed(conn, id, user, role, msg, now);
                    (after, identity, step)
                },
                None => (
                    self.refuse(conn, id, ProtocolErrorView::plain(ErrorCode::NotAuthenticated)),
                    identity,
                    StepView::Done,
                ),
            },
        }
    }

    /// The connection is gone: its user goes offline, and the new list is published.
    pub open spec fn disconnected(self, identity: Option<(Seq<char>, Role)>) -> StateView {
        match identity {
            Some((name, _)) => self.unregister(name).broadcast_manifest(),
            None => self,
        }
    }
}

} // verus!
