//! One connection to the server: takes its requests, acts on the shared state, and answers.
//!
//! A request is worked on until it needs something from outside. It then stops with a [`Step`],
//! and goes on with [`Handle::on_lookup`], [`Handle::on_write`], [`Handle::on_hash`] or
//! [`Handle::on_token`] once that is there. [`Handle::settle_hash`] and [`Handle::settle_token`]
//! make the hash or the token first.

use vstd::prelude::*;
use vstd::string::StringExecFns;

use crate::auth;
use crate::auth::AuthError;
use crate::clock;
use crate::db::{DbWrite, Lookup, LookupView};
use crate::envelope::{Frame, PROTOCOL_VERSION};
use crate::error::{ErrorCode, ProtocolError, ProtocolErrorView, TransportError};
use crate::message::{Message, MessageView, Role};
use crate::model;
use crate::protocol;
use crate::server;
use crate::server::{Output, SessionInfo, State};
use crate::step::{AfterHash, AfterLookup, AfterLookupView, AfterWrite, Step, StepView};
use crate::text;

verus! {

/// A text, and behind a colon the reason, where there is one.
pub fn with_reason(what: &str, reason: &Option<String>) -> (t: String)
    ensures
        t@ == protocol::with_reason(what@, text::opt_view(*reason)),
{
    match reason {
        Some(why) => {
            let mut t = text::join(what, ": ");
            t.append(why.as_str());
            t
        },
        None => what.to_owned(),
    }
}

/// Why a login is refused, or the role with which the user comes in, given what the database
/// knows of the user and whether the password matches.
pub fn admission(state: &State, username: &str, found: &Lookup, password_matches: bool) -> (verdict:
    Result<Role, ProtocolError>)
    ensures
        match verdict {
            Ok(role) => state@.login_refusal(username@, found@, password_matches) is None && found@
                is Found && role == model::role_of(found@->Found_0.role),
            Err(err) => state@.login_refusal(username@, found@, password_matches) == Some(err@),
        },
{
    let record = match found {
        Lookup::Found(record) => record,
        Lookup::Missing => {
            return Err(ProtocolError::new(ErrorCode::AuthFailed));
        },
        Lookup::Failed => {
            return Err(ProtocolError::new(ErrorCode::Internal));
        },
    };
    if !password_matches {
        return Err(ProtocolError::new(ErrorCode::AuthFailed));
    }
    if record.is_banned() {
        return Err(ProtocolError::new(ErrorCode::Forbidden).with_message("banned"));
    }
    let role = server::role_from_str(record.role.as_str());
    if state.config().lock_server && role != Role::Admin {
        return Err(ProtocolError::new(ErrorCode::Forbidden).with_message("server locked"));
    }
    if state.is_online(username) {
        return Err(ProtocolError::new(ErrorCode::Conflict).with_message("already online"));
    }
    Ok(role)
}

/// Whether a name has the size of a user name.
pub fn name_fits(username: &str) -> (ok: bool)
    ensures
        ok == protocol::fits(username@),
{
    !username.is_empty() && username.len() <= 20
}

/// Whether a name is reserved.
pub fn is_reserved(username: &str) -> (reserved: bool)
    ensures
        reserved == protocol::reserved(username@),
{
    text::same_text(username, "Server") || text::same_text(username, "admin")
}

/// Whether the password matches the record that was found.
pub open spec fn matches_found(password: Seq<char>, found: LookupView) -> bool {
    found is Found && auth::accepts(password, found->Found_0.password_hash)
}

/// A connection.
#[derive(Debug, Clone, Copy, PartialEq, Eq, Structural)]
pub struct Handle {
    /// The number by which the outside knows the connection.
    pub conn: u64,
}

impl Handle {
    fn reply(&self, state: &mut State, req_id: u64, msg: Message)
        ensures
            final(state)@ == old(state)@.reply(self.conn, req_id, msg@),
    {
        state.put(Output::Send { conn: self.conn, frame: Frame::response(req_id, msg) });
    }

    fn error(&self, state: &mut State, req_id: u64, err: ProtocolError)
        ensures
            final(state)@ == old(state)@.refuse(self.conn, req_id, err@),
    {
        state.put(Output::Send { conn: self.conn, frame: Frame::error(req_id, err) });
    }

    /// Takes one request at the present time.
    pub fn handle_message(
        &self,
        state: &mut State,
        identity: &mut Option<(String, Role)>,
        frame: Frame,
    ) -> (step: Step)
        ensures
            exists|now: i64|
                (final(state)@, text::opt_view(*final(identity)), step@) == #[trigger] old(
                    state,
                )@.handled(
                    self.conn,
                    text::opt_view(*old(identity)),
                    frame.id,
                    frame.msg@,
                    now,
                ),
    {
        let now = clock::now_ms();
        self.handle_message_at(state, identity, frame, now)
    }

    /// Takes one request: acts on the state, answers, or stops with what is needed next. `now`
    /// is the time of the request.
    pub fn handle_message_at(
        &self,
        state: &mut State,
        identity: &mut Option<(String, Role)>,
        frame: Frame,
        now: i64,
    ) -> (step: Step)
        ensures
            (final(state)@, text::opt_view(*final(identity)), step@) == old(state)@.handled(
                self.conn,
                text::opt_view(*old(identity)),
                frame.id,
                frame.msg@,
                now,
            ),
    {
        let req_id = frame.id;
        match frame.msg {
            Message::Login { username, password } => self.do_login(
                state,
                identity,
                req_id,
                username,
                password,
            ),
            Message::Register { username, password } => self.do_register(
                state,
                req_id,
                username,
                password,
            ),
            Message::Resume { token } => {
                self.do_resume(state, identity, req_id, token.as_str());
                Step::Done
            },
            Message::Logout => {
                match identity.take() {
                    Some((name, _)) => {
                        state.unregister(name.as_str());
                        state.end_sessions(name.as_str());
                        state.broadcast_manifest();
                        self.reply(
                            state,
                            req_id,
                            Message::Notice {
                                text: "logged out".to_owned(),
                                level: "info".to_owned(),
                            },
                        );
                    },
                    None => {
                        self.error(
                            state,
                            req_id,
                            ProtocolError::new(ErrorCode::NotAuthenticated),
                        );
                    },
                }
                Step::Done
            },
            msg => {
                match identity {
                    Some((username, role)) => self.handle_authed(
                        state,
                        req_id,
                        username.as_str(),
                        *role,
                        msg,
                        now,
                    ),
                    None => {
                        self.error(
                            state,
                            req_id,
                            ProtocolError::new(ErrorCode::NotAuthenticated),
                        );
                        Step::Done
                    },
                }
            },
        }
    }

    /// Asks to log in: the user is to be looked up, unless the connection has one already.
    fn do_login(
        &self,
        state: &mut State,
        identity: &Option<(String, Role)>,
        req_id: u64,
        username: String,
        password: String,
    ) -> (step: Step)
        ensures
            (final(state)@, text::opt_view(*identity), step@) == old(state)@.handled(
                self.conn,
                text::opt_view(*identity),
                req_id,
                MessageView::Login { username: username@, password: password@ },
                0,
            ),
    {
        if identity.is_some() {
            self.error(
                state,
                req_id,
                ProtocolError::new(ErrorCode::Forbidden).with_message("already logged in"),
            );
            return Step::Done;
        }
        Step::Lookup { username, then: AfterLookup::Login { password } }
    }

    /// Asks to register: the name is to be looked up, unless it is refused at once.
    pub fn do_register(
        &self,
        state: &mut State,
        req_id: u64,
        username: String,
        password: String,
    ) -> (step: Step)
        ensures
            (final(state)@, step@) == old(state)@.register(
                self.conn,
                req_id,
                username@,
                password@,
            ),
    {
        if !state.config().allow_register {
            self.error(
                state,
                req_id,
                ProtocolError::new(ErrorCode::Forbidden).with_message("registration disabled"),
            );
            return Step::Done;
        }
        if !name_fits(username.as_str()) {
            self.error(
                state,
                req_id,
                ProtocolError::new(ErrorCode::BadRequest).with_message("invalid username"),
            );
            return Step::Done;
        }
        if is_reserved(username.as_str()) {
            self.error(state, req_id, ProtocolError::new(ErrorCode::ReservedName));
            return Step::Done;
        }
        if password.as_str().len() < 4 {
            self.error(
                state,
                req_id,
                ProtocolError::new(ErrorCode::BadRequest).with_message("password too short"),
            );
            return Step::Done;
        }
        Step::Lookup { username, then: AfterLookup::Register { password } }
    }

    /// Resumes a session by its token, on a new connection too once the old one is gone.
    pub fn do_resume(
        &self,
        state: &mut State,
        identity: &mut Option<(String, Role)>,
        req_id: u64,
        token: &str,
    )
        ensures
            (final(state)@, text::opt_view(*final(identity))) == old(state)@.resumed(
                self.conn,
                req_id,
                text::opt_view(*old(identity)),
                token@,
            ),
    {
        if identity.is_some() {
            self.error(
                state,
                req_id,
                ProtocolError::new(ErrorCode::Forbidden).with_message("already logged in"),
            );
            return;
        }
        let info = match state.lookup_session(token) {
            Some(info) => info,
            None => {
                self.error(state, req_id, ProtocolError::new(ErrorCode::NotAuthenticated));
                return;
            },
        };
        let role = if state.is_online(info.username.as_str()) {
            info.role
        } else {
            let role = match info.returns_as {
                Some(role) => role,
                None => {
                    self.error(state, req_id, ProtocolError::new(ErrorCode::NotAuthenticated));
                    return;
                },
            };
            let cfg = state.config();
            if cfg.lock_server && role != Role::Admin {
                self.error(
                    state,
                    req_id,
                    ProtocolError::new(ErrorCode::Forbidden).with_message("server locked"),
                );
                return;
            }
            state.register_online(info.username.as_str(), role, self.conn);
            state.create_room(cfg.default_room.as_str(), info.username.as_str());
            role
        };
        *identity = Some((info.username.clone(), role));
        let rooms = state.room_names();
        let mine = state.rooms_of(info.username.as_str());
        let roles = vec![role];
        assert(roles@ =~= seq![role]);
        self.reply(state, req_id, Message::ResumeRes { username: info.username, roles });
        self.reply(state, 0, Message::RoomListRes { rooms, mine });
        state.broadcast_manifest();
    }

    /// Goes on with a user that was looked up.
    pub fn on_lookup(
        &self,
        state: &mut State,
        req_id: u64,
        username: String,
        then: AfterLookup,
        found: &Lookup,
    ) -> (step: Step)
        ensures
            (final(state)@, step@) == old(state)@.on_lookup(
                self.conn,
                req_id,
                username@,
                then@,
                found@,
                then@ matches AfterLookupView::Login { password } && matches_found(
                    password,
                    found@,
                ),
            ),
    {
        match then {
            AfterLookup::Login { password } => {
                let password_matches = match found {
                    Lookup::Found(record) => auth::verify_password(
                        password.as_str(),
                        record.password_hash.as_str(),
                    ),
                    _ => false,
                };
                self.on_login_lookup(state, req_id, username, found, password_matches)
            },
            AfterLookup::Register { password } => {
                if let Lookup::Found(_) = found {
                    self.error(state, req_id, ProtocolError::new(ErrorCode::UserExists));
                    return Step::Done;
                }
                Step::Hash { password, then: AfterHash::Register { username } }
            },
            AfterLookup::AdminCreate { password, role } => {
                if text::same_text(username.as_str(), "Server") {
                    self.error(state, req_id, ProtocolError::new(ErrorCode::ReservedName));
                    return Step::Done;
                }
                let taken = match found {
                    Lookup::Found(_) => true,
                    _ => false,
                };
                if taken || state.is_online(username.as_str()) {
                    self.error(state, req_id, ProtocolError::new(ErrorCode::UserExists));
                    return Step::Done;
                }
                Step::Hash { password, then: AfterHash::AdminCreate { username, role } }
            },
        }
    }

    /// Goes on with a login, given whether the password matches.
    pub fn on_login_lookup(
        &self,
        state: &mut State,
        req_id: u64,
        username: String,
        found: &Lookup,
        password_matches: bool,
    ) -> (step: Step)
        ensures
            match old(state)@.login_refusal(username@, found@, password_matches) {
                Some(err) => final(state)@ == old(state)@.refuse(self.conn, req_id, err) && step@
                    == StepView::Done,
                None => final(state)@ == old(state)@ && step@ == (StepView::Token {
                    username: username@,
                    role: model::role_of(found@->Found_0.role),
                }),
            },
    {
        match admission(state, username.as_str(), found, password_matches) {
            Ok(role) => Step::Token { username, role },
            Err(err) => {
                self.error(state, req_id, err);
                Step::Done
            },
        }
    }

    /// Completes a login with the session token that was made, unless the user has come online
    /// in the meantime.
    pub fn on_token(
        &self,
        state: &mut State,
        identity: &mut Option<(String, Role)>,
        req_id: u64,
        username: String,
        role: Role,
        token: Option<String>,
    ) -> (step: Step)
        ensures
            (final(state)@, step@) == old(state)@.on_token(
                self.conn,
                req_id,
                username@,
                role,
                text::opt_view(token),
            ),
            text::opt_view(*final(identity)) == if token is Some && !old(state)@.online.contains_key(
                username@,
            ) {
                Some((username@, role))
            } else {
                text::opt_view(*old(identity))
            },
            text::opt_view(*final(identity)) == old(state)@.identified(
                text::opt_view(*old(identity)),
                username@,
                role,
                text::opt_view(token),
            ),
    {
        if state.is_online(username.as_str()) {
            self.error(
                state,
                req_id,
                ProtocolError::new(ErrorCode::Conflict).with_message("already online"),
            );
            return Step::Done;
        }
        let user_id = state.take_id();
        let token = match token {
            Some(token) => token,
            None => {
                return Step::NoRandom;
            },
        };
        state.register_online(username.as_str(), role, self.conn);
        state.store_session(
            token.as_str(),
            SessionInfo { username: username.clone(), role, returns_as: Some(role) },
        );
        let default_room = state.config().default_room;
        state.create_room(default_room.as_str(), username.as_str());
        *identity = Some((username.clone(), role));
        let rooms = state.room_names();
        let mine = state.rooms_of(username.as_str());
        let roles = vec![role];
        assert(roles@ =~= seq![role]);
        self.reply(state, req_id, Message::LoginRes { user_id, username, roles, token });
        self.reply(state, 0, Message::RoomListRes { rooms, mine });
        state.broadcast_manifest();
        Step::Done
    }

    /// Goes on with a password that was hashed.
    pub fn on_hash(
        &self,
        state: &mut State,
        req_id: u64,
        then: AfterHash,
        hash: Result<String, AuthError>,
    ) -> (step: Step)
        ensures
            (final(state)@, step@) == old(state)@.on_hash(
                self.conn,
                req_id,
                then@,
                auth::hash_view(hash),
            ),
    {
        let password_hash = match hash {
            Ok(password_hash) => password_hash,
            Err(AuthError::RandomUnavailable) => {
                return Step::NoRandom;
            },
            Err(AuthError::Hash) => {
                self.error(state, req_id, ProtocolError::new(ErrorCode::Internal));
                return Step::Done;
            },
        };
        match then {
            AfterHash::Register { username } => Step::Write {
                write: DbWrite::CreateUser {
                    username: username.clone(),
                    password_hash,
                    role: "user".to_owned(),
                },
                then: AfterWrite::Register { username },
            },
            AfterHash::AdminCreate { username, role } => Step::Write {
                write: DbWrite::CreateUser {
                    username: username.clone(),
                    password_hash,
                    role: role.name().to_owned(),
                },
                then: AfterWrite::AdminCreate { username, role },
            },
            AfterHash::SetPwd { target } => Step::Write {
                write: DbWrite::SetPassword { username: target.clone(), password_hash },
                then: AfterWrite::SetPwd { target },
            },
        }
    }

    /// Goes on once the database has been changed, or has failed to.
    pub fn on_write(&self, state: &mut State, req_id: u64, then: AfterWrite, written: bool)
        ensures
            final(state)@ == old(state)@.on_write(self.conn, req_id, then@, written),
    {
        if !written {
            let err = match then {
                AfterWrite::SetRole { .. } => ProtocolError::new(ErrorCode::Forbidden).with_message(
                    "cannot change admin role",
                ),
                _ => ProtocolError::new(ErrorCode::Internal),
            };
            self.error(state, req_id, err);
            return;
        }
        match then {
            AfterWrite::Register { username } => {
                self.reply(state, req_id, Message::RegisterRes { username });
            },
            AfterWrite::AdminCreate { username, role } => {
                self.reply(state, req_id, Message::AdminUserCreateRes { username, role });
            },
            AfterWrite::SetPwd { target } => {
                self.reply(state, req_id, Message::AdminSetPwdRes { target });
            },
            AfterWrite::SetRole { target, role } => {
                state.set_role(target.as_str(), role);
                self.reply(state, req_id, Message::AdminSetRoleRes { target, role });
            },
            AfterWrite::Delete { target } => {
                if state.is_online(target.as_str()) {
                    state.expel(target.as_str(), "your account was deleted".to_owned());
                } else {
                    state.end_sessions(target.as_str());
                }
                self.reply(state, req_id, Message::AdminUserDeleteRes { target });
            },
            AfterWrite::Ban { target, reason } => {
                if state.is_online(target.as_str()) {
                    let why = with_reason("banned", &reason);
                    state.expel(target.as_str(), why);
                } else {
                    state.end_sessions(target.as_str());
                }
                self.reply(state, req_id, Message::AdminUserBanRes { target });
            },
            AfterWrite::Restore { target } => {
                self.reply(state, req_id, Message::AdminUserRestoreRes { target });
            },
        }
    }

    /// A request of a user who is logged in.
    pub fn handle_authed(
        &self,
        state: &mut State,
        req_id: u64,
        username: &str,
        role: Role,
        msg: Message,
        now: i64,
    ) -> (step: Step)
        ensures
            (final(state)@, step@) == old(state)@.authed(
                self.conn,
                req_id,
                username@,
                role,
                msg@,
                now,
            ),
    {
        match msg {
            Message::SendText { room, to, body } => {
                self.do_send_text(state, req_id, username, &room, &to, body.as_str(), now);
                Step::Done
            },
            Message::History { room, limit, before_seq } => {
                if !state.has_room(room.as_str()) {
                    self.error(state, req_id, ProtocolError::new(ErrorCode::RoomNotFound));
                    return Step::Done;
                }
                let messages = state.history_for(room.as_str(), limit, before_seq);
                self.reply(state, req_id, Message::HistoryRes { room, messages });
                Step::Done
            },
            Message::RoomList => {
                let rooms = state.room_names();
                let mine = state.rooms_of(username);
                self.reply(state, req_id, Message::RoomListRes { rooms, mine });
                Step::Done
            },
            Message::RoomCreate { name } => {
                self.do_room_create(state, req_id, username, role, name);
                Step::Done
            },
            Message::RoomJoin { name } => {
                if !state.has_room(name.as_str()) {
                    self.error(state, req_id, ProtocolError::new(ErrorCode::RoomNotFound));
                    return Step::Done;
                }
                state.add_to_room(username, name.as_str());
                self.reply(state, req_id, Message::RoomJoinRes { name: name.clone() });
                self.broadcast_room_notice(
                    state,
                    name.as_str(),
                    text::join3(username, " joined ", name.as_str()),
                );
                Step::Done
            },
            Message::RoomLeave { name } => {
                self.do_room_leave(state, req_id, username, name);
                Step::Done
            },
            Message::RoomDelete { name } => {
                self.do_room_delete(state, req_id, role, name);
                Step::Done
            },
            Message::RoomMembers { name } => {
                if !state.has_room(name.as_str()) {
                    self.error(state, req_id, ProtocolError::new(ErrorCode::RoomNotFound));
                    return Step::Done;
                }
                let members = state.room_members(name.as_str());
                self.reply(state, req_id, Message::RoomMembersRes { name, members });
                Step::Done
            },
            Message::UserOnline => {
                let users = state.online_usernames();
                self.reply(state, req_id, Message::UserOnlineRes { users });
                Step::Done
            },
            Message::UserManagers => {
                let managers = state.managers();
                self.reply(state, req_id, Message::UserManagersRes { managers });
                Step::Done
            },
            Message::UserKick { target, reason } => {
                self.do_kick(state, req_id, username, role, target, &reason);
                Step::Done
            },
            Message::AdminUserCreate { username: cname, password, role: new_role } => {
                if role != Role::Admin {
                    self.error(state, req_id, ProtocolError::new(ErrorCode::Forbidden));
                    return Step::Done;
                }
                Step::Lookup {
                    username: cname,
                    then: AfterLookup::AdminCreate { password, role: new_role },
                }
            },
            Message::AdminSetPwd { target, password } => {
                if role != Role::Admin {
                    self.error(state, req_id, ProtocolError::new(ErrorCode::Forbidden));
                    return Step::Done;
                }
                Step::Hash { password, then: AfterHash::SetPwd { target } }
            },
            Message::AdminSetRole { target, role: new_role } => {
                if role != Role::Admin {
                    self.error(state, req_id, ProtocolError::new(ErrorCode::Forbidden));
                    return Step::Done;
                }
                if text::same_text(target.as_str(), "admin") {
                    self.error(
                        state,
                        req_id,
                        ProtocolError::new(ErrorCode::Forbidden).with_message(
                            "cannot change admin role",
                        ),
                    );
                    return Step::Done;
                }
                Step::Write {
                    write: DbWrite::SetRole {
                        username: target.clone(),
                        role: new_role.name().to_owned(),
                    },
                    then: AfterWrite::SetRole { target, role: new_role },
                }
            },
            Message::AdminUserDelete { target } => {
                if !self.may_act_against(
                    state,
                    req_id,
                    username,
                    role,
                    target.as_str(),
                    "cannot delete self/admin",
                ) {
                    return Step::Done;
                }
                Step::Write {
                    write: DbWrite::DeleteUser { username: target.clone() },
                    then: AfterWrite::Delete { target },
                }
            },
            Message::AdminUserBan { target, reason } => {
                if !self.may_act_against(
                    state,
                    req_id,
                    username,
                    role,
                    target.as_str(),
                    "cannot ban self/admin",
                ) {
                    return Step::Done;
                }
                Step::Write {
                    write: DbWrite::SetBanned { username: target.clone(), banned: true },
                    then: AfterWrite::Ban { target, reason },
                }
            },
            Message::AdminUserRestore { target } => {
                if role != Role::Admin {
                    self.error(state, req_id, ProtocolError::new(ErrorCode::Forbidden));
                    return Step::Done;
                }
                Step::Write {
                    write: DbWrite::SetBanned { username: target.clone(), banned: false },
                    then: AfterWrite::Restore { target },
                }
            },
            Message::ServerInfo => {
                let version = state.server_version();
                let rooms = state.room_count();
                let online = state.online_count();
                self.reply(
                    state,
                    req_id,
                    Message::ServerInfoRes {
                        protocol: PROTOCOL_VERSION,
                        name: "Sinrana".to_owned(),
                        version,
                        rooms,
                        online,
                    },
                );
                Step::Done
            },
            Message::Ping => {
                self.reply(state, req_id, Message::Pong);
                Step::Done
            },
            other => Step::Unexpected { msg: other },
        }
    }

    /// Answers a message that no client may send. `shown` describes the message.
    pub fn on_unexpected(&self, state: &mut State, req_id: u64, shown: &str)
        ensures
            final(state)@ == old(state)@.refuse(
                self.conn,
                req_id,
                ProtocolErrorView::saying(ErrorCode::BadRequest, "unexpected message: "@ + shown@),
            ),
            final(state)@ == old(state)@.unexpected(self.conn, req_id, shown@),
    {
        let t = text::join("unexpected message: ", shown);
        self.error(state, req_id, ProtocolError::with_text(ErrorCode::BadRequest, t.as_str()));
    }

    /// Whether an administrator may act against somebody; refuses the request where not.
    fn may_act_against(
        &self,
        state: &mut State,
        req_id: u64,
        username: &str,
        role: Role,
        target: &str,
        refusal: &str,
    ) -> (ok: bool)
        ensures
            forall|next: StepView| #[trigger]
                old(state)@.admin_against(
                    self.conn,
                    req_id,
                    username@,
                    role,
                    target@,
                    refusal@,
                    next,
                ) == (
                    final(state)@,
                    if ok {
                        next
                    } else {
                        StepView::Done
                    },
                ),
    {
        if role != Role::Admin {
            self.error(state, req_id, ProtocolError::new(ErrorCode::Forbidden));
            return false;
        }
        if text::same_text(target, "admin") || text::same_text(target, username) {
            self.error(
                state,
                req_id,
                ProtocolError::new(ErrorCode::Forbidden).with_message(refusal),
            );
            return false;
        }
        true
    }

    fn do_room_create(
        &self,
        state: &mut State,
        req_id: u64,
        username: &str,
        role: Role,
        name: String,
    )
        ensures
            final(state)@ == old(state)@.room_created(self.conn, req_id, username@, role, name@),
    {
        if role.rank() < Role::Manager.rank() {
            self.error(state, req_id, ProtocolError::new(ErrorCode::Forbidden));
            return;
        }
        if state.has_room(name.as_str()) || state.is_online(name.as_str()) {
            self.error(
                state,
                req_id,
                ProtocolError::new(ErrorCode::Conflict).with_message("room exists"),
            );
            return;
        }
        state.create_room(name.as_str(), username);
        state.put(Output::Persist(DbWrite::CreateRoom { name: name.clone() }));
        self.reply(state, req_id, Message::RoomCreateRes { name: name.clone() });
        self.broadcast_room_notice(
            state,
            name.as_str(),
            text::join3(username, " created room ", name.as_str()),
        );
    }

    fn do_room_leave(&self, state: &mut State, req_id: u64, username: &str, name: String)
        ensures
            final(state)@ == old(state)@.room_left(self.conn, req_id, username@, name@),
    {
        let default_room = state.config().default_room;
        if text::same_text(name.as_str(), default_room.as_str()) {
            self.error(
                state,
                req_id,
                ProtocolError::new(ErrorCode::Forbidden).with_message(
                    "cannot leave the default room",
                ),
            );
            return;
        }
        state.remove_from_room(username, name.as_str());
        self.reply(state, req_id, Message::RoomLeaveRes { name: name.clone() });
        self.broadcast_room_notice(
            state,
            name.as_str(),
            text::join3(username, " left ", name.as_str()),
        );
    }

    fn do_room_delete(&self, state: &mut State, req_id: u64, role: Role, name: String)
        ensures
            final(state)@ == old(state)@.room_deleted(self.conn, req_id, role, name@),
    {
        if role != Role::Admin {
            self.error(state, req_id, ProtocolError::new(ErrorCode::Forbidden));
            return;
        }
        if !state.has_room(name.as_str()) {
            self.error(state, req_id, ProtocolError::new(ErrorCode::RoomNotFound));
            return;
        }
        state.delete_room(name.as_str());
        state.put(Output::Persist(DbWrite::DeleteRoom { name: name.clone() }));
        self.reply(state, req_id, Message::RoomDeleteRes { name });
    }

    fn do_kick(
        &self,
        state: &mut State,
        req_id: u64,
        username: &str,
        role: Role,
        target: String,
        reason: &Option<String>,
    )
        ensures
            final(state)@ == old(state)@.kicked(
                self.conn,
                req_id,
                username@,
                role,
                target@,
                text::opt_view(*reason),
            ),
    {
        if role.rank() < Role::Manager.rank() {
            self.error(state, req_id, ProtocolError::new(ErrorCode::Forbidden));
            return;
        }
        if !state.is_online(target.as_str()) {
            self.error(
                state,
                req_id,
                ProtocolError::new(ErrorCode::NotFound).with_message("target not online"),
            );
            return;
        }
        if text::same_text(target.as_str(), "admin") || text::same_text(
            target.as_str(),
            username,
        ) {
            self.error(
                state,
                req_id,
                ProtocolError::new(ErrorCode::Forbidden).with_message("cannot kick self/admin"),
            );
            return;
        }
        let why = with_reason("kicked from server", reason);
        state.expel(target.as_str(), why);
        self.reply(state, req_id, Message::UserKickRes { target });
    }

    fn broadcast_room_notice(&self, state: &mut State, room: &str, notice: String)
        ensures
            final(state)@ == old(state)@.notice_room(room@, notice@),
    {
        state.broadcast_room(
            room,
            Frame::push(Message::Notice { text: notice, level: "info".to_owned() }),
        );
    }

    /// Sends a text to a room or to a user.
    pub fn do_send_text(
        &self,
        state: &mut State,
        req_id: u64,
        username: &str,
        room: &Option<String>,
        to: &Option<String>,
        body: &str,
        now: i64,
    )
        ensures
            final(state)@ == old(state)@.sent_text(
                self.conn,
                req_id,
                username@,
                text::opt_view(*room),
                text::opt_view(*to),
                body@,
                now,
            ),
    {
        if body.is_empty() {
            self.error(
                state,
                req_id,
                ProtocolError::new(ErrorCode::BadRequest).with_message("empty message"),
            );
            return;
        }
        match (room, to) {
            (Some(room), None) => {
                if !state.in_room(room.as_str(), username) {
                    self.error(state, req_id, ProtocolError::new(ErrorCode::NotInRoom));
                    return;
                }
                let (seq, ts) = state.broadcast_text(username, room.as_str(), body, now);
                self.reply(state, req_id, Message::SendTextRes { seq, ts });
            },
            (None, Some(target)) => {
                if !state.is_online(target.as_str()) {
                    self.error(
                        state,
                        req_id,
                        ProtocolError::new(ErrorCode::NotFound).with_message(
                            "recipient not online",
                        ),
                    );
                    return;
                }
                state.send_to(
                    target.as_str(),
                    Frame::push(
                        Message::PushPrivate {
                            from: username.to_owned(),
                            body: body.to_owned(),
                            ts: now,
                        },
                    ),
                );
                self.reply(state, req_id, Message::SendTextRes { seq: 0, ts: now });
            },
            _ => {
                self.error(
                    state,
                    req_id,
                    ProtocolError::new(ErrorCode::BadRequest).with_message(
                        "specify room or recipient",
                    ),
                );
            },
        }
    }

    /// The connection is gone.
    pub fn disconnect(&self, state: &mut State, identity: &Option<(String, Role)>)
        ensures
            final(state)@ == old(state)@.disconnected(text::opt_view(*identity)),
    {
        if let Some((username, _)) = identity {
            state.unregister(username.as_str());
            state.broadcast_manifest();
        }
    }

    /// Hashes a password, and goes on with the hash.
    pub fn settle_hash(
        &self,
        state: &mut State,
        req_id: u64,
        password: &str,
        then: AfterHash,
    ) -> (next: Step)
        ensures
            exists|hash: Result<Seq<char>, AuthError>| #[trigger]
                auth::may_hash(password@, hash) && (final(state)@, next@) == old(state)@.on_hash(
                    self.conn,
                    req_id,
                    then@,
                    hash,
                ),
    {
        let hash = auth::hash_password(password);
        let ghost seen = auth::hash_view(hash);
        assert(auth::may_hash(password@, seen));
        self.on_hash(state, req_id, then, hash)
    }

    /// Makes a session token, and completes the login with it.
    pub fn settle_token(
        &self,
        state: &mut State,
        identity: &mut Option<(String, Role)>,
        req_id: u64,
        username: String,
        role: Role,
    ) -> (next: Step)
        ensures
            exists|token: Option<Seq<char>>|
                {
                    &&& #[trigger] auth::may_be_token(token)
                    &&& (final(state)@, next@) == old(state)@.on_token(
                        self.conn,
                        req_id,
                        username@,
                        role,
                        token,
                    )
                    &&& text::opt_view(*final(identity)) == if token is Some
                        && !old(state)@.online.contains_key(username@) {
                        Some((username@, role))
                    } else {
                        text::opt_view(*old(identity))
                    }
                    &&& text::opt_view(*final(identity)) == old(state)@.identified(
                        text::opt_view(*old(identity)),
                        username@,
                        role,
                        token,
                    )
                },
    {
        let token = auth::generate_token();
        assert(auth::may_be_token(text::opt_view(token)));
        self.on_token(state, identity, req_id, username, role, token)
    }
}

/// How the loop that reads a connection ends, by the error that ended it: in order where the peer
/// closed, with a report otherwise.
pub fn reader_end(err: &TransportError) -> (end: Result<(), String>)
    ensures
        match end {
            Ok(()) => err@ is Closed,
            Err(report) => !(err@ is Closed) && report@ == "recv: "@ + err@.text(),
        },
        protocol::end_report(err@) == match end {
            Ok(()) => None,
            Err(report) => Some(report@),
        },
{
    match err {
        TransportError::Closed => Ok(()),
        _ => Err(text::join("recv: ", err.message().as_str())),
    }
}

} // verus!
