//! The administrators' web interface: who may use it, and what it shows and changes.
//!
//! Requests arrive as plain values, and answers leave as plain values; HTTP and JSON are put
//! around them elsewhere.

use vstd::prelude::*;
use vstd::string::StrSliceExecFns;

use crate::auth;
use crate::config::Config;
use crate::db::{Lookup, LookupView};
use crate::envelope::PROTOCOL_VERSION;
use crate::handle;
use crate::message::{HistoryItem, Role};
use crate::model;
use crate::model::StateView;
use crate::names;
use crate::names::NameMap;
use crate::outcomes;
use crate::server;
use crate::server::State;
use crate::text;

verus! {

/// Why a web request is refused.
#[derive(Debug, Clone, Copy, PartialEq, Eq, Structural)]
pub enum WebError {
    InvalidCredentials,
    Internal,
    Banned,
    AdminOnly,
    Unauthorized,
    RoomRequired,
    DefaultRoomEmpty,
    SaveFailed,
}

impl WebError {
    /// The HTTP status of the refusal.
    pub open spec fn code(self) -> u16 {
        match self {
            WebError::RoomRequired | WebError::DefaultRoomEmpty => 400,
            WebError::InvalidCredentials | WebError::Unauthorized => 401,
            WebError::Banned | WebError::AdminOnly => 403,
            WebError::Internal | WebError::SaveFailed => 500,
        }
    }

    /// The text of the refusal.
    pub open spec fn text(self) -> Seq<char> {
        match self {
            WebError::InvalidCredentials => "invalid credentials"@,
            WebError::Internal => "internal"@,
            WebError::Banned => "banned"@,
            WebError::AdminOnly => "admin only"@,
            WebError::Unauthorized => "unauthorized"@,
            WebError::RoomRequired => "room required"@,
            WebError::DefaultRoomEmpty => "default_room must not be empty"@,
            WebError::SaveFailed => "failed to save config"@,
        }
    }

    /// The HTTP status of the refusal.
    pub fn status(&self) -> (status: u16)
        ensures
            status == self.code(),
    {
        match self {
            WebError::RoomRequired | WebError::DefaultRoomEmpty => 400,
            WebError::InvalidCredentials | WebError::Unauthorized => 401,
            WebError::Banned | WebError::AdminOnly => 403,
            WebError::Internal | WebError::SaveFailed => 500,
        }
    }

    /// The text of the refusal.
    pub fn message(&self) -> (message: &'static str)
        ensures
            message@ == self.text(),
    {
        match self {
            WebError::InvalidCredentials => "invalid credentials",
            WebError::Internal => "internal",
            WebError::Banned => "banned",
            WebError::AdminOnly => "admin only",
            WebError::Unauthorized => "unauthorized",
            WebError::RoomRequired => "room required",
            WebError::DefaultRoomEmpty => "default_room must not be empty",
            WebError::SaveFailed => "failed to save config",
        }
    }
}

/// Whether what was found is an administrator who is not banned.
pub open spec fn is_admin(found: LookupView) -> bool {
    found is Found && found->Found_0.banned == 0 && model::role_of(found->Found_0.role)
        == Role::Admin
}

/// Whose session a token is, given what the database knows of that user. What it knows of another
/// user counts for nothing.
pub open spec fn session(
    tokens: Map<Seq<char>, Seq<char>>,
    token: Seq<char>,
    found: LookupView,
) -> Option<Seq<char>> {
    if tokens.contains_key(token) && is_admin(found) && found->Found_0.username == tokens[token] {
        Some(tokens[token])
    } else {
        None
    }
}

/// The token in an `Authorization` header: what follows `Bearer `.
pub open spec fn bearer(header: Seq<char>) -> Option<Seq<char>> {
    let scheme = "Bearer "@;
    if scheme.is_prefix_of(header) {
        Some(header.skip(scheme.len() as int))
    } else {
        None
    }
}

/// Whose session an `Authorization` header names, if one is there.
pub open spec fn claimed(
    tokens: Map<Seq<char>, Seq<char>>,
    header: Option<Seq<char>>,
) -> Option<Seq<char>> {
    match header {
        Some(header) => match bearer(header) {
            Some(token) => if tokens.contains_key(token) {
                Some(tokens[token])
            } else {
                None
            },
            None => None,
        },
        None => None,
    }
}

/// Who makes a request with an `Authorization` header, if one is there, given what the database
/// knows of the user whose session it names. Nobody, unless the header holds the token of a
/// session whose user still is an administrator.
pub open spec fn requester(
    tokens: Map<Seq<char>, Seq<char>>,
    header: Option<Seq<char>>,
    found: LookupView,
) -> Option<Seq<char>> {
    match header {
        Some(header) => match bearer(header) {
            Some(token) => session(tokens, token, found),
            None => None,
        },
        None => None,
    }
}

/// Why a login at the web interface is refused, given what the database knows of the user and
/// whether the password matches.
pub open spec fn refusal(found: LookupView, password_matches: bool) -> Option<WebError> {
    match found {
        LookupView::Missing => Some(WebError::InvalidCredentials),
        LookupView::Failed => Some(WebError::Internal),
        LookupView::Found(record) => if !password_matches {
            Some(WebError::InvalidCredentials)
        } else if record.banned != 0 {
            Some(WebError::Banned)
        } else if model::role_of(record.role) != Role::Admin {
            Some(WebError::AdminOnly)
        } else {
            None
        },
    }
}

/// Who logs in at the web interface, or why the login is refused.
pub fn judge_login(found: &Lookup, password_matches: bool) -> (verdict: Result<String, WebError>)
    ensures
        match verdict {
            Ok(username) => refusal(found@, password_matches) is None && found@ is Found
                && username@ == found@->Found_0.username,
            Err(err) => refusal(found@, password_matches) == Some(err),
        },
{
    let record = match found {
        Lookup::Found(record) => record,
        Lookup::Missing => {
            return Err(WebError::InvalidCredentials);
        },
        Lookup::Failed => {
            return Err(WebError::Internal);
        },
    };
    if !password_matches {
        return Err(WebError::InvalidCredentials);
    }
    if record.is_banned() {
        return Err(WebError::Banned);
    }
    if server::role_from_str(record.role.as_str()) != Role::Admin {
        return Err(WebError::AdminOnly);
    }
    Ok(record.username.clone())
}

/// A session at the web interface that has just begun.
#[derive(Debug, Clone, PartialEq, Eq)]
pub struct LoginRes {
    pub token: String,
    pub username: String,
}

/// The outcome of a login at the web interface.
#[derive(Debug, Clone, PartialEq, Eq)]
pub enum LoginOutcome {
    Granted(LoginRes),
    Refused(WebError),
    /// The operating system has no random bytes for a token.
    NoRandom,
}

/// What the web interface remembers: the sessions, and whose they are.
pub struct WebState {
    tokens: NameMap<String>,
}

impl View for WebState {
    type V = Map<Seq<char>, Seq<char>>;

    closed spec fn view(&self) -> Map<Seq<char>, Seq<char>> {
        self.tokens@
    }
}

impl WebState {
    /// No session yet.
    pub fn new() -> (web: Self)
        ensures
            web@ == Map::<Seq<char>, Seq<char>>::empty(),
    {
        WebState { tokens: NameMap::new() }
    }

    /// Begins a session under a token.
    pub fn grant(&mut self, token: String, username: String) -> (res: LoginRes)
        ensures
            final(self)@ == old(self)@.insert(token@, username@),
            res.token@ == token@,
            res.username@ == username@,
    {
        self.tokens.insert(token.as_str(), username.clone());
        LoginRes { token, username }
    }

    /// Logs an administrator in, given what the database knows of the user.
    pub fn api_login(&mut self, found: &Lookup, password: &str) -> (outcome: LoginOutcome)
        ensures
            match refusal(found@, handle::matches_found(password@, found@)) {
                Some(err) => outcome == LoginOutcome::Refused(err) && final(self)@ == old(self)@,
                None => match outcome {
                    LoginOutcome::Granted(res) => {
                        &&& auth::may_be_token(Some(res.token@))
                        &&& res.username@ == found@->Found_0.username
                        &&& final(self)@ == old(self)@.insert(res.token@, res.username@)
                    },
                    LoginOutcome::NoRandom => final(self)@ == old(self)@,
                    LoginOutcome::Refused(_) => false,
                },
            },
    {
        let password_matches = match found {
            Lookup::Found(record) => auth::verify_password(
                password,
                record.password_hash.as_str(),
            ),
            _ => false,
        };
        match judge_login(found, password_matches) {
            Ok(username) => match auth::generate_token() {
                Some(token) => LoginOutcome::Granted(self.grant(token, username)),
                None => LoginOutcome::NoRandom,
            },
            Err(err) => LoginOutcome::Refused(err),
        }
    }

    /// Whose session a token is.
    pub fn session_user(&self, token: &str) -> (username: Option<String>)
        ensures
            text::opt_view(username) == if self@.contains_key(token@) {
                Some(self@[token@])
            } else {
                None
            },
    {
        match self.tokens.get(token) {
            Some(username) => Some(username.clone()),
            None => None,
        }
    }

    /// Whose session a token is, if the user, looked up by that name, still is an administrator.
    pub fn authorized(&self, token: &str, found: &Lookup) -> (username: Option<String>)
        ensures
            text::opt_view(username) == session(self@, token@, found@),
    {
        let username = match self.session_user(token) {
            Some(username) => username,
            None => {
                return None;
            },
        };
        match found {
            Lookup::Found(record) => {
                if record.is_banned() || server::role_from_str(record.role.as_str())
                    != Role::Admin || !text::same_text(
                    record.username.as_str(),
                    username.as_str(),
                ) {
                    None
                } else {
                    Some(username)
                }
            },
            _ => None,
        }
    }

    /// Whose session an `Authorization` header names: the user to look up before the request is
    /// judged.
    pub fn claimed_user(&self, header: Option<&str>) -> (username: Option<String>)
        ensures
            text::opt_view(username) == match header {
                Some(header) => match bearer(header@) {
                    Some(token) => if self@.contains_key(token) {
                        Some(self@[token])
                    } else {
                        None
                    },
                    None => None,
                },
                None => None,
            },
            text::opt_view(username) == claimed(self@, text::opt_view(header)),
    {
        match header {
            Some(header) => match bearer_token(header) {
                Some(token) => self.session_user(token.as_str()),
                None => None,
            },
            None => None,
        }
    }

    /// Who makes a request, judged by its `Authorization` header and by what the database knows
    /// of the user whose session the header names.
    pub fn authorize(&self, header: Option<&str>, found: &Lookup) -> (who: Result<
        String,
        WebError,
    >)
        ensures
            match requester(self@, text::opt_view(header), found@) {
                Some(username) => who matches Ok(name) && name@ == username,
                None => who == Err::<String, WebError>(WebError::Unauthorized),
            },
    {
        let username = match header {
            Some(header) => match bearer_token(header) {
                Some(token) => self.authorized(token.as_str(), found),
                None => None,
            },
            None => None,
        };
        match username {
            Some(username) => Ok(username),
            None => Err(WebError::Unauthorized),
        }
    }
}

/// Only an administrator who is not banned and gives the right password gets a session, and the
/// session is honoured for as long as its user is an administrator who is not banned. A token
/// that was not given out is never honoured.
pub proof fn law_sessions_are_for_admins(
    tokens: Map<Seq<char>, Seq<char>>,
    token: Seq<char>,
    username: Seq<char>,
    found: LookupView,
    password_matches: bool,
)
    ensures
        refusal(found, password_matches) is None <==> is_admin(found) && password_matches,
        session(tokens.insert(token, username), token, found) == if is_admin(found)
            && found->Found_0.username == username {
            Some(username)
        } else {
            None
        },
        !tokens.contains_key(token) ==> session(tokens, token, found) is None,
{
}

/// A request without an `Authorization` header, with one that is no bearer token, or with a token
/// that was not given out, is nobody's. One with the token of a session, written as
/// `Bearer <token>`, is that of the session's user for as long as the user is an administrator
/// who is not banned, and nobody's otherwise.
pub proof fn law_requests_need_a_session(
    tokens: Map<Seq<char>, Seq<char>>,
    header: Seq<char>,
    token: Seq<char>,
    found: LookupView,
)
    ensures
        requester(tokens, None, found) is None,
        bearer(header) is None ==> requester(tokens, Some(header), found) is None,
        requester(tokens, Some("Bearer "@ + token), found) == if tokens.contains_key(token)
            && is_admin(found) && found->Found_0.username == tokens[token] {
            Some(tokens[token])
        } else {
            None
        },
{
    let whole = "Bearer "@ + token;
    assert("Bearer "@.is_prefix_of(whole)) by {
        assert(whole.subrange(0, "Bearer "@.len() as int) =~= "Bearer "@);
    }
    assert(whole.skip("Bearer "@.len() as int) =~= token);
}

/// The token in an `Authorization` header.
pub fn bearer_token(header: &str) -> (token: Option<String>)
    ensures
        text::opt_view(token) == bearer(header@),
{
    let scheme = "Bearer ";
    proof {
        reveal_strlit("Bearer ");
    }
    let n: usize = 7;
    let len = header.unicode_len();
    if len < n || !text::same_text(header.substring_char(0, n), scheme) {
        assert(!scheme@.is_prefix_of(header@)) by {
            if scheme@.is_prefix_of(header@) {
                assert(header@.subrange(0, 7) =~= scheme@);
            }
        }
        return None;
    }
    assert(header@.subrange(0, 7) =~= scheme@);
    assert(scheme@.is_prefix_of(header@));
    let token = header.substring_char(n, len);
    assert(token@ =~= header@.skip(7));
    Some(token.to_owned())
}

/// The view of a [`ServerStatus`].
pub ghost struct ServerStatusView {
    pub protocol: u16,
    pub name: Seq<char>,
    pub version: Seq<char>,
    pub rooms: usize,
    pub online: usize,
    pub uptime_ms: i64,
    pub server_seq: u64,
    pub bind_addr: Seq<char>,
    pub web_addr: Seq<char>,
    pub web_enabled: bool,
    pub default_room: Seq<char>,
    pub db_path: Seq<char>,
}

/// What the web interface shows of the server.
#[derive(Debug, Clone, PartialEq, Eq)]
pub struct ServerStatus {
    pub protocol: u16,
    pub name: String,
    pub version: String,
    pub rooms: usize,
    pub online: usize,
    pub uptime_ms: i64,
    pub server_seq: u64,
    pub bind_addr: String,
    pub web_addr: String,
    pub web_enabled: bool,
    pub default_room: String,
    pub db_path: String,
}

impl View for ServerStatus {
    type V = ServerStatusView;

    open spec fn view(&self) -> ServerStatusView {
        ServerStatusView {
            protocol: self.protocol,
            name: self.name@,
            version: self.version@,
            rooms: self.rooms,
            online: self.online,
            uptime_ms: self.uptime_ms,
            server_seq: self.server_seq,
            bind_addr: self.bind_addr@,
            web_addr: self.web_addr@,
            web_enabled: self.web_enabled,
            default_room: self.default_room@,
            db_path: self.db_path@,
        }
    }
}

impl StateView {
    /// The users who are online, in ascending order, with their roles.
    pub open spec fn online_roles(self) -> Seq<(Seq<char>, Role)> {
        self.online_names().map_values(|user: Seq<char>| (user, self.online[user].role))
    }

    /// What the web interface shows of the server.
    pub open spec fn status(self, now: i64) -> ServerStatusView {
        ServerStatusView {
            protocol: PROTOCOL_VERSION,
            name: "Sinrana"@,
            version: self.version,
            rooms: self.room_names().len() as usize,
            online: self.online_names().len() as usize,
            uptime_ms: now.wrapping_sub(self.started_at),
            server_seq: self.next_seq,
            bind_addr: self.cfg.bind_addr,
            web_addr: self.cfg.web_addr,
            web_enabled: self.cfg.web_enabled,
            default_room: self.cfg.default_room,
            db_path: self.cfg.db_path,
        }
    }

    /// The rooms in ascending order, each with its members in ascending order.
    pub open spec fn overview(self) -> Seq<(Seq<char>, Seq<Seq<char>>)> {
        self.room_names().map_values(
            |room: Seq<char>| (room, names::listing(self.members(room))),
        )
    }
}

/// What the web interface shows of the server to an administrator.
pub fn api_info(
    web: &WebState,
    header: Option<&str>,
    found: &Lookup,
    state: &State,
    now: i64,
) -> (status: Result<ServerStatus, WebError>)
    ensures
        match requester(web@, text::opt_view(header), found@) {
            Some(_) => status matches Ok(shown) && shown@ == state@.status(now),
            None => status == Err::<ServerStatus, WebError>(WebError::Unauthorized),
        },
{
    if let Err(err) = web.authorize(header, found) {
        return Err(err);
    }
    let cfg = state.config();
    let status = ServerStatus {
        protocol: PROTOCOL_VERSION,
        name: "Sinrana".to_owned(),
        version: state.server_version(),
        rooms: state.room_count(),
        online: state.online_count(),
        uptime_ms: state.uptime_ms(now),
        server_seq: state.server_seq(),
        bind_addr: cfg.bind_addr,
        web_addr: cfg.web_addr,
        web_enabled: cfg.web_enabled,
        default_room: cfg.default_room,
        db_path: cfg.db_path,
    };
    Ok(status)
}

/// The users who are online, in ascending order, with their roles.
pub fn api_online(web: &WebState, header: Option<&str>, found: &Lookup, state: &State) -> (users:
    Result<Vec<(String, Role)>, WebError>)
    ensures
        match requester(web@, text::opt_view(header), found@) {
            Some(_) => users matches Ok(shown) && text::views(shown@)
                == state@.online_names().map_values(
                |user: Seq<char>| (user, state@.online[user].role),
            ),
            None => users == Err::<Vec<(String, Role)>, WebError>(WebError::Unauthorized),
        },
        users matches Ok(shown) ==> text::views(shown@) == state@.online_roles(),
{
    match web.authorize(header, found) {
        Ok(_) => Ok(state.online_users()),
        Err(err) => Err(err),
    }
}

/// A room as the web interface shows it.
#[derive(Debug, Clone, PartialEq, Eq)]
pub struct RoomEntry {
    pub name: String,
    pub member_names: Vec<String>,
}

impl View for RoomEntry {
    type V = (Seq<char>, Seq<Seq<char>>);

    open spec fn view(&self) -> (Seq<char>, Seq<Seq<char>>) {
        (self.name@, text::views(self.member_names@))
    }
}

/// The rooms in ascending order, each with its members.
pub fn api_rooms(web: &WebState, header: Option<&str>, found: &Lookup, state: &State) -> (shown:
    Result<Vec<RoomEntry>, WebError>)
    ensures
        match requester(web@, text::opt_view(header), found@) {
            Some(_) => shown matches Ok(rooms) && text::views(rooms@) == state@.overview(),
            None => shown == Err::<Vec<RoomEntry>, WebError>(WebError::Unauthorized),
        },
{
    if let Err(err) = web.authorize(header, found) {
        return Err(err);
    }
    let list = state.room_names();
    let mut rooms: Vec<RoomEntry> = Vec::new();
    let mut i: usize = 0;
    while i < list.len()
        invariant
            i <= list@.len(),
            text::views(list@) == state@.room_names(),
            rooms@.len() == i,
            forall|k: int|
                0 <= k < i ==> (#[trigger] rooms@[k])@ == (
                    list@[k]@,
                    names::listing(state@.members(list@[k]@)),
                ),
        decreases list@.len() - i,
    {
        let member_names = state.room_members(list[i].as_str());
        rooms.push(RoomEntry { name: list[i].clone(), member_names });
        i += 1;
    }
    proof {
        let all = state@.room_names();
        assert forall|k: int| 0 <= k < rooms@.len() implies text::views(rooms@)[k]
            == state@.overview()[k] by {
            assert(all[k] == text::views(list@)[k]);
        }
        assert(text::views(rooms@) =~= state@.overview());
    }
    Ok(rooms)
}

/// How many messages a history shows where nothing is said.
pub const DEFAULT_LIMIT: u32 = 50;

/// The last messages of a room. A room that does not exist has none.
pub fn api_history(
    web: &WebState,
    header: Option<&str>,
    found: &Lookup,
    state: &State,
    room: Option<String>,
    limit: Option<u32>,
) -> (page: Result<(String, Vec<HistoryItem>), WebError>)
    ensures
        requester(web@, text::opt_view(header), found@) is None ==> page == Err::<
            (String, Vec<HistoryItem>),
            WebError,
        >(WebError::Unauthorized),
        requester(web@, text::opt_view(header), found@) is Some ==> match page {
            Ok((name, items)) => room is Some && room->0@.len() > 0 && name@ == room->0@
                && text::views(items@) == state@.history_for(
                name@,
                if limit is Some {
                    limit->0
                } else {
                    DEFAULT_LIMIT
                },
                None,
            ),
            Err(err) => err == WebError::RoomRequired && (room is None || room->0@.len() == 0),
        },
        page matches Ok((name, items)) ==> outcomes::is_page(
            text::views(items@),
            outcomes::said_in(state@, name@),
            if limit is Some {
                limit->0
            } else {
                50
            },
            None,
        ),
{
    if let Err(err) = web.authorize(header, found) {
        return Err(err);
    }
    match room {
        Some(name) => {
            if name.as_str().is_empty() {
                return Err(WebError::RoomRequired);
            }
            let limit: u32 = match limit {
                Some(limit) => limit,
                None => DEFAULT_LIMIT,
            };
            let items = state.history_for(name.as_str(), limit, None);
            proof {
                outcomes::lemma_whole_page(state@, name@, limit);
            }
            Ok((name, items))
        },
        None => Err(WebError::RoomRequired),
    }
}

/// The configuration that is in force.
pub fn api_config(web: &WebState, header: Option<&str>, found: &Lookup, state: &State) -> (shown:
    Result<Config, WebError>)
    ensures
        match requester(web@, text::opt_view(header), found@) {
            Some(_) => shown matches Ok(cfg) && cfg@ == state@.cfg,
            None => shown == Err::<Config, WebError>(WebError::Unauthorized),
        },
{
    match web.authorize(header, found) {
        Ok(_) => Ok(state.config()),
        Err(err) => Err(err),
    }
}

/// Why an edited configuration is refused, if it is.
pub open spec fn edit_refusal(requester: Option<Seq<char>>, default_room: Seq<char>) -> Option<
    WebError,
> {
    if requester is None {
        Some(WebError::Unauthorized)
    } else if text::trimmed(default_room).len() == 0 {
        Some(WebError::DefaultRoomEmpty)
    } else {
        None
    }
}

/// Takes over a configuration that an administrator has edited, as far as a running server can.
/// A default room of nothing but white space is refused.
pub fn api_config_save(
    web: &WebState,
    header: Option<&str>,
    found: &Lookup,
    state: &mut State,
    incoming: &Config,
) -> (saved: Result<(), WebError>)
    ensures
        match edit_refusal(
            requester(web@, text::opt_view(header), found@),
            incoming@.default_room,
        ) {
            Some(err) => saved == Err::<(), WebError>(err) && final(state)@ == old(state)@,
            None => saved == Ok::<(), WebError>(()) && final(state)@ == (StateView {
                cfg: old(state)@.cfg.edited(incoming@),
                ..old(state)@
            }),
        },
{
    if let Err(err) = web.authorize(header, found) {
        return Err(err);
    }
    let room = text::trim(incoming.default_room.as_str());
    if room.as_str().is_empty() {
        return Err(WebError::DefaultRoomEmpty);
    }
    let _ = state.apply_runtime_config(incoming);
    Ok(())
}

/// The view of a [`Hello`].
pub ghost struct HelloView {
    pub username: Seq<char>,
    pub protocol: u16,
    pub name: Seq<char>,
    pub version: Seq<char>,
    pub room_count: usize,
    pub online: usize,
    pub rooms: Seq<Seq<char>>,
}

/// The greeting of the terminal.
#[derive(Debug, Clone, PartialEq, Eq)]
pub struct Hello {
    pub username: String,
    pub protocol: u16,
    pub name: String,
    pub version: String,
    pub room_count: usize,
    pub online: usize,
    pub rooms: Vec<String>,
}

impl View for Hello {
    type V = HelloView;

    open spec fn view(&self) -> HelloView {
        HelloView {
            username: self.username@,
            protocol: self.protocol,
            name: self.name@,
            version: self.version@,
            room_count: self.room_count,
            online: self.online,
            rooms: text::views(self.rooms@),
        }
    }
}

impl StateView {
    /// The greeting of the terminal for an administrator.
    pub open spec fn hello(self, username: Seq<char>) -> HelloView {
        HelloView {
            username,
            protocol: PROTOCOL_VERSION,
            name: "Sinrana"@,
            version: self.version,
            room_count: self.room_names().len() as usize,
            online: self.online_names().len() as usize,
            rooms: self.room_names(),
        }
    }
}

/// The greeting names the administrator, the server and its versions, every room once and in
/// ascending order, and how many rooms there are and how many users are online.
pub proof fn law_hello_is_true(st: StateView, username: Seq<char>)
    requires
        st.valid(),
        st.rooms.dom().len() <= usize::MAX,
        st.online.dom().len() <= usize::MAX,
    ensures
        ({
            let shown = st.hello(username);
            &&& shown.username == username
            &&& shown.protocol == 1
            &&& shown.name == "Sinrana"@
            &&& shown.version == st.version
            &&& shown.room_count == st.rooms.dom().len()
            &&& shown.online == st.online.dom().len()
            &&& outcomes::lists_those(
                shown.rooms,
                |room: Seq<char>| st.rooms.contains_key(room),
            )
        }),
{
    law_status_is_true(st, st.started_at);
    names::lemma_listing_exists(st.rooms.dom());
}

/// The greeting of the terminal for an administrator.
pub fn hello(state: &State, username: &str) -> (hello: Hello)
    ensures
        hello@ == (HelloView {
            username: username@,
            protocol: PROTOCOL_VERSION,
            name: "Sinrana"@,
            version: state@.version,
            room_count: state@.room_names().len() as usize,
            online: state@.online_names().len() as usize,
            rooms: state@.room_names(),
        }),
        hello@ == state@.hello(username@),
{
    Hello {
        username: username.to_owned(),
        protocol: PROTOCOL_VERSION,
        name: "Sinrana".to_owned(),
        version: state.server_version(),
        room_count: state.room_count(),
        online: state.online_count(),
        rooms: state.room_names(),
    }
}

/// What happens to a stream of events.
#[derive(Debug, Clone, PartialEq, Eq)]
pub enum StreamInput {
    /// A message for observers: its JSON, where it has one.
    Message(Option<String>),
    /// Some messages were missed.
    Lagged,
    /// There will be no more messages.
    Ended,
}

/// The view of a [`StreamEvent`].
pub ghost struct StreamEventView {
    pub comment: Option<Seq<char>>,
    pub event: Option<Seq<char>>,
    pub data: Seq<char>,
}

/// A server-sent event.
#[derive(Debug, Clone, PartialEq, Eq)]
pub struct StreamEvent {
    pub comment: Option<String>,
    pub event: Option<String>,
    pub data: String,
}

impl View for StreamEvent {
    type V = StreamEventView;

    open spec fn view(&self) -> StreamEventView {
        StreamEventView {
            comment: text::opt_view(self.comment),
            event: text::opt_view(self.event),
            data: self.data@,
        }
    }
}

/// What a stream of events does about what happens.
#[derive(Debug, Clone, PartialEq, Eq)]
pub enum StreamAction {
    Send(StreamEvent),
    /// Wait for the next message.
    Skip,
    /// Close the stream.
    End,
}

/// The event that is sent about what happens, if one is.
pub open spec fn event_of(input: StreamInput) -> Option<StreamEventView> {
    match input {
        StreamInput::Message(Some(json)) => Some(
            StreamEventView { comment: None, event: None, data: json@ },
        ),
        StreamInput::Lagged => Some(
            StreamEventView {
                comment: Some("lagged; reconnect"@),
                event: Some("lagged"@),
                data: "true"@,
            },
        ),
        _ => None,
    }
}

/// An event is sent exactly for a message with a JSON form, which it carries unchanged and without
/// a name, and for a gap, which has a name.
pub proof fn law_events(input: StreamInput)
    ensures
        event_of(input) is Some <==> (input matches StreamInput::Message(json) && json is Some)
            || input is Lagged,
        input matches StreamInput::Message(Some(json)) ==> event_of(input)->0.data == json@
            && event_of(input)->0.event is None && event_of(input)->0.comment is None,
        input is Lagged ==> event_of(input)->0.event == Some("lagged"@)
            && event_of(input)->0.comment == Some("lagged; reconnect"@) && event_of(input)->0.data
            == "true"@,
{
}

/// What a stream of events does about what happens: a message is sent as it is, a gap is
/// announced, and a message without a JSON form is left out.
pub fn stream_event(input: StreamInput) -> (action: StreamAction)
    ensures
        match input {
            StreamInput::Message(Some(json)) => action matches StreamAction::Send(sent) && sent@
                == (StreamEventView { comment: None, event: None, data: json@ }),
            StreamInput::Message(None) => action == StreamAction::Skip,
            StreamInput::Lagged => action matches StreamAction::Send(sent) && sent@ == (
            StreamEventView {
                comment: Some("lagged; reconnect"@),
                event: Some("lagged"@),
                data: "true"@,
            }),
            StreamInput::Ended => action == StreamAction::End,
        },
        match action {
            StreamAction::Send(sent) => event_of(input) == Some(sent@),
            StreamAction::Skip | StreamAction::End => event_of(input) is None,
        },
{
    match input {
        StreamInput::Message(Some(json)) => StreamAction::Send(
            StreamEvent { comment: None, event: None, data: json },
        ),
        StreamInput::Message(None) => StreamAction::Skip,
        StreamInput::Lagged => StreamAction::Send(
            StreamEvent {
                comment: Some("lagged; reconnect".to_owned()),
                event: Some("lagged".to_owned()),
                data: "true".to_owned(),
            },
        ),
        StreamInput::Ended => StreamAction::End,
    }
}

/// A login at the web interface is granted exactly to a stored administrator who is not banned and
/// gives the right password. Who is not stored, or gives another password, is told the same; after
/// that come a ban and the role, in this order; and a database that fails is reported as such.
pub proof fn law_web_login_is_judged(found: LookupView, matches: bool)
    ensures
        refusal(found, matches) is None <==> {
            &&& found is Found
            &&& matches
            &&& found->Found_0.banned == 0
            &&& found->Found_0.role == "admin"@
        },
        refusal(found, matches) == Some(WebError::InvalidCredentials) <==> found is Missing || (found
            is Found && !matches),
        refusal(found, matches) == Some(WebError::Internal) <==> found is Failed,
        refusal(found, matches) == Some(WebError::Banned) <==> found is Found && matches
            && found->Found_0.banned != 0,
        refusal(found, matches) == Some(WebError::AdminOnly) <==> found is Found && matches
            && found->Found_0.banned == 0 && found->Found_0.role != "admin"@,
{
}

/// A request is somebody's exactly where its header is `Bearer ` and the token of a session, and
/// the stored record is that of the session's user, who is an administrator and not banned.
pub proof fn law_requests_are_judged(
    tokens: Map<Seq<char>, Seq<char>>,
    header: Option<Seq<char>>,
    found: LookupView,
    who: Seq<char>,
)
    ensures
        requester(tokens, header, found) == Some(who) <==> exists|token: Seq<char>|
            {
                &&& header == Some("Bearer "@ + token)
                &&& #[trigger] tokens.contains_key(token)
                &&& tokens[token] == who
                &&& found is Found
                &&& found->Found_0.username == who
                &&& found->Found_0.banned == 0
                &&& found->Found_0.role == "admin"@
            },
{
    if requester(tokens, header, found) == Some(who) {
        let scheme = "Bearer "@;
        let h = header->0;
        let token = h.skip(scheme.len() as int);
        assert(h =~= scheme + token);
        assert(tokens.contains_key(token));
    }
    if exists|token: Seq<char>|
        {
            &&& header == Some("Bearer "@ + token)
            &&& #[trigger] tokens.contains_key(token)
            &&& tokens[token] == who
            &&& found is Found
            &&& found->Found_0.username == who
            &&& found->Found_0.banned == 0
            &&& found->Found_0.role == "admin"@
        } {
        let token = choose|token: Seq<char>|
            {
                &&& header == Some("Bearer "@ + token)
                &&& #[trigger] tokens.contains_key(token)
                &&& tokens[token] == who
                &&& found is Found
                &&& found->Found_0.username == who
                &&& found->Found_0.banned == 0
                &&& found->Found_0.role == "admin"@
            };
        law_requests_need_a_session(tokens, header->0, token, found);
    }
}

/// The refusals have the status that HTTP gives them: a request that lacks something, one that is
/// nobody's, one that is not allowed, and one that the server could not carry out.
pub proof fn law_statuses(err: WebError)
    ensures
        err.code() == 400 <==> err == WebError::RoomRequired || err == WebError::DefaultRoomEmpty,
        err.code() == 401 <==> err == WebError::InvalidCredentials || err == WebError::Unauthorized,
        err.code() == 403 <==> err == WebError::Banned || err == WebError::AdminOnly,
        err.code() == 500 <==> err == WebError::Internal || err == WebError::SaveFailed,
{
}

/// What is shown of the server is what it is: how many rooms there are and how many users are
/// online, for how long it runs, the number that the next text gets, and its configuration.
pub proof fn law_status_is_true(st: StateView, now: i64)
    requires
        st.valid(),
        st.rooms.dom().len() <= usize::MAX,
        st.online.dom().len() <= usize::MAX,
        i64::MIN <= now - st.started_at <= i64::MAX,
    ensures
        ({
            let shown = st.status(now);
            &&& shown.protocol == 1
            &&& shown.name == "Sinrana"@
            &&& shown.version == st.version
            &&& shown.rooms == st.rooms.dom().len()
            &&& shown.online == st.online.dom().len()
            &&& shown.uptime_ms == now - st.started_at
            &&& shown.server_seq == st.next_seq
            &&& shown.bind_addr == st.cfg.bind_addr
            &&& shown.web_addr == st.cfg.web_addr
            &&& shown.web_enabled == st.cfg.web_enabled
            &&& shown.default_room == st.cfg.default_room
            &&& shown.db_path == st.cfg.db_path
        }),
{
    names::lemma_listing_exists(st.online.dom());
    names::lemma_listing_exists(st.rooms.dom());
    outcomes::lemma_counts(st.online_names(), st.online.dom());
    outcomes::lemma_counts(st.room_names(), st.rooms.dom());
}

/// The overview lists every room once, in ascending order, each with exactly its members.
pub proof fn law_overview_is_true(st: StateView)
    requires
        st.valid(),
    ensures
        outcomes::lists_those(
            st.overview().map_values(|entry: (Seq<char>, Seq<Seq<char>>)| entry.0),
            |room: Seq<char>| st.rooms.contains_key(room),
        ),
        forall|i: int|
            0 <= i < st.overview().len() ==> outcomes::lists_those(
                (#[trigger] st.overview()[i]).1,
                |user: Seq<char>| st.rooms[st.overview()[i].0].contains(user),
            ),
{
    let shown = st.overview();
    names::lemma_listing_exists(st.rooms.dom());
    assert(shown.map_values(|entry: (Seq<char>, Seq<Seq<char>>)| entry.0) =~= st.room_names());
    assert forall|i: int| 0 <= i < shown.len() implies outcomes::lists_those(
        (#[trigger] shown[i]).1,
        |user: Seq<char>| st.rooms[shown[i].0].contains(user),
    ) by {
        let room = st.room_names()[i];
        assert(st.room_names().contains(room));
        assert(st.rooms.contains_key(room));
        assert(st.members(room).finite());
        names::lemma_listing_exists(st.members(room));
    }
}

/// An edited configuration is refused to who is nobody, and where its default room holds nothing
/// but white space; everything else is taken over.
pub proof fn law_edits_are_judged(who: Option<Seq<char>>, room: Seq<char>)
    ensures
        edit_refusal(who, room) == Some(WebError::Unauthorized) <==> who is None,
        edit_refusal(who, room) == Some(WebError::DefaultRoomEmpty) <==> who is Some && forall|
            i: int,
        |
            0 <= i < room.len() ==> text::is_white(#[trigger] room[i]),
        edit_refusal(who, room) is None <==> who is Some && exists|i: int|
            0 <= i < room.len() && !text::is_white(#[trigger] room[i]),
{
    text::law_trimmed(room);
    let kept = text::trimmed(room);
    let (a, b) = choose|a: int, b: int|
        {
            &&& 0 <= a <= b <= room.len()
            &&& kept == #[trigger] room.subrange(a, b)
            &&& forall|i: int| 0 <= i < a || b <= i < room.len() ==> text::is_white(#[trigger] room[i])
        };
    if kept.len() > 0 {
        assert(room[a] == kept[0]);
    } else {
        assert forall|i: int| 0 <= i < room.len() implies text::is_white(#[trigger] room[i]) by {
            assert(i < a || b <= i);
        }
    }
}

/// Every refusal has a text of its own, by which it is known.
pub proof fn law_refusals_are_told_apart(err: WebError)
    ensures
        err.text() == "invalid credentials"@ <==> err == WebError::InvalidCredentials,
        err.text() == "internal"@ <==> err == WebError::Internal,
        err.text() == "banned"@ <==> err == WebError::Banned,
        err.text() == "admin only"@ <==> err == WebError::AdminOnly,
        err.text() == "unauthorized"@ <==> err == WebError::Unauthorized,
        err.text() == "room required"@ <==> err == WebError::RoomRequired,
        err.text() == "default_room must not be empty"@ <==> err == WebError::DefaultRoomEmpty,
        err.text() == "failed to save config"@ <==> err == WebError::SaveFailed,
{
    reveal_strlit("invalid credentials");
    assert("invalid credentials"@.len() == 19 && "invalid credentials"@[0] == 'i');
    reveal_strlit("internal");
    assert("internal"@.len() == 8 && "internal"@[0] == 'i');
    reveal_strlit("banned");
    assert("banned"@.len() == 6 && "banned"@[0] == 'b');
    reveal_strlit("admin only");
    assert("admin only"@.len() == 10 && "admin only"@[0] == 'a');
    reveal_strlit("unauthorized");
    assert("unauthorized"@.len() == 12 && "unauthorized"@[0] == 'u');
    reveal_strlit("room required");
    assert("room required"@.len() == 13 && "room required"@[0] == 'r');
    reveal_strlit("default_room must not be empty");
    assert("default_room must not be empty"@.len() == 30 && "default_room must not be empty"@[0] == 'd');
    reveal_strlit("failed to save config");
    assert("failed to save config"@.len() == 21 && "failed to save config"@[0] == 'f');
}

/// The user to look up is the one whose session the header names, so that a request that is
/// somebody's is judged by that user's record.
pub proof fn law_claim_comes_first(
    tokens: Map<Seq<char>, Seq<char>>,
    header: Option<Seq<char>>,
    token: Seq<char>,
    found: LookupView,
)
    ensures
        requester(tokens, header, found) is Some ==> claimed(tokens, header) == requester(
            tokens,
            header,
            found,
        ),
        header == Some("Bearer "@ + token) && tokens.contains_key(token) ==> claimed(tokens, header)
            == Some(tokens[token]),
        header == Some("Bearer "@ + token) && !tokens.contains_key(token) ==> claimed(
            tokens,
            header,
        ) is None,
        header is None ==> claimed(tokens, header) is None,
        header is Some && !"Bearer "@.is_prefix_of(header->0) ==> claimed(tokens, header) is None,
{
    let scheme = "Bearer "@;
    if header == Some(scheme + token) {
        assert(header->0.skip(scheme.len() as int) =~= token);
        assert(scheme.is_prefix_of(scheme + token));
    }
}

/// Who is online is listed once, in ascending order, and with the role in force.
pub proof fn law_online_is_true(st: StateView)
    requires
        st.valid(),
    ensures
        outcomes::lists_those(
            st.online_roles().map_values(|entry: (Seq<char>, Role)| entry.0),
            |user: Seq<char>| st.online.contains_key(user),
        ),
        forall|i: int|
            0 <= i < st.online_roles().len() ==> (#[trigger] st.online_roles()[i]).1
                == st.online[st.online_roles()[i].0].role,
{
    names::lemma_listing_exists(st.online.dom());
    assert(st.online_roles().map_values(|entry: (Seq<char>, Role)| entry.0) =~= st.online_names());
}

} // verus!
