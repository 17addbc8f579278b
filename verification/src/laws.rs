//! What holds of the server as a whole, whatever it is asked.

use vstd::prelude::*;

use crate::auth;
use crate::auth::AuthError;
use crate::config::ConfigView;
use crate::db::{DbWriteView, LookupView, UserRecordView};
use crate::envelope::{FrameView, PROTOCOL_VERSION};
use crate::error::{ErrorCode, ProtocolErrorView};
use crate::handle;
use crate::message::{HistoryItemView, MessageView, Role};
use crate::model;
use crate::model::{OutputView, SessionView, StateView, HISTORY_CAP};
use crate::names;
use crate::step::{AfterHashView, AfterLookupView, AfterWriteView, StepView};
use crate::terminal::{AfterTermWriteView, ClientRequestView, TermReplyView, TermStepView};
use crate::text;

verus! {

/// Whether something handed out is a frame with this id for this connection.
pub open spec fn answers(output: OutputView, conn: u64, id: u64) -> bool {
    output matches OutputView::Send { conn: to, frame } && to == conn && frame.id == id
}

/// How many frames with this id have been handed out for this connection.
pub open spec fn answered(out: Seq<OutputView>, conn: u64, id: u64) -> nat {
    out.filter(|output: OutputView| answers(output, conn, id)).len()
}

proof fn lemma_answered_step(out: Seq<OutputView>, output: OutputView, conn: u64, id: u64)
    ensures
        answered(out.push(output), conn, id) == answered(out, conn, id) + if answers(
            output,
            conn,
            id,
        ) {
            1nat
        } else {
            0nat
        },
{
    reveal(Seq::filter);
    assert(out.push(output).drop_last() =~= out);
}

/// Counts the answers along a chain of outputs.
broadcast proof fn lemma_answered(st: StateView, output: OutputView, conn: u64, id: u64)
    ensures
        #[trigger] answered(st.put(output).out, conn, id) == answered(st.out, conn, id)
            + if answers(output, conn, id) {
            1nat
        } else {
            0nat
        },
{
    lemma_answered_step(st.out, output, conn, id);
}

/// How many answers a request has been given when it stops with this step: one where it is done,
/// none otherwise.
pub open spec fn given(step: StepView) -> nat {
    if step is Done {
        1
    } else {
        0
    }
}

/// A request with an id is answered on its own connection, with that id, exactly once: at once
/// where it is done, and not yet where something is still needed.
pub proof fn law_one_answer(
    st: StateView,
    conn: u64,
    identity: Option<(Seq<char>, Role)>,
    id: u64,
    msg: MessageView,
    now: i64,
)
    requires
        id != 0,
    ensures
        ({
            let (after, _, step) = st.handled(conn, identity, id, msg, now);
            answered(after.out, conn, id) == answered(st.out, conn, id) + given(step)
        }),
{
    broadcast use lemma_answered;

}

/// A request that waited for a lookup, a hash, a token or the database is answered on its own
/// connection, with its id, exactly once: when it is done, and not before.
pub proof fn law_one_answer_later(
    st: StateView,
    conn: u64,
    id: u64,
    username: Seq<char>,
    role: Role,
    after_lookup: AfterLookupView,
    found: LookupView,
    password_matches: bool,
    after_hash: AfterHashView,
    hash: Result<Seq<char>, AuthError>,
    token: Option<Seq<char>>,
    after_write: AfterWriteView,
    written: bool,
    err: ProtocolErrorView,
)
    requires
        id != 0,
    ensures
        ({
            let (after, step) = st.on_lookup(
                conn,
                id,
                username,
                after_lookup,
                found,
                password_matches,
            );
            answered(after.out, conn, id) == answered(st.out, conn, id) + given(step)
        }),
        ({
            let (after, step) = st.on_hash(conn, id, after_hash, hash);
            answered(after.out, conn, id) == answered(st.out, conn, id) + given(step)
        }),
        ({
            let (after, step) = st.on_token(conn, id, username, role, token);
            answered(after.out, conn, id) == answered(st.out, conn, id) + given(step)
        }),
        answered(st.on_write(conn, id, after_write, written).out, conn, id) == answered(
            st.out,
            conn,
            id,
        ) + 1,
        answered(st.refuse(conn, id, err).out, conn, id) == answered(st.out, conn, id) + 1,
{
    broadcast use lemma_answered;

}

/// Whether something handed out refuses a request.
pub open spec fn refuses(output: OutputView, conn: u64, id: u64) -> bool {
    answers(output, conn, id) && output->Send_frame.msg is Error
}

/// Whether a request has been refused.
pub open spec fn refused(before: StateView, after: StateView, conn: u64, id: u64) -> bool {
    exists|i: int|
        before.out.len() <= i < after.out.len() && refuses(#[trigger] after.out[i], conn, id)
}

/// Whether the two states differ in nothing but one frame that has been handed out since.
pub open spec fn only_said(before: StateView, after: StateView) -> bool {
    &&& after.out.len() == before.out.len() + 1
    &&& after == StateView { out: after.out, ..before }
    &&& before.out == after.out.drop_last()
}

/// A request that is refused changes nothing: who is online, the rooms, the sessions, what is
/// kept and who the connection is are as before, and the refusal is all that is handed out.
pub proof fn law_refusal_changes_nothing(
    st: StateView,
    conn: u64,
    identity: Option<(Seq<char>, Role)>,
    id: u64,
    msg: MessageView,
    now: i64,
)
    ensures
        ({
            let (after, who, step) = st.handled(conn, identity, id, msg, now);
            refused(st, after, conn, id) ==> only_said(st, after) && who == identity
                && step is Done
        }),
{
    let (after, who, step) = st.handled(conn, identity, id, msg, now);
    if refused(st, after, conn, id) {
        let i = choose|i: int|
            st.out.len() <= i < after.out.len() && refuses(#[trigger] after.out[i], conn, id);
        assert(refuses(after.out[i], conn, id));
        assert(after.out.drop_last() =~= st.out);
    }
}

/// The same for a request that waited for a lookup, a hash, a token or the database.
pub proof fn law_later_refusal_changes_nothing(
    st: StateView,
    conn: u64,
    id: u64,
    username: Seq<char>,
    after_lookup: AfterLookupView,
    found: LookupView,
    password_matches: bool,
    after_hash: AfterHashView,
    hash: Result<Seq<char>, AuthError>,
    role: Role,
    token: Option<Seq<char>>,
    after_write: AfterWriteView,
    written: bool,
)
    ensures
        ({
            let (after, step) = st.on_lookup(
                conn,
                id,
                username,
                after_lookup,
                found,
                password_matches,
            );
            refused(st, after, conn, id) ==> only_said(st, after) && step is Done
        }),
        ({
            let (after, step) = st.on_hash(conn, id, after_hash, hash);
            refused(st, after, conn, id) ==> only_said(st, after) && step is Done
        }),
        ({
            let (after, step) = st.on_token(conn, id, username, role, token);
            refused(st, after, conn, id) ==> only_said(st, after) && step is Done
        }),
        ({
            let after = st.on_write(conn, id, after_write, written);
            refused(st, after, conn, id) ==> only_said(st, after)
        }),
{
    let (after, _) = st.on_lookup(conn, id, username, after_lookup, found, password_matches);
    if refused(st, after, conn, id) {
        assert(after.out.drop_last() =~= st.out);
    }
    let (after, _) = st.on_hash(conn, id, after_hash, hash);
    if refused(st, after, conn, id) {
        assert(after.out.drop_last() =~= st.out);
    }
    let (after, _) = st.on_token(conn, id, username, role, token);
    if refused(st, after, conn, id) {
        let i = choose|i: int|
            st.out.len() <= i < after.out.len() && refuses(#[trigger] after.out[i], conn, id);
        assert(refuses(after.out[i], conn, id));
        assert(after.out.drop_last() =~= st.out);
    }
    let after = st.on_write(conn, id, after_write, written);
    if refused(st, after, conn, id) {
        let i = choose|i: int|
            st.out.len() <= i < after.out.len() && refuses(#[trigger] after.out[i], conn, id);
        assert(refuses(after.out[i], conn, id));
        assert(after.out.drop_last() =~= st.out);
    }
}

/// Whether all that has been handed out since is of this protocol version, and is a push without
/// an id or an answer with this id on this connection.
pub open spec fn correlated(before: StateView, after: StateView, conn: u64, id: u64) -> bool {
    forall|i: int|
        before.out.len() <= i < after.out.len() ==> match #[trigger] after.out[i] {
            OutputView::Send { conn: to, frame } => frame.ver == PROTOCOL_VERSION && (frame.id == 0
                || to == conn && frame.id == id),
            OutputView::Publish { frame, .. } => frame.ver == PROTOCOL_VERSION && frame.id == 0,
            OutputView::Persist(_) => true,
        }
}

proof fn lemma_correlated(
    st: StateView,
    conn: u64,
    identity: Option<(Seq<char>, Role)>,
    id: u64,
    msg: MessageView,
    now: i64,
)
    ensures
        correlated(st, st.handled(conn, identity, id, msg, now).0, conn, id),
{
}

/// Only the connection that asked sees the id of its request; everything else is a push.
pub proof fn law_pushes_have_no_id(
    st: StateView,
    conn: u64,
    identity: Option<(Seq<char>, Role)>,
    id: u64,
    msg: MessageView,
    now: i64,
    username: Seq<char>,
    role: Role,
    token: Option<Seq<char>>,
    after_lookup: AfterLookupView,
    found: LookupView,
    password_matches: bool,
    after_hash: AfterHashView,
    hash: Result<Seq<char>, AuthError>,
    after_write: AfterWriteView,
    written: bool,
    err: ProtocolErrorView,
)
    ensures
        correlated(
            st,
            st.on_lookup(conn, id, username, after_lookup, found, password_matches).0,
            conn,
            id,
        ),
        correlated(st, st.on_hash(conn, id, after_hash, hash).0, conn, id),
        correlated(st, st.refuse(conn, id, err), conn, id),
        correlated(st, st.handled(conn, identity, id, msg, now).0, conn, id),
        correlated(st, st.on_token(conn, id, username, role, token).0, conn, id),
        correlated(st, st.on_write(conn, id, after_write, written), conn, id),
{
    lemma_correlated(st, conn, identity, id, msg, now);
}

/// Who a connection is changes only when a session is resumed or ended; a login does it when its
/// token has been made.
pub proof fn law_identity_is_kept(
    st: StateView,
    conn: u64,
    identity: Option<(Seq<char>, Role)>,
    id: u64,
    msg: MessageView,
    now: i64,
)
    requires
        !(msg is Resume || msg is Logout),
    ensures
        st.handled(conn, identity, id, msg, now).1 == identity,
{
}

/// Without a login every request but those to log in, register and resume is refused.
pub proof fn law_login_comes_first(
    st: StateView,
    conn: u64,
    id: u64,
    msg: MessageView,
    now: i64,
)
    requires
        !(msg is Login || msg is Register || msg is Resume),
    ensures
        st.handled(conn, None, id, msg, now) == (
            st.refuse(conn, id, ProtocolErrorView::plain(ErrorCode::NotAuthenticated)),
            None::<(Seq<char>, Role)>,
            StepView::Done,
        ),
{
}

/// The lowest role that may make a request.
pub open spec fn needed(msg: MessageView) -> Role {
    match msg {
        MessageView::RoomCreate { .. } | MessageView::UserKick { .. } => Role::Manager,
        MessageView::RoomDelete { .. }
        | MessageView::AdminUserCreate { .. }
        | MessageView::AdminSetPwd { .. }
        | MessageView::AdminSetRole { .. }
        | MessageView::AdminUserDelete { .. }
        | MessageView::AdminUserBan { .. }
        | MessageView::AdminUserRestore { .. } => Role::Admin,
        _ => Role::User,
    }
}

/// Who has not the role that a request needs is refused, and nothing else happens.
pub proof fn law_roles_are_needed(
    st: StateView,
    conn: u64,
    user: Seq<char>,
    role: Role,
    id: u64,
    msg: MessageView,
    now: i64,
)
    requires
        role.level() < needed(msg).level(),
    ensures
        st.handled(conn, Some((user, role)), id, msg, now) == (
            st.refuse(conn, id, ProtocolErrorView::plain(ErrorCode::Forbidden)),
            Some((user, role)),
            StepView::Done,
        ),
{
}

/// A login succeeds exactly for a user who is known, gives the right password, is not banned, is
/// an administrator where the server is locked, and is not online already.
pub proof fn law_who_may_log_in(
    st: StateView,
    username: Seq<char>,
    found: LookupView,
    password_matches: bool,
)
    ensures
        st.login_refusal(username, found, password_matches) is None <==> {
            &&& found is Found
            &&& password_matches
            &&& found->Found_0.banned == 0
            &&& st.cfg.lock_server ==> model::role_of(found->Found_0.role) == Role::Admin
            &&& !st.online.contains_key(username)
        },
{
}

/// Who has logged in is online under the role given, receives on this connection, is in the
/// default room, and holds a session; nobody else is touched.
pub proof fn law_after_login(
    st: StateView,
    conn: u64,
    id: u64,
    username: Seq<char>,
    role: Role,
    token: Seq<char>,
)
    ensures
        ({
            let after = st.logged_in(conn, id, username, role, token);
            &&& after.online.contains_key(username)
            &&& after.online[username].role == role
            &&& after.online[username].conn == conn
            &&& after.in_room(st.cfg.default_room, username)
            &&& after.sessions.contains_key(token)
            &&& after.sessions[token] == (SessionView { username, role, returns_as: Some(role) })
            &&& forall|other: Seq<char>|
                other != username ==> after.online.contains_key(other) == st.online.contains_key(
                    other,
                ) && (st.online.contains_key(other) ==> after.online[other] == st.online[other])
            &&& forall|other: Seq<char>, room: Seq<char>|
                other != username ==> after.in_room(room, other) == st.in_room(room, other)
        }),
{
}

/// A user is let in once: where two logins of one user have both come as far as a token, the
/// second one is refused, and its connection is nobody.
pub proof fn law_one_login_per_user(
    st: StateView,
    conn: u64,
    id: u64,
    username: Seq<char>,
    role: Role,
    token: Seq<char>,
    other_conn: u64,
    other_id: u64,
    other_role: Role,
    other_token: Option<Seq<char>>,
)
    ensures
        ({
            let after = st.logged_in(conn, id, username, role, token);
            after.on_token(other_conn, other_id, username, other_role, other_token) == (
                after.refuse(
                    other_conn,
                    other_id,
                    ProtocolErrorView::saying(ErrorCode::Conflict, "already online"@),
                ),
                StepView::Done,
            )
        }),
{
}

/// A token is good exactly where it stands for a session and its user is online, or the session
/// has not ended and the server is not locked, unless the user comes back as an administrator.
pub proof fn law_who_may_resume(st: StateView, token: Seq<char>)
    ensures
        st.resume_refusal(token) is None <==> {
            &&& st.sessions.contains_key(token)
            &&& ({
                let info = st.sessions[token];
                ||| st.online.contains_key(info.username)
                ||| info.returns_as is Some && (st.cfg.lock_server ==> info.returns_as == Some(
                    Role::Admin,
                ))
            })
        },
{
}

/// A token that is good resumes its session, on whatever connection: the connection is the user
/// of the session, the user is online, and the request is answered, followed by the rooms and the
/// new list. A user who was not online receives on this connection from then on, and is in the
/// default room.
pub proof fn law_token_resumes(st: StateView, conn: u64, id: u64, token: Seq<char>)
    requires
        st.resume_refusal(token) is None,
    ensures
        ({
            let info = st.sessions[token];
            let user = info.username;
            let role = st.resumed_role(info)->0;
            let (after, who) = st.resumed(conn, id, None, token);
            let n = st.out.len() as int;
            &&& who == Some((user, role))
            &&& after.online.contains_key(user)
            &&& if st.online.contains_key(user) {
                role == info.role && after.online == st.online && after.rooms == st.rooms
            } else {
                Some(role) == info.returns_as && after.online[user].role == role
                    && after.online[user].conn == conn && after.in_room(st.cfg.default_room, user)
            }
            &&& after.out.len() == n + 3
            &&& after.out[n] == (OutputView::Send {
                conn,
                frame: FrameView::of(
                    id,
                    MessageView::ResumeRes { username: user, roles: seq![role] },
                ),
            })
            &&& after.out[n + 1] == (OutputView::Send {
                conn,
                frame: FrameView::push(
                    MessageView::RoomListRes {
                        rooms: after.room_names(),
                        mine: after.rooms_of(user),
                    },
                ),
            })
            &&& after.out[n + 2] is Publish
            &&& after.out[n + 2]->Publish_frame == FrameView::push(
                MessageView::PushUserManifest { users: after.online_names() },
            )
        }),
{
    let info = st.sessions[token];
    let entered = st.back(conn, info.username, st.resumed_role(info)->0);
    let (after, _) = st.resumed(conn, id, None, token);
    lemma_same_rooms_of(entered, after, info.username);
}

proof fn lemma_same_rooms_of(a: StateView, b: StateView, user: Seq<char>)
    requires
        a.rooms == b.rooms,
    ensures
        a.rooms_of(user) == b.rooms_of(user),
{
    assert((|room: Seq<char>| a.rooms[room].contains(user)) =~= (|room: Seq<char>|
        b.rooms[room].contains(user)));
}

/// A user who has logged in and lost the connection comes back with the token of the login, as
/// long as the server has not been locked against the user.
pub proof fn law_token_survives_the_connection(
    st: StateView,
    conn: u64,
    id: u64,
    username: Seq<char>,
    role: Role,
    token: Seq<char>,
    new_conn: u64,
    new_id: u64,
)
    requires
        st.cfg.lock_server ==> role == Role::Admin,
    ensures
        ({
            let gone = st.logged_in(conn, id, username, role, token).disconnected(
                Some((username, role)),
            );
            let (after, who) = gone.resumed(new_conn, new_id, None, token);
            &&& !gone.online.contains_key(username)
            &&& who == Some((username, role))
            &&& after.online.contains_key(username)
            &&& after.online[username].role == role
            &&& after.online[username].conn == new_conn
            &&& after.in_room(st.cfg.default_room, username)
            &&& after.out[gone.out.len() as int] == (OutputView::Send {
                conn: new_conn,
                frame: FrameView::of(
                    new_id,
                    MessageView::ResumeRes { username, roles: seq![role] },
                ),
            })
        }),
{
}

/// A session lasts until its user logs out, is kicked, banned or deleted: no other request ends
/// it, and neither does the end of a connection. Whose it is and the role of the login never
/// change, and the role with which it brings the user back only with the role of the user.
pub proof fn law_sessions_last(
    st: StateView,
    token: Seq<char>,
    conn: u64,
    identity: Option<(Seq<char>, Role)>,
    id: u64,
    msg: MessageView,
    now: i64,
    after_write: AfterWriteView,
    written: bool,
)
    requires
        st.sessions.contains_key(token),
    ensures
        ({
            let info = st.sessions[token];
            let user = info.username;
            let after = st.handled(conn, identity, id, msg, now).0;
            let wrote = st.on_write(conn, id, after_write, written);
            let gone = st.disconnected(identity);
            &&& after.sessions.contains_key(token)
            &&& after.sessions[token].username == user && after.sessions[token].role == info.role
            &&& wrote.sessions.contains_key(token)
            &&& wrote.sessions[token].username == user && wrote.sessions[token].role == info.role
            &&& !(msg is Logout && (identity matches Some((name, _)) && name == user)) && !(msg matches
                MessageView::UserKick { target, .. } && target == user) ==> after.sessions[token]
                == info
            &&& match after_write {
                AfterWriteView::Ban { target, .. } => target != user ==> wrote.sessions[token]
                    == info,
                AfterWriteView::Delete { target } => target != user ==> wrote.sessions[token]
                    == info,
                AfterWriteView::SetRole { target, role } => wrote.sessions[token] == if written {
                    info.revised(target, Some(role))
                } else {
                    info
                },
                _ => wrote.sessions[token] == info,
            }
            &&& gone.sessions == st.sessions
        }),
{
}

/// A user whose role has been changed comes back with the new role, whether the user was online
/// at that time or not, and whoever changed it; a session that has ended stays so.
pub proof fn law_role_reaches_sessions(
    st: StateView,
    token: Seq<char>,
    conn: u64,
    id: u64,
    role: Role,
    name: Seq<char>,
    was: Role,
)
    requires
        st.sessions.contains_key(token),
    ensures
        ({
            let info = st.sessions[token];
            let target = info.username;
            let changed = st.on_write(conn, id, AfterWriteView::SetRole { target, role }, true);
            let gone = changed.disconnected(Some((target, was)));
            let term_gone = st.term_on_write(
                AfterTermWriteView::SetRole { target, role: name },
                true,
            ).0.disconnected(Some((target, was)));
            &&& !gone.online.contains_key(target)
            &&& gone.resumed_role(gone.sessions[token]) == if info.returns_as is Some {
                Some(role)
            } else {
                None
            }
            &&& !term_gone.online.contains_key(target)
            &&& term_gone.resumed_role(term_gone.sessions[token]) == if info.returns_as is Some {
                Some(model::role_of(name))
            } else {
                None
            }
        }),
{
}

/// Whether a token is refused.
pub open spec fn token_refused(st: StateView, token: Seq<char>) -> bool {
    forall|conn: u64, id: u64| #[trigger]
        st.resumed(conn, id, None, token) == (
            st.refuse(conn, id, ProtocolErrorView::plain(ErrorCode::NotAuthenticated)),
            None::<(Seq<char>, Role)>,
        )
}

/// Once a user has logged out, or been kicked, banned or deleted, the tokens of that user are
/// refused for as long as the user is not online.
pub proof fn law_token_ends_with_the_session(
    st: StateView,
    token: Seq<char>,
    conn: u64,
    id: u64,
    user: Seq<char>,
    role: Role,
    target: Seq<char>,
    reason: Option<Seq<char>>,
    now: i64,
)
    requires
        st.sessions.contains_key(token) ==> st.sessions[token].username == target,
    ensures
        ({
            let left = st.handled(conn, Some((target, role)), id, MessageView::Logout, now).0;
            let kicked = st.kicked(conn, id, user, role, target, reason);
            let banned = st.on_write(conn, id, AfterWriteView::Ban { target, reason }, true);
            let deleted = st.on_write(conn, id, AfterWriteView::Delete { target }, true);
            let term_banned = st.term_on_write(AfterTermWriteView::Ban { target, reason }, true);
            &&& token_refused(left, token)
            &&& !refused(st, kicked, conn, id) ==> token_refused(kicked, token)
            &&& token_refused(banned, token)
            &&& token_refused(deleted, token)
            &&& st.online.contains_key(target) && target.len() > 0 && target != "admin"@
                ==> token_refused(st.term_kick(target).0, token)
            &&& token_refused(term_banned.0, token)
        }),
{
    let kicked = st.kicked(conn, id, user, role, target, reason);
    if kicked.out.len() == st.out.len() + 1 {
        assert(refuses(kicked.out[st.out.len() as int], conn, id));
    }
}

/// The account that a registration writes lets its owner in with the same password.
pub proof fn law_registered_may_log_in(
    st: StateView,
    conn: u64,
    id: u64,
    username: Seq<char>,
    password: Seq<char>,
    hash: Seq<char>,
)
    requires
        auth::may_hash(password, Ok(hash)),
        !st.cfg.lock_server,
        !st.online.contains_key(username),
    ensures
        ({
            let record = UserRecordView {
                username,
                password_hash: hash,
                role: "user"@,
                banned: 0,
            };
            &&& st.on_hash(conn, id, AfterHashView::Register { username }, Ok(hash)) == (
                st,
                StepView::Write {
                    write: DbWriteView::CreateUser {
                        username,
                        password_hash: hash,
                        role: record.role,
                    },
                    then: AfterWriteView::Register { username },
                },
            )
            &&& st.login_refusal(
                username,
                LookupView::Found(record),
                handle::matches_found(password, LookupView::Found(record)),
            ) is None
        }),
{
}

/// Whether what is kept of a room carries its name and ascending numbers below the next one.
pub open spec fn numbered(items: Seq<HistoryItemView>, room: Seq<char>, next: u64) -> bool {
    &&& forall|i: int|
        0 <= i < items.len() ==> #[trigger] items[i].seq < next && items[i].room == room
    &&& forall|i: int, j: int| 0 <= i < j < items.len() ==> items[i].seq < items[j].seq
}

impl StateView {
    /// What holds of the state at all times: finitely many users and rooms, a bounded number of
    /// messages kept of each room, and the messages in the order of their numbers.
    pub open spec fn valid(self) -> bool {
        &&& self.online.dom().finite()
        &&& self.rooms.dom().finite()
        &&& forall|room: Seq<char>| #[trigger] self.members(room).finite()
        &&& forall|room: Seq<char>| #[trigger] self.kept(room).len() <= HISTORY_CAP
        &&& forall|room: Seq<char>| numbered(#[trigger] self.kept(room), room, self.next_seq)
    }
}

/// A server that starts is valid.
pub proof fn law_start_is_valid(
    cfg: ConfigView,
    version: Seq<char>,
    started_at: i64,
)
    ensures
        StateView::start(cfg, version, started_at).valid(),
{
}

proof fn lemma_text_keeps_valid(
    st: StateView,
    from: Seq<char>,
    room: Seq<char>,
    body: Seq<char>,
    ts: i64,
)
    requires
        st.valid(),
        st.next_seq < u64::MAX,
    ensures
        st.broadcast_text(from, room, body, ts).valid(),
        st.broadcast_text(from, room, body, ts).next_seq == st.next_seq + 1,
        st.broadcast_text(from, room, body, ts).kept(room) == model::last_n(
            st.kept(room).push(HistoryItemView { seq: st.next_seq, room, from, body, ts }),
            HISTORY_CAP as nat,
        ),
        forall|other: Seq<char>|
            other != room ==> #[trigger] st.broadcast_text(from, room, body, ts).kept(other)
                == st.kept(other),
{
    let after = st.broadcast_text(from, room, body, ts);
    let item = HistoryItemView { seq: st.next_seq, room, from, body, ts };
    let all = st.kept(room).push(item);
    assert(after.next_seq == st.next_seq + 1);
    assert forall|other: Seq<char>| other != room implies #[trigger] after.kept(other) == st.kept(
        other,
    ) by {}
    assert(after.kept(room) == model::last_n(all, HISTORY_CAP as nat));
    assert(numbered(all, room, after.next_seq)) by {
        assert(numbered(st.kept(room), room, st.next_seq));
    }
    assert(numbered(after.kept(room), room, after.next_seq));
    assert forall|other: Seq<char>| numbered(
        #[trigger] after.kept(other),
        other,
        after.next_seq,
    ) by {
        assert(numbered(st.kept(other), other, st.next_seq));
    }
    assert forall|other: Seq<char>| #[trigger] after.members(other).finite() by {
        assert(after.members(other) == st.members(other));
    }
}

proof fn lemma_room_keeps_valid(st: StateView, room: Seq<char>, user: Seq<char>)
    requires
        st.valid(),
    ensures
        st.create_room(room, user).valid(),
        st.add_to_room(user, room).valid(),
        st.remove_from_room(user, room).valid(),
        st.delete_room(room).valid(),
        st.unregister(user).valid(),
{
    let made = st.create_room(room, user);
    assert forall|other: Seq<char>| #[trigger] made.members(other).finite() by {
        assert(st.members(other).finite());
    }
    assert forall|other: Seq<char>| #[trigger] made.kept(other) == st.kept(other) by {}
    let joined = st.add_to_room(user, room);
    assert forall|other: Seq<char>| #[trigger] joined.members(other).finite() by {
        assert(st.members(other).finite());
    }
    assert forall|other: Seq<char>| #[trigger] joined.kept(other) == st.kept(other) by {}
    let left = st.remove_from_room(user, room);
    assert forall|other: Seq<char>| #[trigger] left.members(other).finite() by {
        assert(st.members(other).finite());
    }
    assert forall|other: Seq<char>| #[trigger] left.kept(other) == st.kept(other) by {}
    let gone = st.delete_room(room);
    assert forall|other: Seq<char>| #[trigger] gone.members(other).finite() by {
        assert(st.members(other).finite());
    }
    assert forall|other: Seq<char>| #[trigger]
        gone.kept(other).len() <= HISTORY_CAP && numbered(
            gone.kept(other),
            other,
            gone.next_seq,
        ) by {
        assert(numbered(st.kept(other), other, st.next_seq));
        assert(st.kept(other).len() <= HISTORY_CAP);
    }
    let off = st.unregister(user);
    assert(off.rooms.dom() =~= st.rooms.dom());
    assert forall|other: Seq<char>| #[trigger] off.members(other).finite() by {
        assert(st.members(other).finite());
    }
    assert forall|other: Seq<char>| #[trigger] off.kept(other) == st.kept(other) by {}
}

/// What is handed out does not matter to validity, and neither do the sessions, the roles and the
/// next user id.
proof fn lemma_same_valid(a: StateView, b: StateView)
    requires
        a.valid(),
        b.rooms == a.rooms,
        b.history == a.history,
        b.next_seq == a.next_seq,
        b.online.dom().finite(),
    ensures
        b.valid(),
{
    assert forall|room: Seq<char>| #[trigger] b.members(room) == a.members(room) by {}
    assert forall|room: Seq<char>| #[trigger] b.kept(room) == a.kept(room) by {}
}

/// Every request keeps the state valid, as long as the numbers last.
pub proof fn law_requests_keep_validity(
    st: StateView,
    conn: u64,
    identity: Option<(Seq<char>, Role)>,
    id: u64,
    msg: MessageView,
    now: i64,
)
    requires
        st.valid(),
        st.next_seq < u64::MAX,
    ensures
        st.handled(conn, identity, id, msg, now).0.valid(),
        st.disconnected(identity).valid(),
{
    let after = st.handled(conn, identity, id, msg, now).0;
    if let Some((user, _)) = identity {
        lemma_room_keeps_valid(st, user, user);
        lemma_same_valid(st.unregister(user), st.disconnected(identity));
        match msg {
            MessageView::SendText { room: Some(room), to: None, body } => {
                lemma_text_keeps_valid(st, user, room, body, now);
                if after.next_seq == st.next_seq {
                    lemma_same_valid(st, after);
                } else {
                    lemma_same_valid(st.broadcast_text(user, room, body, now), after);
                }
            },
            MessageView::RoomCreate { name } => {
                lemma_room_keeps_valid(st, name, user);
                if after.rooms == st.rooms {
                    lemma_same_valid(st, after);
                } else {
                    lemma_same_valid(st.create_room(name, user), after);
                }
            },
            MessageView::RoomJoin { name } => {
                lemma_room_keeps_valid(st, name, user);
                lemma_same_valid(st.add_to_room(user, name), after);
            },
            MessageView::RoomLeave { name } => {
                lemma_room_keeps_valid(st, name, user);
                if name == st.cfg.default_room {
                    lemma_same_valid(st, after);
                } else {
                    lemma_same_valid(st.remove_from_room(user, name), after);
                }
            },
            MessageView::RoomDelete { name } => {
                lemma_room_keeps_valid(st, name, user);
                if after.rooms == st.rooms && after.history == st.history {
                    lemma_same_valid(st, after);
                } else {
                    lemma_same_valid(st.delete_room(name), after);
                }
            },
            MessageView::UserKick { target, .. } => {
                lemma_room_keeps_valid(st, target, target);
                if after.online == st.online && after.rooms == st.rooms {
                    lemma_same_valid(st, after);
                } else {
                    lemma_same_valid(st.unregister(target), after);
                }
            },
            MessageView::Logout => {
                lemma_same_valid(st.unregister(user), after);
            },
            _ => {
                lemma_same_valid(st, after);
            },
        }
    } else if let MessageView::Resume { token } = msg {
        if st.resume_refusal(token) is None {
            let info = st.sessions[token];
            lemma_room_keeps_valid(st, st.cfg.default_room, info.username);
            if st.online.contains_key(info.username) {
                lemma_same_valid(st, after);
            } else {
                lemma_same_valid(st.create_room(st.cfg.default_room, info.username), after);
            }
        } else {
            lemma_same_valid(st, after);
        }
    } else {
        lemma_same_valid(st, after);
    }
}

/// What a request does once it has what it waited for keeps the state valid as well.
pub proof fn law_later_steps_keep_validity(
    st: StateView,
    conn: u64,
    id: u64,
    username: Seq<char>,
    role: Role,
    after_lookup: AfterLookupView,
    found: LookupView,
    password_matches: bool,
    after_hash: AfterHashView,
    hash: Result<Seq<char>, AuthError>,
    token: Option<Seq<char>>,
    after_write: AfterWriteView,
    written: bool,
)
    requires
        st.valid(),
    ensures
        st.on_lookup(conn, id, username, after_lookup, found, password_matches).0.valid(),
        st.on_hash(conn, id, after_hash, hash).0.valid(),
        st.on_token(conn, id, username, role, token).0.valid(),
        st.on_write(conn, id, after_write, written).valid(),
{
    lemma_same_valid(
        st,
        st.on_lookup(conn, id, username, after_lookup, found, password_matches).0,
    );
    lemma_same_valid(st, st.on_hash(conn, id, after_hash, hash).0);
    lemma_room_keeps_valid(st, st.cfg.default_room, username);
    let entered = st.on_token(conn, id, username, role, token).0;
    if token is Some && !st.online.contains_key(username) {
        lemma_same_valid(st.create_room(st.cfg.default_room, username), entered);
    } else {
        lemma_same_valid(st, entered);
    }
    let wrote = st.on_write(conn, id, after_write, written);
    let target = match after_write {
        AfterWriteView::Delete { target } => target,
        AfterWriteView::Ban { target, .. } => target,
        _ => username,
    };
    lemma_room_keeps_valid(st, target, target);
    if written && (after_write is Delete || after_write is Ban) && st.online.contains_key(target) {
        lemma_same_valid(st.unregister(target), wrote);
    } else {
        lemma_same_valid(st, wrote);
    }
}

/// Whether a connection is that of a user in the set who is online.
pub open spec fn serves(st: StateView, users: Set<Seq<char>>, conn: u64) -> bool {
    exists|user: Seq<char>|
        users.contains(user) && #[trigger] st.online.contains_key(user) && st.online[user].conn
            == conn
}

proof fn lemma_conns(st: StateView, users: Set<Seq<char>>)
    requires
        users.finite(),
    ensures
        forall|conn: u64| #[trigger]
            st.conns(names::listing(users)).contains(conn) <==> serves(st, users, conn),
{
    names::lemma_listing_exists(users);
    let listed = names::listing(users);
    let keep = |user: Seq<char>| st.online.contains_key(user);
    let there = listed.filter(keep);
    broadcast use vstd::seq_lib::group_filter_ensures;

    assert forall|conn: u64| #[trigger] st.conns(listed).contains(conn) <==> serves(
        st,
        users,
        conn,
    ) by {
        let conns = st.conns(listed);
        if conns.contains(conn) {
            let i = choose|i: int| 0 <= i < conns.len() && conns[i] == conn;
            let user = there[i];
            assert(keep(user));
            assert(there.contains(user));
            names::lemma_filter_from(listed, keep, i);
            assert(users.contains(user) && st.online.contains_key(user));
        }
        if serves(st, users, conn) {
            let user = choose|user: Seq<char>|
                users.contains(user) && #[trigger] st.online.contains_key(user)
                    && st.online[user].conn == conn;
            assert(listed.contains(user));
            let k = choose|k: int| 0 <= k < listed.len() && listed[k] == user;
            assert(keep(listed[k]));
            assert(there.contains(listed[k]));
            let i = choose|i: int| 0 <= i < there.len() && there[i] == user;
            assert(conns[i] == conn);
        }
    }
}

proof fn lemma_text_conns(
    st: StateView,
    from: Seq<char>,
    room: Seq<char>,
    body: Seq<char>,
    ts: i64,
)
    requires
        st.members(room).finite(),
    ensures
        ({
            let said = st.broadcast_text(from, room, body, ts).out.last();
            &&& said is Publish
            &&& forall|to: u64| #[trigger]
                said->Publish_conns.contains(to) <==> serves(st, st.members(room), to)
        }),
{
    lemma_conns(st, st.members(room));
    let listed = names::listing(st.members(room));
    let kept = StateView { next_seq: st.next_seq.wrapping_add(1), ..st }.push_history(
        room,
        HistoryItemView { seq: st.next_seq, room, from, body, ts },
    );
    assert((|u: Seq<char>| kept.online.contains_key(u)) =~= (|u: Seq<char>|
        st.online.contains_key(u)));
    assert((|u: Seq<char>| kept.online[u].conn) =~= (|u: Seq<char>| st.online[u].conn));
    assert(st.broadcast_text(from, room, body, ts).out.last()->Publish_conns == st.conns(listed));
}

/// A text for a room gets the next number, is published to exactly those members of the room who
/// are online, the sender among them, and is acknowledged with its number.
pub proof fn law_room_text_is_delivered(
    st: StateView,
    conn: u64,
    id: u64,
    user: Seq<char>,
    room: Seq<char>,
    body: Seq<char>,
    now: i64,
)
    requires
        st.valid(),
        st.in_room(room, user),
        body.len() > 0,
    ensures
        ({
            let after = st.sent_text(conn, id, user, Some(room), None, body, now);
            let published = after.out[st.out.len() as int];
            let seq = st.next_seq;
            &&& after.out.len() == st.out.len() + 2
            &&& published is Publish
            &&& published->Publish_frame == FrameView::push(
                MessageView::PushText { room, from: user, body, seq, ts: now },
            )
            &&& forall|to: u64| #[trigger]
                published->Publish_conns.contains(to) <==> serves(st, st.members(room), to)
            &&& st.online.contains_key(user) ==> published->Publish_conns.contains(
                st.online[user].conn,
            )
            &&& after.out.last() == (OutputView::Send {
                conn,
                frame: FrameView::of(id, MessageView::SendTextRes { seq, ts: now }),
            })
        }),
{
    assert(st.members(room).finite());
    lemma_text_conns(st, user, room, body, now);
    if st.online.contains_key(user) {
        assert(serves(st, st.members(room), st.online[user].conn));
    }
}

/// A text that an administrator says at the terminal takes its place in the same order: it gets
/// the next number, and is published to exactly those members of the room who are online.
pub proof fn law_terminal_text_is_delivered(
    st: StateView,
    room: Seq<char>,
    body: Seq<char>,
    now: i64,
)
    requires
        st.valid(),
        st.rooms.contains_key(room),
        body.len() > 0,
    ensures
        ({
            let (after, step) = st.term_chat(body, Some(room), now);
            let published = after.out.last();
            let seq = st.next_seq;
            &&& after.out.len() == st.out.len() + 1
            &&& published is Publish
            &&& published->Publish_frame == FrameView::push(
                MessageView::PushText { room, from: "Server"@, body, seq, ts: now },
            )
            &&& forall|to: u64| #[trigger]
                published->Publish_conns.contains(to) <==> serves(st, st.members(room), to)
            &&& step == TermStepView::Reply(TermReplyView::ChatAck { seq, ts: now })
        }),
{
    assert(st.members(room).finite());
    lemma_text_conns(st, "Server"@, room, body, now);
}

/// A text for a user goes to that user alone: nothing is published, nothing is kept, and the
/// sender gets an acknowledgement.
pub proof fn law_private_text_is_private(
    st: StateView,
    conn: u64,
    id: u64,
    user: Seq<char>,
    to: Seq<char>,
    body: Seq<char>,
    now: i64,
)
    requires
        st.online.contains_key(to),
        body.len() > 0,
    ensures
        ({
            let after = st.sent_text(conn, id, user, None, Some(to), body, now);
            after == StateView {
                out: st.out.push(
                    OutputView::Send {
                        conn: st.online[to].conn,
                        frame: FrameView::push(
                            MessageView::PushPrivate { from: user, body, ts: now },
                        ),
                    },
                ).push(
                    OutputView::Send {
                        conn,
                        frame: FrameView::of(id, MessageView::SendTextRes { seq: 0, ts: now }),
                    },
                ),
                ..st
            }
        }),
{
}

/// A text is for a room or for a user, and for one of the two only.
pub proof fn law_text_has_one_address(
    st: StateView,
    conn: u64,
    id: u64,
    user: Seq<char>,
    room: Option<Seq<char>>,
    to: Option<Seq<char>>,
    body: Seq<char>,
    now: i64,
)
    requires
        room is Some == to is Some,
    ensures
        refused(st, st.sent_text(conn, id, user, room, to, body, now), conn, id),
{
    let after = st.sent_text(conn, id, user, room, to, body, now);
    assert(refuses(after.out[st.out.len() as int], conn, id));
}

/// Numbers of texts ascend: a text that is published later has the higher number, in whatever
/// room, and what is kept of a room stays in that order and within its bound.
pub proof fn law_numbers_ascend(
    st: StateView,
    from: Seq<char>,
    room: Seq<char>,
    body: Seq<char>,
    ts: i64,
)
    requires
        st.valid(),
        st.next_seq < u64::MAX,
    ensures
        ({
            let after = st.broadcast_text(from, room, body, ts);
            &&& after.valid()
            &&& after.next_seq == st.next_seq + 1
            &&& after.kept(room).last().seq == st.next_seq
            &&& forall|other: Seq<char>, i: int|
                0 <= i < st.kept(other).len() ==> (#[trigger] st.kept(other)[i]).seq < st.next_seq
        }),
{
    lemma_text_keeps_valid(st, from, room, body, ts);
    let all = st.kept(room).push(
        HistoryItemView { seq: st.next_seq, room, from, body, ts },
    );
    assert(model::last_n(all, HISTORY_CAP as nat).last() == all.last());
    assert forall|other: Seq<char>, i: int| 0 <= i < st.kept(other).len() implies (
    #[trigger] st.kept(other)[i]).seq < st.next_seq by {
        assert(numbered(st.kept(other), other, st.next_seq));
    }
}

proof fn lemma_filter_all<T>(s: Seq<T>, keep: spec_fn(T) -> bool)
    requires
        forall|i: int| 0 <= i < s.len() ==> keep(#[trigger] s[i]),
    ensures
        s.filter(keep) == s,
    decreases s.len(),
{
    reveal(Seq::filter);
    if s.len() > 0 {
        lemma_filter_all(s.drop_last(), keep);
        assert(s =~= s.drop_last().push(s.last()));
    } else {
        assert(s =~= Seq::empty());
    }
}

/// What was said last in a room is what its history gives back: alone where one message is asked
/// for, and behind all that is kept where all are. Other rooms are as before.
pub proof fn law_history_gives_back(
    st: StateView,
    from: Seq<char>,
    room: Seq<char>,
    body: Seq<char>,
    ts: i64,
)
    ensures
        ({
            let after = st.broadcast_text(from, room, body, ts);
            let item = HistoryItemView { seq: st.next_seq, room, from, body, ts };
            &&& after.history_for(room, 1, None) == seq![item]
            &&& after.history_for(room, 0, None) == model::last_n(
                st.kept(room).push(item),
                HISTORY_CAP as nat,
            )
            &&& forall|other: Seq<char>, limit: u32, before: Option<u64>|
                other != room ==> #[trigger] after.history_for(other, limit, before)
                    == st.history_for(other, limit, before)
        }),
{
    let after = st.broadcast_text(from, room, body, ts);
    let item = HistoryItemView { seq: st.next_seq, room, from, body, ts };
    let all = model::last_n(st.kept(room).push(item), HISTORY_CAP as nat);
    assert(after.kept(room) == all);
    let none: Option<u64> = None;
    let keep = |i: HistoryItemView| none is None || i.seq < none->0;
    lemma_filter_all(all, keep);
    assert(all.last() == item);
    assert(model::last_n(all, 1) =~= seq![item]);
    assert forall|other: Seq<char>, limit: u32, before: Option<u64>|
        other != room implies #[trigger] after.history_for(other, limit, before)
        == st.history_for(other, limit, before) by {
        assert(after.kept(other) == st.kept(other));
    }
}

proof fn lemma_filter_prefix(items: Seq<HistoryItemView>, before: u64, n: int)
    requires
        0 <= n <= items.len(),
        forall|i: int| 0 <= i < n ==> #[trigger] items[i].seq < before,
        forall|i: int| n <= i < items.len() ==> #[trigger] items[i].seq >= before,
    ensures
        items.filter(|i: HistoryItemView| Some(before) is None || i.seq < Some(before)->0)
            == items.take(n),
    decreases items.len(),
{
    reveal(Seq::filter);
    if items.len() == 0 {
        assert(items.take(n) =~= Seq::empty());
    } else {
        let rest = items.drop_last();
        if n == items.len() {
            lemma_filter_prefix(rest, before, n - 1);
            assert(items.take(n) =~= rest.take(n - 1).push(items.last()));
        } else {
            lemma_filter_prefix(rest, before, n);
            assert(items.take(n) =~= rest.take(n));
        }
    }
}

/// A page of a history is the run of messages kept right before the number given, oldest first:
/// all of them where there is no limit, and at most so many otherwise.
pub proof fn law_history_page(st: StateView, room: Seq<char>, limit: u32, before: u64) -> (n: int)
    requires
        st.valid(),
    ensures
        0 <= n <= st.kept(room).len(),
        forall|i: int| 0 <= i < n ==> (#[trigger] st.kept(room)[i]).seq < before,
        forall|i: int| n <= i < st.kept(room).len() ==> (#[trigger] st.kept(room)[i]).seq >= before,
        st.history_for(room, limit, Some(before)) == if limit == 0 {
            st.kept(room).take(n)
        } else {
            model::last_n(st.kept(room).take(n), limit as nat)
        },
{
    let items = st.kept(room);
    assert(numbered(items, room, st.next_seq));
    let n = lemma_cut(items, before);
    lemma_filter_prefix(items, before, n);
    n
}

/// A history without a bound on the numbers is what is kept, or the last so many of it.
pub proof fn law_history_unpaged(st: StateView, room: Seq<char>, limit: u32)
    ensures
        st.history_for(room, limit, None) == if limit == 0 {
            st.kept(room)
        } else {
            model::last_n(st.kept(room), limit as nat)
        },
{
    let none: Option<u64> = None;
    lemma_filter_all(
        st.kept(room),
        |item: HistoryItemView| none is None || item.seq < none->0,
    );
}

/// Where ascending numbers pass a bound.
proof fn lemma_cut(items: Seq<HistoryItemView>, before: u64) -> (n: int)
    requires
        forall|i: int, j: int| 0 <= i < j < items.len() ==> items[i].seq < items[j].seq,
    ensures
        0 <= n <= items.len(),
        forall|i: int| 0 <= i < n ==> (#[trigger] items[i]).seq < before,
        forall|i: int| n <= i < items.len() ==> (#[trigger] items[i]).seq >= before,
    decreases items.len(),
{
    if items.len() == 0 {
        0
    } else if items.last().seq < before {
        items.len() as int
    } else {
        let rest = items.drop_last();
        let n = lemma_cut(rest, before);
        assert forall|i: int| 0 <= i < n implies (#[trigger] items[i]).seq < before by {
            assert(rest[i] == items[i]);
        }
        assert forall|i: int| n <= i < items.len() implies (#[trigger] items[i]).seq >= before by {
            if i < items.len() - 1 {
                assert(rest[i] == items[i]);
            }
        }
        n
    }
}

/// Who joins a room is in it; who leaves a room other than the default room is not in it any
/// more; and nobody else's rooms change.
pub proof fn law_join_and_leave(
    st: StateView,
    conn: u64,
    id: u64,
    user: Seq<char>,
    name: Seq<char>,
)
    ensures
        st.rooms.contains_key(name) ==> st.room_joined(conn, id, user, name).in_room(name, user),
        name != st.cfg.default_room ==> !st.room_left(conn, id, user, name).in_room(name, user),
        forall|room: Seq<char>, other: Seq<char>|
            room != name || other != user ==> {
                &&& st.room_joined(conn, id, user, name).in_room(room, other) == st.in_room(
                    room,
                    other,
                )
                &&& st.room_left(conn, id, user, name).in_room(room, other) == st.in_room(
                    room,
                    other,
                )
            },
{
}

/// A user who is in the default room stays in it, whatever the user asks for, short of logging
/// out or, as an administrator, deleting that room.
pub proof fn law_default_room_is_not_left(
    st: StateView,
    conn: u64,
    user: Seq<char>,
    role: Role,
    id: u64,
    msg: MessageView,
    now: i64,
)
    requires
        st.in_room(st.cfg.default_room, user),
        !(msg is Logout),
        msg matches MessageView::RoomDelete { name } ==> name != st.cfg.default_room,
    ensures
        st.handled(conn, Some((user, role)), id, msg, now).0.in_room(st.cfg.default_room, user),
{
}

/// Who goes offline is in no room any more, the rooms and the presence of everybody else are as
/// before, and the rooms themselves remain.
pub proof fn law_offline_means_out_of_all_rooms(st: StateView, user: Seq<char>)
    ensures
        !st.unregister(user).online.contains_key(user),
        forall|room: Seq<char>| !(#[trigger] st.unregister(user).in_room(room, user)),
        forall|room: Seq<char>, other: Seq<char>|
            other != user ==> #[trigger] st.unregister(user).in_room(room, other) == st.in_room(
                room,
                other,
            ),
        forall|other: Seq<char>|
            other != user ==> #[trigger] st.unregister(user).online.contains_key(other)
                == st.online.contains_key(other),
        forall|room: Seq<char>| #[trigger]
            st.unregister(user).rooms.contains_key(room) == st.rooms.contains_key(room),
{
}

/// When a connection ends, its user goes offline and everybody who is online is told who still
/// is.
pub proof fn law_disconnect_is_announced(st: StateView, user: Seq<char>, role: Role)
    requires
        st.valid(),
    ensures
        ({
            let after = st.disconnected(Some((user, role)));
            let said = after.out.last();
            &&& !after.online.contains_key(user)
            &&& forall|room: Seq<char>| !(#[trigger] after.in_room(room, user))
            &&& after.out.len() == st.out.len() + 1
            &&& said is Publish
            &&& said->Publish_frame.id == 0
            &&& said->Publish_frame.msg is PushUserManifest
            &&& names::lists(
                said->Publish_frame.msg->PushUserManifest_users,
                after.online.dom(),
            )
            &&& forall|conn: u64| #[trigger]
                said->Publish_conns.contains(conn) <==> serves(after, after.online.dom(), conn)
        }),
{
    let gone = st.unregister(user);
    names::lemma_listing_exists(gone.online.dom());
    lemma_conns(gone, gone.online.dom());
    let after = st.disconnected(Some((user, role)));
    assert(after == gone.broadcast_manifest());
    assert forall|conn: u64| serves(gone, gone.online.dom(), conn) <==> serves(
        after,
        after.online.dom(),
        conn,
    ) by {
        assert(after.online == gone.online);
        if serves(gone, gone.online.dom(), conn) {
            let u = choose|u: Seq<char>|
                gone.online.dom().contains(u) && #[trigger] gone.online.contains_key(u)
                    && gone.online[u].conn == conn;
            assert(after.online.contains_key(u));
        }
        if serves(after, after.online.dom(), conn) {
            let u = choose|u: Seq<char>|
                after.online.dom().contains(u) && #[trigger] after.online.contains_key(u)
                    && after.online[u].conn == conn;
            assert(gone.online.contains_key(u));
        }
    }
}

/// The account `admin` cannot be kicked, banned, deleted or given another role: no request of
/// anybody else takes it offline, and none asks the database for it.
pub proof fn law_admin_is_protected(
    st: StateView,
    conn: u64,
    identity: Option<(Seq<char>, Role)>,
    id: u64,
    msg: MessageView,
    now: i64,
)
    ensures
        ({
            let (after, _, step) = st.handled(conn, identity, id, msg, now);
            &&& (identity matches Some((user, _)) ==> user != "admin"@) && st.online.contains_key(
                "admin"@,
            ) ==> after.online.contains_key("admin"@) && after.online["admin"@]
                == st.online["admin"@]
            &&& step matches StepView::Write { write, .. } ==> {
                &&& write matches DbWriteView::DeleteUser { username } ==> username != "admin"@
                &&& write matches DbWriteView::SetRole { username, .. } ==> username != "admin"@
                &&& write matches DbWriteView::SetBanned { username, banned } ==> banned
                    ==> username != "admin"@
            }
        }),
{
}

/// Nobody kicks, bans or deletes themselves.
pub proof fn law_nobody_expels_themselves(
    st: StateView,
    conn: u64,
    user: Seq<char>,
    role: Role,
    id: u64,
    msg: MessageView,
    now: i64,
)
    requires
        !(msg is Logout),
        st.online.contains_key(user),
    ensures
        ({
            let (after, who, step) = st.handled(conn, Some((user, role)), id, msg, now);
            &&& after.online.contains_key(user)
            &&& after.online[user] == st.online[user]
            &&& who == Some((user, role))
            &&& step matches StepView::Write { write, .. } ==> {
                &&& write matches DbWriteView::DeleteUser { username } ==> username != user
                &&& write matches DbWriteView::SetBanned { username, banned } ==> banned
                    ==> username != user
            }
        }),
{
}

/// Who is banned or deleted goes offline, and so does who is kicked.
pub proof fn law_expelled_is_offline(
    st: StateView,
    conn: u64,
    id: u64,
    target: Seq<char>,
    reason: Option<Seq<char>>,
    user: Seq<char>,
    role: Role,
)
    ensures
        ({
            let banned = st.on_write(conn, id, AfterWriteView::Ban { target, reason }, true);
            let deleted = st.on_write(conn, id, AfterWriteView::Delete { target }, true);
            let kicked = st.kicked(conn, id, user, role, target, reason);
            &&& !banned.online.contains_key(target)
            &&& !deleted.online.contains_key(target)
            &&& kicked.online.contains_key(target) ==> refused(st, kicked, conn, id)
        }),
{
    let kicked = st.kicked(conn, id, user, role, target, reason);
    if kicked.online.contains_key(target) {
        assert(refuses(kicked.out[st.out.len() as int], conn, id));
    }
}

/// A room that is deleted is forgotten with all that was said in it: it is not there any more,
/// nobody is in it, and if it is created again, its history is empty.
pub proof fn law_deleted_room_is_forgotten(
    st: StateView,
    name: Seq<char>,
    user: Seq<char>,
    limit: u32,
    before: Option<u64>,
)
    ensures
        !st.delete_room(name).rooms.contains_key(name),
        forall|other: Seq<char>| !(#[trigger] st.delete_room(name).in_room(name, other)),
        st.delete_room(name).create_room(name, user).history_for(name, limit, before)
            == Seq::<HistoryItemView>::empty(),
        forall|room: Seq<char>|
            room != name ==> #[trigger] st.delete_room(name).members(room) == st.members(room)
                && st.delete_room(name).kept(room) == st.kept(room),
{
    reveal(Seq::filter);
    let again = st.delete_room(name).create_room(name, user);
    assert(again.kept(name) =~= Seq::empty());
}

/// The lists that are shown are right: all rooms, the rooms that a user is in, the users online
/// and the managers among them, each in ascending order.
pub proof fn law_lists_are_right(st: StateView, user: Seq<char>)
    requires
        st.valid(),
    ensures
        names::lists(st.room_names(), st.rooms.dom()),
        names::lists(st.online_names(), st.online.dom()),
        forall|room: Seq<char>| #[trigger]
            st.rooms_of(user).contains(room) <==> st.in_room(room, user),
        forall|name: Seq<char>| #[trigger]
            st.managers().contains(name) <==> st.online.contains_key(name)
                && st.online[name].role.level() >= Role::Manager.level(),
{
    names::lemma_listing_exists(st.rooms.dom());
    names::lemma_listing_exists(st.online.dom());
    broadcast use vstd::seq_lib::group_filter_ensures;

    let mine = |room: Seq<char>| st.rooms[room].contains(user);
    assert forall|room: Seq<char>| #[trigger]
        st.rooms_of(user).contains(room) <==> st.in_room(room, user) by {
        let listed = st.room_names();
        let found = listed.filter(mine);
        assert(found == st.rooms_of(user));
        if found.contains(room) {
            let i = choose|i: int| 0 <= i < found.len() && found[i] == room;
            names::lemma_filter_from(listed, mine, i);
        }
        if st.in_room(room, user) {
            assert(listed.contains(room));
            let k = choose|k: int| 0 <= k < listed.len() && listed[k] == room;
            assert(mine(listed[k]));
        }
    }
    let high = |name: Seq<char>| st.online[name].role.level() >= Role::Manager.level();
    assert forall|name: Seq<char>| #[trigger]
        st.managers().contains(name) <==> st.online.contains_key(name)
            && st.online[name].role.level() >= Role::Manager.level() by {
        let listed = st.online_names();
        let found = listed.filter(high);
        assert(found == st.managers());
        if found.contains(name) {
            let i = choose|i: int| 0 <= i < found.len() && found[i] == name;
            names::lemma_filter_from(listed, high, i);
        }
        if st.online.contains_key(name) && high(name) {
            assert(listed.contains(name));
            let k = choose|k: int| 0 <= k < listed.len() && listed[k] == name;
            assert(high(listed[k]));
        }
    }
}

proof fn lemma_texts(
    st: StateView,
    from: Seq<char>,
    rooms: Seq<Seq<char>>,
    body: Seq<char>,
    ts: i64,
)
    ensures
        ({
            let after = st.broadcast_texts(from, rooms, body, ts);
            &&& after.rooms == st.rooms
            &&& after.online == st.online
            &&& after.out.len() == st.out.len() + rooms.len()
            &&& forall|room: Seq<char>| #[trigger]
                rooms.contains(room) ==> after.kept(room).len() > 0 && after.kept(room).last().body
                    == body && after.kept(room).last().from == from
        }),
    decreases rooms.len(),
{
    if rooms.len() > 0 {
        lemma_texts(st, from, rooms.drop_last(), body, ts);
        let mid = st.broadcast_texts(from, rooms.drop_last(), body, ts);
        let after = st.broadcast_texts(from, rooms, body, ts);
        let item = HistoryItemView { seq: mid.next_seq, room: rooms.last(), from, body, ts };
        assert(after.kept(rooms.last()) == model::last_n(
            mid.kept(rooms.last()).push(item),
            HISTORY_CAP as nat,
        ));
        assert forall|room: Seq<char>| #[trigger] rooms.contains(room) implies after.kept(
            room,
        ).len() > 0 && after.kept(room).last().body == body && after.kept(room).last().from
            == from by {
            if room != rooms.last() {
                let k = choose|k: int| 0 <= k < rooms.len() && rooms[k] == room;
                assert(rooms.drop_last()[k] == room);
                assert(rooms.drop_last().contains(room));
                assert(after.kept(room) == mid.kept(room));
            } else {
                assert(after.kept(room).last() == item);
            }
        }
    }
}

proof fn lemma_texts_numbered(
    st: StateView,
    from: Seq<char>,
    rooms: Seq<Seq<char>>,
    body: Seq<char>,
    ts: i64,
)
    requires
        rooms.no_duplicates(),
        st.next_seq + rooms.len() <= u64::MAX,
    ensures
        ({
            let after = st.broadcast_texts(from, rooms, body, ts);
            &&& after.next_seq == st.next_seq + rooms.len()
            &&& forall|i: int|
                0 <= i < rooms.len() ==> after.kept(#[trigger] rooms[i]) == model::last_n(
                    st.kept(rooms[i]).push(
                        HistoryItemView {
                            seq: (st.next_seq + i) as u64,
                            room: rooms[i],
                            from,
                            body,
                            ts,
                        },
                    ),
                    HISTORY_CAP as nat,
                )
            &&& forall|room: Seq<char>|
                !rooms.contains(room) ==> #[trigger] after.kept(room) == st.kept(room)
        }),
    decreases rooms.len(),
{
    if rooms.len() > 0 {
        let rest = rooms.drop_last();
        lemma_texts_numbered(st, from, rest, body, ts);
        let mid = st.broadcast_texts(from, rest, body, ts);
        let after = st.broadcast_texts(from, rooms, body, ts);
        assert(!rest.contains(rooms.last())) by {
            if rest.contains(rooms.last()) {
                let k = choose|k: int| 0 <= k < rest.len() && rest[k] == rooms.last();
                assert(rooms[k] == rooms[rooms.len() - 1]);
            }
        }
        assert forall|room: Seq<char>| room != rooms.last() implies #[trigger] after.kept(room)
            == mid.kept(room) by {}
        assert forall|i: int| 0 <= i < rooms.len() implies after.kept(#[trigger] rooms[i])
            == model::last_n(
            st.kept(rooms[i]).push(
                HistoryItemView {
                    seq: (st.next_seq + i) as u64,
                    room: rooms[i],
                    from,
                    body,
                    ts,
                },
            ),
            HISTORY_CAP as nat,
        ) by {
            if i < rest.len() {
                assert(rest[i] == rooms[i]);
                assert(rooms[i] != rooms[rooms.len() - 1]);
            } else {
                let room = rooms.last();
                assert(mid.kept(room) == st.kept(room));
                assert(mid.next_seq == (st.next_seq + i) as u64);
                let item = HistoryItemView { seq: mid.next_seq, room, from, body, ts };
                assert(after.kept(room) == model::last_n(
                    mid.kept(room).push(item),
                    HISTORY_CAP as nat,
                ));
            }
        }
        assert forall|room: Seq<char>| !rooms.contains(room) implies #[trigger] after.kept(room)
            == st.kept(room) by {
            assert(rooms.contains(rooms[rooms.len() - 1]));
            if rest.contains(room) {
                let k = choose|k: int| 0 <= k < rest.len() && rest[k] == room;
                assert(rooms[k] == room);
            }
        }
    }
}

/// A text for everybody is the last one kept of every room, and is published once for each. As
/// long as the numbers last, every room keeps exactly one new item, and the items are numbered one
/// after the other in the order of the rooms, so that no two have the same number.
pub proof fn law_broadcast_reaches_every_room(
    st: StateView,
    from: Seq<char>,
    body: Seq<char>,
    ts: i64,
)
    requires
        st.valid(),
    ensures
        ({
            let after = st.broadcast_texts(from, st.room_names(), body, ts);
            &&& after.out.len() == st.out.len() + st.room_names().len()
            &&& forall|room: Seq<char>| #[trigger]
                st.rooms.contains_key(room) ==> after.kept(room).len() > 0 && after.kept(
                    room,
                ).last().body == body && after.kept(room).last().from == from
            &&& st.next_seq + st.room_names().len() <= u64::MAX ==> {
                &&& after.next_seq == st.next_seq + st.room_names().len()
                &&& forall|i: int|
                    0 <= i < st.room_names().len() ==> after.kept(#[trigger] st.room_names()[i])
                        == model::last_n(
                        st.kept(st.room_names()[i]).push(
                            HistoryItemView {
                                seq: (st.next_seq + i) as u64,
                                room: st.room_names()[i],
                                from,
                                body,
                                ts,
                            },
                        ),
                        HISTORY_CAP as nat,
                    )
                &&& forall|a: Seq<char>, b: Seq<char>|
                    a != b && #[trigger] st.rooms.contains_key(a)
                        && #[trigger] st.rooms.contains_key(b) ==> after.kept(a).last().seq
                        != after.kept(b).last().seq
            }
        }),
{
    names::lemma_listing_exists(st.rooms.dom());
    lemma_texts(st, from, st.room_names(), body, ts);
    if st.next_seq + st.room_names().len() <= u64::MAX {
        let rooms = st.room_names();
        let after = st.broadcast_texts(from, rooms, body, ts);
        assert(rooms.no_duplicates()) by {
            assert forall|i: int, j: int| 0 <= i < j < rooms.len() implies rooms[i] != rooms[j] by {
                text::lemma_text_lt_irreflexive(rooms[i]);
            }
        }
        lemma_texts_numbered(st, from, rooms, body, ts);
        assert forall|a: Seq<char>, b: Seq<char>|
            a != b && #[trigger] st.rooms.contains_key(a) && #[trigger] st.rooms.contains_key(
                b,
            ) implies after.kept(a).last().seq != after.kept(b).last().seq by {
            assert(rooms.contains(a) && rooms.contains(b));
            let i = choose|i: int| 0 <= i < rooms.len() && rooms[i] == a;
            let j = choose|j: int| 0 <= j < rooms.len() && rooms[j] == b;
            assert(after.kept(rooms[i]).last().seq == st.next_seq + i);
            assert(after.kept(rooms[j]).last().seq == st.next_seq + j);
        }
    }
    assert forall|room: Seq<char>| #[trigger] st.rooms.contains_key(room) implies ({
        let after = st.broadcast_texts(from, st.room_names(), body, ts);
        after.kept(room).len() > 0 && after.kept(room).last().body == body && after.kept(
            room,
        ).last().from == from
    }) by {
        assert(st.room_names().contains(room));
    }
}

pub proof fn lemma_texts_keep_valid(
    st: StateView,
    from: Seq<char>,
    rooms: Seq<Seq<char>>,
    body: Seq<char>,
    ts: i64,
)
    requires
        st.valid(),
        st.next_seq + rooms.len() <= u64::MAX,
    ensures
        st.broadcast_texts(from, rooms, body, ts).valid(),
        st.broadcast_texts(from, rooms, body, ts).next_seq == st.next_seq + rooms.len(),
    decreases rooms.len(),
{
    if rooms.len() > 0 {
        lemma_texts_keep_valid(st, from, rooms.drop_last(), body, ts);
        lemma_text_keeps_valid(
            st.broadcast_texts(from, rooms.drop_last(), body, ts),
            from,
            rooms.last(),
            body,
            ts,
        );
    }
}

/// The terminal of the web interface keeps the state valid as well, as long as the numbers last.
pub proof fn law_terminal_keeps_validity(
    st: StateView,
    req: ClientRequestView,
    now: i64,
    after_write: AfterTermWriteView,
    written: bool,
)
    requires
        st.valid(),
        st.next_seq < u64::MAX,
        st.next_seq + st.room_names().len() <= u64::MAX,
    ensures
        st.term_request(req, now).0.valid(),
        st.term_on_write(after_write, written).0.valid(),
{
    let after = st.term_request(req, now).0;
    match req {
        ClientRequestView::Chat { body, room } => {
            let name = match room {
                Some(name) => name,
                None => st.cfg.default_room,
            };
            lemma_text_keeps_valid(st, "Server"@, name, body, now);
        },
        ClientRequestView::Command(line) => {
            let (_, rest) = text::command(line);
            lemma_room_keeps_valid(st, rest, "Server"@);
            lemma_room_keeps_valid(st, rest, rest);
            lemma_texts_keep_valid(st, "Server"@, st.room_names(), rest, now);
            if after.next_seq != st.next_seq || after.history != st.history || after.rooms
                != st.rooms || after.online != st.online {
                if after.rooms == st.create_room(rest, "Server"@).rooms && after.online
                    == st.online && after.history == st.history && after.next_seq
                    == st.next_seq {
                    lemma_same_valid(st.create_room(rest, "Server"@), after);
                } else if after.rooms == st.delete_room(rest).rooms && after.history
                    == st.delete_room(rest).history && after.online == st.online && after.next_seq
                    == st.next_seq {
                    lemma_same_valid(st.delete_room(rest), after);
                } else if after.online == st.unregister(rest).online && after.rooms
                    == st.unregister(rest).rooms && after.history == st.history
                    && after.next_seq == st.next_seq {
                    lemma_same_valid(st.unregister(rest), after);
                } else {
                    assert(after == st.broadcast_texts("Server"@, st.room_names(), rest, now));
                }
            } else {
                lemma_same_valid(st, after);
            }
        },
        _ => {},
    }
    let wrote = st.term_on_write(after_write, written).0;
    if let AfterTermWriteView::Ban { target, .. } = after_write {
        lemma_room_keeps_valid(st, target, target);
        if written && st.online.contains_key(target) {
            lemma_same_valid(st.unregister(target), wrote);
        } else {
            lemma_same_valid(st, wrote);
        }
    } else {
        lemma_same_valid(st, wrote);
    }
}

/// What the terminal answers with an error has changed nothing.
pub proof fn law_terminal_error_changes_nothing(
    st: StateView,
    req: ClientRequestView,
    now: i64,
    after_write: AfterTermWriteView,
    written: bool,
)
    ensures
        st.term_request(req, now).1 matches TermStepView::Reply(reply) && reply is Error ==> (
        st.term_request(req, now)).0 == st,
        st.term_on_write(after_write, written).1 matches TermStepView::Reply(reply) && reply is Error
            ==> st.term_on_write(after_write, written).0 == st,
{
}

/// The account `admin` is safe from the terminal too: it is not kicked, and the database is not
/// asked to ban it or to give it another role.
pub proof fn law_terminal_spares_admin(st: StateView, req: ClientRequestView, now: i64)
    ensures
        st.online.contains_key("admin"@) ==> st.term_request(req, now).0.online.contains_key(
            "admin"@,
        ),
        st.term_request(req, now).1 matches TermStepView::Write { write, .. } ==> {
            &&& write matches DbWriteView::SetRole { username, .. } ==> username != "admin"@
            &&& write matches DbWriteView::SetBanned { username, banned } ==> banned ==> username
                != "admin"@
        },
{
    if let ClientRequestView::Command(line) = req {
        lemma_texts(st, "Server"@, st.room_names(), text::command(line).1, now);
    }
}

} // verus!
