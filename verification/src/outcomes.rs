//! What each request comes to: what is answered, who is told, and what is different afterwards.
//!
//! The statements speak of the parts of the state alone: who is online, who is in which room,
//! what is kept, and what has been handed out. They hold for every user, role, room and text.

use vstd::prelude::*;

use crate::auth::AuthError;
use crate::db::{DbWriteView, LookupView, UserRecordView, Users};
use crate::envelope::FrameView;
use crate::error::{ErrorCode, TransportErrorView};
use crate::laws;
use crate::message::{HistoryItemView, MessageView, Role};
use crate::model;
use crate::model::{OnlineUser, OutputView, SessionView, StateView};
use crate::names;
use crate::protocol::end_report;
use crate::step::{AfterHashView, AfterLookupView, AfterWriteView, StepView};
use crate::text;

verus! {

/// A frame with this id and message, for one connection.
pub open spec fn frame_for(conn: u64, id: u64, msg: MessageView) -> OutputView {
    OutputView::Send { conn, frame: FrameView { ver: 1, id, msg } }
}

/// A refusal with this code and text, for one connection.
pub open spec fn refusal(conn: u64, id: u64, code: ErrorCode, message: Seq<char>) -> OutputView {
    frame_for(conn, id, MessageView::Error { code, message, retryable: false })
}

/// The state with nothing different but what has been handed out since.
pub open spec fn saying(st: StateView, said: Seq<OutputView>) -> StateView {
    StateView { out: st.out + said, ..st }
}

/// Whether a role is that of a manager or of an administrator.
pub open spec fn manages(role: Role) -> bool {
    role == Role::Manager || role == Role::Admin
}

/// Whether the names are, in ascending order and each once, exactly those with a property.
pub open spec fn lists_those(names: Seq<Seq<char>>, which: spec_fn(Seq<char>) -> bool) -> bool {
    &&& names::ascending(names)
    &&& forall|name: Seq<char>| #[trigger] names.contains(name) <==> which(name)
}

/// Whether the connections are those of exactly the users with a property who are online, one for
/// each, in ascending order of their names.
pub open spec fn reaches(
    conns: Seq<u64>,
    online: Map<Seq<char>, OnlineUser>,
    which: spec_fn(Seq<char>) -> bool,
) -> bool {
    exists|users: Seq<Seq<char>>|
        {
            &&& #[trigger] names::ascending(users)
            &&& forall|user: Seq<char>| #[trigger]
                users.contains(user) <==> which(user) && online.contains_key(user)
            &&& conns.len() == users.len()
            &&& forall|i: int| 0 <= i < users.len() ==> #[trigger] conns[i] == online[users[i]].conn
        }
}

/// Whether something handed out tells everybody who is online who is.
pub open spec fn is_manifest(said: OutputView, online: Map<Seq<char>, OnlineUser>) -> bool {
    said matches OutputView::Publish { conns, frame } && {
        &&& frame.ver == 1
        &&& frame.id == 0
        &&& frame.msg matches MessageView::PushUserManifest { users } && lists_those(
            users,
            |user: Seq<char>| online.contains_key(user),
        )
        &&& reaches(conns, online, |user: Seq<char>| true)
    }
}

/// Whether something handed out tells the members of a room who are online a message.
pub open spec fn is_told(said: OutputView, st: StateView, room: Seq<char>, msg: MessageView) -> bool {
    said matches OutputView::Publish { conns, frame } && {
        &&& frame == (FrameView { ver: 1, id: 0, msg })
        &&& reaches(
            conns,
            st.online,
            |user: Seq<char>| st.rooms.contains_key(room) && st.rooms[room].contains(user),
        )
    }
}

/// Whether a message lists all rooms, and among them those that a user is in.
pub open spec fn is_room_list(msg: MessageView, st: StateView, user: Seq<char>) -> bool {
    msg matches MessageView::RoomListRes { rooms, mine } && {
        &&& lists_those(rooms, |room: Seq<char>| st.rooms.contains_key(room))
        &&& lists_those(
            mine,
            |room: Seq<char>| st.rooms.contains_key(room) && st.rooms[room].contains(user),
        )
    }
}

/// Whether a user has gone offline and out of all rooms, and nobody else has.
pub open spec fn is_gone(before: StateView, after: StateView, user: Seq<char>) -> bool {
    &&& after.online == before.online.remove(user)
    &&& after.rooms.dom() == before.rooms.dom()
    &&& forall|room: Seq<char>| #[trigger]
        after.rooms.contains_key(room) ==> after.rooms[room] == before.rooms[room].remove(user)
}

/// Whether all sessions of a user bring the user back with this role, if they still brought the
/// user back at all, and no other session is different.
pub open spec fn brings_back(
    before: StateView,
    after: StateView,
    user: Seq<char>,
    role: Option<Role>,
) -> bool {
    &&& after.sessions.dom() == before.sessions.dom()
    &&& forall|token: Seq<char>| #[trigger]
        after.sessions.contains_key(token) ==> ({
            let was = before.sessions[token];
            let is = after.sessions[token];
            &&& is.username == was.username
            &&& is.role == was.role
            &&& is.returns_as == if was.username == user && was.returns_as is Some {
                role
            } else {
                was.returns_as
            }
        })
}

/// Whether the configuration, the clock, the counters and what is kept of the rooms are as before.
pub open spec fn settled(before: StateView, after: StateView) -> bool {
    &&& after.cfg == before.cfg
    &&& after.version == before.version
    &&& after.started_at == before.started_at
    &&& after.history == before.history
    &&& after.next_id == before.next_id
    &&& after.next_seq == before.next_seq
}

proof fn lemma_lists_where(
    names: Seq<Seq<char>>,
    set: Set<Seq<char>>,
    which: spec_fn(Seq<char>) -> bool,
)
    requires
        names::lists(names, set),
    ensures
        lists_those(names.filter(which), |name: Seq<char>| set.contains(name) && which(name)),
{
    names::lemma_filter_lists(names, set, which);
    let kept = names.filter(which);
    assert forall|name: Seq<char>| #[trigger] kept.contains(name) <==> set.contains(name) && which(
        name,
    ) by {
        assert(set.filter(which).contains(name) <==> set.contains(name) && which(name));
    }
}

/// The lists of a state are what they are called.
proof fn lemma_lists(st: StateView, user: Seq<char>)
    requires
        st.online.dom().finite(),
        st.rooms.dom().finite(),
    ensures
        lists_those(st.online_names(), |name: Seq<char>| st.online.contains_key(name)),
        lists_those(st.room_names(), |room: Seq<char>| st.rooms.contains_key(room)),
        lists_those(
            st.rooms_of(user),
            |room: Seq<char>| st.rooms.contains_key(room) && st.rooms[room].contains(user),
        ),
        lists_those(
            st.managers(),
            |name: Seq<char>| st.online.contains_key(name) && manages(st.online[name].role),
        ),
{
    names::lemma_listing_exists(st.online.dom());
    names::lemma_listing_exists(st.rooms.dom());
    lemma_lists_where(
        st.room_names(),
        st.rooms.dom(),
        |room: Seq<char>| st.rooms[room].contains(user),
    );
    lemma_lists_where(
        st.online_names(),
        st.online.dom(),
        |name: Seq<char>| st.online[name].role.level() >= Role::Manager.level(),
    );
}

/// What is sent to a list of names reaches those of them who are online.
proof fn lemma_reaches(st: StateView, listed: Seq<Seq<char>>, which: spec_fn(Seq<char>) -> bool)
    requires
        lists_those(listed, which),
    ensures
        reaches(st.conns(listed), st.online, which),
{
    let keep = |user: Seq<char>| st.online.contains_key(user);
    let users = listed.filter(keep);
    let set = listed.to_set();
    assert(names::lists(listed, set)) by {
        assert forall|name: Seq<char>| listed.contains(name) <==> set.contains(name) by {}
    }
    lemma_lists_where(listed, set, keep);
    let conns = st.conns(listed);
    assert(names::ascending(users));
    assert forall|user: Seq<char>| #[trigger] users.contains(user) <==> which(user)
        && st.online.contains_key(user) by {
        assert(set.contains(user) <==> listed.contains(user));
    }
    assert forall|i: int| 0 <= i < users.len() implies #[trigger] conns[i]
        == st.online[users[i]].conn by {}
}

proof fn lemma_manifest(st: StateView)
    requires
        st.online.dom().finite(),
    ensures
        is_manifest(st.broadcast_manifest().out.last(), st.online),
{
    names::lemma_listing_exists(st.online.dom());
    let users = st.online_names();
    lemma_reaches(st, users, |name: Seq<char>| st.online.contains_key(name));
    let conns = st.conns(users);
    let witness = choose|witness: Seq<Seq<char>>|
        {
            &&& #[trigger] names::ascending(witness)
            &&& forall|user: Seq<char>| #[trigger]
                witness.contains(user) <==> st.online.contains_key(user) && st.online.contains_key(
                    user,
                )
            &&& conns.len() == witness.len()
            &&& forall|i: int|
                0 <= i < witness.len() ==> #[trigger] conns[i] == st.online[witness[i]].conn
        };
    assert(reaches(conns, st.online, |user: Seq<char>| true)) by {
        assert(names::ascending(witness));
    }
}

proof fn lemma_told(st: StateView, room: Seq<char>, msg: MessageView)
    requires
        st.members(room).finite(),
    ensures
        is_told(st.broadcast_room(room, FrameView::push(msg)).out.last(), st, room, msg),
{
    let members = st.members(room);
    names::lemma_listing_exists(members);
    let which = |user: Seq<char>| st.rooms.contains_key(room) && st.rooms[room].contains(user);
    lemma_reaches(st, names::listing(members), which);
}

/// What a name of a role in the database stands for.
pub open spec fn stands_for(role: Role, name: Seq<char>) -> bool {
    match role {
        Role::Admin => name == "admin"@,
        Role::Manager => name == "manager"@,
        Role::User => name != "admin"@ && name != "manager"@,
    }
}

/// A login goes on to a token exactly for a user who is stored, gives the right password, is not
/// banned, is an administrator where the server is locked, and is not online; the token is then
/// made for that user and the stored role. Everybody else is refused with the reason that comes
/// first, and nothing else happens.
pub proof fn law_login_is_judged(
    st: StateView,
    conn: u64,
    id: u64,
    username: Seq<char>,
    password: Seq<char>,
    found: LookupView,
    matches: bool,
    now: i64,
)
    ensures
        ({
            let asked = st.handled(
                conn,
                None,
                id,
                MessageView::Login { username, password },
                now,
            );
            let then = AfterLookupView::Login { password };
            let (after, step) = st.on_lookup(conn, id, username, then, found, matches);
            let no = |code: ErrorCode, text: Seq<char>|
                after == saying(st, seq![refusal(conn, id, code, text)]) && step is Done;
            &&& asked == (
                st,
                None::<(Seq<char>, Role)>,
                StepView::Lookup { username, then },
            )
            &&& match found {
                LookupView::Missing => no(ErrorCode::AuthFailed, "Authentication failed"@),
                LookupView::Failed => no(ErrorCode::Internal, "Internal server error"@),
                LookupView::Found(record) => if !matches {
                    no(ErrorCode::AuthFailed, "Authentication failed"@)
                } else if record.banned != 0 {
                    no(ErrorCode::Forbidden, "banned"@)
                } else if st.cfg.lock_server && record.role != "admin"@ {
                    no(ErrorCode::Forbidden, "server locked"@)
                } else if st.online.contains_key(username) {
                    no(ErrorCode::Conflict, "already online"@)
                } else {
                    &&& after == st
                    &&& step matches StepView::Token { username: who, role } && who == username
                        && stands_for(role, record.role)
                },
            }
        }),
{
    reveal_strlit("admin");
    reveal_strlit("manager");
    assert("manager"@.len() != "admin"@.len());
    let then = AfterLookupView::Login { password };
    let (after, _) = st.on_lookup(conn, id, username, then, found, matches);
    if after.out.len() > st.out.len() {
        assert(after.out =~= st.out + seq![after.out.last()]);
    }
}

/// A connection that is somebody already neither logs in nor resumes.
pub proof fn law_logged_in_once(
    st: StateView,
    conn: u64,
    who: (Seq<char>, Role),
    id: u64,
    msg: MessageView,
    now: i64,
)
    requires
        msg is Login || msg is Resume,
    ensures
        st.handled(conn, Some(who), id, msg, now) == (
            saying(
                st,
                seq![refusal(conn, id, ErrorCode::Forbidden, "already logged in"@)],
            ),
            Some(who),
            StepView::Done,
        ),
{
    let after = st.handled(conn, Some(who), id, msg, now).0;
    assert(after.out =~= st.out + seq![after.out.last()]);
}

/// Whether a user has come online on a connection, is in the default room, and nobody else's
/// presence or rooms are different.
pub open spec fn is_in(
    before: StateView,
    after: StateView,
    user: Seq<char>,
    role: Role,
    conn: u64,
) -> bool {
    let home = before.cfg.default_room;
    &&& after.online == before.online.insert(user, OnlineUser { role, conn })
    &&& after.rooms.dom() == before.rooms.dom().insert(home)
    &&& forall|room: Seq<char>, other: Seq<char>|
        after.rooms.contains_key(room) ==> (#[trigger] after.rooms[room].contains(other) <==> (
        before.rooms.contains_key(room) && before.rooms[room].contains(other)) || (room == home
            && other == user))
}

/// The answer to a login names the user, the one role under which the user is now online, the
/// token, and the number that was next; behind it come the rooms, and everybody who is online is
/// told. The user is online on this connection, is in the default room, and has a session under
/// the token. A user who is online already is refused, and without a token nothing is answered.
pub proof fn law_login_is_answered(
    st: StateView,
    conn: u64,
    id: u64,
    username: Seq<char>,
    role: Role,
    token: Option<Seq<char>>,
)
    requires
        st.valid(),
    ensures
        ({
            let (after, step) = st.on_token(conn, id, username, role, token);
            let n = st.out.len() as int;
            if st.online.contains_key(username) {
                &&& after == saying(
                    st,
                    seq![refusal(conn, id, ErrorCode::Conflict, "already online"@)],
                )
                &&& step is Done
            } else if token is None {
                after == StateView { next_id: after.next_id, ..st } && step is NoRandom
            } else {
                &&& step is Done
                &&& after.out.len() == n + 3
                &&& after.out.take(n) == st.out
                &&& after.out[n] == frame_for(
                    conn,
                    id,
                    MessageView::LoginRes {
                        user_id: st.next_id,
                        username,
                        roles: seq![role],
                        token: token->0,
                    },
                )
                &&& after.out[n + 1] matches OutputView::Send { conn: to, frame } && to == conn
                    && frame.ver == 1 && frame.id == 0 && is_room_list(frame.msg, after, username)
                &&& is_manifest(after.out[n + 2], after.online)
                &&& is_in(st, after, username, role, conn)
                &&& after.sessions == st.sessions.insert(
                    token->0,
                    SessionView { username, role, returns_as: Some(role) },
                )
                &&& after.cfg == st.cfg
                &&& after.version == st.version
                &&& after.started_at == st.started_at
                &&& after.history == st.history
                &&& after.next_seq == st.next_seq
            }
        }),
        st.next_id < u64::MAX && !st.online.contains_key(username) ==> st.on_token(
            conn,
            id,
            username,
            role,
            token,
        ).0.next_id == st.next_id + 1,
{
    let (after, _) = st.on_token(conn, id, username, role, token);
    if st.online.contains_key(username) {
        assert(after.out =~= st.out + seq![after.out.last()]);
    } else if token is Some {
        lemma_entered(st, after, conn, username, role);
        assert(after.out.take(st.out.len() as int) =~= st.out);
        let n = st.out.len() as int;
        lemma_manifest(StateView { out: after.out.take(n + 2), ..after });
        assert(after.out.take(n + 2).push(after.out[n + 2]) =~= after.out);
        lemma_same_conns(StateView { out: after.out.take(n + 2), ..after }, after);
    }
}

proof fn lemma_same_conns(a: StateView, b: StateView)
    requires
        a.online == b.online,
    ensures
        forall|users: Seq<Seq<char>>| #[trigger] a.conns(users) == b.conns(users),
{
    assert((|user: Seq<char>| a.online.contains_key(user)) =~= (|user: Seq<char>|
        b.online.contains_key(user)));
    assert((|user: Seq<char>| a.online[user].conn) =~= (|user: Seq<char>| b.online[user].conn));
}

/// The lists of rooms after somebody has come in.
proof fn lemma_entered(
    st: StateView,
    after: StateView,
    conn: u64,
    username: Seq<char>,
    role: Role,
)
    requires
        st.valid(),
        after.online == st.register_online(username, role, conn).online,
        after.rooms == st.create_room(st.cfg.default_room, username).rooms,
        after.cfg == st.cfg,
    ensures
        after.online.dom().finite(),
        is_in(st, after, username, role, conn),
        is_room_list(
            MessageView::RoomListRes {
                rooms: after.room_names(),
                mine: after.rooms_of(username),
            },
            after,
            username,
        ),
{
    assert(after.online.dom() =~= st.online.dom().insert(username));
    assert(after.rooms.dom() =~= st.rooms.dom().insert(st.cfg.default_room));
    lemma_lists(after, username);
}

/// A token brings its user in exactly where it stands for a session, and either the user is
/// online, or the session still brings the user back and the server is not locked against the
/// role. The answer names the user and the role: that of the login while the user is online, and
/// otherwise that of the session; behind it come the rooms, and everybody is told who is online.
/// A user who was not online then is, on this connection and in the default room. Any other token
/// is refused, and nothing else happens.
pub proof fn law_resume_is_answered(
    st: StateView,
    conn: u64,
    id: u64,
    token: Seq<char>,
    now: i64,
)
    requires
        st.valid(),
    ensures
        ({
            let (after, who, step) = st.handled(
                conn,
                None,
                id,
                MessageView::Resume { token },
                now,
            );
            let info = st.sessions[token];
            let user = info.username;
            let there = st.online.contains_key(user);
            let n = st.out.len() as int;
            &&& step is Done
            &&& if !st.sessions.contains_key(token) || (!there && info.returns_as is None) {
                &&& after == saying(
                    st,
                    seq![refusal(conn, id, ErrorCode::NotAuthenticated, "Not authenticated"@)],
                )
                &&& who is None
            } else if !there && st.cfg.lock_server && info.returns_as != Some(Role::Admin) {
                &&& after == saying(
                    st,
                    seq![refusal(conn, id, ErrorCode::Forbidden, "server locked"@)],
                )
                &&& who is None
            } else {
                let role = if there {
                    info.role
                } else {
                    info.returns_as->0
                };
                &&& who == Some((user, role))
                &&& after.out.len() == n + 3
                &&& after.out.take(n) == st.out
                &&& after.out[n] == frame_for(
                    conn,
                    id,
                    MessageView::ResumeRes { username: user, roles: seq![role] },
                )
                &&& after.out[n + 1] matches OutputView::Send { conn: to, frame } && to == conn
                    && frame.ver == 1 && frame.id == 0 && is_room_list(frame.msg, after, user)
                &&& is_manifest(after.out[n + 2], after.online)
                &&& if there {
                    after.online == st.online && after.rooms == st.rooms
                } else {
                    is_in(st, after, user, role, conn)
                }
                &&& after.sessions == st.sessions
                &&& settled(st, after)
            }
        }),
{
    let (after, _, _) = st.handled(conn, None, id, MessageView::Resume { token }, now);
    let info = st.sessions[token];
    let user = info.username;
    let there = st.online.contains_key(user);
    if !st.sessions.contains_key(token) || (!there && (info.returns_as is None || (
    st.cfg.lock_server && info.returns_as != Some(Role::Admin)))) {
        assert(after.out =~= st.out + seq![after.out.last()]);
    } else {
        let n = st.out.len() as int;
        if there {
            lemma_lists(after, user);
        } else {
            lemma_entered(st, after, conn, user, info.returns_as->0);
        }
        assert(after.out.take(n) =~= st.out);
        let before = StateView { out: after.out.take(n + 2), ..after };
        lemma_manifest(before);
        lemma_same_conns(before, after);
        assert(after.out.take(n + 2).push(after.out[n + 2]) =~= after.out);
    }
}

/// Who logs out goes offline and out of all rooms, no session brings the user back, everybody who
/// is still online is told, and the connection is nobody; who was nobody is refused.
pub proof fn law_logout_is_answered(
    st: StateView,
    conn: u64,
    identity: Option<(Seq<char>, Role)>,
    id: u64,
    now: i64,
)
    requires
        st.valid(),
    ensures
        ({
            let (after, who, step) = st.handled(conn, identity, id, MessageView::Logout, now);
            let n = st.out.len() as int;
            &&& step is Done
            &&& who is None
            &&& match identity {
                None => after == saying(
                    st,
                    seq![refusal(conn, id, ErrorCode::NotAuthenticated, "Not authenticated"@)],
                ),
                Some((user, _)) => {
                    &&& is_gone(st, after, user)
                    &&& brings_back(st, after, user, None)
                    &&& settled(st, after)
                    &&& after.out.len() == n + 2
                    &&& after.out.take(n) == st.out
                    &&& is_manifest(after.out[n], after.online)
                    &&& after.out[n + 1] == frame_for(
                        conn,
                        id,
                        MessageView::Notice { text: "logged out"@, level: "info"@ },
                    )
                },
            }
        }),
{
    let (after, _, _) = st.handled(conn, identity, id, MessageView::Logout, now);
    let n = st.out.len() as int;
    match identity {
        None => {
            assert(after.out =~= st.out + seq![after.out.last()]);
        },
        Some((user, _)) => {
            assert(after.out.take(n) =~= st.out);
            lemma_gone(st, after, user);
            let before = StateView { out: st.out, ..after };
            lemma_manifest(before);
            lemma_same_conns(before, st.unregister(user).end_sessions(user));
        },
    }
}

proof fn lemma_gone(st: StateView, after: StateView, user: Seq<char>)
    requires
        st.valid(),
        after.online == st.unregister(user).online,
        after.rooms == st.unregister(user).rooms,
        after.sessions == st.end_sessions(user).sessions,
    ensures
        after.online.dom().finite(),
        is_gone(st, after, user),
        brings_back(st, after, user, None),
{
    assert(after.online.dom() =~= st.online.dom().remove(user));
    assert(after.rooms.dom() =~= st.rooms.dom());
    assert(after.sessions.dom() =~= st.sessions.dom());
}

/// When a connection ends, its user goes offline and out of all rooms, the sessions stay as they
/// are, and everybody who is still online is told. The end of a connection that was nobody is not
/// noticed.
pub proof fn law_disconnect_is_noticed(st: StateView, identity: Option<(Seq<char>, Role)>)
    requires
        st.valid(),
    ensures
        ({
            let after = st.disconnected(identity);
            let n = st.out.len() as int;
            match identity {
                None => after == st,
                Some((user, _)) => {
                    &&& is_gone(st, after, user)
                    &&& after.sessions == st.sessions
                    &&& settled(st, after)
                    &&& after.out.len() == n + 1
                    &&& after.out.take(n) == st.out
                    &&& is_manifest(after.out[n], after.online)
                },
            }
        }),
{
    if let Some((user, _)) = identity {
        let after = st.disconnected(identity);
        assert(after.out.take(st.out.len() as int) =~= st.out);
        assert(after.online.dom() =~= st.online.dom().remove(user));
        assert(after.rooms.dom() =~= st.rooms.dom());
        lemma_manifest(st.unregister(user));
    }
}

/// A registration is refused where registration is switched off, where the name is empty or takes
/// more than twenty bytes, where it is reserved, and where the password takes less than four
/// bytes. Otherwise the name is looked up, and the password is kept as it was given. Who a
/// connection is does not matter, and does not change.
pub proof fn law_registration_is_judged(
    st: StateView,
    conn: u64,
    identity: Option<(Seq<char>, Role)>,
    id: u64,
    username: Seq<char>,
    password: Seq<char>,
    now: i64,
)
    requires
        vstd::utf8::encode_utf8(username).len() <= usize::MAX,
        vstd::utf8::encode_utf8(password).len() <= usize::MAX,
    ensures
        ({
            let (after, who, step) = st.handled(
                conn,
                identity,
                id,
                MessageView::Register { username, password },
                now,
            );
            let no = |code: ErrorCode, text: Seq<char>|
                after == saying(st, seq![refusal(conn, id, code, text)]) && step is Done;
            &&& who == identity
            &&& if !st.cfg.allow_register {
                no(ErrorCode::Forbidden, "registration disabled"@)
            } else if username.len() == 0 || vstd::utf8::encode_utf8(username).len() > 20 {
                no(ErrorCode::BadRequest, "invalid username"@)
            } else if username == "Server"@ || username == "admin"@ {
                no(ErrorCode::ReservedName, "Reserved name"@)
            } else if vstd::utf8::encode_utf8(password).len() < 4 {
                no(ErrorCode::BadRequest, "password too short"@)
            } else {
                after == st && step == (StepView::Lookup {
                    username,
                    then: AfterLookupView::Register { password },
                })
            }
        }),
{
    let after = st.handled(
        conn,
        identity,
        id,
        MessageView::Register { username, password },
        now,
    ).0;
    if after.out.len() > st.out.len() {
        assert(after.out =~= st.out + seq![after.out.last()]);
    }
}

/// A name that is not taken is registered: its password is hashed, the database is asked for an
/// account of that name with that hash and the lowest role, and the answer names it. A name that
/// is taken is refused, and so is an account that cannot be written.
pub proof fn law_registration_is_carried_out(
    st: StateView,
    conn: u64,
    id: u64,
    username: Seq<char>,
    password: Seq<char>,
    found: LookupView,
    matches: bool,
    hash: Result<Seq<char>, AuthError>,
    written: bool,
)
    ensures
        ({
            let then = AfterLookupView::Register { password };
            let (looked, step) = st.on_lookup(conn, id, username, then, found, matches);
            if found is Found {
                &&& looked == saying(
                    st,
                    seq![refusal(conn, id, ErrorCode::UserExists, "User already exists"@)],
                )
                &&& step is Done
            } else {
                looked == st && step == (StepView::Hash {
                    password,
                    then: AfterHashView::Register { username },
                })
            }
        }),
        ({
            let (hashed, step) = st.on_hash(conn, id, AfterHashView::Register { username }, hash);
            match hash {
                Ok(password_hash) => hashed == st && (step matches StepView::Write {
                    write,
                    then,
                } && then == (AfterWriteView::Register { username })
                    && (write matches DbWriteView::CreateUser {
                    username: name,
                    password_hash: stored,
                    role,
                } && name == username && stored == password_hash && role == "user"@)),
                Err(AuthError::Hash) => hashed == saying(
                    st,
                    seq![refusal(conn, id, ErrorCode::Internal, "Internal server error"@)],
                ) && step is Done,
                Err(AuthError::RandomUnavailable) => hashed == st && step is NoRandom,
            }
        }),
        st.on_write(conn, id, AfterWriteView::Register { username }, written) == saying(
            st,
            seq![
                if written {
                    frame_for(conn, id, MessageView::RegisterRes { username })
                } else {
                    refusal(conn, id, ErrorCode::Internal, "Internal server error"@)
                },
            ],
        ),
{
    let then = AfterLookupView::Register { password };
    let looked = st.on_lookup(conn, id, username, then, found, matches).0;
    if looked.out.len() > st.out.len() {
        assert(looked.out =~= st.out + seq![looked.out.last()]);
    }
    let hashed = st.on_hash(conn, id, AfterHashView::Register { username }, hash).0;
    if hashed.out.len() > st.out.len() {
        assert(hashed.out =~= st.out + seq![hashed.out.last()]);
    }
    let wrote = st.on_write(conn, id, AfterWriteView::Register { username }, written);
    assert(wrote.out =~= st.out + seq![wrote.out.last()]);
}

/// What is kept of a room; nothing where nothing was said.
pub open spec fn said_in(st: StateView, room: Seq<char>) -> Seq<HistoryItemView> {
    if st.history.contains_key(room) {
        st.history[room]
    } else {
        Seq::empty()
    }
}

/// Whether a text has been said in a room: it got the number that was next, it is the last that is
/// kept of the room, behind the latest 511 of what was kept before, nothing else that is kept is
/// different, and the members of the room who are online are told.
pub open spec fn is_said(
    before: StateView,
    after: StateView,
    told: OutputView,
    from: Seq<char>,
    room: Seq<char>,
    body: Seq<char>,
    ts: i64,
) -> bool {
    let item = HistoryItemView { seq: before.next_seq, room, from, body, ts };
    let old = said_in(before, room);
    let new = said_in(after, room);
    let lost = if old.len() >= 512 {
        old.len() - 511
    } else {
        0
    };
    &&& new.len() == old.len() - lost + 1
    &&& new.last() == item
    &&& forall|i: int| 0 <= i < new.len() - 1 ==> #[trigger] new[i] == old[i + lost]
    &&& after.history.dom() == before.history.dom().insert(room)
    &&& forall|other: Seq<char>|
        other != room && #[trigger] after.history.contains_key(other) ==> after.history[other]
            == before.history[other]
    &&& before.next_seq < u64::MAX ==> after.next_seq == before.next_seq + 1
    &&& after.online == before.online
    &&& after.rooms == before.rooms
    &&& after.sessions == before.sessions
    &&& after.cfg == before.cfg
    &&& after.version == before.version
    &&& after.started_at == before.started_at
    &&& after.next_id == before.next_id
    &&& is_told(
        told,
        before,
        room,
        MessageView::PushText { room, from, body, seq: before.next_seq, ts },
    )
}

pub proof fn lemma_said(
    st: StateView,
    after: StateView,
    from: Seq<char>,
    room: Seq<char>,
    body: Seq<char>,
    ts: i64,
)
    requires
        st.valid(),
        ({
            let said = st.broadcast_text(from, room, body, ts);
            after == StateView { out: after.out, ..said } && after.out.len() > st.out.len()
                && after.out[st.out.len() as int] == said.out.last()
        }),
    ensures
        is_said(st, after, after.out[st.out.len() as int], from, room, body, ts),
{
    let item = HistoryItemView { seq: st.next_seq, room, from, body, ts };
    assert(st.kept(room) == said_in(st, room));
    assert(st.kept(room).len() <= 512);
    let kept = StateView { next_seq: st.next_seq.wrapping_add(1), ..st }.push_history(room, item);
    assert(kept.members(room) == st.members(room));
    assert(st.members(room).finite());
    lemma_told(kept, room, MessageView::PushText { room, from, body, seq: st.next_seq, ts });
    assert(said_in(after, room) == model::last_n(st.kept(room).push(item), 512));
    assert(after.history.dom() =~= st.history.dom().insert(room));
    assert(is_told(
        after.out[st.out.len() as int],
        st,
        room,
        MessageView::PushText { room, from, body, seq: st.next_seq, ts },
    ));
}

/// A text with an empty body, and one that names neither or both of a room and a recipient, is
/// refused. A text for a room is refused to who is not in it. From a member it is said in the
/// room, under the name of the member and at the present time, and the answer holds its number
/// and time.
pub proof fn law_room_text_is_said(
    st: StateView,
    conn: u64,
    user: Seq<char>,
    role: Role,
    id: u64,
    room: Option<Seq<char>>,
    to: Option<Seq<char>>,
    body: Seq<char>,
    now: i64,
)
    requires
        st.valid(),
        to is None || room is Some,
    ensures
        ({
            let (after, who, step) = st.handled(
                conn,
                Some((user, role)),
                id,
                MessageView::SendText { room, to, body },
                now,
            );
            let n = st.out.len() as int;
            let no = |code: ErrorCode, text: Seq<char>|
                after == saying(st, seq![refusal(conn, id, code, text)]);
            &&& who == Some((user, role))
            &&& step is Done
            &&& if body.len() == 0 {
                no(ErrorCode::BadRequest, "empty message"@)
            } else if room is None || to is Some {
                no(ErrorCode::BadRequest, "specify room or recipient"@)
            } else if !(st.rooms.contains_key(room->0) && st.rooms[room->0].contains(user)) {
                no(ErrorCode::NotInRoom, "Not in room"@)
            } else {
                &&& after.out.len() == n + 2
                &&& after.out.take(n) == st.out
                &&& is_said(st, after, after.out[n], user, room->0, body, now)
                &&& after.out[n + 1] == frame_for(
                    conn,
                    id,
                    MessageView::SendTextRes { seq: st.next_seq, ts: now },
                )
            }
        }),
{
    let after = st.handled(
        conn,
        Some((user, role)),
        id,
        MessageView::SendText { room, to, body },
        now,
    ).0;
    let n = st.out.len() as int;
    if body.len() == 0 || room is None || to is Some || !st.in_room(room->0, user) {
        assert(after.out =~= st.out + seq![after.out.last()]);
    } else {
        assert(after.out.take(n) =~= st.out);
        lemma_said(st, after, user, room->0, body, now);
    }
}

/// A text for a user who is online goes to that user's connection alone, with the name of the
/// sender and the present time; the answer holds the time and no number, and nothing is kept. A
/// user who is not online is not found.
pub proof fn law_private_text_is_said(
    st: StateView,
    conn: u64,
    user: Seq<char>,
    role: Role,
    id: u64,
    to: Seq<char>,
    body: Seq<char>,
    now: i64,
)
    ensures
        st.handled(
            conn,
            Some((user, role)),
            id,
            MessageView::SendText { room: None, to: Some(to), body },
            now,
        ) == (
            saying(
                st,
                if body.len() == 0 {
                    seq![refusal(conn, id, ErrorCode::BadRequest, "empty message"@)]
                } else if !st.online.contains_key(to) {
                    seq![refusal(conn, id, ErrorCode::NotFound, "recipient not online"@)]
                } else {
                    seq![
                        frame_for(
                            st.online[to].conn,
                            0,
                            MessageView::PushPrivate { from: user, body, ts: now },
                        ),
                        frame_for(conn, id, MessageView::SendTextRes { seq: 0, ts: now }),
                    ]
                },
            ),
            Some((user, role)),
            StepView::Done,
        ),
{
    let after = st.handled(
        conn,
        Some((user, role)),
        id,
        MessageView::SendText { room: None, to: Some(to), body },
        now,
    ).0;
    if body.len() > 0 && st.online.contains_key(to) {
        let n = st.out.len() as int;
        assert(after.out =~= st.out + seq![after.out[n], after.out[n + 1]]);
    } else {
        assert(after.out =~= st.out + seq![after.out.last()]);
    }
}

/// Whether messages are the page that is asked for of what is kept of a room: the run of messages
/// that ends before the number given, or with the last one, and begins so that there are `limit`
/// of them, or with the first one where there are not as many, or where there is no limit.
pub open spec fn is_page(
    messages: Seq<HistoryItemView>,
    kept: Seq<HistoryItemView>,
    limit: u32,
    before: Option<u64>,
) -> bool {
    exists|start: int, end: int|
        {
            &&& 0 <= start <= end <= kept.len()
            &&& messages == #[trigger] kept.subrange(start, end)
            &&& start == if 0 < limit < end {
                end - limit
            } else {
                0
            }
            &&& forall|i: int|
                0 <= i < kept.len() ==> (i < end <==> before is None || (#[trigger] kept[i]).seq
                    < before->0)
        }
}

/// Whoever is logged in reads the history of any room: the answer is the page that is asked for,
/// and nothing else happens. A room that does not exist is not found.
pub proof fn law_history_is_answered(
    st: StateView,
    conn: u64,
    user: Seq<char>,
    role: Role,
    id: u64,
    room: Seq<char>,
    limit: u32,
    before: Option<u64>,
    now: i64,
)
    requires
        st.valid(),
    ensures
        ({
            let (after, who, step) = st.handled(
                conn,
                Some((user, role)),
                id,
                MessageView::History { room, limit, before_seq: before },
                now,
            );
            &&& who == Some((user, role))
            &&& step is Done
            &&& if st.rooms.contains_key(room) {
                exists|messages: Seq<HistoryItemView>|
                    {
                        &&& after == saying(
                            st,
                            seq![
                                frame_for(
                                    conn,
                                    id,
                                    MessageView::HistoryRes { room, messages },
                                ),
                            ],
                        )
                        &&& #[trigger] is_page(messages, said_in(st, room), limit, before)
                    }
            } else {
                after == saying(
                    st,
                    seq![refusal(conn, id, ErrorCode::RoomNotFound, "Room not found"@)],
                )
            }
        }),
{
    let after = st.handled(
        conn,
        Some((user, role)),
        id,
        MessageView::History { room, limit, before_seq: before },
        now,
    ).0;
    assert(after.out =~= st.out + seq![after.out.last()]);
    if st.rooms.contains_key(room) {
        lemma_page(st, room, limit, before);
        let messages = st.history_for(room, limit, before);
        assert(is_page(messages, said_in(st, room), limit, before));
    }
}

/// A history without a bound on the numbers is a page of what is kept.
pub proof fn lemma_whole_page(st: StateView, room: Seq<char>, limit: u32)
    ensures
        is_page(st.history_for(room, limit, None), said_in(st, room), limit, None),
{
    let kept = st.kept(room);
    assert(kept == said_in(st, room));
    laws::law_history_unpaged(st, room, limit);
    let end = kept.len() as int;
    let start: int = if 0 < limit < end {
        end - limit
    } else {
        0
    };
    assert(st.history_for(room, limit, None) =~= kept.subrange(start, end));
}

proof fn lemma_page(st: StateView, room: Seq<char>, limit: u32, before: Option<u64>)
    requires
        st.valid(),
    ensures
        is_page(st.history_for(room, limit, before), said_in(st, room), limit, before),
{
    let kept = st.kept(room);
    assert(kept == said_in(st, room));
    let end = match before {
        Some(number) => laws::law_history_page(st, room, limit, number),
        None => {
            laws::law_history_unpaged(st, room, limit);
            kept.len() as int
        },
    };
    let start: int = if 0 < limit < end {
        end - limit
    } else {
        0
    };
    assert(kept.take(kept.len() as int) =~= kept);
    assert(st.history_for(room, limit, before) =~= kept.subrange(start, end));
}

/// Whether one answer has been given on a connection, and nothing else has happened.
pub open spec fn only_answered(
    st: StateView,
    outcome: (StateView, Option<(Seq<char>, Role)>, StepView),
    who: (Seq<char>, Role),
    conn: u64,
    id: u64,
    msg: MessageView,
) -> bool {
    outcome == (saying(st, seq![frame_for(conn, id, msg)]), Some(who), StepView::Done)
}

/// The message that was handed out last, for one connection.
pub open spec fn last_said(after: StateView) -> MessageView {
    after.out.last()->Send_frame.msg
}

/// Whoever asks is told all rooms and those that the asker is in; the users who are online; the
/// managers among them; and the members of a room, each list in ascending order. Nothing else
/// happens.
pub proof fn law_lists_are_answered(
    st: StateView,
    conn: u64,
    who: (Seq<char>, Role),
    id: u64,
    name: Seq<char>,
    now: i64,
)
    requires
        st.valid(),
    ensures
        ({
            let asked = st.handled(conn, Some(who), id, MessageView::RoomList, now);
            let msg = last_said(asked.0);
            only_answered(st, asked, who, conn, id, msg) && is_room_list(msg, st, who.0)
        }),
        ({
            let asked = st.handled(conn, Some(who), id, MessageView::UserOnline, now);
            let msg = last_said(asked.0);
            only_answered(st, asked, who, conn, id, msg) && (msg matches MessageView::UserOnlineRes {
                users,
            } && lists_those(users, |user: Seq<char>| st.online.contains_key(user)))
        }),
        ({
            let asked = st.handled(conn, Some(who), id, MessageView::UserManagers, now);
            let msg = last_said(asked.0);
            only_answered(st, asked, who, conn, id, msg)
                && (msg matches MessageView::UserManagersRes { managers } && lists_those(
                managers,
                |user: Seq<char>| st.online.contains_key(user) && manages(st.online[user].role),
            ))
        }),
        ({
            let asked = st.handled(conn, Some(who), id, MessageView::RoomMembers { name }, now);
            let msg = last_said(asked.0);
            &&& only_answered(st, asked, who, conn, id, msg)
            &&& if st.rooms.contains_key(name) {
                msg matches MessageView::RoomMembersRes { name: shown, members } && shown == name
                    && lists_those(members, |user: Seq<char>| st.rooms[name].contains(user))
            } else {
                msg == (MessageView::Error {
                    code: ErrorCode::RoomNotFound,
                    message: "Room not found"@,
                    retryable: false,
                })
            }
        }),
{
    lemma_lists(st, who.0);
    let a = st.handled(conn, Some(who), id, MessageView::RoomList, now).0;
    assert(a.out =~= st.out + seq![a.out.last()]);
    let b = st.handled(conn, Some(who), id, MessageView::UserOnline, now).0;
    assert(b.out =~= st.out + seq![b.out.last()]);
    let c = st.handled(conn, Some(who), id, MessageView::UserManagers, now).0;
    assert(c.out =~= st.out + seq![c.out.last()]);
    let d = st.handled(conn, Some(who), id, MessageView::RoomMembers { name }, now).0;
    assert(d.out =~= st.out + seq![d.out.last()]);
    if st.rooms.contains_key(name) {
        assert(st.members(name).finite());
        names::lemma_listing_exists(st.rooms[name]);
    }
}

/// A ping is answered with a pong. The server tells its name, its versions, and how many rooms
/// there are and how many users are online, where these numbers fit. Nothing else happens.
pub proof fn law_server_is_answered(
    st: StateView,
    conn: u64,
    who: (Seq<char>, Role),
    id: u64,
    now: i64,
)
    requires
        st.valid(),
        st.rooms.dom().len() <= usize::MAX,
        st.online.dom().len() <= usize::MAX,
    ensures
        only_answered(
            st,
            st.handled(conn, Some(who), id, MessageView::Ping, now),
            who,
            conn,
            id,
            MessageView::Pong,
        ),
        only_answered(
            st,
            st.handled(conn, Some(who), id, MessageView::ServerInfo, now),
            who,
            conn,
            id,
            MessageView::ServerInfoRes {
                protocol: 1,
                name: "Sinrana"@,
                version: st.version,
                rooms: st.rooms.dom().len() as usize,
                online: st.online.dom().len() as usize,
            },
        ),
{
    let a = st.handled(conn, Some(who), id, MessageView::Ping, now).0;
    assert(a.out =~= st.out + seq![a.out.last()]);
    let b = st.handled(conn, Some(who), id, MessageView::ServerInfo, now).0;
    assert(b.out =~= st.out + seq![b.out.last()]);
    names::lemma_listing_exists(st.online.dom());
    names::lemma_listing_exists(st.rooms.dom());
    lemma_counts(st.online_names(), st.online.dom());
    lemma_counts(st.room_names(), st.rooms.dom());
}

/// A list of the members of a set is as long as the set is large.
pub proof fn lemma_counts(listed: Seq<Seq<char>>, set: Set<Seq<char>>)
    requires
        names::lists(listed, set),
    ensures
        set.finite(),
        listed.len() == set.len(),
{
    assert(listed.no_duplicates()) by {
        assert forall|i: int, j: int| 0 <= i < j < listed.len() implies listed[i] != listed[j] by {
            text::lemma_text_lt_irreflexive(listed[i]);
        }
    }
    listed.unique_seq_to_set();
    assert(listed.to_set() =~= set);
}

/// The state with other members of one room.
pub open spec fn with_members(st: StateView, room: Seq<char>, members: Set<Seq<char>>) -> StateView {
    StateView { rooms: st.rooms.insert(room, members), ..st }
}

/// A manager or an administrator makes a room under a name that is neither that of a room nor of
/// a user online: its maker is the one member, the database is told, the request is answered, and
/// the member is told. Others are refused, and nothing else happens.
pub proof fn law_room_is_created(
    st: StateView,
    conn: u64,
    user: Seq<char>,
    role: Role,
    id: u64,
    name: Seq<char>,
    now: i64,
)
    requires
        st.valid(),
    ensures
        ({
            let (after, who, step) = st.handled(
                conn,
                Some((user, role)),
                id,
                MessageView::RoomCreate { name },
                now,
            );
            let n = st.out.len() as int;
            &&& who == Some((user, role))
            &&& step is Done
            &&& if !manages(role) {
                after == saying(
                    st,
                    seq![refusal(conn, id, ErrorCode::Forbidden, "Permission denied"@)],
                )
            } else if st.rooms.contains_key(name) || st.online.contains_key(name) {
                after == saying(
                    st,
                    seq![refusal(conn, id, ErrorCode::Conflict, "room exists"@)],
                )
            } else {
                &&& after == StateView {
                    out: after.out,
                    ..with_members(st, name, Set::<Seq<char>>::empty().insert(user))
                }
                &&& after.out.len() == n + 3
                &&& after.out.take(n) == st.out
                &&& after.out[n] == OutputView::Persist(DbWriteView::CreateRoom { name })
                &&& after.out[n + 1] == frame_for(conn, id, MessageView::RoomCreateRes { name })
                &&& is_told(
                    after.out[n + 2],
                    after,
                    name,
                    MessageView::Notice {
                        text: user + " created room "@ + name,
                        level: "info"@,
                    },
                )
            }
        }),
{
    let after = st.handled(
        conn,
        Some((user, role)),
        id,
        MessageView::RoomCreate { name },
        now,
    ).0;
    let n = st.out.len() as int;
    if !manages(role) || st.rooms.contains_key(name) || st.online.contains_key(name) {
        assert(after.out =~= st.out + seq![after.out.last()]);
    } else {
        assert(after.out.take(n) =~= st.out);
        let before = StateView { out: after.out.take(n + 2), ..after };
        assert(after.out.take(n + 2).push(after.out[n + 2]) =~= after.out);
        assert(before.members(name) == Set::<Seq<char>>::empty().insert(user));
        lemma_told(
            before,
            name,
            MessageView::Notice { text: user + " created room "@ + name, level: "info"@ },
        );
        lemma_same_conns(before, after);
        lemma_same_conns(st, after);
    }
}

/// Whoever is logged in joins any room: the user is a member, the request is answered, and the
/// members who are online, the new one among them, are told. Leaving works the other way round,
/// except that the default room cannot be left; those who remain are told. Nothing else changes.
pub proof fn law_room_is_joined_and_left(
    st: StateView,
    conn: u64,
    user: Seq<char>,
    role: Role,
    id: u64,
    name: Seq<char>,
    now: i64,
)
    requires
        st.valid(),
    ensures
        ({
            let (after, who, step) = st.handled(
                conn,
                Some((user, role)),
                id,
                MessageView::RoomJoin { name },
                now,
            );
            let n = st.out.len() as int;
            &&& who == Some((user, role))
            &&& step is Done
            &&& if !st.rooms.contains_key(name) {
                after == saying(
                    st,
                    seq![refusal(conn, id, ErrorCode::RoomNotFound, "Room not found"@)],
                )
            } else {
                &&& after == StateView {
                    out: after.out,
                    ..with_members(st, name, st.rooms[name].insert(user))
                }
                &&& after.out.len() == n + 2
                &&& after.out.take(n) == st.out
                &&& after.out[n] == frame_for(conn, id, MessageView::RoomJoinRes { name })
                &&& is_told(
                    after.out[n + 1],
                    after,
                    name,
                    MessageView::Notice { text: user + " joined "@ + name, level: "info"@ },
                )
            }
        }),
        ({
            let (after, who, step) = st.handled(
                conn,
                Some((user, role)),
                id,
                MessageView::RoomLeave { name },
                now,
            );
            let n = st.out.len() as int;
            &&& who == Some((user, role))
            &&& step is Done
            &&& if name == st.cfg.default_room {
                after == saying(
                    st,
                    seq![
                        refusal(
                            conn,
                            id,
                            ErrorCode::Forbidden,
                            "cannot leave the default room"@,
                        ),
                    ],
                )
            } else {
                &&& after == StateView {
                    out: after.out,
                    ..if st.rooms.contains_key(name) {
                        with_members(st, name, st.rooms[name].remove(user))
                    } else {
                        st
                    }
                }
                &&& after.out.len() == n + 2
                &&& after.out.take(n) == st.out
                &&& after.out[n] == frame_for(conn, id, MessageView::RoomLeaveRes { name })
                &&& is_told(
                    after.out[n + 1],
                    after,
                    name,
                    MessageView::Notice { text: user + " left "@ + name, level: "info"@ },
                )
            }
        }),
{
    let n = st.out.len() as int;
    assert(st.members(name).finite());
    let after = st.handled(
        conn,
        Some((user, role)),
        id,
        MessageView::RoomJoin { name },
        now,
    ).0;
    if !st.rooms.contains_key(name) {
        assert(after.out =~= st.out + seq![after.out.last()]);
    } else {
        assert(after.out.take(n) =~= st.out);
        let before = StateView { out: after.out.take(n + 1), ..after };
        assert(after.out.take(n + 1).push(after.out[n + 1]) =~= after.out);
        lemma_told(
            before,
            name,
            MessageView::Notice { text: user + " joined "@ + name, level: "info"@ },
        );
        lemma_same_conns(before, after);
    }
    let after = st.handled(
        conn,
        Some((user, role)),
        id,
        MessageView::RoomLeave { name },
        now,
    ).0;
    if name == st.cfg.default_room {
        assert(after.out =~= st.out + seq![after.out.last()]);
    } else {
        assert(after.out.take(n) =~= st.out);
        let before = StateView { out: after.out.take(n + 1), ..after };
        assert(after.out.take(n + 1).push(after.out[n + 1]) =~= after.out);
        lemma_told(
            before,
            name,
            MessageView::Notice { text: user + " left "@ + name, level: "info"@ },
        );
        lemma_same_conns(before, after);
    }
}

/// An administrator deletes any room: it is not there any more, nothing is kept of it, the
/// database is told and the request is answered, and nothing else changes. Others are refused.
pub proof fn law_room_is_deleted(
    st: StateView,
    conn: u64,
    user: Seq<char>,
    role: Role,
    id: u64,
    name: Seq<char>,
    now: i64,
)
    ensures
        st.handled(conn, Some((user, role)), id, MessageView::RoomDelete { name }, now) == (
            if role != Role::Admin {
                saying(st, seq![refusal(conn, id, ErrorCode::Forbidden, "Permission denied"@)])
            } else if !st.rooms.contains_key(name) {
                saying(st, seq![refusal(conn, id, ErrorCode::RoomNotFound, "Room not found"@)])
            } else {
                saying(
                    StateView {
                        rooms: st.rooms.remove(name),
                        history: st.history.remove(name),
                        ..st
                    },
                    seq![
                        OutputView::Persist(DbWriteView::DeleteRoom { name }),
                        frame_for(conn, id, MessageView::RoomDeleteRes { name }),
                    ],
                )
            },
            Some((user, role)),
            StepView::Done,
        ),
{
    let after = st.handled(
        conn,
        Some((user, role)),
        id,
        MessageView::RoomDelete { name },
        now,
    ).0;
    let n = st.out.len() as int;
    if role == Role::Admin && st.rooms.contains_key(name) {
        assert(after.out =~= st.out + seq![after.out[n], after.out[n + 1]]);
    } else {
        assert(after.out =~= st.out + seq![after.out.last()]);
    }
}

/// A text, with the reason behind a colon where there is one.
pub open spec fn because(what: Seq<char>, reason: Option<Seq<char>>) -> Seq<char> {
    if reason is Some {
        what + ": "@ + reason->0
    } else {
        what
    }
}

/// Whether a user has been put out: told the text on the user's own connection, taken offline and
/// out of all rooms, with no session that brings the user back, and everybody who is still online
/// has been told; then the request has been answered.
pub open spec fn is_put_out(
    st: StateView,
    after: StateView,
    target: Seq<char>,
    text: Seq<char>,
    answer: OutputView,
) -> bool {
    let n = st.out.len() as int;
    &&& is_gone(st, after, target)
    &&& brings_back(st, after, target, None)
    &&& settled(st, after)
    &&& after.out.len() == n + 3
    &&& after.out.take(n) == st.out
    &&& after.out[n] == frame_for(
        st.online[target].conn,
        0,
        MessageView::Notice { text, level: "warn"@ },
    )
    &&& is_manifest(after.out[n + 1], after.online)
    &&& after.out[n + 2] == answer
}

pub proof fn lemma_put_out(
    st: StateView,
    after: StateView,
    target: Seq<char>,
    text: Seq<char>,
    conn: u64,
    id: u64,
    msg: MessageView,
)
    requires
        st.valid(),
        st.online.contains_key(target),
        after == st.expel(target, text).reply(conn, id, msg),
    ensures
        is_put_out(st, after, target, text, frame_for(conn, id, msg)),
{
    let n = st.out.len() as int;
    lemma_gone(st, after, target);
    assert(after.out.take(n) =~= st.out);
    let before = StateView { out: after.out.take(n + 1), ..after };
    lemma_manifest(before);
    lemma_same_conns(before, after);
    let expelled = st.expel(target, text);
    assert(expelled.out == after.out.take(n + 1).push(after.out[n + 1])) by {
        assert(expelled.out =~= after.out.take(n + 1).push(after.out[n + 1]));
    }
    lemma_same_conns(
        before,
        st.send_to(
            target,
            FrameView::push(MessageView::Notice { text, level: "warn"@ }),
        ).unregister(target).end_sessions(target),
    );
}

/// A manager or an administrator kicks anybody who is online, short of the account `admin` and of
/// themselves: the target is told, with the reason, and put out, and the answer names the target.
/// Others are refused, and nothing else happens.
pub proof fn law_kick_is_carried_out(
    st: StateView,
    conn: u64,
    user: Seq<char>,
    role: Role,
    id: u64,
    target: Seq<char>,
    reason: Option<Seq<char>>,
    now: i64,
)
    requires
        st.valid(),
    ensures
        ({
            let (after, who, step) = st.handled(
                conn,
                Some((user, role)),
                id,
                MessageView::UserKick { target, reason },
                now,
            );
            let no = |code: ErrorCode, text: Seq<char>|
                after == saying(st, seq![refusal(conn, id, code, text)]);
            &&& who == Some((user, role))
            &&& step is Done
            &&& if !manages(role) {
                no(ErrorCode::Forbidden, "Permission denied"@)
            } else if !st.online.contains_key(target) {
                no(ErrorCode::NotFound, "target not online"@)
            } else if target == "admin"@ || target == user {
                no(ErrorCode::Forbidden, "cannot kick self/admin"@)
            } else {
                is_put_out(
                    st,
                    after,
                    target,
                    because("kicked from server"@, reason),
                    frame_for(conn, id, MessageView::UserKickRes { target }),
                )
            }
        }),
{
    let after = st.handled(
        conn,
        Some((user, role)),
        id,
        MessageView::UserKick { target, reason },
        now,
    ).0;
    if !manages(role) || !st.online.contains_key(target) || target == "admin"@ || target == user {
        assert(after.out =~= st.out + seq![after.out.last()]);
    } else {
        lemma_put_out(
            st,
            after,
            target,
            because("kicked from server"@, reason),
            conn,
            id,
            MessageView::UserKickRes { target },
        );
    }
}

/// What a request to administer accounts asks the world for next, where an administrator makes
/// it: the name is looked up, the password is hashed, or the database is changed, for the target
/// that was named.
pub open spec fn asks_for(msg: MessageView, step: StepView) -> bool {
    match msg {
        MessageView::AdminUserCreate { username, password, role } => step == (StepView::Lookup {
            username,
            then: AfterLookupView::AdminCreate { password, role },
        }),
        MessageView::AdminSetPwd { target, password } => step == (StepView::Hash {
            password,
            then: AfterHashView::SetPwd { target },
        }),
        MessageView::AdminSetRole { target, role } => step matches StepView::Write {
            write: DbWriteView::SetRole { username, role: name },
            then,
        } && username == target && name == role_name(role) && then == (AfterWriteView::SetRole {
            target,
            role,
        }),
        MessageView::AdminUserDelete { target } => step == (StepView::Write {
            write: DbWriteView::DeleteUser { username: target },
            then: AfterWriteView::Delete { target },
        }),
        MessageView::AdminUserBan { target, reason } => step == (StepView::Write {
            write: DbWriteView::SetBanned { username: target, banned: true },
            then: AfterWriteView::Ban { target, reason },
        }),
        MessageView::AdminUserRestore { target } => step == (StepView::Write {
            write: DbWriteView::SetBanned { username: target, banned: false },
            then: AfterWriteView::Restore { target },
        }),
        _ => false,
    }
}

/// The name under which a role is stored: one that stands for it.
pub open spec fn role_name(role: Role) -> Seq<char> {
    match role {
        Role::Admin => "admin"@,
        Role::Manager => "manager"@,
        Role::User => "user"@,
    }
}

/// Whether a message asks to administer accounts.
pub open spec fn administers(msg: MessageView) -> bool {
    msg is AdminUserCreate || msg is AdminSetPwd || msg is AdminSetRole || msg is AdminUserDelete
        || msg is AdminUserBan || msg is AdminUserRestore
}

/// Only an administrator administers accounts, and none changes the role of `admin`, or bans or
/// deletes `admin` or themselves: all of that is refused. Otherwise the request goes on, with the
/// state as it is.
pub proof fn law_administration_is_judged(
    st: StateView,
    conn: u64,
    user: Seq<char>,
    role: Role,
    id: u64,
    msg: MessageView,
    now: i64,
)
    requires
        administers(msg),
    ensures
        ({
            let (after, who, step) = st.handled(conn, Some((user, role)), id, msg, now);
            let no = |text: Seq<char>|
                after == saying(st, seq![refusal(conn, id, ErrorCode::Forbidden, text)])
                    && step is Done;
            &&& who == Some((user, role))
            &&& if role != Role::Admin {
                no("Permission denied"@)
            } else if msg matches MessageView::AdminSetRole { target, .. } && target == "admin"@ {
                no("cannot change admin role"@)
            } else if msg matches MessageView::AdminUserDelete { target } && (target == "admin"@
                || target == user) {
                no("cannot delete self/admin"@)
            } else if msg matches MessageView::AdminUserBan { target, .. } && (target == "admin"@
                || target == user) {
                no("cannot ban self/admin"@)
            } else {
                after == st && asks_for(msg, step)
            }
        }),
{
    let after = st.handled(conn, Some((user, role)), id, msg, now).0;
    if after.out.len() > st.out.len() {
        assert(after.out =~= st.out + seq![after.out.last()]);
    }
}

/// A new account is refused under the name `Server`, and under a name that is stored or online.
/// Otherwise the password is hashed, and the database is asked for an account of that name with
/// the hash and the role; a new password is hashed and stored for its target. A hash that cannot
/// be made is reported.
pub proof fn law_accounts_are_written(
    st: StateView,
    conn: u64,
    id: u64,
    username: Seq<char>,
    password: Seq<char>,
    role: Role,
    found: LookupView,
    matches: bool,
    hash: Result<Seq<char>, AuthError>,
)
    ensures
        ({
            let then = AfterLookupView::AdminCreate { password, role };
            let (after, step) = st.on_lookup(conn, id, username, then, found, matches);
            if username == "Server"@ {
                after == saying(
                    st,
                    seq![refusal(conn, id, ErrorCode::ReservedName, "Reserved name"@)],
                ) && step is Done
            } else if found is Found || st.online.contains_key(username) {
                after == saying(
                    st,
                    seq![refusal(conn, id, ErrorCode::UserExists, "User already exists"@)],
                ) && step is Done
            } else {
                after == st && step == (StepView::Hash {
                    password,
                    then: AfterHashView::AdminCreate { username, role },
                })
            }
        }),
        ({
            let made = st.on_hash(conn, id, AfterHashView::AdminCreate { username, role }, hash);
            let set = st.on_hash(conn, id, AfterHashView::SetPwd { target: username }, hash);
            let broken = (
                saying(
                    st,
                    seq![refusal(conn, id, ErrorCode::Internal, "Internal server error"@)],
                ),
                StepView::Done,
            );
            match hash {
                Ok(password_hash) => {
                    &&& made == (
                        st,
                        StepView::Write {
                            write: DbWriteView::CreateUser {
                                username,
                                password_hash,
                                role: role_name(role),
                            },
                            then: AfterWriteView::AdminCreate { username, role },
                        },
                    )
                    &&& set == (
                        st,
                        StepView::Write {
                            write: DbWriteView::SetPassword { username, password_hash },
                            then: AfterWriteView::SetPwd { target: username },
                        },
                    )
                },
                Err(AuthError::Hash) => made == broken && set == broken,
                Err(AuthError::RandomUnavailable) => made == (st, StepView::NoRandom) && set == (
                    st,
                    StepView::NoRandom,
                ),
            }
        }),
{
    let then = AfterLookupView::AdminCreate { password, role };
    let after = st.on_lookup(conn, id, username, then, found, matches).0;
    if after.out.len() > st.out.len() {
        assert(after.out =~= st.out + seq![after.out.last()]);
    }
    let made = st.on_hash(conn, id, AfterHashView::AdminCreate { username, role }, hash).0;
    let set = st.on_hash(conn, id, AfterHashView::SetPwd { target: username }, hash).0;
    if made.out.len() > st.out.len() {
        assert(made.out =~= st.out + seq![made.out.last()]);
        assert(set.out =~= st.out + seq![set.out.last()]);
    }
}

/// A change that the database has made is answered with what was asked for. A change of role
/// reaches the user who is online, on the same connection, and the sessions that bring the user
/// back; who is banned or deleted is put out, or, if not online, brought back by no session; the
/// other changes touch nothing. A change that the database has not made is reported, and nothing
/// happens.
pub proof fn law_administration_is_answered(
    st: StateView,
    conn: u64,
    id: u64,
    target: Seq<char>,
    role: Role,
    reason: Option<Seq<char>>,
    then: AfterWriteView,
)
    requires
        st.valid(),
    ensures
        st.on_write(conn, id, then, false) == saying(
            st,
            seq![
                if then is SetRole {
                    refusal(conn, id, ErrorCode::Forbidden, "cannot change admin role"@)
                } else {
                    refusal(conn, id, ErrorCode::Internal, "Internal server error"@)
                },
            ],
        ),
        st.on_write(conn, id, AfterWriteView::AdminCreate { username: target, role }, true)
            == saying(
            st,
            seq![
                frame_for(conn, id, MessageView::AdminUserCreateRes { username: target, role }),
            ],
        ),
        st.on_write(conn, id, AfterWriteView::SetPwd { target }, true) == saying(
            st,
            seq![frame_for(conn, id, MessageView::AdminSetPwdRes { target })],
        ),
        st.on_write(conn, id, AfterWriteView::Restore { target }, true) == saying(
            st,
            seq![frame_for(conn, id, MessageView::AdminUserRestoreRes { target })],
        ),
        ({
            let after = st.on_write(conn, id, AfterWriteView::SetRole { target, role }, true);
            &&& after.online == if st.online.contains_key(target) {
                st.online.insert(target, OnlineUser { role, conn: st.online[target].conn })
            } else {
                st.online
            }
            &&& after.rooms == st.rooms
            &&& brings_back(st, after, target, Some(role))
            &&& settled(st, after)
            &&& after.out == st.out + seq![
                frame_for(conn, id, MessageView::AdminSetRoleRes { target, role }),
            ]
        }),
        ({
            let after = st.on_write(conn, id, AfterWriteView::Ban { target, reason }, true);
            let answer = frame_for(conn, id, MessageView::AdminUserBanRes { target });
            if st.online.contains_key(target) {
                is_put_out(st, after, target, because("banned"@, reason), answer)
            } else {
                is_shut_out(st, after, target, answer)
            }
        }),
        ({
            let after = st.on_write(conn, id, AfterWriteView::Delete { target }, true);
            let answer = frame_for(conn, id, MessageView::AdminUserDeleteRes { target });
            if st.online.contains_key(target) {
                is_put_out(st, after, target, "your account was deleted"@, answer)
            } else {
                is_shut_out(st, after, target, answer)
            }
        }),
{
    let a = st.on_write(conn, id, then, false);
    assert(a.out =~= st.out + seq![a.out.last()]);
    let b = st.on_write(conn, id, AfterWriteView::AdminCreate { username: target, role }, true);
    assert(b.out =~= st.out + seq![b.out.last()]);
    let c = st.on_write(conn, id, AfterWriteView::SetPwd { target }, true);
    assert(c.out =~= st.out + seq![c.out.last()]);
    let d = st.on_write(conn, id, AfterWriteView::Restore { target }, true);
    assert(d.out =~= st.out + seq![d.out.last()]);
    let e = st.on_write(conn, id, AfterWriteView::SetRole { target, role }, true);
    assert(e.out =~= st.out + seq![e.out.last()]);
    assert(e.sessions.dom() =~= st.sessions.dom());
    let f = st.on_write(conn, id, AfterWriteView::Ban { target, reason }, true);
    let g = st.on_write(conn, id, AfterWriteView::Delete { target }, true);
    if st.online.contains_key(target) {
        lemma_put_out(
            st,
            f,
            target,
            because("banned"@, reason),
            conn,
            id,
            MessageView::AdminUserBanRes { target },
        );
        lemma_put_out(
            st,
            g,
            target,
            "your account was deleted"@,
            conn,
            id,
            MessageView::AdminUserDeleteRes { target },
        );
    } else {
        assert(f.out =~= st.out + seq![f.out.last()]);
        assert(g.out =~= st.out + seq![g.out.last()]);
        assert(f.sessions.dom() =~= st.sessions.dom());
        assert(g.sessions.dom() =~= st.sessions.dom());
    }
}

/// Whether the sessions of a user who is not online have ended, and the request has been answered.
pub open spec fn is_shut_out(
    st: StateView,
    after: StateView,
    target: Seq<char>,
    answer: OutputView,
) -> bool {
    &&& after.online == st.online
    &&& after.rooms == st.rooms
    &&& brings_back(st, after, target, None)
    &&& settled(st, after)
    &&& after.out == st.out + seq![answer]
}

/// Without a login every request but those to log in, register and resume is refused. With one,
/// a message that no client sends is handed back to be described in a refusal. Nothing else
/// happens.
pub proof fn law_other_messages_are_refused(
    st: StateView,
    conn: u64,
    who: (Seq<char>, Role),
    id: u64,
    msg: MessageView,
    now: i64,
)
    requires
        !(msg is Login || msg is Register || msg is Resume),
    ensures
        st.handled(conn, None, id, msg, now) == (
            saying(
                st,
                seq![refusal(conn, id, ErrorCode::NotAuthenticated, "Not authenticated"@)],
            ),
            None::<(Seq<char>, Role)>,
            StepView::Done,
        ),
        !(msg is Logout || msg is SendText || msg is History || msg is RoomList || msg is RoomCreate
            || msg is RoomJoin || msg is RoomLeave || msg is RoomDelete || msg is RoomMembers
            || msg is UserOnline || msg is UserManagers || msg is UserKick || administers(msg)
            || msg is ServerInfo || msg is Ping) ==> st.handled(conn, Some(who), id, msg, now) == (
            st,
            Some(who),
            StepView::Unexpected { msg },
        ),
{
    let after = st.handled(conn, None, id, msg, now).0;
    assert(after.out =~= st.out + seq![after.out.last()]);
}

/// The stored users once the database has made a change. A name that is taken keeps its record,
/// and a change of somebody who is not stored changes nobody.
pub open spec fn stored(users: Users, write: DbWriteView) -> Users {
    match write {
        DbWriteView::CreateUser { username, password_hash, role } => if users.contains_key(
            username,
        ) {
            users
        } else {
            users.insert(username, UserRecordView { username, password_hash, role, banned: 0 })
        },
        DbWriteView::SetRole { username, role } => if users.contains_key(username) {
            users.insert(username, UserRecordView { role, ..users[username] })
        } else {
            users
        },
        DbWriteView::SetPassword { username, password_hash } => if users.contains_key(username) {
            users.insert(username, UserRecordView { password_hash, ..users[username] })
        } else {
            users
        },
        DbWriteView::SetBanned { username, banned } => if users.contains_key(username) {
            users.insert(
                username,
                UserRecordView {
                    banned: if banned {
                        1
                    } else {
                        0
                    },
                    ..users[username]
                },
            )
        } else {
            users
        },
        DbWriteView::DeleteUser { username } => users.remove(username),
        _ => users,
    }
}

/// What looking a user up among those stored finds.
pub open spec fn lookup(users: Users, name: Seq<char>) -> LookupView {
    if users.contains_key(name) {
        LookupView::Found(users[name])
    } else {
        LookupView::Missing
    }
}

/// Whether a login of a user, with the right password, goes on to a token for this role.
pub open spec fn gets_in(st: StateView, users: Users, name: Seq<char>, role: Role) -> bool {
    forall|conn: u64, id: u64, password: Seq<char>|
        (#[trigger] st.on_lookup(
            conn,
            id,
            name,
            AfterLookupView::Login { password },
            lookup(users, name),
            true,
        )).1 == (StepView::Token { username: name, role })
}

/// Whether a login of a user, even with the right password, is refused.
pub open spec fn kept_out(st: StateView, users: Users, name: Seq<char>) -> bool {
    forall|conn: u64, id: u64, password: Seq<char>|
        (#[trigger] st.on_lookup(
            conn,
            id,
            name,
            AfterLookupView::Login { password },
            lookup(users, name),
            true,
        )).1 is Done
}

/// What an administrator asks for counts at the next login. With the changes that the requests
/// ask the database for: a user whose role is set gets in with that role; who is banned or deleted
/// is kept out; who is restored gets in again with the role the user had; who is created gets in
/// with the role given, and who registers with the lowest. Nobody else's record is touched.
pub proof fn law_administration_counts_at_login(
    st: StateView,
    conn: u64,
    user: Seq<char>,
    id: u64,
    target: Seq<char>,
    role: Role,
    was: Role,
    reason: Option<Seq<char>>,
    hash: Seq<char>,
    now: i64,
    users: Users,
    other: Seq<char>,
)
    requires
        !st.cfg.lock_server,
        !st.online.contains_key(target),
        target != "admin"@,
        target != user,
        other != target,
    ensures
        ({
            let who = Some((user, Role::Admin));
            let set_role = st.handled(
                conn,
                who,
                id,
                MessageView::AdminSetRole { target, role },
                now,
            ).2;
            let ban = st.handled(
                conn,
                who,
                id,
                MessageView::AdminUserBan { target, reason },
                now,
            ).2;
            let restore = st.handled(
                conn,
                who,
                id,
                MessageView::AdminUserRestore { target },
                now,
            ).2;
            let delete = st.handled(
                conn,
                who,
                id,
                MessageView::AdminUserDelete { target },
                now,
            ).2;
            let create = st.on_hash(
                conn,
                id,
                AfterHashView::AdminCreate { username: target, role },
                Ok(hash),
            ).1;
            let register = st.on_hash(
                conn,
                id,
                AfterHashView::Register { username: target },
                Ok(hash),
            ).1;
            let set_pwd = st.on_hash(conn, id, AfterHashView::SetPwd { target }, Ok(hash)).1;
            &&& set_role is Write && ban is Write && restore is Write && delete is Write
            &&& create is Write && register is Write && set_pwd is Write
            &&& users.contains_key(target) && users[target].banned == 0 ==> gets_in(
                st,
                stored(users, set_role->Write_write),
                target,
                role,
            )
            &&& users.contains_key(target) ==> {
                &&& kept_out(st, stored(users, ban->Write_write), target)
                &&& stands_for(was, users[target].role) ==> gets_in(
                    st,
                    stored(stored(users, ban->Write_write), restore->Write_write),
                    target,
                    was,
                )
                &&& stored(users, set_pwd->Write_write)[target] == (UserRecordView {
                    password_hash: hash,
                    ..users[target]
                })
            }
            &&& kept_out(st, stored(users, delete->Write_write), target)
            &&& !users.contains_key(target) ==> {
                &&& gets_in(st, stored(users, create->Write_write), target, role)
                &&& stored(users, create->Write_write)[target].password_hash == hash
                &&& gets_in(st, stored(users, register->Write_write), target, Role::User)
                &&& stored(users, register->Write_write)[target].password_hash == hash
            }
            &&& lookup(stored(users, set_role->Write_write), other) == lookup(users, other)
            &&& lookup(stored(users, ban->Write_write), other) == lookup(users, other)
            &&& lookup(stored(users, restore->Write_write), other) == lookup(users, other)
            &&& lookup(stored(users, delete->Write_write), other) == lookup(users, other)
            &&& lookup(stored(users, create->Write_write), other) == lookup(users, other)
            &&& lookup(stored(users, register->Write_write), other) == lookup(users, other)
            &&& lookup(stored(users, set_pwd->Write_write), other) == lookup(users, other)
        }),
{
    reveal_strlit("user");
    reveal_strlit("manager");
    reveal_strlit("admin");
    assert("user"@.len() != "admin"@.len() && "user"@.len() != "manager"@.len() && "manager"@.len()
        != "admin"@.len());
}

/// A server that starts has nobody online, nothing kept and nothing said; the default room is the
/// only room, with `system` as its only member; users and texts are numbered from one.
pub proof fn law_start(cfg: crate::config::ConfigView, version: Seq<char>, started_at: i64)
    ensures
        ({
            let st = StateView::start(cfg, version, started_at);
            &&& st.cfg == cfg
            &&& st.version == version
            &&& st.started_at == started_at
            &&& forall|user: Seq<char>| !(#[trigger] st.online.contains_key(user))
            &&& forall|room: Seq<char>| #[trigger]
                st.rooms.contains_key(room) <==> room == cfg.default_room
            &&& forall|user: Seq<char>| #[trigger]
                st.rooms[cfg.default_room].contains(user) <==> user == "system"@
            &&& forall|token: Seq<char>| !(#[trigger] st.sessions.contains_key(token))
            &&& forall|room: Seq<char>| !(#[trigger] st.history.contains_key(room))
            &&& st.next_id == 1
            &&& st.next_seq == 1
            &&& st.out.len() == 0
        }),
{
}

/// A password is checked against the stored hash of the user that was found, and against nothing
/// else.
pub proof fn law_password_is_checked(password: Seq<char>, found: LookupView)
    ensures
        crate::handle::matches_found(password, found) <==> (found matches LookupView::Found(record)
            && crate::auth::lanes_fit(record.password_hash) && crate::auth::argon2_accepts(
            password,
            record.password_hash,
        )),
{
}

/// Whoever is put into a room that exists is in it, and whoever is taken out is not; a room that
/// does not exist is not made by either. Creating a room makes it with one member, or puts the
/// member into the one that exists. Nobody else comes or goes, in this room or in another one.
pub proof fn law_members_come_and_go(
    st: StateView,
    room: Seq<char>,
    user: Seq<char>,
    other_room: Seq<char>,
    other: Seq<char>,
)
    ensures
        st.add_to_room(user, room).in_room(room, user) <==> st.rooms.contains_key(room),
        !st.remove_from_room(user, room).in_room(room, user),
        st.create_room(room, user).in_room(room, user),
        st.add_to_room(user, room).rooms.contains_key(other_room) <==> st.rooms.contains_key(
            other_room,
        ),
        st.remove_from_room(user, room).rooms.contains_key(other_room) <==> st.rooms.contains_key(
            other_room,
        ),
        st.create_room(room, user).rooms.contains_key(other_room) <==> st.rooms.contains_key(
            other_room,
        ) || other_room == room,
        other != user || other_room != room ==> {
            &&& st.add_to_room(user, room).in_room(other_room, other) <==> st.in_room(
                other_room,
                other,
            )
            &&& st.remove_from_room(user, room).in_room(other_room, other) <==> st.in_room(
                other_room,
                other,
            )
            &&& st.create_room(room, user).in_room(other_room, other) <==> st.in_room(
                other_room,
                other,
            )
        },
        st.in_room(room, user) <==> st.rooms.contains_key(room) && st.rooms[room].contains(user),
{
}

/// What is meant for a user reaches the user's own connection, and nobody where the user is
/// offline. A role is given to who is online, at once, and to nobody else; and a user who is
/// registered is online with that role, on that connection.
pub proof fn law_users_are_reached(
    st: StateView,
    user: Seq<char>,
    other: Seq<char>,
    role: Role,
    conn: u64,
    frame: FrameView,
)
    ensures
        st.online.contains_key(user) ==> st.send_to(user, frame) == saying(
            st,
            seq![OutputView::Send { conn: st.online[user].conn, frame }],
        ),
        !st.online.contains_key(user) ==> st.send_to(user, frame) == st,
        st.set_online_role(user, role).online.dom() == st.online.dom(),
        st.online.contains_key(user) ==> st.set_online_role(user, role).online[user] == (OnlineUser {
            role,
            conn: st.online[user].conn,
        }),
        other != user ==> st.set_online_role(user, role).online[other] == st.online[other],
        st.register_online(user, role, conn).online.contains_key(user),
        st.register_online(user, role, conn).online[user] == (OnlineUser { role, conn }),
        other != user ==> {
            &&& st.register_online(user, role, conn).online.contains_key(other)
                <==> st.online.contains_key(other)
            &&& st.register_online(user, role, conn).online[other] == st.online[other]
        },
{
    if st.online.contains_key(user) {
        assert(st.send_to(user, frame).out =~= saying(
            st,
            seq![OutputView::Send { conn: st.online[user].conn, frame }],
        ).out);
    }
    assert(st.set_online_role(user, role).online.dom() =~= st.online.dom());
}

/// A session that is recorded is found under its token, and hides no other one.
pub proof fn law_sessions_are_found(
    st: StateView,
    token: Seq<char>,
    info: SessionView,
    other: Seq<char>,
)
    ensures
        st.store_session(token, info).sessions.contains_key(token),
        st.store_session(token, info).sessions[token] == info,
        other != token ==> {
            &&& st.store_session(token, info).sessions.contains_key(other)
                <==> st.sessions.contains_key(other)
            &&& st.store_session(token, info).sessions[other] == st.sessions[other]
        },
        settled(st, st.store_session(token, info)),
{
}

/// A connection becomes the user exactly where the user comes online by the login, and the user is
/// then online with the same role, on this connection. Where the login comes to nothing, the
/// connection is who it was.
pub proof fn law_connection_is_the_user(
    st: StateView,
    conn: u64,
    identity: Option<(Seq<char>, Role)>,
    id: u64,
    username: Seq<char>,
    role: Role,
    token: Option<Seq<char>>,
)
    ensures
        ({
            let after = st.on_token(conn, id, username, role, token).0;
            let who = st.identified(identity, username, role, token);
            if !st.online.contains_key(username) && after.online.contains_key(username) {
                &&& who == Some((username, role))
                &&& after.online[username] == (OnlineUser { role, conn })
            } else {
                &&& who == identity
                &&& after.online == st.online
            }
        }),
{
}

/// A message that is no request is refused with how it is shown, and nothing else happens.
pub proof fn law_unexpected_is_refused(st: StateView, conn: u64, id: u64, shown: Seq<char>)
    ensures
        st.unexpected(conn, id, shown) == saying(
            st,
            seq![refusal(conn, id, ErrorCode::BadRequest, "unexpected message: "@ + shown)],
        ),
{
    assert(st.unexpected(conn, id, shown).out =~= saying(
        st,
        seq![refusal(conn, id, ErrorCode::BadRequest, "unexpected message: "@ + shown)],
    ).out);
}

/// A connection that the peer closes is not reported; any other end is, with what went wrong.
pub proof fn law_ends_are_reported(message: Seq<char>, err: TransportErrorView)
    ensures
        end_report(err) is None <==> err == TransportErrorView::Closed,
        end_report(TransportErrorView::Io(message)) == Some("recv: "@ + ("io: "@ + message)),
        end_report(TransportErrorView::Encode(message)) == Some(
            "recv: "@ + ("encode: "@ + message),
        ),
        end_report(TransportErrorView::Decode(message)) == Some(
            "recv: "@ + ("decode: "@ + message),
        ),
        end_report(TransportErrorView::Other(message)) == Some(
            "recv: "@ + ("transport: "@ + message),
        ),
{
}

} // verus!
