//! The mathematical model of the server's shared state, and what each operation does to it.

use vstd::prelude::*;

use crate::config::ConfigView;
use crate::db::DbWriteView;
use crate::envelope::FrameView;
use crate::message::{HistoryItemView, MessageView, Role};
use crate::names;

verus! {

/// The number of messages that are kept of each room.
pub const HISTORY_CAP: usize = 512;

/// A user who is online: the role, and the connection that receives.
#[derive(Debug, Clone, Copy, PartialEq, Eq, Structural)]
pub struct OnlineUser {
    pub role: Role,
    pub conn: u64,
}

impl View for OnlineUser {
    type V = OnlineUser;

    open spec fn view(&self) -> OnlineUser {
        *self
    }
}

/// The view of a session: whose it is, with which role it began, and with which role its token
/// brings the user back online. It brings nobody back once the user has logged out, or been
/// kicked, banned or deleted.
pub ghost struct SessionView {
    pub username: Seq<char>,
    pub role: Role,
    pub returns_as: Option<Role>,
}

impl SessionView {
    /// The session, if it is one of this user and still brings the user back, with another role
    /// to come back with, or none; any other session as it is.
    pub open spec fn revised(self, user: Seq<char>, returns_as: Option<Role>) -> SessionView {
        if self.username == user && self.returns_as is Some {
            SessionView { returns_as, ..self }
        } else {
            self
        }
    }
}

/// The view of something that the server hands to the world.
pub ghost enum OutputView {
    /// A frame for one connection.
    Send { conn: u64, frame: FrameView },
    /// A frame for several connections, which observers of the server see as well.
    Publish { conns: Seq<u64>, frame: FrameView },
    /// A change of the database, whose outcome nobody waits for.
    Persist(DbWriteView),
}

/// The view of the server's shared state.
pub ghost struct StateView {
    pub cfg: ConfigView,
    pub version: Seq<char>,
    pub started_at: i64,
    /// The users who are online.
    pub online: Map<Seq<char>, OnlineUser>,
    /// The members of each room.
    pub rooms: Map<Seq<char>, Set<Seq<char>>>,
    /// The sessions by token.
    pub sessions: Map<Seq<char>, SessionView>,
    /// The messages kept of each room, oldest first.
    pub history: Map<Seq<char>, Seq<HistoryItemView>>,
    pub next_id: u64,
    pub next_seq: u64,
    /// What has been handed out, in order.
    pub out: Seq<OutputView>,
}

/// The last `n` items of a sequence, or all of them.
pub open spec fn last_n<T>(s: Seq<T>, n: nat) -> Seq<T> {
    if s.len() > n {
        s.skip(s.len() - n)
    } else {
        s
    }
}

/// Filtering one item more.
pub proof fn lemma_filter_step<T>(s: Seq<T>, i: int, keep: spec_fn(T) -> bool)
    requires
        0 <= i < s.len(),
    ensures
        s.take(i + 1).filter(keep) == if keep(s[i]) {
            s.take(i).filter(keep).push(s[i])
        } else {
            s.take(i).filter(keep)
        },
{
    reveal(Seq::filter);
    assert(s.take(i + 1).drop_last() =~= s.take(i));
}

/// The role that a name stands for; a name that is none stands for the lowest.
pub open spec fn role_of(name: Seq<char>) -> Role {
    if name == "admin"@ {
        Role::Admin
    } else if name == "manager"@ {
        Role::Manager
    } else {
        Role::User
    }
}

impl StateView {
    /// A server that has just started: only the default room exists, with `system` in it.
    pub open spec fn start(cfg: ConfigView, version: Seq<char>, started_at: i64) -> StateView {
        StateView {
            cfg,
            version,
            started_at,
            online: Map::empty(),
            rooms: Map::empty().insert(cfg.default_room, Set::empty().insert("system"@)),
            sessions: Map::empty(),
            history: Map::empty(),
            next_id: 1,
            next_seq: 1,
            out: Seq::empty(),
        }
    }

    /// Hands something out.
    pub open spec fn put(self, output: OutputView) -> StateView {
        StateView { out: self.out.push(output), ..self }
    }

    /// The names of the users online, in ascending order.
    pub open spec fn online_names(self) -> Seq<Seq<char>> {
        names::listing(self.online.dom())
    }

    /// The names of the rooms, in ascending order.
    pub open spec fn room_names(self) -> Seq<Seq<char>> {
        names::listing(self.rooms.dom())
    }

    /// The rooms that a user is in, in ascending order.
    pub open spec fn rooms_of(self, user: Seq<char>) -> Seq<Seq<char>> {
        self.room_names().filter(|room: Seq<char>| self.rooms[room].contains(user))
    }

    /// The users online whose role is manager or higher, in ascending order.
    pub open spec fn managers(self) -> Seq<Seq<char>> {
        self.online_names().filter(
            |user: Seq<char>| self.online[user].role.level() >= Role::Manager.level(),
        )
    }

    /// The members of a room; nobody where there is no such room.
    pub open spec fn members(self, room: Seq<char>) -> Set<Seq<char>> {
        if self.rooms.contains_key(room) {
            self.rooms[room]
        } else {
            Set::empty()
        }
    }

    /// Whether a user is a member of a room.
    pub open spec fn in_room(self, room: Seq<char>, user: Seq<char>) -> bool {
        self.members(room).contains(user)
    }

    /// The connections of those of the given users who are online.
    pub open spec fn conns(self, users: Seq<Seq<char>>) -> Seq<u64> {
        users.filter(|user: Seq<char>| self.online.contains_key(user)).map_values(
            |user: Seq<char>| self.online[user].conn,
        )
    }

    /// Sends a frame to a user, if online.
    pub open spec fn send_to(self, user: Seq<char>, frame: FrameView) -> StateView {
        if self.online.contains_key(user) {
            self.put(OutputView::Send { conn: self.online[user].conn, frame })
        } else {
            self
        }
    }

    /// Publishes the list of the users online to all of them.
    pub open spec fn broadcast_manifest(self) -> StateView {
        self.put(
            OutputView::Publish {
                conns: self.conns(self.online_names()),
                frame: FrameView::push(
                    MessageView::PushUserManifest { users: self.online_names() },
                ),
            },
        )
    }

    /// Publishes a frame to the members of a room.
    pub open spec fn broadcast_room(self, room: Seq<char>, frame: FrameView) -> StateView {
        self.put(
            OutputView::Publish { conns: self.conns(names::listing(self.members(room))), frame },
        )
    }

    /// The messages kept of a room.
    pub open spec fn kept(self, room: Seq<char>) -> Seq<HistoryItemView> {
        if self.history.contains_key(room) {
            self.history[room]
        } else {
            Seq::empty()
        }
    }

    /// Appends a message to what is kept of a room, and lets the oldest go.
    pub open spec fn push_history(self, room: Seq<char>, item: HistoryItemView) -> StateView {
        StateView {
            history: self.history.insert(
                room,
                last_n(self.kept(room).push(item), HISTORY_CAP as nat),
            ),
            ..self
        }
    }

    /// Gives a text its number and time, keeps it, and publishes it to the room.
    pub open spec fn broadcast_text(
        self,
        from: Seq<char>,
        room: Seq<char>,
        body: Seq<char>,
        ts: i64,
    ) -> StateView {
        let seq = self.next_seq;
        StateView { next_seq: self.next_seq.wrapping_add(1), ..self }.push_history(
            room,
            HistoryItemView { seq, room, from, body, ts },
        ).broadcast_room(room, FrameView::push(MessageView::PushText { room, from, body, seq, ts }))
    }

    /// Publishes one text in each of the given rooms, in order.
    pub open spec fn broadcast_texts(
        self,
        from: Seq<char>,
        rooms: Seq<Seq<char>>,
        body: Seq<char>,
        ts: i64,
    ) -> StateView
        decreases rooms.len(),
    {
        if rooms.len() == 0 {
            self
        } else {
            self.broadcast_texts(from, rooms.drop_last(), body, ts).broadcast_text(
                from,
                rooms.last(),
                body,
                ts,
            )
        }
    }

    /// Makes a user a member of a room, which is created where it does not exist.
    pub open spec fn create_room(self, room: Seq<char>, by: Seq<char>) -> StateView {
        StateView { rooms: self.rooms.insert(room, self.members(room).insert(by)), ..self }
    }

    /// Forgets a room and what was kept of it.
    pub open spec fn delete_room(self, room: Seq<char>) -> StateView {
        StateView { rooms: self.rooms.remove(room), history: self.history.remove(room), ..self }
    }

    /// Makes a user a member of a room, if it exists.
    pub open spec fn add_to_room(self, user: Seq<char>, room: Seq<char>) -> StateView {
        if self.rooms.contains_key(room) {
            StateView { rooms: self.rooms.insert(room, self.rooms[room].insert(user)), ..self }
        } else {
            self
        }
    }

    /// Takes a user out of a room, if it exists.
    pub open spec fn remove_from_room(self, user: Seq<char>, room: Seq<char>) -> StateView {
        if self.rooms.contains_key(room) {
            StateView { rooms: self.rooms.insert(room, self.rooms[room].remove(user)), ..self }
        } else {
            self
        }
    }

    /// Puts a user online.
    pub open spec fn register_online(self, user: Seq<char>, role: Role, conn: u64) -> StateView {
        StateView { online: self.online.insert(user, OnlineUser { role, conn }), ..self }
    }

    /// Takes a user offline and out of all rooms.
    pub open spec fn unregister(self, user: Seq<char>) -> StateView {
        StateView {
            online: self.online.remove(user),
            rooms: self.rooms.map_values(|members: Set<Seq<char>>| members.remove(user)),
            ..self
        }
    }

    /// Gives a user who is online another role.
    pub open spec fn set_online_role(self, user: Seq<char>, role: Role) -> StateView {
        if self.online.contains_key(user) {
            StateView {
                online: self.online.insert(
                    user,
                    OnlineUser { role, conn: self.online[user].conn },
                ),
                ..self
            }
        } else {
            self
        }
    }

    /// Records a session.
    pub open spec fn store_session(self, token: Seq<char>, info: SessionView) -> StateView {
        StateView { sessions: self.sessions.insert(token, info), ..self }
    }

    /// Changes with which role, if any, the sessions of a user bring the user back.
    pub open spec fn revise_sessions(
        self,
        user: Seq<char>,
        returns_as: Option<Role>,
    ) -> StateView {
        StateView {
            sessions: self.sessions.map_values(
                |info: SessionView| info.revised(user, returns_as),
            ),
            ..self
        }
    }

    /// Ends all sessions of a user: none brings the user back.
    pub open spec fn end_sessions(self, user: Seq<char>) -> StateView {
        self.revise_sessions(user, None)
    }

    /// The last `limit` messages of a room with a number below `before` (all, where `limit` is 0;
    /// any number, where there is no `before`), oldest first.
    pub open spec fn history_for(self, room: Seq<char>, limit: u32, before: Option<u64>) -> Seq<
        HistoryItemView,
    > {
        let items = self.kept(room).filter(
            |item: HistoryItemView| before is None || item.seq < before->0,
        );
        if limit > 0 {
            last_n(items, limit as nat)
        } else {
            items
        }
    }
}

} // verus!
