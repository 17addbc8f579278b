//! The shared state of the server: who is online, the rooms, the sessions, and what is kept of
//! the chat.
//!
//! Every operation acts on the state at once and leaves what is to be sent in an outbox, in
//! order. The caller takes the outbox and carries it out.

use std::collections::VecDeque;
use vstd::prelude::*;

use crate::config::Config;
use crate::db::DbWrite;
use crate::envelope::Frame;
use crate::message::{HistoryItem, HistoryItemView, Message, Role};
use crate::model;
use crate::model::{OnlineUser, OutputView, SessionView, StateView, HISTORY_CAP};
use crate::names;
use crate::names::{NameMap, NameSet};
use crate::text;

verus! {

/// The role that a stored name stands for; any other name is an ordinary user.
pub fn role_from_str(s: &str) -> (role: Role)
    ensures
        role == model::role_of(s@),
{
    if text::same_text(s, "admin") {
        Role::Admin
    } else if text::same_text(s, "manager") {
        Role::Manager
    } else {
        Role::User
    }
}

/// The name of a role stands for that role.
pub proof fn law_role_name_comes_back(role: Role)
    ensures
        model::role_of(role.label()) == role,
{
    reveal_strlit("user");
    reveal_strlit("manager");
    reveal_strlit("admin");
    assert("user"@.len() == 4 && "manager"@.len() == 7 && "admin"@.len() == 5);
}

/// Something that the server hands to the world.
#[derive(Debug, Clone, PartialEq, Eq)]
pub enum Output {
    /// A frame for one connection.
    Send { conn: u64, frame: Frame },
    /// A frame for several connections; its message is an event for the observers as well.
    Publish { conns: Vec<u64>, frame: Frame },
    /// A change of the database, whose outcome nobody waits for.
    Persist(DbWrite),
}

impl View for Output {
    type V = OutputView;

    open spec fn view(&self) -> OutputView {
        match self {
            Output::Send { conn, frame } => OutputView::Send { conn: *conn, frame: frame@ },
            Output::Publish { conns, frame } => OutputView::Publish {
                conns: conns@,
                frame: frame@,
            },
            Output::Persist(write) => OutputView::Persist(write@),
        }
    }
}

/// A room: its members.
#[derive(Debug)]
pub struct Room {
    pub members: NameSet,
}

impl View for Room {
    type V = Set<Seq<char>>;

    open spec fn view(&self) -> Set<Seq<char>> {
        self.members@
    }
}

/// What a session token stands for.
#[derive(Debug, Clone, PartialEq, Eq)]
pub struct SessionInfo {
    pub username: String,
    /// The role of the login.
    pub role: Role,
    /// The role with which the token brings the user back online, unless the session has ended.
    pub returns_as: Option<Role>,
}

impl View for SessionInfo {
    type V = SessionView;

    open spec fn view(&self) -> SessionView {
        SessionView { username: self.username@, role: self.role, returns_as: self.returns_as }
    }
}

/// The messages kept of one room, oldest first: never more than [`HISTORY_CAP`].
#[derive(Debug)]
pub struct History {
    items: VecDeque<HistoryItem>,
}

impl View for History {
    type V = Seq<HistoryItemView>;

    closed spec fn view(&self) -> Seq<HistoryItemView> {
        text::views(self.items@)
    }
}

impl History {
    #[verifier::type_invariant]
    spec fn bounded(self) -> bool {
        self.items@.len() <= HISTORY_CAP
    }

    /// Nothing kept.
    pub fn new() -> (history: Self)
        ensures
            history@ == Seq::<HistoryItemView>::empty(),
    {
        let history = History { items: VecDeque::new() };
        assert(history@ =~= Seq::<HistoryItemView>::empty());
        history
    }

    /// Appends a message, and lets the oldest go once there are too many.
    pub fn push(&mut self, item: HistoryItem)
        ensures
            final(self)@ == model::last_n(old(self)@.push(item@), HISTORY_CAP as nat),
    {
        proof {
            use_type_invariant(&*self);
        }
        let mut items: VecDeque<HistoryItem> = VecDeque::new();
        std::mem::swap(&mut items, &mut self.items);
        items.push_back(item);
        let ghost all = items@;
        while items.len() > HISTORY_CAP
            invariant
                all.len() <= HISTORY_CAP + 1,
                items@.len() <= all.len(),
                all.len() <= HISTORY_CAP ==> items@ == all,
                all.len() > HISTORY_CAP ==> items@ == all || (items@ == all.skip(1) && items@.len()
                    == HISTORY_CAP),
            decreases items@.len(),
        {
            let _ = items.pop_front();
            assert(items@ =~= all.skip(1));
        }
        self.items = items;
        assert(self@ =~= model::last_n(old(self)@.push(item@), HISTORY_CAP as nat));
    }

    /// The last `limit` messages with a number below `before`.
    pub fn select(&self, limit: u32, before: Option<u64>) -> (found: Vec<HistoryItem>)
        ensures
            text::views(found@) == ({
                let items = self@.filter(
                    |item: HistoryItemView| before is None || item.seq < before->0,
                );
                if limit > 0 {
                    model::last_n(items, limit as nat)
                } else {
                    items
                }
            }),
            found@.len() <= HISTORY_CAP,
    {
        let ghost keep = |item: HistoryItemView| before is None || item.seq < before->0;
        let mut found: Vec<HistoryItem> = Vec::new();
        let mut i: usize = 0;
        proof {
            reveal(Seq::filter);
            assert(text::views(found@) =~= self@.take(0).filter(keep));
        }
        while i < self.items.len()
            invariant
                i <= self.items@.len(),
                keep == |item: HistoryItemView| before is None || item.seq < before->0,
                text::views(found@) == self@.take(i as int).filter(keep),
                found@.len() <= i,
            decreases self.items@.len() - i,
        {
            let ghost had = text::views(found@);
            let item = &self.items[i];
            let below = match before {
                Some(b) => item.seq < b,
                None => true,
            };
            assert(self@[i as int] == item@);
            proof {
                model::lemma_filter_step(self@, i as int, keep);
            }
            if below {
                let copied = item.copy();
                found.push(copied);
                assert(text::views(found@) =~= had.push(item@));
            }
            i += 1;
        }
        proof {
            use_type_invariant(self);
            assert(self@.take(i as int) =~= self@);
        }
        if limit > 0 && found.len() > limit as usize {
            let start: usize = found.len() - limit as usize;
            let ghost whole = found@;
            let tail = found.split_off(start);
            assert(text::views(tail@) =~= text::views(whole).skip(start as int));
            found = tail;
        }
        found
    }
}

/// The shared state.
#[derive(Debug)]
pub struct State {
    cfg: Config,
    server_version: String,
    started_at: i64,
    online: NameMap<OnlineUser>,
    rooms: NameMap<Room>,
    sessions: NameMap<SessionInfo>,
    history: NameMap<History>,
    next_id: u64,
    next_seq: u64,
    outbox: Vec<Output>,
}

impl View for State {
    type V = StateView;

    closed spec fn view(&self) -> StateView {
        StateView {
            cfg: self.cfg@,
            version: self.server_version@,
            started_at: self.started_at,
            online: self.online@,
            rooms: self.rooms@,
            sessions: self.sessions@,
            history: self.history@,
            next_id: self.next_id,
            next_seq: self.next_seq,
            out: text::views(self.outbox@),
        }
    }
}

impl State {
    /// The state of a server that has just started: the default room exists.
    pub fn new(cfg: Config, server_version: String, started_at: i64) -> (state: Self)
        ensures
            state@ == StateView::start(cfg@, server_version@, started_at),
    {
        let room = cfg.default_room.clone();
        let mut state = State {
            cfg,
            server_version,
            started_at,
            online: NameMap::new(),
            rooms: NameMap::new(),
            sessions: NameMap::new(),
            history: NameMap::new(),
            next_id: 1,
            next_seq: 1,
            outbox: Vec::new(),
        };
        assert(state@.out =~= Seq::<OutputView>::empty());
        state.create_room(room.as_str(), "system");
        assert(state@.rooms =~= StateView::start(cfg@, server_version@, started_at).rooms);
        state
    }

    /// The configuration at this moment.
    pub fn config(&self) -> (cfg: Config)
        ensures
            cfg@ == self@.cfg,
    {
        self.cfg.copy()
    }

    /// Takes over what a live edit may change, leaves the rest, and returns the configuration
    /// that is now in force.
    pub fn apply_runtime_config(&mut self, incoming: &Config) -> (cfg: Config)
        ensures
            final(self)@ == (StateView { cfg: old(self)@.cfg.edited(incoming@), ..old(self)@ }),
            cfg@ == final(self)@.cfg,
    {
        self.cfg.apply_runtime(incoming);
        self.cfg.copy()
    }

    /// The version of the server.
    pub fn server_version(&self) -> (version: String)
        ensures
            version@ == self@.version,
    {
        self.server_version.clone()
    }

    /// The number that the next text gets.
    pub fn server_seq(&self) -> (seq: u64)
        ensures
            seq == self@.next_seq,
    {
        self.next_seq
    }

    /// The time that has passed since the start.
    pub fn uptime_ms(&self, now: i64) -> (ms: i64)
        ensures
            ms == now.wrapping_sub(self@.started_at),
    {
        now.wrapping_sub(self.started_at)
    }

    /// Hands something out.
    pub(crate) fn put(&mut self, output: Output)
        ensures
            final(self)@ == old(self)@.put(output@),
    {
        self.outbox.push(output);
        assert(self@.out =~= old(self)@.out.push(output@));
    }

    /// Takes what has been handed out.
    pub fn take_outbox(&mut self) -> (outputs: Vec<Output>)
        ensures
            text::views(outputs@) == old(self)@.out,
            final(self)@ == (StateView { out: Seq::empty(), ..old(self)@ }),
    {
        let mut outputs: Vec<Output> = Vec::new();
        std::mem::swap(&mut outputs, &mut self.outbox);
        assert(self@.out =~= Seq::<OutputView>::empty());
        outputs
    }

    /// The users online with their roles, by name.
    pub fn online_users(&self) -> (users: Vec<(String, Role)>)
        ensures
            text::views(users@) == self@.online_names().map_values(
                |user: Seq<char>| (user, self@.online[user].role),
            ),
            names::lists(self@.online_names(), self@.online.dom()),
    {
        let list = self.online.names();
        let mut users: Vec<(String, Role)> = Vec::new();
        let mut i: usize = 0;
        let ghost pair = |user: Seq<char>| (user, self@.online[user].role);
        while i < list.len()
            invariant
                i <= list@.len(),
                pair == |user: Seq<char>| (user, self@.online[user].role),
                names::lists(text::views(list@), self@.online.dom()),
                text::views(users@) == text::views(list@).take(i as int).map_values(pair),
            decreases list@.len() - i,
        {
            let name = list[i].clone();
            proof {
                assert(text::views(list@)[i as int] == name@);
                assert(text::views(list@).contains(name@));
                assert(text::views(list@).take(i + 1) =~= text::views(list@).take(i as int).push(
                    name@,
                ));
            }
            let ghost had = text::views(users@);
            match self.online.get(name.as_str()) {
                Some(user) => {
                    let role = user.role;
                    users.push((name, role));
                    assert(text::views(users@) =~= had.push((name@, role)));
                },
                None => {
                    assert(false);
                },
            }
            assert(text::views(users@) =~= text::views(list@).take(i + 1).map_values(pair));
            i += 1;
        }
        assert(text::views(list@).take(i as int) =~= text::views(list@));
        users
    }

    /// The names of the users online.
    pub fn online_usernames(&self) -> (users: Vec<String>)
        ensures
            text::views(users@) == self@.online_names(),
            names::lists(text::views(users@), self@.online.dom()),
    {
        self.online.names()
    }

    /// The number of users online.
    pub fn online_count(&self) -> (n: usize)
        ensures
            n == self@.online_names().len(),
    {
        self.online.len()
    }

    /// The number of rooms.
    pub fn room_count(&self) -> (n: usize)
        ensures
            n == self@.room_names().len(),
    {
        self.rooms.len()
    }

    /// Whether a user is online.
    pub fn is_online(&self, username: &str) -> (online: bool)
        ensures
            online == self@.online.contains_key(username@),
    {
        self.online.contains(username)
    }

    /// Sends a frame to a user, if online.
    pub fn send_to(&mut self, username: &str, frame: Frame)
        ensures
            final(self)@ == old(self)@.send_to(username@, frame@),
    {
        let conn = match self.online.get(username) {
            Some(user) => Some(user.conn),
            None => None,
        };
        if let Some(conn) = conn {
            self.put(Output::Send { conn, frame });
        }
    }

    /// The connections of those of the given users who are online.
    fn conns(&self, users: &Vec<String>) -> (conns: Vec<u64>)
        ensures
            conns@ == self@.conns(text::views(users@)),
    {
        let ghost all = text::views(users@);
        let ghost here = |user: Seq<char>| self@.online.contains_key(user);
        let ghost conn_of = |user: Seq<char>| self@.online[user].conn;
        let mut conns: Vec<u64> = Vec::new();
        let mut i: usize = 0;
        proof {
            reveal(Seq::filter);
            assert(conns@ =~= all.take(0).filter(here).map_values(conn_of));
        }
        while i < users.len()
            invariant
                i <= users@.len(),
                all == text::views(users@),
                here == |user: Seq<char>| self@.online.contains_key(user),
                conn_of == |user: Seq<char>| self@.online[user].conn,
                conns@ == all.take(i as int).filter(here).map_values(conn_of),
            decreases users@.len() - i,
        {
            let ghost had = all.take(i as int).filter(here);
            let name = users[i].as_str();
            proof {
                assert(all[i as int] == name@);
                model::lemma_filter_step(all, i as int, here);
            }
            match self.online.get(name) {
                Some(user) => {
                    conns.push(user.conn);
                    assert(conns@ =~= had.push(name@).map_values(conn_of));
                },
                None => {},
            }
            i += 1;
        }
        assert(all.take(i as int) =~= all);
        conns
    }

    /// Publishes the list of the users online to all of them.
    pub fn broadcast_manifest(&mut self)
        ensures
            final(self)@ == old(self)@.broadcast_manifest(),
    {
        let users = self.online_usernames();
        let conns = self.conns(&users);
        self.put(Output::Publish { conns, frame: Frame::push(Message::PushUserManifest { users }) });
    }

    /// Publishes a frame to the members of a room.
    pub fn broadcast_room(&mut self, room: &str, frame: Frame)
        ensures
            final(self)@ == old(self)@.broadcast_room(room@, frame@),
    {
        let members = self.room_members(room);
        let conns = self.conns(&members);
        self.put(Output::Publish { conns, frame });
    }

    /// Gives a text its number, keeps it, and publishes it to the room. This is the one place
    /// that orders the chat. Returns the number and the time.
    pub fn broadcast_text(&mut self, from: &str, room: &str, body: &str, ts: i64) -> (sent: (
        u64,
        i64,
    ))
        ensures
            final(self)@ == old(self)@.broadcast_text(from@, room@, body@, ts),
            sent == (old(self)@.next_seq, ts),
    {
        let seq = self.next_seq;
        self.next_seq = self.next_seq.wrapping_add(1);
        self.push_history(
            room,
            HistoryItem {
                seq,
                room: room.to_owned(),
                from: from.to_owned(),
                body: body.to_owned(),
                ts,
            },
        );
        self.broadcast_room(
            room,
            Frame::push(
                Message::PushText {
                    room: room.to_owned(),
                    from: from.to_owned(),
                    body: body.to_owned(),
                    seq,
                    ts,
                },
            ),
        );
        (seq, ts)
    }

    /// Publishes one text in every room.
    pub fn broadcast_everywhere(&mut self, from: &str, body: &str, ts: i64)
        ensures
            final(self)@ == old(self)@.broadcast_texts(
                from@,
                old(self)@.room_names(),
                body@,
                ts,
            ),
    {
        let rooms = self.room_names();
        let ghost all = text::views(rooms@);
        let mut i: usize = 0;
        assert(all.take(0) =~= Seq::<Seq<char>>::empty());
        while i < rooms.len()
            invariant
                i <= rooms@.len(),
                all == text::views(rooms@),
                self@ == old(self)@.broadcast_texts(from@, all.take(i as int), body@, ts),
            decreases rooms@.len() - i,
        {
            proof {
                assert(all.take(i + 1).drop_last() =~= all.take(i as int));
                assert(all[i as int] == rooms@[i as int]@);
            }
            let _ = self.broadcast_text(from, rooms[i].as_str(), body, ts);
            i += 1;
        }
        assert(all.take(i as int) =~= all);
    }

    /// The names of the rooms.
    pub fn room_names(&self) -> (rooms: Vec<String>)
        ensures
            text::views(rooms@) == self@.room_names(),
            names::lists(text::views(rooms@), self@.rooms.dom()),
    {
        self.rooms.names()
    }

    /// Whether a room exists.
    pub fn has_room(&self, room: &str) -> (found: bool)
        ensures
            found == self@.rooms.contains_key(room@),
    {
        self.rooms.contains(room)
    }

    /// The members of a room; nobody where there is no such room.
    pub fn room_members(&self, room: &str) -> (members: Vec<String>)
        ensures
            text::views(members@) == names::listing(self@.members(room@)),
            names::lists(text::views(members@), self@.members(room@)),
    {
        match self.rooms.get(room) {
            Some(r) => r.members.names(),
            None => NameSet::new().names(),
        }
    }

    /// Whether a user is a member of a room.
    pub fn in_room(&self, room: &str, username: &str) -> (member: bool)
        ensures
            member == self@.in_room(room@, username@),
    {
        match self.rooms.get(room) {
            Some(r) => r.members.contains(username),
            None => false,
        }
    }

    /// The rooms that a user is in.
    pub fn rooms_of(&self, username: &str) -> (rooms: Vec<String>)
        ensures
            text::views(rooms@) == self@.rooms_of(username@),
            names::lists(
                text::views(rooms@),
                self@.rooms.dom().filter(
                    |room: Seq<char>| self@.rooms[room].contains(username@),
                ),
            ),
    {
        let list = self.rooms.names();
        let ghost all = text::views(list@);
        let ghost keep = |room: Seq<char>| self@.rooms[room].contains(username@);
        let mut rooms: Vec<String> = Vec::new();
        let mut i: usize = 0;
        proof {
            reveal(Seq::filter);
            assert(text::views(rooms@) =~= all.take(0).filter(keep));
        }
        while i < list.len()
            invariant
                i <= list@.len(),
                all == text::views(list@),
                names::lists(all, self@.rooms.dom()),
                keep == |room: Seq<char>| self@.rooms[room].contains(username@),
                text::views(rooms@) == all.take(i as int).filter(keep),
            decreases list@.len() - i,
        {
            let ghost had = text::views(rooms@);
            let name = list[i].clone();
            proof {
                assert(all[i as int] == name@);
                assert(all.contains(name@));
                model::lemma_filter_step(all, i as int, keep);
            }
            if self.in_room(name.as_str(), username) {
                rooms.push(name);
                assert(text::views(rooms@) =~= had.push(name@));
            }
            i += 1;
        }
        assert(all.take(i as int) =~= all);
        proof {
            names::lemma_filter_lists(all, self@.rooms.dom(), keep);
        }
        rooms
    }

    /// The users online whose role is manager or higher.
    pub fn managers(&self) -> (managers: Vec<String>)
        ensures
            text::views(managers@) == self@.managers(),
            names::lists(
                text::views(managers@),
                self@.online.dom().filter(
                    |user: Seq<char>| self@.online[user].role.level() >= Role::Manager.level(),
                ),
            ),
    {
        let list = self.online.names();
        let ghost all = text::views(list@);
        let ghost keep = |user: Seq<char>|
            self@.online[user].role.level() >= Role::Manager.level();
        let mut managers: Vec<String> = Vec::new();
        let mut i: usize = 0;
        proof {
            reveal(Seq::filter);
            assert(text::views(managers@) =~= all.take(0).filter(keep));
        }
        while i < list.len()
            invariant
                i <= list@.len(),
                all == text::views(list@),
                names::lists(all, self@.online.dom()),
                keep == |user: Seq<char>|
                    self@.online[user].role.level() >= Role::Manager.level(),
                text::views(managers@) == all.take(i as int).filter(keep),
            decreases list@.len() - i,
        {
            let ghost had = text::views(managers@);
            let name = list[i].clone();
            proof {
                assert(all[i as int] == name@);
                assert(all.contains(name@));
                model::lemma_filter_step(all, i as int, keep);
            }
            let high = match self.online.get(name.as_str()) {
                Some(user) => user.role.rank() >= Role::Manager.rank(),
                None => false,
            };
            if high {
                managers.push(name);
                assert(text::views(managers@) =~= had.push(name@));
            }
            i += 1;
        }
        assert(all.take(i as int) =~= all);
        proof {
            names::lemma_filter_lists(all, self@.online.dom(), keep);
        }
        managers
    }

    /// Makes a user a member of a room, which is created where it does not exist.
    pub fn create_room(&mut self, room: &str, created_by: &str)
        ensures
            final(self)@ == old(self)@.create_room(room@, created_by@),
    {
        let mut r = match self.rooms.remove(room) {
            Some(r) => r,
            None => Room { members: NameSet::new() },
        };
        r.members.insert(created_by);
        self.rooms.insert(room, r);
        assert(self@.rooms =~= old(self)@.create_room(room@, created_by@).rooms);
    }

    /// Forgets a room and what was kept of it.
    pub fn delete_room(&mut self, room: &str)
        ensures
            final(self)@ == old(self)@.delete_room(room@),
    {
        let _ = self.rooms.remove(room);
        let _ = self.history.remove(room);
    }

    /// Makes a user a member of a room, if it exists.
    pub fn add_to_room(&mut self, username: &str, room: &str)
        ensures
            final(self)@ == old(self)@.add_to_room(username@, room@),
    {
        match self.rooms.remove(room) {
            Some(r) => {
                let mut r = r;
                r.members.insert(username);
                self.rooms.insert(room, r);
            },
            None => {},
        }
        assert(self@.rooms =~= old(self)@.add_to_room(username@, room@).rooms);
    }

    /// Takes a user out of a room, if it exists.
    pub fn remove_from_room(&mut self, username: &str, room: &str)
        ensures
            final(self)@ == old(self)@.remove_from_room(username@, room@),
    {
        match self.rooms.remove(room) {
            Some(r) => {
                let mut r = r;
                r.members.remove(username);
                self.rooms.insert(room, r);
            },
            None => {},
        }
        assert(self@.rooms =~= old(self)@.remove_from_room(username@, room@).rooms);
    }

    /// Appends a message to what is kept of a room.
    fn push_history(&mut self, room: &str, item: HistoryItem)
        ensures
            final(self)@ == old(self)@.push_history(room@, item@),
    {
        let mut kept = match self.history.remove(room) {
            Some(kept) => kept,
            None => History::new(),
        };
        kept.push(item);
        self.history.insert(room, kept);
        assert(self@.history =~= old(self)@.push_history(room@, item@).history);
    }

    /// Puts a user online, with the connection that receives.
    pub fn register_online(&mut self, username: &str, role: Role, conn: u64)
        ensures
            final(self)@ == old(self)@.register_online(username@, role, conn),
    {
        self.online.insert(username, OnlineUser { role, conn });
    }

    /// Takes a user offline and out of all rooms.
    pub fn unregister(&mut self, username: &str)
        ensures
            final(self)@ == old(self)@.unregister(username@),
    {
        let list = self.rooms.names();
        let ghost all = text::views(list@);
        let ghost before = self@.rooms;
        let mut i: usize = 0;
        while i < list.len()
            invariant
                i <= list@.len(),
                all == text::views(list@),
                names::lists(all, before.dom()),
                before == old(self)@.rooms,
                self@.rooms.dom() == before.dom(),
                forall|room: Seq<char>| #[trigger]
                    before.contains_key(room) ==> self@.rooms[room] == if all.take(
                        i as int,
                    ).contains(room) {
                        before[room].remove(username@)
                    } else {
                        before[room]
                    },
                self@ == (StateView { rooms: self@.rooms, ..old(self)@ }),
            decreases list@.len() - i,
        {
            let ghost here = self@.rooms;
            let name = list[i].as_str();
            proof {
                assert(all[i as int] == name@);
                assert(all.contains(name@));
            }
            self.remove_from_room(username, name);
            proof {
                assert(self@.rooms.dom() =~= before.dom());
                assert forall|room: Seq<char>| #[trigger]
                    before.contains_key(room) implies self@.rooms[room] == if all.take(
                    i + 1,
                ).contains(room) {
                    before[room].remove(username@)
                } else {
                    before[room]
                } by {
                    assert(all.take(i + 1) =~= all.take(i as int).push(name@));
                    if room == name@ {
                        assert(all.take(i + 1)[i as int] == room);
                        assert(before[room].remove(username@).remove(username@) =~= before[room].remove(
                            username@,
                        ));
                    } else {
                        assert(all.take(i + 1).contains(room) == all.take(i as int).contains(room)) by {
                            if all.take(i + 1).contains(room) {
                                let k = all.take(i + 1).index_of(room);
                                assert(all.take(i as int)[k] == room);
                            }
                            if all.take(i as int).contains(room) {
                                let k = all.take(i as int).index_of(room);
                                assert(all.take(i + 1)[k] == room);
                            }
                        }
                    }
                }
            }
            i += 1;
        }
        proof {
            assert(all.take(i as int) =~= all);
            assert(self@.rooms =~= before.map_values(
                |members: Set<Seq<char>>| members.remove(username@),
            ));
        }
        let _ = self.online.remove(username);
    }

    /// Ends all sessions of a user: their tokens do not bring the user back any more.
    pub fn end_sessions(&mut self, username: &str)
        ensures
            final(self)@ == old(self)@.end_sessions(username@),
    {
        self.revise_sessions(username, None);
    }

    /// Changes with which role, if any, the sessions of a user bring the user back. A session that
    /// has ended stays as it is.
    pub fn revise_sessions(&mut self, username: &str, returns_as: Option<Role>)
        ensures
            final(self)@ == old(self)@.revise_sessions(username@, returns_as),
    {
        let list = self.sessions.names();
        let ghost all = text::views(list@);
        let ghost before = self@.sessions;
        let mut i: usize = 0;
        while i < list.len()
            invariant
                i <= list@.len(),
                all == text::views(list@),
                names::lists(all, before.dom()),
                before == old(self)@.sessions,
                forall|token: Seq<char>| #[trigger]
                    self@.sessions.contains_key(token) <==> before.contains_key(token),
                forall|token: Seq<char>| #[trigger]
                    self@.sessions.contains_key(token) ==> self@.sessions[token] == if all.take(
                        i as int,
                    ).contains(token) {
                        before[token].revised(username@, returns_as)
                    } else {
                        before[token]
                    },
                self@ == (StateView { sessions: self@.sessions, ..old(self)@ }),
            decreases list@.len() - i,
        {
            let ghost here = self@.sessions;
            let token = list[i].as_str();
            proof {
                assert(all[i as int] == token@);
                assert(all.contains(token@));
                assert(all.take(i + 1) =~= all.take(i as int).push(token@));
                assert forall|other: Seq<char>| #[trigger]
                    all.take(i + 1).contains(other) <==> all.take(i as int).contains(other) || other
                        == token@ by {
                    if all.take(i + 1).contains(other) {
                        let k = all.take(i + 1).index_of(other);
                        if k < i {
                            assert(all.take(i as int)[k] == other);
                        }
                    }
                    if all.take(i as int).contains(other) {
                        let k = all.take(i as int).index_of(other);
                        assert(all.take(i + 1)[k] == other);
                    }
                    if other == token@ {
                        assert(all.take(i + 1)[i as int] == other);
                    }
                }
            }
            let revised = match self.sessions.get(token) {
                Some(info) => if info.returns_as.is_some() && text::same_text(
                    info.username.as_str(),
                    username,
                ) {
                    Some(SessionInfo { username: info.username.clone(), role: info.role, returns_as })
                } else {
                    None
                },
                None => None,
            };
            if let Some(info) = revised {
                self.sessions.insert(token, info);
            }
            i += 1;
        }
        proof {
            assert(all.take(i as int) =~= all);
            assert(self@.sessions =~= old(self)@.revise_sessions(username@, returns_as).sessions);
        }
    }

    /// Tells a user why, ends the user's presence and sessions, and publishes the new list.
    pub fn expel(&mut self, target: &str, reason: String)
        ensures
            final(self)@ == old(self)@.expel(target@, reason@),
    {
        self.send_to(
            target,
            Frame::push(Message::Notice { text: reason, level: "warn".to_owned() }),
        );
        self.unregister(target);
        self.end_sessions(target);
        self.broadcast_manifest();
    }

    /// Gives a user who is online another role.
    pub fn set_online_role(&mut self, username: &str, role: Role)
        ensures
            final(self)@ == old(self)@.set_online_role(username@, role),
    {
        let conn = match self.online.get(username) {
            Some(user) => Some(user.conn),
            None => None,
        };
        if let Some(conn) = conn {
            self.online.insert(username, OnlineUser { role, conn });
        }
    }

    /// Gives a user another role: at once where the user is online, and with every session that
    /// brings the user back later.
    pub fn set_role(&mut self, username: &str, role: Role)
        ensures
            final(self)@ == old(self)@.set_role(username@, role),
    {
        self.set_online_role(username, role);
        self.revise_sessions(username, Some(role));
    }

    /// Records a session.
    pub fn store_session(&mut self, token: &str, info: SessionInfo)
        ensures
            final(self)@ == old(self)@.store_session(token@, info@),
    {
        self.sessions.insert(token, info);
    }

    /// What a session token stands for.
    pub fn lookup_session(&self, token: &str) -> (info: Option<SessionInfo>)
        ensures
            match info {
                Some(found) => self@.sessions.contains_key(token@) && found@
                    == self@.sessions[token@],
                None => !self@.sessions.contains_key(token@),
            },
    {
        match self.sessions.get(token) {
            Some(found) => Some(
                SessionInfo {
                    username: found.username.clone(),
                    role: found.role,
                    returns_as: found.returns_as,
                },
            ),
            None => None,
        }
    }

    /// The last `limit` messages of a room with a number below `before_seq`, oldest first; 0 is
    /// no limit.
    pub fn history_for(&self, room: &str, limit: u32, before_seq: Option<u64>) -> (items: Vec<
        HistoryItem,
    >)
        ensures
            text::views(items@) == self@.history_for(room@, limit, before_seq),
            items@.len() <= HISTORY_CAP,
    {
        match self.history.get(room) {
            Some(kept) => kept.select(limit, before_seq),
            None => {
                let items = History::new().select(limit, before_seq);
                items
            },
        }
    }

    /// Takes the next user id.
    pub(crate) fn take_id(&mut self) -> (id: u64)
        ensures
            id == old(self)@.next_id,
            final(self)@ == (StateView {
                next_id: old(self)@.next_id.wrapping_add(1),
                ..old(self)@
            }),
    {
        let id = self.next_id;
        self.next_id = self.next_id.wrapping_add(1);
        id
    }
}

} // verus!
