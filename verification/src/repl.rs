//! The command line of the client: what a line of input asks for, and how a message is shown.

use vstd::prelude::*;
use vstd::string::StringExecFns;

use crate::message::{HistoryItem, HistoryItemView, Message, MessageView, Role};
use crate::text;

verus! {

/// The view of a [`CliAction`].
pub ghost enum CliActionView {
    Nothing,
    Quit,
    Say(Seq<char>),
    Request(MessageView),
}

/// What a line of input asks for.
#[derive(Debug, Clone, PartialEq, Eq)]
pub enum CliAction {
    Nothing,
    /// The end of the session.
    Quit,
    /// A text to show.
    Say(String),
    /// A request to send.
    Request(Message),
}

impl View for CliAction {
    type V = CliActionView;

    open spec fn view(&self) -> CliActionView {
        match self {
            CliAction::Nothing => CliActionView::Nothing,
            CliAction::Quit => CliActionView::Quit,
            CliAction::Say(t) => CliActionView::Say(t@),
            CliAction::Request(msg) => CliActionView::Request(msg@),
        }
    }
}

/// How many messages `/history` asks for where nothing, or no number, is said.
pub const HISTORY_LIMIT: u32 = 50;

/// What `/help` shows.
pub open spec fn help_text() -> Seq<char> {
    "Commands:\n  /register <user> <pass>\n  /create <room>   /delete <room>   /join <room>   /leave <room>\n  /rooms           /members <room>\n  /send <room> <text>   /dm <user> <text>\n  /history <room> [n]   /users   /managers   /info   /quit"@
}

/// The n-th of some words, or the empty text.
pub open spec fn word(words: Seq<Seq<char>>, n: int) -> Seq<char> {
    if n < words.len() {
        words[n]
    } else {
        Seq::empty()
    }
}

/// What a command asks for.
pub open spec fn action(line: Seq<char>) -> CliActionView {
    let (cmd, rest) = text::command(line);
    let words = text::words(rest);
    if cmd == "/help"@ {
        CliActionView::Say(help_text())
    } else if cmd == "/quit"@ {
        CliActionView::Quit
    } else if cmd == "/register"@ {
        if words.len() < 2 {
            CliActionView::Say("usage: /register <user> <pass>"@)
        } else {
            CliActionView::Request(
                MessageView::Register { username: words[0], password: words[1] },
            )
        }
    } else if cmd == "/create"@ {
        CliActionView::Request(MessageView::RoomCreate { name: rest })
    } else if cmd == "/delete"@ {
        CliActionView::Request(MessageView::RoomDelete { name: rest })
    } else if cmd == "/join"@ {
        CliActionView::Request(MessageView::RoomJoin { name: rest })
    } else if cmd == "/leave"@ {
        CliActionView::Request(MessageView::RoomLeave { name: rest })
    } else if cmd == "/rooms"@ {
        CliActionView::Request(MessageView::RoomList)
    } else if cmd == "/members"@ {
        CliActionView::Request(MessageView::RoomMembers { name: rest })
    } else if cmd == "/history"@ {
        CliActionView::Request(
            MessageView::History {
                room: word(words, 0),
                limit: match text::number(word(words, 1)) {
                    Some(n) => n,
                    None => HISTORY_LIMIT,
                },
                before_seq: None,
            },
        )
    } else if cmd == "/users"@ {
        CliActionView::Request(MessageView::UserOnline)
    } else if cmd == "/managers"@ {
        CliActionView::Request(MessageView::UserManagers)
    } else if cmd == "/info"@ {
        CliActionView::Request(MessageView::ServerInfo)
    } else if cmd == "/send"@ {
        match text::cut_at_space(rest) {
            Some((room, body)) => CliActionView::Request(
                MessageView::SendText { room: Some(room), to: None, body },
            ),
            None => CliActionView::Say("usage: /send <room> <text>"@),
        }
    } else if cmd == "/dm"@ {
        match text::cut_at_space(rest) {
            Some((to, body)) => CliActionView::Request(
                MessageView::SendText { room: None, to: Some(to), body },
            ),
            None => CliActionView::Say("usage: /dm <user> <text>"@),
        }
    } else if cmd.len() == 0 {
        CliActionView::Nothing
    } else {
        CliActionView::Say("unknown command: "@ + cmd)
    }
}

fn nth(words: &Vec<String>, n: usize) -> (t: String)
    ensures
        t@ == word(text::views(words@), n as int),
{
    if n < words.len() {
        let t = words[n].clone();
        assert(text::views(words@)[n as int] == t@);
        t
    } else {
        let t = String::new();
        assert(t@ =~= Seq::empty());
        t
    }
}

fn ask(msg: Message) -> (action: CliAction)
    ensures
        action@ == CliActionView::Request(msg@),
{
    CliAction::Request(msg)
}

/// Takes a command apart.
pub fn handle(line: &str) -> (asked: CliAction)
    ensures
        asked@ == action(line@),
{
    let (cmd, rest) = text::split_command(line);
    let cmd = cmd.as_str();
    let words = text::split_words(rest.as_str());
    if text::same_text(cmd, "/help") {
        CliAction::Say(
            "Commands:\n  /register <user> <pass>\n  /create <room>   /delete <room>   /join <room>   /leave <room>\n  /rooms           /members <room>\n  /send <room> <text>   /dm <user> <text>\n  /history <room> [n]   /users   /managers   /info   /quit".to_owned(),
        )
    } else if text::same_text(cmd, "/quit") {
        CliAction::Quit
    } else if text::same_text(cmd, "/register") {
        if words.len() < 2 {
            CliAction::Say("usage: /register <user> <pass>".to_owned())
        } else {
            ask(Message::Register { username: nth(&words, 0), password: nth(&words, 1) })
        }
    } else if text::same_text(cmd, "/create") {
        ask(Message::RoomCreate { name: rest })
    } else if text::same_text(cmd, "/delete") {
        ask(Message::RoomDelete { name: rest })
    } else if text::same_text(cmd, "/join") {
        ask(Message::RoomJoin { name: rest })
    } else if text::same_text(cmd, "/leave") {
        ask(Message::RoomLeave { name: rest })
    } else if text::same_text(cmd, "/rooms") {
        ask(Message::RoomList)
    } else if text::same_text(cmd, "/members") {
        ask(Message::RoomMembers { name: rest })
    } else if text::same_text(cmd, "/history") {
        let room = nth(&words, 0);
        let limit = match text::parse_number(nth(&words, 1).as_str()) {
            Some(n) => n,
            None => HISTORY_LIMIT,
        };
        ask(Message::History { room, limit, before_seq: None })
    } else if text::same_text(cmd, "/users") {
        ask(Message::UserOnline)
    } else if text::same_text(cmd, "/managers") {
        ask(Message::UserManagers)
    } else if text::same_text(cmd, "/info") {
        ask(Message::ServerInfo)
    } else if text::same_text(cmd, "/send") {
        match text::split_once_space(rest.as_str()) {
            Some((room, body)) => ask(Message::SendText { room: Some(room), to: None, body }),
            None => CliAction::Say("usage: /send <room> <text>".to_owned()),
        }
    } else if text::same_text(cmd, "/dm") {
        match text::split_once_space(rest.as_str()) {
            Some((to, body)) => ask(Message::SendText { room: None, to: Some(to), body }),
            None => CliAction::Say("usage: /dm <user> <text>".to_owned()),
        }
    } else if cmd.is_empty() {
        CliAction::Nothing
    } else {
        CliAction::Say(text::join("unknown command: ", cmd))
    }
}

/// What a line of input asks for. White space around it does not matter.
pub fn interpret(input: &str) -> (asked: CliAction)
    ensures
        asked@ == action(text::trimmed(input@)),
{
    let line = text::trim(input);
    handle(line.as_str())
}

/// How `format!` with `{:?}` shows a list of texts.
pub uninterp spec fn list_shown(list: Seq<Seq<char>>) -> Seq<char>;

/// Shows a list of texts with std's `Debug`, that is with `{:?}`. The result is a function of the
/// texts; how it quotes and escapes them is not said here.
#[verifier::external_body]
fn show_list(list: &Vec<String>) -> (t: String)
    ensures
        t@ == list_shown(text::views(list@)),
{
    format!("{:?}", list)
}

/// The view of a [`Shown`].
pub ghost enum ShownView {
    Out(Seq<char>),
    Failure(Seq<char>),
    Raw,
}

/// How a message is shown.
#[derive(Debug, Clone, PartialEq, Eq)]
pub enum Shown {
    /// A text for the user.
    Out(String),
    /// A text about something that went wrong.
    Failure(String),
    /// There is no text for it: the message is shown as it is.
    Raw,
}

impl View for Shown {
    type V = ShownView;

    open spec fn view(&self) -> ShownView {
        match self {
            Shown::Out(t) => ShownView::Out(t@),
            Shown::Failure(t) => ShownView::Failure(t@),
            Shown::Raw => ShownView::Raw,
        }
    }
}

/// One message of a history.
pub open spec fn item_text(item: HistoryItemView) -> Seq<char> {
    "\n  ["@ + text::signed_decimal(item.ts as int) + "] "@ + item.from + ": "@ + item.body
}

/// The messages of a history, one after the other.
pub open spec fn items_text(items: Seq<HistoryItemView>) -> Seq<char>
    decreases items.len(),
{
    if items.len() == 0 {
        Seq::empty()
    } else {
        items_text(items.drop_last()) + item_text(items.last())
    }
}

/// The lists of names in a message: the first, and behind it the second.
pub open spec fn lists_in(msg: MessageView) -> (Seq<Seq<char>>, Seq<Seq<char>>) {
    match msg {
        MessageView::RoomListRes { rooms, mine } => (rooms, mine),
        MessageView::RoomMembersRes { name: _, members } => (members, Seq::empty()),
        MessageView::UserOnlineRes { users } => (users, Seq::empty()),
        MessageView::UserManagersRes { managers } => (managers, Seq::empty()),
        MessageView::PushUserManifest { users } => (users, Seq::empty()),
        _ => (Seq::empty(), Seq::empty()),
    }
}

/// How a message is shown, given how the lists of names in it are.
pub open spec fn rendering(msg: MessageView, first: Seq<char>, second: Seq<char>) -> ShownView {
    match msg {
        MessageView::RegisterRes { username } => ShownView::Out("Registered: "@ + username),
        MessageView::RoomListRes { rooms, mine } => ShownView::Out(
            "Rooms: "@ + first + "\nMine: "@ + second,
        ),
        MessageView::RoomCreateRes { name } => ShownView::Out("Created room: "@ + name),
        MessageView::RoomJoinRes { name } => ShownView::Out("Joined: "@ + name),
        MessageView::RoomLeaveRes { name } => ShownView::Out("Left: "@ + name),
        MessageView::RoomDeleteRes { name } => ShownView::Out("Deleted room: "@ + name),
        MessageView::RoomMembersRes { name, members } => ShownView::Out(
            name + " members: "@ + first,
        ),
        MessageView::HistoryRes { room, messages } => ShownView::Out(
            "History in "@ + room + ":"@ + items_text(messages),
        ),
        MessageView::UserOnlineRes { users } => ShownView::Out("Online: "@ + first),
        MessageView::UserManagersRes { managers } => ShownView::Out(
            "Managers: "@ + first,
        ),
        MessageView::ServerInfoRes { protocol, name, version, rooms, online } => ShownView::Out(
            name + " v"@ + version + " (protocol "@ + text::decimal(protocol as nat) + "): "@
                + text::decimal(rooms as nat) + " rooms, "@ + text::decimal(online as nat)
                + " online"@,
        ),
        MessageView::SendTextRes { seq, ts } => ShownView::Out(
            "Sent (seq "@ + text::decimal(seq as nat) + ", ts "@ + text::signed_decimal(
                ts as int,
            ) + ")"@,
        ),
        MessageView::PushText { room, from, body, seq: _, ts } => ShownView::Out(
            "["@ + room + "] "@ + from + ": "@ + body + " ("@ + text::signed_decimal(ts as int)
                + ")"@,
        ),
        MessageView::PushPrivate { from, body, ts: _ } => ShownView::Out(
            "[DM] "@ + from + ": "@ + body,
        ),
        MessageView::PushUserManifest { users } => ShownView::Out(
            "[manifest] online: "@ + first,
        ),
        MessageView::Notice { text, level } => ShownView::Out("["@ + level + "] "@ + text),
        MessageView::Error { code, message, retryable: _ } => ShownView::Failure(
            "[error "@ + code.label() + "] "@ + message,
        ),
        MessageView::Pong => ShownView::Out("pong"@),
        _ => ShownView::Raw,
    }
}

fn show_items(items: &Vec<HistoryItem>) -> (t: String)
    ensures
        t@ == items_text(text::views(items@)),
{
    let ghost all = text::views(items@);
    let mut t = String::new();
    assert(t@ =~= Seq::empty());
    assert(all.take(0) =~= Seq::empty());
    let mut i: usize = 0;
    while i < items.len()
        invariant
            i <= items@.len(),
            all == text::views(items@),
            t@ == items_text(all.take(i as int)),
        decreases items@.len() - i,
    {
        assert(all.take(i + 1).drop_last() =~= all.take(i as int));
        assert(all[i as int] == items@[i as int]@);
        let ghost before = t@;
        t.append("\n  [");
        t.append(text::signed_decimal_text(items[i].ts).as_str());
        t.append("] ");
        t.append(items[i].from.as_str());
        t.append(": ");
        t.append(items[i].body.as_str());
        assert(t@ =~= before + item_text(all[i as int]));
        i += 1;
    }
    assert(all.take(i as int) =~= all);
    t
}

fn out2(a: &str, b: &str) -> (shown: Shown)
    ensures
        shown@ == ShownView::Out(a@ + b@),
{
    Shown::Out(text::join(a, b))
}

/// How a message is shown.
pub fn print_message(msg: &Message) -> (shown: Shown)
    ensures
        shown@ == rendering(
            msg@,
            list_shown(lists_in(msg@).0),
            list_shown(lists_in(msg@).1),
        ),
{
    match msg {
        Message::RoomListRes { rooms, mine } => {
            let first = show_list(rooms);
            let second = show_list(mine);
            render(msg, first.as_str(), second.as_str())
        },
        Message::RoomMembersRes { name: _, members } => {
            let first = show_list(members);
            render(msg, first.as_str(), "")
        },
        Message::UserOnlineRes { users } => {
            let first = show_list(users);
            render(msg, first.as_str(), "")
        },
        Message::UserManagersRes { managers } => {
            let first = show_list(managers);
            render(msg, first.as_str(), "")
        },
        Message::PushUserManifest { users } => {
            let first = show_list(users);
            render(msg, first.as_str(), "")
        },
        _ => render(msg, "", ""),
    }
}

/// How a message is shown, given how the lists of names in it are.
pub fn render(msg: &Message, first: &str, second: &str) -> (shown: Shown)
    ensures
        shown@ == rendering(msg@, first@, second@),
{
    match msg {
        Message::RegisterRes { username } => out2("Registered: ", username.as_str()),
        Message::RoomListRes { .. } => {
            let mut t = text::join3("Rooms: ", first, "\nMine: ");
            t.append(second);
            Shown::Out(t)
        },
        Message::RoomCreateRes { name } => out2("Created room: ", name.as_str()),
        Message::RoomJoinRes { name } => out2("Joined: ", name.as_str()),
        Message::RoomLeaveRes { name } => out2("Left: ", name.as_str()),
        Message::RoomDeleteRes { name } => out2("Deleted room: ", name.as_str()),
        Message::RoomMembersRes { name, .. } => Shown::Out(
            text::join3(name.as_str(), " members: ", first),
        ),
        Message::HistoryRes { room, messages } => {
            let mut t = text::join3("History in ", room.as_str(), ":");
            t.append(show_items(messages).as_str());
            Shown::Out(t)
        },
        Message::UserOnlineRes { .. } => out2("Online: ", first),
        Message::UserManagersRes { .. } => out2("Managers: ", first),
        Message::ServerInfoRes { protocol, name, version, rooms, online } => {
            let mut t = text::join3(name.as_str(), " v", version.as_str());
            t.append(" (protocol ");
            t.append(text::decimal_text(*protocol as u64).as_str());
            t.append("): ");
            t.append(text::decimal_text(*rooms as u64).as_str());
            t.append(" rooms, ");
            t.append(text::decimal_text(*online as u64).as_str());
            t.append(" online");
            Shown::Out(t)
        },
        Message::SendTextRes { seq, ts } => {
            let mut t = text::join3("Sent (seq ", text::decimal_text(*seq).as_str(), ", ts ");
            t.append(text::signed_decimal_text(*ts).as_str());
            t.append(")");
            Shown::Out(t)
        },
        Message::PushText { room, from, body, seq: _, ts } => {
            let mut t = text::join3("[", room.as_str(), "] ");
            t.append(from.as_str());
            t.append(": ");
            t.append(body.as_str());
            t.append(" (");
            t.append(text::signed_decimal_text(*ts).as_str());
            t.append(")");
            Shown::Out(t)
        },
        Message::PushPrivate { from, body, ts: _ } => {
            let mut t = text::join3("[DM] ", from.as_str(), ": ");
            t.append(body.as_str());
            Shown::Out(t)
        },
        Message::PushUserManifest { .. } => out2("[manifest] online: ", first),
        Message::Notice { text, level } => {
            let mut t = text::join3("[", level.as_str(), "] ");
            t.append(text.as_str());
            Shown::Out(t)
        },
        Message::Error { code, message, retryable: _ } => {
            let mut t = text::join3("[error ", code.name(), "] ");
            t.append(message.as_str());
            Shown::Failure(t)
        },
        Message::Pong => Shown::Out("pong".to_owned()),
        _ => Shown::Raw,
    }
}

/// How the client names a role.
pub open spec fn role_word(role: Role) -> Seq<char> {
    match role {
        Role::User => "User"@,
        Role::Manager => "Manager"@,
        Role::Admin => "Admin"@,
    }
}

/// How the client names some roles: one after the other, with commas between them.
pub open spec fn role_words(roles: Seq<Role>) -> Seq<char>
    decreases roles.len(),
{
    if roles.len() == 0 {
        Seq::empty()
    } else if roles.len() == 1 {
        role_word(roles[0])
    } else {
        role_words(roles.drop_last()) + ", "@ + role_word(roles.last())
    }
}

/// How the client names some roles.
fn role_list(roles: &Vec<Role>) -> (t: String)
    ensures
        t@ == role_words(roles@),
{
    let mut t = String::new();
    let mut i: usize = 0;
    while i < roles.len()
        invariant
            i <= roles@.len(),
            t@ == role_words(roles@.take(i as int)),
        decreases roles@.len() - i,
    {
        proof {
            assert(roles@.take(i + 1).drop_last() =~= roles@.take(i as int));
        }
        if i > 0 {
            t.append(", ");
        }
        t.append(
            match roles[i] {
                Role::User => "User",
                Role::Manager => "Manager",
                Role::Admin => "Admin",
            },
        );
        assert(t@ =~= role_words(roles@.take(i + 1)));
        i += 1;
    }
    assert(roles@.take(i as int) =~= roles@);
    t
}

/// What greets the user, where the answer to a login lets the user in.
pub open spec fn greeting(answer: MessageView) -> Option<Seq<char>> {
    match answer {
        MessageView::LoginRes { username, roles, token, .. } => Some(
            "Logged in as "@ + username + " (roles: ["@ + role_words(roles)
                + "])\nTo reconnect, resume token: "@ + token,
        ),
        _ => None,
    }
}

/// What greets the user, where the answer to a login lets the user in. Any other answer is shown
/// as it is, and ends the client.
pub fn greet(answer: &Message) -> (greeted: Option<String>)
    ensures
        text::opt_view(greeted) == greeting(answer@),
{
    match answer {
        Message::LoginRes { user_id: _, username, roles, token } => {
            let mut t = text::join3("Logged in as ", username.as_str(), " (roles: [");
            t.append(role_list(roles).as_str());
            t.append("])\nTo reconnect, resume token: ");
            t.append(token.as_str());
            Some(t)
        },
        _ => None,
    }
}

/// How many frames are shown at most after a request.
pub const DRAIN_LIMIT: u32 = 32;

/// For how many milliseconds the next frame is waited for.
pub const DRAIN_WAIT_MS: u64 = 20;

/// What the client does before it takes the next line of input.
#[derive(Debug, Clone, Copy, PartialEq, Eq, Structural)]
pub enum DrainStep {
    /// Wait this many milliseconds for a frame, and show it.
    Wait(u64),
    Stop,
}

/// Whether the client waits for another frame, once some have been shown.
pub open spec fn drains(shown: u32, came: bool) -> bool {
    came && shown < DRAIN_LIMIT
}

/// Frames are shown as long as they come at once, and never more than 32 of them; each is waited
/// for 20 milliseconds.
pub proof fn law_drain(shown: u32)
    ensures
        drains(shown, true) <==> shown < 32,
        !drains(shown, false),
        DRAIN_WAIT_MS == 20,
        HISTORY_LIMIT == 50,
{
}

/// What to do once some frames have been shown, given whether one came each time. The client goes
/// on as long as frames come at once, up to a limit.
pub fn drain(shown: u32, came: bool) -> (step: DrainStep)
    ensures
        step == if came && shown < DRAIN_LIMIT {
            DrainStep::Wait(DRAIN_WAIT_MS)
        } else {
            DrainStep::Stop
        },
        step == DrainStep::Stop <==> !drains(shown, came),
{
    if came && shown < DRAIN_LIMIT {
        DrainStep::Wait(DRAIN_WAIT_MS)
    } else {
        DrainStep::Stop
    }
}

/// The commands are different from one another, and none has a space in it.
proof fn lemma_command_words()
    ensures
        text::spaceless("/help"@),
        "/help"@.len() > 0,
        text::spaceless("/quit"@),
        "/quit"@.len() > 0,
        "/quit"@ != "/help"@,
        text::spaceless("/register"@),
        "/register"@.len() > 0,
        "/register"@ != "/help"@,
        "/register"@ != "/quit"@,
        text::spaceless("/create"@),
        "/create"@.len() > 0,
        "/create"@ != "/help"@,
        "/create"@ != "/quit"@,
        "/create"@ != "/register"@,
        text::spaceless("/delete"@),
        "/delete"@.len() > 0,
        "/delete"@ != "/help"@,
        "/delete"@ != "/quit"@,
        "/delete"@ != "/register"@,
        "/delete"@ != "/create"@,
        text::spaceless("/join"@),
        "/join"@.len() > 0,
        "/join"@ != "/help"@,
        "/join"@ != "/quit"@,
        "/join"@ != "/register"@,
        "/join"@ != "/create"@,
        "/join"@ != "/delete"@,
        text::spaceless("/leave"@),
        "/leave"@.len() > 0,
        "/leave"@ != "/help"@,
        "/leave"@ != "/quit"@,
        "/leave"@ != "/register"@,
        "/leave"@ != "/create"@,
        "/leave"@ != "/delete"@,
        "/leave"@ != "/join"@,
        text::spaceless("/rooms"@),
        "/rooms"@.len() > 0,
        "/rooms"@ != "/help"@,
        "/rooms"@ != "/quit"@,
        "/rooms"@ != "/register"@,
        "/rooms"@ != "/create"@,
        "/rooms"@ != "/delete"@,
        "/rooms"@ != "/join"@,
        "/rooms"@ != "/leave"@,
        text::spaceless("/members"@),
        "/members"@.len() > 0,
        "/members"@ != "/help"@,
        "/members"@ != "/quit"@,
        "/members"@ != "/register"@,
        "/members"@ != "/create"@,
        "/members"@ != "/delete"@,
        "/members"@ != "/join"@,
        "/members"@ != "/leave"@,
        "/members"@ != "/rooms"@,
        text::spaceless("/history"@),
        "/history"@.len() > 0,
        "/history"@ != "/help"@,
        "/history"@ != "/quit"@,
        "/history"@ != "/register"@,
        "/history"@ != "/create"@,
        "/history"@ != "/delete"@,
        "/history"@ != "/join"@,
        "/history"@ != "/leave"@,
        "/history"@ != "/rooms"@,
        "/history"@ != "/members"@,
        text::spaceless("/users"@),
        "/users"@.len() > 0,
        "/users"@ != "/help"@,
        "/users"@ != "/quit"@,
        "/users"@ != "/register"@,
        "/users"@ != "/create"@,
        "/users"@ != "/delete"@,
        "/users"@ != "/join"@,
        "/users"@ != "/leave"@,
        "/users"@ != "/rooms"@,
        "/users"@ != "/members"@,
        "/users"@ != "/history"@,
        text::spaceless("/managers"@),
        "/managers"@.len() > 0,
        "/managers"@ != "/help"@,
        "/managers"@ != "/quit"@,
        "/managers"@ != "/register"@,
        "/managers"@ != "/create"@,
        "/managers"@ != "/delete"@,
        "/managers"@ != "/join"@,
        "/managers"@ != "/leave"@,
        "/managers"@ != "/rooms"@,
        "/managers"@ != "/members"@,
        "/managers"@ != "/history"@,
        "/managers"@ != "/users"@,
        text::spaceless("/info"@),
        "/info"@.len() > 0,
        "/info"@ != "/help"@,
        "/info"@ != "/quit"@,
        "/info"@ != "/register"@,
        "/info"@ != "/create"@,
        "/info"@ != "/delete"@,
        "/info"@ != "/join"@,
        "/info"@ != "/leave"@,
        "/info"@ != "/rooms"@,
        "/info"@ != "/members"@,
        "/info"@ != "/history"@,
        "/info"@ != "/users"@,
        "/info"@ != "/managers"@,
        text::spaceless("/send"@),
        "/send"@.len() > 0,
        "/send"@ != "/help"@,
        "/send"@ != "/quit"@,
        "/send"@ != "/register"@,
        "/send"@ != "/create"@,
        "/send"@ != "/delete"@,
        "/send"@ != "/join"@,
        "/send"@ != "/leave"@,
        "/send"@ != "/rooms"@,
        "/send"@ != "/members"@,
        "/send"@ != "/history"@,
        "/send"@ != "/users"@,
        "/send"@ != "/managers"@,
        "/send"@ != "/info"@,
        text::spaceless("/dm"@),
        "/dm"@.len() > 0,
        "/dm"@ != "/help"@,
        "/dm"@ != "/quit"@,
        "/dm"@ != "/register"@,
        "/dm"@ != "/create"@,
        "/dm"@ != "/delete"@,
        "/dm"@ != "/join"@,
        "/dm"@ != "/leave"@,
        "/dm"@ != "/rooms"@,
        "/dm"@ != "/members"@,
        "/dm"@ != "/history"@,
        "/dm"@ != "/users"@,
        "/dm"@ != "/managers"@,
        "/dm"@ != "/info"@,
        "/dm"@ != "/send"@,
{
    reveal_strlit("/help");
    reveal_strlit("/quit");
    reveal_strlit("/register");
    reveal_strlit("/create");
    reveal_strlit("/delete");
    reveal_strlit("/join");
    reveal_strlit("/leave");
    reveal_strlit("/rooms");
    reveal_strlit("/members");
    reveal_strlit("/history");
    reveal_strlit("/users");
    reveal_strlit("/managers");
    reveal_strlit("/info");
    reveal_strlit("/send");
    reveal_strlit("/dm");
    assert(text::spaceless("/help"@)) by {
        assert forall|i: int| 0 <= i < "/help"@.len() implies #[trigger] "/help"@[i] != ' ' by {
            assert(i == 0 || i == 1 || i == 2 || i == 3 || i == 4);
        }
    }
    assert(text::spaceless("/quit"@)) by {
        assert forall|i: int| 0 <= i < "/quit"@.len() implies #[trigger] "/quit"@[i] != ' ' by {
            assert(i == 0 || i == 1 || i == 2 || i == 3 || i == 4);
        }
    }
    assert("/quit"@[1] != "/help"@[1]);
    assert(text::spaceless("/register"@)) by {
        assert forall|i: int| 0 <= i < "/register"@.len() implies #[trigger] "/register"@[i] != ' ' by {
            assert(i == 0 || i == 1 || i == 2 || i == 3 || i == 4 || i == 5 || i == 6 || i == 7 || i == 8);
        }
    }
    assert("/register"@.len() != "/help"@.len());
    assert("/register"@.len() != "/quit"@.len());
    assert(text::spaceless("/create"@)) by {
        assert forall|i: int| 0 <= i < "/create"@.len() implies #[trigger] "/create"@[i] != ' ' by {
            assert(i == 0 || i == 1 || i == 2 || i == 3 || i == 4 || i == 5 || i == 6);
        }
    }
    assert("/create"@.len() != "/help"@.len());
    assert("/create"@.len() != "/quit"@.len());
    assert("/create"@.len() != "/register"@.len());
    assert(text::spaceless("/delete"@)) by {
        assert forall|i: int| 0 <= i < "/delete"@.len() implies #[trigger] "/delete"@[i] != ' ' by {
            assert(i == 0 || i == 1 || i == 2 || i == 3 || i == 4 || i == 5 || i == 6);
        }
    }
    assert("/delete"@.len() != "/help"@.len());
    assert("/delete"@.len() != "/quit"@.len());
    assert("/delete"@.len() != "/register"@.len());
    assert("/delete"@[1] != "/create"@[1]);
    assert(text::spaceless("/join"@)) by {
        assert forall|i: int| 0 <= i < "/join"@.len() implies #[trigger] "/join"@[i] != ' ' by {
            assert(i == 0 || i == 1 || i == 2 || i == 3 || i == 4);
        }
    }
    assert("/join"@[1] != "/help"@[1]);
    assert("/join"@[1] != "/quit"@[1]);
    assert("/join"@.len() != "/register"@.len());
    assert("/join"@.len() != "/create"@.len());
    assert("/join"@.len() != "/delete"@.len());
    assert(text::spaceless("/leave"@)) by {
        assert forall|i: int| 0 <= i < "/leave"@.len() implies #[trigger] "/leave"@[i] != ' ' by {
            assert(i == 0 || i == 1 || i == 2 || i == 3 || i == 4 || i == 5);
        }
    }
    assert("/leave"@.len() != "/help"@.len());
    assert("/leave"@.len() != "/quit"@.len());
    assert("/leave"@.len() != "/register"@.len());
    assert("/leave"@.len() != "/create"@.len());
    assert("/leave"@.len() != "/delete"@.len());
    assert("/leave"@.len() != "/join"@.len());
    assert(text::spaceless("/rooms"@)) by {
        assert forall|i: int| 0 <= i < "/rooms"@.len() implies #[trigger] "/rooms"@[i] != ' ' by {
            assert(i == 0 || i == 1 || i == 2 || i == 3 || i == 4 || i == 5);
        }
    }
    assert("/rooms"@.len() != "/help"@.len());
    assert("/rooms"@.len() != "/quit"@.len());
    assert("/rooms"@.len() != "/register"@.len());
    assert("/rooms"@.len() != "/create"@.len());
    assert("/rooms"@.len() != "/delete"@.len());
    assert("/rooms"@.len() != "/join"@.len());
    assert("/rooms"@[1] != "/leave"@[1]);
    assert(text::spaceless("/members"@)) by {
        assert forall|i: int| 0 <= i < "/members"@.len() implies #[trigger] "/members"@[i] != ' ' by {
            assert(i == 0 || i == 1 || i == 2 || i == 3 || i == 4 || i == 5 || i == 6 || i == 7);
        }
    }
    assert("/members"@.len() != "/help"@.len());
    assert("/members"@.len() != "/quit"@.len());
    assert("/members"@.len() != "/register"@.len());
    assert("/members"@.len() != "/create"@.len());
    assert("/members"@.len() != "/delete"@.len());
    assert("/members"@.len() != "/join"@.len());
    assert("/members"@.len() != "/leave"@.len());
    assert("/members"@.len() != "/rooms"@.len());
    assert(text::spaceless("/history"@)) by {
        assert forall|i: int| 0 <= i < "/history"@.len() implies #[trigger] "/history"@[i] != ' ' by {
            assert(i == 0 || i == 1 || i == 2 || i == 3 || i == 4 || i == 5 || i == 6 || i == 7);
        }
    }
    assert("/history"@.len() != "/help"@.len());
    assert("/history"@.len() != "/quit"@.len());
    assert("/history"@.len() != "/register"@.len());
    assert("/history"@.len() != "/create"@.len());
    assert("/history"@.len() != "/delete"@.len());
    assert("/history"@.len() != "/join"@.len());
    assert("/history"@.len() != "/leave"@.len());
    assert("/history"@.len() != "/rooms"@.len());
    assert("/history"@[1] != "/members"@[1]);
    assert(text::spaceless("/users"@)) by {
        assert forall|i: int| 0 <= i < "/users"@.len() implies #[trigger] "/users"@[i] != ' ' by {
            assert(i == 0 || i == 1 || i == 2 || i == 3 || i == 4 || i == 5);
        }
    }
    assert("/users"@.len() != "/help"@.len());
    assert("/users"@.len() != "/quit"@.len());
    assert("/users"@.len() != "/register"@.len());
    assert("/users"@.len() != "/create"@.len());
    assert("/users"@.len() != "/delete"@.len());
    assert("/users"@.len() != "/join"@.len());
    assert("/users"@[1] != "/leave"@[1]);
    assert("/users"@[1] != "/rooms"@[1]);
    assert("/users"@.len() != "/members"@.len());
    assert("/users"@.len() != "/history"@.len());
    assert(text::spaceless("/managers"@)) by {
        assert forall|i: int| 0 <= i < "/managers"@.len() implies #[trigger] "/managers"@[i] != ' ' by {
            assert(i == 0 || i == 1 || i == 2 || i == 3 || i == 4 || i == 5 || i == 6 || i == 7 || i == 8);
        }
    }
    assert("/managers"@.len() != "/help"@.len());
    assert("/managers"@.len() != "/quit"@.len());
    assert("/managers"@[1] != "/register"@[1]);
    assert("/managers"@.len() != "/create"@.len());
    assert("/managers"@.len() != "/delete"@.len());
    assert("/managers"@.len() != "/join"@.len());
    assert("/managers"@.len() != "/leave"@.len());
    assert("/managers"@.len() != "/rooms"@.len());
    assert("/managers"@.len() != "/members"@.len());
    assert("/managers"@.len() != "/history"@.len());
    assert("/managers"@.len() != "/users"@.len());
    assert(text::spaceless("/info"@)) by {
        assert forall|i: int| 0 <= i < "/info"@.len() implies #[trigger] "/info"@[i] != ' ' by {
            assert(i == 0 || i == 1 || i == 2 || i == 3 || i == 4);
        }
    }
    assert("/info"@[1] != "/help"@[1]);
    assert("/info"@[1] != "/quit"@[1]);
    assert("/info"@.len() != "/register"@.len());
    assert("/info"@.len() != "/create"@.len());
    assert("/info"@.len() != "/delete"@.len());
    assert("/info"@[1] != "/join"@[1]);
    assert("/info"@.len() != "/leave"@.len());
    assert("/info"@.len() != "/rooms"@.len());
    assert("/info"@.len() != "/members"@.len());
    assert("/info"@.len() != "/history"@.len());
    assert("/info"@.len() != "/users"@.len());
    assert("/info"@.len() != "/managers"@.len());
    assert(text::spaceless("/send"@)) by {
        assert forall|i: int| 0 <= i < "/send"@.len() implies #[trigger] "/send"@[i] != ' ' by {
            assert(i == 0 || i == 1 || i == 2 || i == 3 || i == 4);
        }
    }
    assert("/send"@[1] != "/help"@[1]);
    assert("/send"@[1] != "/quit"@[1]);
    assert("/send"@.len() != "/register"@.len());
    assert("/send"@.len() != "/create"@.len());
    assert("/send"@.len() != "/delete"@.len());
    assert("/send"@[1] != "/join"@[1]);
    assert("/send"@.len() != "/leave"@.len());
    assert("/send"@.len() != "/rooms"@.len());
    assert("/send"@.len() != "/members"@.len());
    assert("/send"@.len() != "/history"@.len());
    assert("/send"@.len() != "/users"@.len());
    assert("/send"@.len() != "/managers"@.len());
    assert("/send"@[1] != "/info"@[1]);
    assert(text::spaceless("/dm"@)) by {
        assert forall|i: int| 0 <= i < "/dm"@.len() implies #[trigger] "/dm"@[i] != ' ' by {
            assert(i == 0 || i == 1 || i == 2);
        }
    }
    assert("/dm"@.len() != "/help"@.len());
    assert("/dm"@.len() != "/quit"@.len());
    assert("/dm"@.len() != "/register"@.len());
    assert("/dm"@.len() != "/create"@.len());
    assert("/dm"@.len() != "/delete"@.len());
    assert("/dm"@.len() != "/join"@.len());
    assert("/dm"@.len() != "/leave"@.len());
    assert("/dm"@.len() != "/rooms"@.len());
    assert("/dm"@.len() != "/members"@.len());
    assert("/dm"@.len() != "/history"@.len());
    assert("/dm"@.len() != "/users"@.len());
    assert("/dm"@.len() != "/managers"@.len());
    assert("/dm"@.len() != "/info"@.len());
    assert("/dm"@.len() != "/send"@.len());
}

/// A command, and behind a space what is said with it.
pub open spec fn line_of(cmd: Seq<char>, rest: Seq<char>) -> Seq<char> {
    cmd + seq![' '] + rest
}

/// What a command for a room asks for is about the room that is named behind it, without the white
/// space around the name.
pub proof fn law_room_commands(rest: Seq<char>)
    ensures
        action(line_of("/create"@, rest)) == CliActionView::Request(
            MessageView::RoomCreate { name: text::trimmed(rest) },
        ),
        action(line_of("/delete"@, rest)) == CliActionView::Request(
            MessageView::RoomDelete { name: text::trimmed(rest) },
        ),
        action(line_of("/join"@, rest)) == CliActionView::Request(
            MessageView::RoomJoin { name: text::trimmed(rest) },
        ),
        action(line_of("/leave"@, rest)) == CliActionView::Request(
            MessageView::RoomLeave { name: text::trimmed(rest) },
        ),
        action(line_of("/members"@, rest)) == CliActionView::Request(
            MessageView::RoomMembers { name: text::trimmed(rest) },
        ),
{
    lemma_command_words();
    text::law_cut("/create"@, rest);
    text::law_cut("/delete"@, rest);
    text::law_cut("/join"@, rest);
    text::law_cut("/leave"@, rest);
    text::law_cut("/members"@, rest);
}

/// A question that needs nothing more is asked whatever stands behind it.
pub proof fn law_plain_commands(rest: Seq<char>)
    ensures
        action("/rooms"@) == CliActionView::Request(MessageView::RoomList),
        action("/users"@) == CliActionView::Request(MessageView::UserOnline),
        action("/managers"@) == CliActionView::Request(MessageView::UserManagers),
        action("/info"@) == CliActionView::Request(MessageView::ServerInfo),
        action("/quit"@) == CliActionView::Quit,
        action(line_of("/rooms"@, rest)) == action("/rooms"@),
        action(line_of("/users"@, rest)) == action("/users"@),
        action(line_of("/managers"@, rest)) == action("/managers"@),
        action(line_of("/info"@, rest)) == action("/info"@),
        action(line_of("/quit"@, rest)) == action("/quit"@),
        action(Seq::<char>::empty()) == CliActionView::Nothing,
{
    lemma_command_words();
    text::law_cut("/rooms"@, rest);
    text::law_cut("/users"@, rest);
    text::law_cut("/managers"@, rest);
    text::law_cut("/info"@, rest);
    text::law_cut("/quit"@, rest);
    text::law_cut(Seq::<char>::empty(), rest);
}

/// `/send` sends what stands behind the name of the room to that room, and `/dm` to that user, as
/// it is written. Without a text there is nothing to send.
pub proof fn law_text_commands(name: Seq<char>, body: Seq<char>)
    requires
        name.len() > 0,
        text::spaceless(name),
        !text::is_white(name[0]),
        !text::is_white(name.last()),
        body.len() > 0,
        !text::is_white(body.last()),
    ensures
        action(line_of("/send"@, line_of(name, body))) == CliActionView::Request(
            MessageView::SendText { room: Some(name), to: None, body },
        ),
        action(line_of("/dm"@, line_of(name, body))) == CliActionView::Request(
            MessageView::SendText { room: None, to: Some(name), body },
        ),
        action(line_of("/send"@, name)) == CliActionView::Say("usage: /send <room> <text>"@),
        action(line_of("/dm"@, name)) == CliActionView::Say("usage: /dm <user> <text>"@),
{
    let rest = line_of(name, body);
    assert(text::trimmed(rest) == rest && text::trimmed(name) == name) by {
        assert(rest[0] == name[0]);
        assert(rest.last() == body.last());
        text::law_tidy_is_kept(rest);
        text::law_tidy_is_kept(name);
    }
    text::law_cut(name, body);
    lemma_said_with(rest);
    lemma_said_with(name);
}

/// What is said with a text command is cut at its first space.
proof fn lemma_said_with(rest: Seq<char>)
    requires
        text::trimmed(rest) == rest,
    ensures
        action(line_of("/send"@, rest)) == match text::cut_at_space(rest) {
            Some((room, body)) => CliActionView::Request(
                MessageView::SendText { room: Some(room), to: None, body },
            ),
            None => CliActionView::Say("usage: /send <room> <text>"@),
        },
        action(line_of("/dm"@, rest)) == match text::cut_at_space(rest) {
            Some((to, body)) => CliActionView::Request(
                MessageView::SendText { room: None, to: Some(to), body },
            ),
            None => CliActionView::Say("usage: /dm <user> <text>"@),
        },
{
    lemma_command_words();
    text::law_cut("/send"@, rest);
    text::law_cut("/dm"@, rest);
}

pub proof fn lemma_two_words(a: Seq<char>, b: Seq<char>)
    requires
        text::is_word(a),
        text::is_word(b),
    ensures
        text::words(a) == seq![a],
        text::words(line_of(a, b)) == seq![a, b],
        text::trimmed(a) == a,
        text::trimmed(line_of(a, b)) == line_of(a, b),
{
    let nothing = Seq::<char>::empty();
    assert(text::is_white(' '));
    text::law_words(' ', a, nothing);
    assert(a + nothing =~= a);
    assert(seq![a] + Seq::<Seq<char>>::empty() =~= seq![a]);
    text::law_words(' ', b, nothing);
    assert(b + nothing =~= b);
    assert(seq![b] + Seq::<Seq<char>>::empty() =~= seq![b]);
    let tail = seq![' '] + b;
    assert(tail.drop_first() =~= b);
    text::law_words(' ', a, tail);
    assert(a + tail =~= line_of(a, b));
    assert(seq![a] + seq![b] =~= seq![a, b]);
    text::law_tidy_is_kept(a);
    assert(line_of(a, b)[0] == a[0]);
    assert(line_of(a, b).last() == b.last());
    text::law_tidy_is_kept(line_of(a, b));
}

/// `/register` asks for an account with the name and the password given, and needs both.
pub proof fn law_register_command(a: Seq<char>, b: Seq<char>)
    requires
        text::is_word(a),
        text::is_word(b),
    ensures
        action(line_of("/register"@, line_of(a, b))) == CliActionView::Request(
            MessageView::Register { username: a, password: b },
        ),
        action(line_of("/register"@, a)) == CliActionView::Say("usage: /register <user> <pass>"@),
{
    lemma_two_words(a, b);
    lemma_worded(a);
    lemma_worded(line_of(a, b));
}

/// `/history` asks for so many messages of the room as are named, for fifty where nothing, or no
/// number, is, and never for a page.
pub proof fn law_history_command(a: Seq<char>, b: Seq<char>, n: u32)
    requires
        text::is_word(a),
        text::is_word(b),
    ensures
        action(line_of("/history"@, a)) == CliActionView::Request(
            MessageView::History { room: a, limit: 50, before_seq: None },
        ),
        action(line_of("/history"@, line_of(a, text::decimal(n as nat))))
            == CliActionView::Request(
            MessageView::History { room: a, limit: n, before_seq: None },
        ),
        text::number(b) is None ==> action(line_of("/history"@, line_of(a, b)))
            == CliActionView::Request(
            MessageView::History { room: a, limit: 50, before_seq: None },
        ),
{
    let digits = text::decimal(n as nat);
    text::law_numbers_are_read_back(n as u64);
    assert(text::is_word(digits)) by {
        assert forall|i: int| 0 <= i < digits.len() implies !text::is_white(#[trigger] digits[i]) by {
            assert(text::is_digit(digits[i]));
        }
    }
    lemma_history_of(a, b);
    lemma_history_of(a, digits);
}

/// What `/history` asks for with one word and with two.
proof fn lemma_history_of(a: Seq<char>, b: Seq<char>)
    requires
        text::is_word(a),
        text::is_word(b),
    ensures
        action(line_of("/history"@, a)) == CliActionView::Request(
            MessageView::History { room: a, limit: 50, before_seq: None },
        ),
        action(line_of("/history"@, line_of(a, b))) == CliActionView::Request(
            MessageView::History {
                room: a,
                limit: match text::number(b) {
                    Some(n) => n,
                    None => 50,
                },
                before_seq: None,
            },
        ),
{
    lemma_two_words(a, b);
    lemma_worded(a);
    lemma_worded(line_of(a, b));
}

/// What is said with these commands is taken word by word.
proof fn lemma_worded(rest: Seq<char>)
    requires
        text::trimmed(rest) == rest,
    ensures
        ({
            let words = text::words(rest);
            &&& action(line_of("/register"@, rest)) == if words.len() < 2 {
                CliActionView::Say("usage: /register <user> <pass>"@)
            } else {
                CliActionView::Request(
                    MessageView::Register { username: words[0], password: words[1] },
                )
            }
            &&& action(line_of("/history"@, rest)) == CliActionView::Request(
                MessageView::History {
                    room: word(words, 0),
                    limit: match text::number(word(words, 1)) {
                        Some(n) => n,
                        None => 50,
                    },
                    before_seq: None,
                },
            )
        }),
{
    lemma_command_words();
    text::law_cut("/register"@, rest);
    text::law_cut("/history"@, rest);
}

/// Whether a text is one of the commands.
pub open spec fn is_command(cmd: Seq<char>) -> bool {
    cmd == "/help"@ || cmd == "/quit"@ || cmd == "/register"@ || cmd == "/create"@ || cmd
        == "/delete"@ || cmd == "/join"@ || cmd == "/leave"@ || cmd == "/rooms"@ || cmd
        == "/members"@ || cmd == "/history"@ || cmd == "/users"@ || cmd == "/managers"@ || cmd
        == "/info"@ || cmd == "/send"@ || cmd == "/dm"@
}

/// What is no command is named in the answer, and asks for nothing.
pub proof fn law_unknown_commands(cmd: Seq<char>, rest: Seq<char>)
    requires
        text::spaceless(cmd),
        cmd.len() > 0,
        !is_command(cmd),
    ensures
        action(cmd) == CliActionView::Say("unknown command: "@ + cmd),
        action(line_of(cmd, rest)) == action(cmd),
{
    text::law_cut(cmd, rest);
}

/// How a message is shown where the lists of names in it are shown as `{:?}` does.
pub open spec fn shown_as(msg: MessageView) -> ShownView {
    rendering(msg, list_shown(lists_in(msg).0), list_shown(lists_in(msg).1))
}

/// What is shown of an answer about rooms and users names what the answer is about: the account,
/// the room, and the very lists that came.
pub proof fn law_lists_are_shown(name: Seq<char>, list: Seq<Seq<char>>, other: Seq<Seq<char>>)
    ensures
        shown_as(MessageView::RegisterRes { username: name }) == ShownView::Out(
            "Registered: "@ + name,
        ),
        shown_as(MessageView::RoomCreateRes { name }) == ShownView::Out("Created room: "@ + name),
        shown_as(MessageView::RoomJoinRes { name }) == ShownView::Out("Joined: "@ + name),
        shown_as(MessageView::RoomLeaveRes { name }) == ShownView::Out("Left: "@ + name),
        shown_as(MessageView::RoomDeleteRes { name }) == ShownView::Out("Deleted room: "@ + name),
        shown_as(MessageView::RoomListRes { rooms: list, mine: other }) == ShownView::Out(
            "Rooms: "@ + list_shown(list) + "\nMine: "@ + list_shown(other),
        ),
        shown_as(MessageView::RoomMembersRes { name, members: list }) == ShownView::Out(
            name + " members: "@ + list_shown(list),
        ),
        shown_as(MessageView::UserOnlineRes { users: list }) == ShownView::Out(
            "Online: "@ + list_shown(list),
        ),
        shown_as(MessageView::UserManagersRes { managers: list }) == ShownView::Out(
            "Managers: "@ + list_shown(list),
        ),
        shown_as(MessageView::PushUserManifest { users: list }) == ShownView::Out(
            "[manifest] online: "@ + list_shown(list),
        ),
{
}

/// What is shown of a text is who said it, where, what and when; of an acknowledgement its number
/// and time; of a notice its level; and of a failure its code, apart from all other texts.
pub proof fn law_texts_are_shown(
    room: Seq<char>,
    from: Seq<char>,
    body: Seq<char>,
    seq: u64,
    ts: i64,
    retryable: bool,
    code: crate::error::ErrorCode,
)
    ensures
        shown_as(MessageView::PushText { room, from, body, seq, ts }) == ShownView::Out(
            "["@ + room + "] "@ + from + ": "@ + body + " ("@ + text::signed_decimal(ts as int)
                + ")"@,
        ),
        shown_as(MessageView::PushPrivate { from, body, ts }) == ShownView::Out(
            "[DM] "@ + from + ": "@ + body,
        ),
        shown_as(MessageView::SendTextRes { seq, ts }) == ShownView::Out(
            "Sent (seq "@ + text::decimal(seq as nat) + ", ts "@ + text::signed_decimal(ts as int)
                + ")"@,
        ),
        shown_as(MessageView::Notice { text: body, level: from }) == ShownView::Out(
            "["@ + from + "] "@ + body,
        ),
        shown_as(MessageView::Error { code, message: body, retryable }) == ShownView::Failure(
            "[error "@ + code.label() + "] "@ + body,
        ),
        shown_as(MessageView::Pong) == ShownView::Out("pong"@),
{
}

/// A history is shown under the name of its room, one line for each message, in order, with its
/// time, its sender and its text.
pub proof fn law_histories_are_shown(
    room: Seq<char>,
    messages: Seq<HistoryItemView>,
    item: HistoryItemView,
)
    ensures
        shown_as(MessageView::HistoryRes { room, messages: Seq::empty() }) == ShownView::Out(
            "History in "@ + room + ":"@,
        ),
        ({
            let some = shown_as(MessageView::HistoryRes { room, messages });
            let more = shown_as(MessageView::HistoryRes { room, messages: messages.push(item) });
            &&& some is Out
            &&& more is Out
            &&& more->Out_0 == some->Out_0 + ("\n  ["@ + text::signed_decimal(item.ts as int)
                + "] "@ + item.from + ": "@ + item.body)
        }),
{
    let head = "History in "@ + room + ":"@;
    assert(head + Seq::<char>::empty() =~= head);
    assert(messages.push(item).drop_last() =~= messages);
    assert(head + (items_text(messages) + item_text(item)) =~= (head + items_text(messages))
        + item_text(item));
}

/// What the server tells of itself is shown with all its numbers.
pub proof fn law_server_is_shown(
    protocol: u16,
    name: Seq<char>,
    version: Seq<char>,
    rooms: usize,
    online: usize,
)
    ensures
        shown_as(MessageView::ServerInfoRes { protocol, name, version, rooms, online })
            == ShownView::Out(
            name + " v"@ + version + " (protocol "@ + text::decimal(protocol as nat) + "): "@
                + text::decimal(rooms as nat) + " rooms, "@ + text::decimal(online as nat)
                + " online"@,
        ),
{
}

/// Requests, and answers that the command line never causes, have no text of their own.
pub proof fn law_other_messages_are_raw(msg: MessageView)
    ensures
        shown_as(msg) is Raw <==> !(msg is RegisterRes || msg is RoomListRes || msg is RoomCreateRes
            || msg is RoomJoinRes || msg is RoomLeaveRes || msg is RoomDeleteRes
            || msg is RoomMembersRes || msg is HistoryRes || msg is UserOnlineRes
            || msg is UserManagersRes || msg is ServerInfoRes || msg is SendTextRes
            || msg is PushText || msg is PushPrivate || msg is PushUserManifest || msg is Notice
            || msg is Error || msg is Pong),
{
}

/// A login is greeted with the name, all roles in order, and the token; nothing else is greeted.
pub proof fn law_login_is_greeted(
    user_id: u64,
    username: Seq<char>,
    roles: Seq<Role>,
    role: Role,
    token: Seq<char>,
    msg: MessageView,
)
    ensures
        ({
            let word = match role {
                Role::User => "User"@,
                Role::Manager => "Manager"@,
                Role::Admin => "Admin"@,
            };
            &&& greeting(MessageView::LoginRes { user_id, username, roles: seq![role], token })
                == Some(
                "Logged in as "@ + username + " (roles: ["@ + word
                    + "])\nTo reconnect, resume token: "@ + token,
            )
            &&& roles.len() > 0 ==> role_words(roles.push(role)) == role_words(roles) + ", "@ + word
            &&& greeting(MessageView::LoginRes { user_id, username, roles, token }) == Some(
                "Logged in as "@ + username + " (roles: ["@ + role_words(roles)
                    + "])\nTo reconnect, resume token: "@ + token,
            )
        }),
        greeting(msg) is Some <==> msg is LoginRes,
{
    assert(roles.push(role).drop_last() =~= roles);
}

/// The help of the command line names every command.
pub proof fn law_help_names_the_commands()
    ensures
        text::mentions(help_text(), "/register"@),
        text::mentions(help_text(), "/create"@),
        text::mentions(help_text(), "/delete"@),
        text::mentions(help_text(), "/join"@),
        text::mentions(help_text(), "/leave"@),
        text::mentions(help_text(), "/rooms"@),
        text::mentions(help_text(), "/members"@),
        text::mentions(help_text(), "/send"@),
        text::mentions(help_text(), "/dm"@),
        text::mentions(help_text(), "/history"@),
        text::mentions(help_text(), "/users"@),
        text::mentions(help_text(), "/managers"@),
        text::mentions(help_text(), "/info"@),
        text::mentions(help_text(), "/quit"@),
{
    reveal_strlit("Commands:\n  /register <user> <pass>\n  /create <room>   /delete <room>   /join <room>   /leave <room>\n  /rooms           /members <room>\n  /send <room> <text>   /dm <user> <text>\n  /history <room> [n]   /users   /managers   /info   /quit");
    let all = help_text();
    assert(text::mentions(all, "/register"@)) by {
        reveal_strlit("/register");
        let part = all.subrange(12, 21);
        assert forall|i: int| 0 <= i < 9 implies #[trigger] part[i] == "/register"@[i] by {
            assert(i == 0 || i == 1 || i == 2 || i == 3 || i == 4 || i == 5 || i == 6 || i == 7 || i == 8);
        }
        assert(part =~= "/register"@);
    }
    assert(text::mentions(all, "/create"@)) by {
        reveal_strlit("/create");
        let part = all.subrange(38, 45);
        assert forall|i: int| 0 <= i < 7 implies #[trigger] part[i] == "/create"@[i] by {
            assert(i == 0 || i == 1 || i == 2 || i == 3 || i == 4 || i == 5 || i == 6);
        }
        assert(part =~= "/create"@);
    }
    assert(text::mentions(all, "/delete"@)) by {
        reveal_strlit("/delete");
        let part = all.subrange(55, 62);
        assert forall|i: int| 0 <= i < 7 implies #[trigger] part[i] == "/delete"@[i] by {
            assert(i == 0 || i == 1 || i == 2 || i == 3 || i == 4 || i == 5 || i == 6);
        }
        assert(part =~= "/delete"@);
    }
    assert(text::mentions(all, "/join"@)) by {
        reveal_strlit("/join");
        let part = all.subrange(72, 77);
        assert forall|i: int| 0 <= i < 5 implies #[trigger] part[i] == "/join"@[i] by {
            assert(i == 0 || i == 1 || i == 2 || i == 3 || i == 4);
        }
        assert(part =~= "/join"@);
    }
    assert(text::mentions(all, "/leave"@)) by {
        reveal_strlit("/leave");
        let part = all.subrange(87, 93);
        assert forall|i: int| 0 <= i < 6 implies #[trigger] part[i] == "/leave"@[i] by {
            assert(i == 0 || i == 1 || i == 2 || i == 3 || i == 4 || i == 5);
        }
        assert(part =~= "/leave"@);
    }
    assert(text::mentions(all, "/rooms"@)) by {
        reveal_strlit("/rooms");
        let part = all.subrange(103, 109);
        assert forall|i: int| 0 <= i < 6 implies #[trigger] part[i] == "/rooms"@[i] by {
            assert(i == 0 || i == 1 || i == 2 || i == 3 || i == 4 || i == 5);
        }
        assert(part =~= "/rooms"@);
    }
    assert(text::mentions(all, "/members"@)) by {
        reveal_strlit("/members");
        let part = all.subrange(120, 128);
        assert forall|i: int| 0 <= i < 8 implies #[trigger] part[i] == "/members"@[i] by {
            assert(i == 0 || i == 1 || i == 2 || i == 3 || i == 4 || i == 5 || i == 6 || i == 7);
        }
        assert(part =~= "/members"@);
    }
    assert(text::mentions(all, "/send"@)) by {
        reveal_strlit("/send");
        let part = all.subrange(138, 143);
        assert forall|i: int| 0 <= i < 5 implies #[trigger] part[i] == "/send"@[i] by {
            assert(i == 0 || i == 1 || i == 2 || i == 3 || i == 4);
        }
        assert(part =~= "/send"@);
    }
    assert(text::mentions(all, "/dm"@)) by {
        reveal_strlit("/dm");
        let part = all.subrange(160, 163);
        assert forall|i: int| 0 <= i < 3 implies #[trigger] part[i] == "/dm"@[i] by {
            assert(i == 0 || i == 1 || i == 2);
        }
        assert(part =~= "/dm"@);
    }
    assert(text::mentions(all, "/history"@)) by {
        reveal_strlit("/history");
        let part = all.subrange(180, 188);
        assert forall|i: int| 0 <= i < 8 implies #[trigger] part[i] == "/history"@[i] by {
            assert(i == 0 || i == 1 || i == 2 || i == 3 || i == 4 || i == 5 || i == 6 || i == 7);
        }
        assert(part =~= "/history"@);
    }
    assert(text::mentions(all, "/users"@)) by {
        reveal_strlit("/users");
        let part = all.subrange(202, 208);
        assert forall|i: int| 0 <= i < 6 implies #[trigger] part[i] == "/users"@[i] by {
            assert(i == 0 || i == 1 || i == 2 || i == 3 || i == 4 || i == 5);
        }
        assert(part =~= "/users"@);
    }
    assert(text::mentions(all, "/managers"@)) by {
        reveal_strlit("/managers");
        let part = all.subrange(211, 220);
        assert forall|i: int| 0 <= i < 9 implies #[trigger] part[i] == "/managers"@[i] by {
            assert(i == 0 || i == 1 || i == 2 || i == 3 || i == 4 || i == 5 || i == 6 || i == 7 || i == 8);
        }
        assert(part =~= "/managers"@);
    }
    assert(text::mentions(all, "/info"@)) by {
        reveal_strlit("/info");
        let part = all.subrange(223, 228);
        assert forall|i: int| 0 <= i < 5 implies #[trigger] part[i] == "/info"@[i] by {
            assert(i == 0 || i == 1 || i == 2 || i == 3 || i == 4);
        }
        assert(part =~= "/info"@);
    }
    assert(text::mentions(all, "/quit"@)) by {
        reveal_strlit("/quit");
        let part = all.subrange(231, 236);
        assert forall|i: int| 0 <= i < 5 implies #[trigger] part[i] == "/quit"@[i] by {
            assert(i == 0 || i == 1 || i == 2 || i == 3 || i == 4);
        }
        assert(part =~= "/quit"@);
    }
}

} // verus!
