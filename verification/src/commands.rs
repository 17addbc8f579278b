//! What each command of the web terminal comes to: what is answered, what the database is asked
//! for, who is told, and what is different afterwards.

use vstd::prelude::*;

use crate::auth::AuthError;
use crate::db::{DbWriteView, LookupView};
use crate::laws;
use crate::message::{MessageView, Role};
use crate::model::{OnlineUser, OutputView, StateView};
use crate::names;
use crate::outcomes;
use crate::repl;
use crate::terminal;
use crate::terminal::{
    AfterTermHashView, AfterTermWriteView, ClientRequestView, TermReplyView, TermStepView,
};
use crate::text;

verus! {

/// The commands are different from one another, and none has a space in it.
proof fn lemma_command_words()
    ensures
        text::spaceless("/help"@),
        "/help"@.len() > 0,
        text::spaceless("/info"@),
        "/info"@.len() > 0,
        "/info"@ != "/help"@,
        text::spaceless("/rooms"@),
        "/rooms"@.len() > 0,
        "/rooms"@ != "/help"@,
        "/rooms"@ != "/info"@,
        text::spaceless("/online"@),
        "/online"@.len() > 0,
        "/online"@ != "/help"@,
        "/online"@ != "/info"@,
        "/online"@ != "/rooms"@,
        text::spaceless("/kick"@),
        "/kick"@.len() > 0,
        "/kick"@ != "/help"@,
        "/kick"@ != "/info"@,
        "/kick"@ != "/rooms"@,
        "/kick"@ != "/online"@,
        text::spaceless("/ban"@),
        "/ban"@.len() > 0,
        "/ban"@ != "/help"@,
        "/ban"@ != "/info"@,
        "/ban"@ != "/rooms"@,
        "/ban"@ != "/online"@,
        "/ban"@ != "/kick"@,
        text::spaceless("/restore"@),
        "/restore"@.len() > 0,
        "/restore"@ != "/help"@,
        "/restore"@ != "/info"@,
        "/restore"@ != "/rooms"@,
        "/restore"@ != "/online"@,
        "/restore"@ != "/kick"@,
        "/restore"@ != "/ban"@,
        text::spaceless("/setrole"@),
        "/setrole"@.len() > 0,
        "/setrole"@ != "/help"@,
        "/setrole"@ != "/info"@,
        "/setrole"@ != "/rooms"@,
        "/setrole"@ != "/online"@,
        "/setrole"@ != "/kick"@,
        "/setrole"@ != "/ban"@,
        "/setrole"@ != "/restore"@,
        text::spaceless("/setpwd"@),
        "/setpwd"@.len() > 0,
        "/setpwd"@ != "/help"@,
        "/setpwd"@ != "/info"@,
        "/setpwd"@ != "/rooms"@,
        "/setpwd"@ != "/online"@,
        "/setpwd"@ != "/kick"@,
        "/setpwd"@ != "/ban"@,
        "/setpwd"@ != "/restore"@,
        "/setpwd"@ != "/setrole"@,
        text::spaceless("/create"@),
        "/create"@.len() > 0,
        "/create"@ != "/help"@,
        "/create"@ != "/info"@,
        "/create"@ != "/rooms"@,
        "/create"@ != "/online"@,
        "/create"@ != "/kick"@,
        "/create"@ != "/ban"@,
        "/create"@ != "/restore"@,
        "/create"@ != "/setrole"@,
        "/create"@ != "/setpwd"@,
        text::spaceless("/delete"@),
        "/delete"@.len() > 0,
        "/delete"@ != "/help"@,
        "/delete"@ != "/info"@,
        "/delete"@ != "/rooms"@,
        "/delete"@ != "/online"@,
        "/delete"@ != "/kick"@,
        "/delete"@ != "/ban"@,
        "/delete"@ != "/restore"@,
        "/delete"@ != "/setrole"@,
        "/delete"@ != "/setpwd"@,
        "/delete"@ != "/create"@,
        text::spaceless("/createuser"@),
        "/createuser"@.len() > 0,
        "/createuser"@ != "/help"@,
        "/createuser"@ != "/info"@,
        "/createuser"@ != "/rooms"@,
        "/createuser"@ != "/online"@,
        "/createuser"@ != "/kick"@,
        "/createuser"@ != "/ban"@,
        "/createuser"@ != "/restore"@,
        "/createuser"@ != "/setrole"@,
        "/createuser"@ != "/setpwd"@,
        "/createuser"@ != "/create"@,
        "/createuser"@ != "/delete"@,
        text::spaceless("/broadcast"@),
        "/broadcast"@.len() > 0,
        "/broadcast"@ != "/help"@,
        "/broadcast"@ != "/info"@,
        "/broadcast"@ != "/rooms"@,
        "/broadcast"@ != "/online"@,
        "/broadcast"@ != "/kick"@,
        "/broadcast"@ != "/ban"@,
        "/broadcast"@ != "/restore"@,
        "/broadcast"@ != "/setrole"@,
        "/broadcast"@ != "/setpwd"@,
        "/broadcast"@ != "/create"@,
        "/broadcast"@ != "/delete"@,
        "/broadcast"@ != "/createuser"@,
{
    reveal_strlit("/help");
    reveal_strlit("/info");
    reveal_strlit("/rooms");
    reveal_strlit("/online");
    reveal_strlit("/kick");
    reveal_strlit("/ban");
    reveal_strlit("/restore");
    reveal_strlit("/setrole");
    reveal_strlit("/setpwd");
    reveal_strlit("/create");
    reveal_strlit("/delete");
    reveal_strlit("/createuser");
    reveal_strlit("/broadcast");
    assert(text::spaceless("/help"@)) by {
        assert forall|i: int| 0 <= i < "/help"@.len() implies #[trigger] "/help"@[i] != ' ' by {
            assert(i == 0 || i == 1 || i == 2 || i == 3 || i == 4);
        }
    }
    assert(text::spaceless("/info"@)) by {
        assert forall|i: int| 0 <= i < "/info"@.len() implies #[trigger] "/info"@[i] != ' ' by {
            assert(i == 0 || i == 1 || i == 2 || i == 3 || i == 4);
        }
    }
    assert("/info"@[1] != "/help"@[1]);
    assert(text::spaceless("/rooms"@)) by {
        assert forall|i: int| 0 <= i < "/rooms"@.len() implies #[trigger] "/rooms"@[i] != ' ' by {
            assert(i == 0 || i == 1 || i == 2 || i == 3 || i == 4 || i == 5);
        }
    }
    assert("/rooms"@.len() != "/help"@.len());
    assert("/rooms"@.len() != "/info"@.len());
    assert(text::spaceless("/online"@)) by {
        assert forall|i: int| 0 <= i < "/online"@.len() implies #[trigger] "/online"@[i] != ' ' by {
            assert(i == 0 || i == 1 || i == 2 || i == 3 || i == 4 || i == 5 || i == 6);
        }
    }
    assert("/online"@.len() != "/help"@.len());
    assert("/online"@.len() != "/info"@.len());
    assert("/online"@.len() != "/rooms"@.len());
    assert(text::spaceless("/kick"@)) by {
        assert forall|i: int| 0 <= i < "/kick"@.len() implies #[trigger] "/kick"@[i] != ' ' by {
            assert(i == 0 || i == 1 || i == 2 || i == 3 || i == 4);
        }
    }
    assert("/kick"@[1] != "/help"@[1]);
    assert("/kick"@[1] != "/info"@[1]);
    assert("/kick"@.len() != "/rooms"@.len());
    assert("/kick"@.len() != "/online"@.len());
    assert(text::spaceless("/ban"@)) by {
        assert forall|i: int| 0 <= i < "/ban"@.len() implies #[trigger] "/ban"@[i] != ' ' by {
            assert(i == 0 || i == 1 || i == 2 || i == 3);
        }
    }
    assert("/ban"@.len() != "/help"@.len());
    assert("/ban"@.len() != "/info"@.len());
    assert("/ban"@.len() != "/rooms"@.len());
    assert("/ban"@.len() != "/online"@.len());
    assert("/ban"@.len() != "/kick"@.len());
    assert(text::spaceless("/restore"@)) by {
        assert forall|i: int| 0 <= i < "/restore"@.len() implies #[trigger] "/restore"@[i] != ' ' by {
            assert(i == 0 || i == 1 || i == 2 || i == 3 || i == 4 || i == 5 || i == 6 || i == 7);
        }
    }
    assert("/restore"@.len() != "/help"@.len());
    assert("/restore"@.len() != "/info"@.len());
    assert("/restore"@.len() != "/rooms"@.len());
    assert("/restore"@.len() != "/online"@.len());
    assert("/restore"@.len() != "/kick"@.len());
    assert("/restore"@.len() != "/ban"@.len());
    assert(text::spaceless("/setrole"@)) by {
        assert forall|i: int| 0 <= i < "/setrole"@.len() implies #[trigger] "/setrole"@[i] != ' ' by {
            assert(i == 0 || i == 1 || i == 2 || i == 3 || i == 4 || i == 5 || i == 6 || i == 7);
        }
    }
    assert("/setrole"@.len() != "/help"@.len());
    assert("/setrole"@.len() != "/info"@.len());
    assert("/setrole"@.len() != "/rooms"@.len());
    assert("/setrole"@.len() != "/online"@.len());
    assert("/setrole"@.len() != "/kick"@.len());
    assert("/setrole"@.len() != "/ban"@.len());
    assert("/setrole"@[1] != "/restore"@[1]);
    assert(text::spaceless("/setpwd"@)) by {
        assert forall|i: int| 0 <= i < "/setpwd"@.len() implies #[trigger] "/setpwd"@[i] != ' ' by {
            assert(i == 0 || i == 1 || i == 2 || i == 3 || i == 4 || i == 5 || i == 6);
        }
    }
    assert("/setpwd"@.len() != "/help"@.len());
    assert("/setpwd"@.len() != "/info"@.len());
    assert("/setpwd"@.len() != "/rooms"@.len());
    assert("/setpwd"@[1] != "/online"@[1]);
    assert("/setpwd"@.len() != "/kick"@.len());
    assert("/setpwd"@.len() != "/ban"@.len());
    assert("/setpwd"@.len() != "/restore"@.len());
    assert("/setpwd"@.len() != "/setrole"@.len());
    assert(text::spaceless("/create"@)) by {
        assert forall|i: int| 0 <= i < "/create"@.len() implies #[trigger] "/create"@[i] != ' ' by {
            assert(i == 0 || i == 1 || i == 2 || i == 3 || i == 4 || i == 5 || i == 6);
        }
    }
    assert("/create"@.len() != "/help"@.len());
    assert("/create"@.len() != "/info"@.len());
    assert("/create"@.len() != "/rooms"@.len());
    assert("/create"@[1] != "/online"@[1]);
    assert("/create"@.len() != "/kick"@.len());
    assert("/create"@.len() != "/ban"@.len());
    assert("/create"@.len() != "/restore"@.len());
    assert("/create"@.len() != "/setrole"@.len());
    assert("/create"@[1] != "/setpwd"@[1]);
    assert(text::spaceless("/delete"@)) by {
        assert forall|i: int| 0 <= i < "/delete"@.len() implies #[trigger] "/delete"@[i] != ' ' by {
            assert(i == 0 || i == 1 || i == 2 || i == 3 || i == 4 || i == 5 || i == 6);
        }
    }
    assert("/delete"@.len() != "/help"@.len());
    assert("/delete"@.len() != "/info"@.len());
    assert("/delete"@.len() != "/rooms"@.len());
    assert("/delete"@[1] != "/online"@[1]);
    assert("/delete"@.len() != "/kick"@.len());
    assert("/delete"@.len() != "/ban"@.len());
    assert("/delete"@.len() != "/restore"@.len());
    assert("/delete"@.len() != "/setrole"@.len());
    assert("/delete"@[1] != "/setpwd"@[1]);
    assert("/delete"@[1] != "/create"@[1]);
    assert(text::spaceless("/createuser"@)) by {
        assert forall|i: int| 0 <= i < "/createuser"@.len() implies #[trigger] "/createuser"@[i] != ' ' by {
            assert(i == 0 || i == 1 || i == 2 || i == 3 || i == 4 || i == 5 || i == 6 || i == 7 || i == 8 || i == 9 || i == 10);
        }
    }
    assert("/createuser"@.len() != "/help"@.len());
    assert("/createuser"@.len() != "/info"@.len());
    assert("/createuser"@.len() != "/rooms"@.len());
    assert("/createuser"@.len() != "/online"@.len());
    assert("/createuser"@.len() != "/kick"@.len());
    assert("/createuser"@.len() != "/ban"@.len());
    assert("/createuser"@.len() != "/restore"@.len());
    assert("/createuser"@.len() != "/setrole"@.len());
    assert("/createuser"@.len() != "/setpwd"@.len());
    assert("/createuser"@.len() != "/create"@.len());
    assert("/createuser"@.len() != "/delete"@.len());
    assert(text::spaceless("/broadcast"@)) by {
        assert forall|i: int| 0 <= i < "/broadcast"@.len() implies #[trigger] "/broadcast"@[i] != ' ' by {
            assert(i == 0 || i == 1 || i == 2 || i == 3 || i == 4 || i == 5 || i == 6 || i == 7 || i == 8 || i == 9);
        }
    }
    assert("/broadcast"@.len() != "/help"@.len());
    assert("/broadcast"@.len() != "/info"@.len());
    assert("/broadcast"@.len() != "/rooms"@.len());
    assert("/broadcast"@.len() != "/online"@.len());
    assert("/broadcast"@.len() != "/kick"@.len());
    assert("/broadcast"@.len() != "/ban"@.len());
    assert("/broadcast"@.len() != "/restore"@.len());
    assert("/broadcast"@.len() != "/setrole"@.len());
    assert("/broadcast"@.len() != "/setpwd"@.len());
    assert("/broadcast"@.len() != "/create"@.len());
    assert("/broadcast"@.len() != "/delete"@.len());
    assert("/broadcast"@.len() != "/createuser"@.len());
}

/// The answer that something is wrong.
pub open spec fn wrong(text: Seq<char>) -> TermStepView {
    TermStepView::Reply(TermReplyView::Error { text })
}

/// The answer that something is done.
pub open spec fn done(text: Seq<char>) -> TermStepView {
    TermStepView::Reply(TermReplyView::Notice { level: "info"@, text })
}

/// A command with what is said behind it.
pub open spec fn typed(
    st: StateView,
    cmd: Seq<char>,
    rest: Seq<char>,
    now: i64,
) -> (StateView, TermStepView) {
    st.term_request(ClientRequestView::Command(repl::line_of(cmd, rest)), now)
}

/// What a terminal sends is told apart by the field `type` of its JSON: a text for a room, with
/// the body as it is, a command line without the white space around it, a ping, or nothing known.
/// What is no JSON is reported with the reason.
pub proof fn law_requests_are_told_apart(
    kind: Option<Seq<char>>,
    body: Option<Seq<char>>,
    room: Option<Seq<char>>,
    line: Option<Seq<char>>,
    message: Seq<char>,
)
    ensures
        ({
            let req = terminal::request_of(kind, body, room, line);
            &&& kind == Some("chat"@) ==> req == (ClientRequestView::Chat {
                body: if body is Some {
                    body->0
                } else {
                    Seq::empty()
                },
                room,
            })
            &&& kind == Some("cmd"@) ==> req == ClientRequestView::Command(
                if line is Some {
                    text::trimmed(line->0)
                } else {
                    Seq::empty()
                },
            )
            &&& kind == Some("ping"@) ==> req == ClientRequestView::Ping
            &&& kind != Some("chat"@) && kind != Some("cmd"@) && kind != Some("ping"@) ==> req
                == ClientRequestView::Unknown
        }),
        ({
            let req = terminal::json_request(message);
            &&& req is BadJson <==> terminal::json_error(message) is Some
            &&& req matches ClientRequestView::BadJson(why) ==> terminal::json_error(message)
                == Some(why)
            &&& terminal::json_error(message) is None ==> req == terminal::request_of(
                terminal::json_string(message, "type"@),
                terminal::json_string(message, "body"@),
                terminal::json_string(message, "room"@),
                terminal::json_string(message, "line"@),
            )
        }),
{
    reveal_strlit("chat");
    reveal_strlit("cmd");
    reveal_strlit("ping");
    assert("chat"@.len() != "cmd"@.len() && "ping"@.len() != "cmd"@.len() && "chat"@[0]
        != "ping"@[0]);
    text::law_tidy_is_kept(Seq::empty());
}

/// A text of the terminal is said in the room that is named, or in the default room, under the
/// name `Server` and at the present time, and acknowledged with its number and time. A text
/// without a body, and a room that does not exist, are reported. A ping is answered, and what is
/// not known is reported. Nothing else happens.
pub proof fn law_terminal_says(
    st: StateView,
    body: Seq<char>,
    room: Option<Seq<char>>,
    why: Seq<char>,
    now: i64,
)
    requires
        st.valid(),
    ensures
        ({
            let (after, step) = st.term_request(ClientRequestView::Chat { body, room }, now);
            let name = if room is Some {
                room->0
            } else {
                st.cfg.default_room
            };
            let n = st.out.len() as int;
            if body.len() == 0 {
                after == st && step == wrong("empty message"@)
            } else if !st.rooms.contains_key(name) {
                after == st && step == wrong("room not found"@)
            } else {
                &&& after.out.len() == n + 1
                &&& after.out.take(n) == st.out
                &&& outcomes::is_said(st, after, after.out[n], "Server"@, name, body, now)
                &&& step == TermStepView::Reply(
                    TermReplyView::ChatAck { seq: st.next_seq, ts: now },
                )
            }
        }),
        st.term_request(ClientRequestView::Ping, now) == (
            st,
            TermStepView::Reply(TermReplyView::Pong),
        ),
        st.term_request(ClientRequestView::Unknown, now) == (st, wrong("unknown message type"@)),
        st.term_request(ClientRequestView::BadJson(why), now) == (
            st,
            wrong("bad json: "@ + why),
        ),
{
    let after = st.term_request(ClientRequestView::Chat { body, room }, now).0;
    let name = if room is Some {
        room->0
    } else {
        st.cfg.default_room
    };
    if body.len() > 0 && st.rooms.contains_key(name) {
        assert(after.out.take(st.out.len() as int) =~= st.out);
        outcomes::lemma_said(st, after, "Server"@, name, body, now);
    }
}

/// Whether a user has been told a text, and put out: offline and out of all rooms, with no session
/// that brings the user back; and everybody who is still online has been told.
pub open spec fn is_expelled(
    st: StateView,
    after: StateView,
    target: Seq<char>,
    text: Seq<char>,
) -> bool {
    let n = st.out.len() as int;
    &&& outcomes::is_gone(st, after, target)
    &&& outcomes::brings_back(st, after, target, None)
    &&& outcomes::settled(st, after)
    &&& after.out.len() == n + 2
    &&& after.out.take(n) == st.out
    &&& after.out[n] == outcomes::frame_for(
        st.online[target].conn,
        0,
        MessageView::Notice { text, level: "warn"@ },
    )
    &&& outcomes::is_manifest(after.out[n + 1], after.online)
}

proof fn lemma_expelled(st: StateView, after: StateView, target: Seq<char>, text: Seq<char>)
    requires
        st.valid(),
        st.online.contains_key(target),
        after == st.expel(target, text),
    ensures
        is_expelled(st, after, target, text),
{
    let answered = after.reply(0, 0, MessageView::Pong);
    outcomes::lemma_put_out(st, answered, target, text, 0, 0, MessageView::Pong);
    let n = st.out.len() as int;
    assert(after.out =~= answered.out.take(n + 2));
    assert(after.out.take(n) =~= answered.out.take(n));
}

/// `/kick` puts out who is named, if online and not the account `admin`, and says so.
pub proof fn law_kick_command(st: StateView, rest: Seq<char>, now: i64)
    requires
        st.valid(),
    ensures
        ({
            let target = text::trimmed(rest);
            let (after, step) = typed(st, "/kick"@, rest, now);
            if target.len() == 0 {
                after == st && step == wrong("usage: /kick <user>"@)
            } else if !st.online.contains_key(target) {
                after == st && step == wrong("target not online"@)
            } else if target == "admin"@ {
                after == st && step == wrong("cannot kick admin"@)
            } else {
                is_expelled(st, after, target, "kicked from server by web admin"@) && step == done(
                    "kicked "@ + target,
                )
            }
        }),
{
    lemma_command_words();
    text::law_cut("/kick"@, rest);
    let target = text::trimmed(rest);
    if target.len() > 0 && st.online.contains_key(target) && target != "admin"@ {
        lemma_expelled(
            st,
            typed(st, "/kick"@, rest, now).0,
            target,
            "kicked from server by web admin"@,
        );
    }
}

/// `/create` makes a room with `Server` as its one member, under a name that is neither that of a
/// room nor of a user online, and `/delete` forgets a room and what was kept of it; the database
/// is told, and nothing else changes.
pub proof fn law_room_commands(st: StateView, rest: Seq<char>, now: i64)
    ensures
        ({
            let name = text::trimmed(rest);
            typed(st, "/create"@, rest, now) == if name.len() == 0 {
                (st, wrong("usage: /create <room>"@))
            } else if st.rooms.contains_key(name) || st.online.contains_key(name) {
                (st, wrong("room exists"@))
            } else {
                (
                    StateView {
                        rooms: st.rooms.insert(
                            name,
                            Set::<Seq<char>>::empty().insert("Server"@),
                        ),
                        out: st.out.push(OutputView::Persist(DbWriteView::CreateRoom { name })),
                        ..st
                    },
                    done("created room "@ + name),
                )
            }
        }),
        ({
            let name = text::trimmed(rest);
            typed(st, "/delete"@, rest, now) == if name.len() == 0 {
                (st, wrong("usage: /delete <room>"@))
            } else if !st.rooms.contains_key(name) {
                (st, wrong("room not found"@))
            } else {
                (
                    StateView {
                        rooms: st.rooms.remove(name),
                        history: st.history.remove(name),
                        out: st.out.push(OutputView::Persist(DbWriteView::DeleteRoom { name })),
                        ..st
                    },
                    done("deleted room "@ + name),
                )
            }
        }),
{
    lemma_command_words();
    text::law_cut("/create"@, rest);
    text::law_cut("/delete"@, rest);
}

/// Whether a text may stand for somebody in a command: not empty, without spaces, and without
/// white space around it.
pub open spec fn is_name(s: Seq<char>) -> bool {
    s.len() > 0 && text::spaceless(s) && !text::is_white(s[0]) && !text::is_white(s.last())
}

proof fn lemma_name_and_more(name: Seq<char>, more: Seq<char>)
    requires
        is_name(name),
        more.len() > 0,
        !text::is_white(more[0]),
        !text::is_white(more.last()),
    ensures
        text::trimmed(name) == name,
        text::trimmed(more) == more,
        text::trimmed(repl::line_of(name, more)) == repl::line_of(name, more),
        terminal::two(name) is None,
        terminal::two(repl::line_of(name, more)) == Some((name, more)),
{
    let rest = repl::line_of(name, more);
    assert(rest[0] == name[0]);
    assert(rest.last() == more.last());
    text::law_tidy_is_kept(name);
    text::law_tidy_is_kept(more);
    text::law_tidy_is_kept(rest);
    text::law_cut(name, more);
}

/// `/ban` and `/restore` ask the database to ban and to restore who is named; the reason for a ban
/// is all that stands behind the name. Nobody bans the account `admin`. The state is not touched
/// before the database has answered.
pub proof fn law_ban_commands(st: StateView, target: Seq<char>, reason: Seq<char>, now: i64)
    requires
        is_name(target),
        reason.len() > 0,
        !text::is_white(reason[0]),
        !text::is_white(reason.last()),
    ensures
        typed(st, "/ban"@, target, now) == if target == "admin"@ {
            (st, wrong("invalid target"@))
        } else {
            (
                st,
                TermStepView::Write {
                    write: DbWriteView::SetBanned { username: target, banned: true },
                    then: AfterTermWriteView::Ban { target, reason: None },
                },
            )
        },
        typed(st, "/ban"@, repl::line_of(target, reason), now) == if target == "admin"@ {
            (st, wrong("invalid target"@))
        } else {
            (
                st,
                TermStepView::Write {
                    write: DbWriteView::SetBanned { username: target, banned: true },
                    then: AfterTermWriteView::Ban { target, reason: Some(reason) },
                },
            )
        },
        typed(st, "/restore"@, target, now) == (
            st,
            TermStepView::Write {
                write: DbWriteView::SetBanned { username: target, banned: false },
                then: AfterTermWriteView::Restore { target },
            },
        ),
        typed(st, "/ban"@, Seq::empty(), now) == (st, wrong("invalid target"@)),
        typed(st, "/restore"@, Seq::empty(), now) == (st, wrong("usage: /restore <user>"@)),
{
    lemma_command_words();
    lemma_name_and_more(target, reason);
    let nothing = Seq::<char>::empty();
    text::law_tidy_is_kept(nothing);
    text::law_cut(nothing, nothing);
    text::law_cut("/ban"@, target);
    text::law_cut("/ban"@, repl::line_of(target, reason));
    text::law_cut("/ban"@, nothing);
    text::law_cut("/restore"@, target);
    text::law_cut("/restore"@, nothing);
}

/// `/setrole` asks the database to store the role that is named, one of the three, for who is
/// named, who is not the account `admin`; `/setpwd` has the password hashed for who is named. Both
/// need two things.
pub proof fn law_account_commands(st: StateView, target: Seq<char>, value: Seq<char>, now: i64)
    requires
        is_name(target),
        value.len() > 0,
        !text::is_white(value[0]),
        !text::is_white(value.last()),
    ensures
        typed(st, "/setrole"@, repl::line_of(target, value), now) == if target == "admin"@ || !(value
            == "user"@ || value == "manager"@ || value == "admin"@) {
            (st, wrong("invalid target/role"@))
        } else {
            (
                st,
                TermStepView::Write {
                    write: DbWriteView::SetRole { username: target, role: value },
                    then: AfterTermWriteView::SetRole { target, role: value },
                },
            )
        },
        typed(st, "/setpwd"@, repl::line_of(target, value), now) == (
            st,
            TermStepView::Hash {
                password: value,
                then: AfterTermHashView::SetPwd { target },
            },
        ),
        typed(st, "/setrole"@, target, now) == (st, wrong("usage: /setrole <user> <role>"@)),
        typed(st, "/setpwd"@, target, now) == (st, wrong("usage: /setpwd <user> <password>"@)),
{
    lemma_command_words();
    lemma_name_and_more(target, value);
    text::law_cut("/setrole"@, repl::line_of(target, value));
    text::law_cut("/setpwd"@, repl::line_of(target, value));
    text::law_cut("/setrole"@, target);
    text::law_cut("/setpwd"@, target);
}

/// `/createuser` looks the name up, and keeps the password and the role for later; it needs three
/// words. A name that is stored is reported; otherwise the password is hashed.
pub proof fn law_createuser_command(
    st: StateView,
    username: Seq<char>,
    password: Seq<char>,
    role: Seq<char>,
    found: LookupView,
    now: i64,
)
    requires
        text::is_word(username),
        text::is_word(password),
        text::is_word(role),
    ensures
        typed(
            st,
            "/createuser"@,
            repl::line_of(username, repl::line_of(password, role)),
            now,
        ) == (st, TermStepView::Lookup { username, password, role }),
        typed(st, "/createuser"@, repl::line_of(username, password), now) == (
            st,
            wrong("usage: /createuser <user> <password> <role>"@),
        ),
        terminal::looked_up(username, password, role, found) == if found is Found {
            wrong("user exists"@)
        } else {
            TermStepView::Hash { password, then: AfterTermHashView::CreateUser { username, role } }
        },
{
    let tail = repl::line_of(password, role);
    repl::lemma_two_words(username, password);
    repl::lemma_two_words(password, role);
    lemma_first_word(username, tail);
    let all = repl::line_of(username, tail);
    assert(seq![username] + seq![password, role] =~= seq![username, password, role]);
    lemma_command_words();
    text::law_cut("/createuser"@, all);
    text::law_cut("/createuser"@, repl::line_of(username, password));
}

proof fn lemma_first_word(word: Seq<char>, tail: Seq<char>)
    requires
        text::is_word(word),
        tail.len() > 0,
        !text::is_white(tail.last()),
    ensures
        text::words(repl::line_of(word, tail)) == seq![word] + text::words(tail),
        text::trimmed(repl::line_of(word, tail)) == repl::line_of(word, tail),
{
    let all = repl::line_of(word, tail);
    let rest = seq![' '] + tail;
    assert(text::is_white(' '));
    assert(rest.drop_first() =~= tail);
    text::law_words(' ', word, rest);
    assert(word + rest =~= all);
    assert(all[0] == word[0]);
    assert(all.last() == tail.last());
    text::law_tidy_is_kept(all);
}

/// A hash that was made is stored: for a new account with its name and role, or as the password of
/// its target. One that could not be made is reported.
pub proof fn law_hashes_are_written(
    target: Seq<char>,
    role: Seq<char>,
    hash: Result<Seq<char>, AuthError>,
)
    ensures
        terminal::hashed(AfterTermHashView::SetPwd { target }, hash) == match hash {
            Ok(password_hash) => TermStepView::Write {
                write: DbWriteView::SetPassword { username: target, password_hash },
                then: AfterTermWriteView::SetPwd { target },
            },
            Err(AuthError::Hash) => wrong("failed to set password"@),
            Err(AuthError::RandomUnavailable) => TermStepView::NoRandom,
        },
        terminal::hashed(AfterTermHashView::CreateUser { username: target, role }, hash)
            == match hash {
            Ok(password_hash) => TermStepView::Write {
                write: DbWriteView::CreateUser { username: target, password_hash, role },
                then: AfterTermWriteView::CreateUser { username: target, role },
            },
            Err(AuthError::Hash) => wrong("failed to create user"@),
            Err(AuthError::RandomUnavailable) => TermStepView::NoRandom,
        },
{
}

/// What the database has done is said. Who is banned is put out, or, if not online, brought back
/// by no session; a new role reaches the user who is online and the sessions that bring the user
/// back; the other changes touch nothing. What the database has not done is reported, and nothing
/// happens.
pub proof fn law_changes_are_carried_out(
    st: StateView,
    target: Seq<char>,
    role: Role,
    name: Seq<char>,
    reason: Option<Seq<char>>,
    then: AfterTermWriteView,
)
    requires
        st.valid(),
        outcomes::stands_for(role, name),
    ensures
        st.term_on_write(then, false) == (
            st,
            wrong(
                if then is SetPwd {
                    "failed to set password"@
                } else if then is CreateUser {
                    "failed to create user"@
                } else {
                    "db error"@
                },
            ),
        ),
        st.term_on_write(AfterTermWriteView::Restore { target }, true) == (
            st,
            done("restored "@ + target),
        ),
        st.term_on_write(AfterTermWriteView::SetPwd { target }, true) == (
            st,
            done("password updated for "@ + target),
        ),
        st.term_on_write(AfterTermWriteView::CreateUser { username: target, role: name }, true)
            == (st, done("created user "@ + target + " as "@ + name)),
        ({
            let (after, step) = st.term_on_write(
                AfterTermWriteView::Ban { target, reason },
                true,
            );
            &&& step == done("banned "@ + target)
            &&& if st.online.contains_key(target) {
                is_expelled(
                    st,
                    after,
                    target,
                    outcomes::because("banned from server"@, reason),
                )
            } else {
                &&& after == StateView { sessions: after.sessions, ..st }
                &&& outcomes::brings_back(st, after, target, None)
            }
        }),
        ({
            let (after, step) = st.term_on_write(
                AfterTermWriteView::SetRole { target, role: name },
                true,
            );
            &&& step == done(target + " role -> "@ + name)
            &&& after == StateView { online: after.online, sessions: after.sessions, ..st }
            &&& after.online == if st.online.contains_key(target) {
                st.online.insert(target, OnlineUser { role, conn: st.online[target].conn })
            } else {
                st.online
            }
            &&& outcomes::brings_back(st, after, target, Some(role))
        }),
{
    reveal_strlit("admin");
    reveal_strlit("manager");
    assert("manager"@.len() != "admin"@.len());
    let banned = st.term_on_write(AfterTermWriteView::Ban { target, reason }, true).0;
    if st.online.contains_key(target) {
        lemma_expelled(
            st,
            banned,
            target,
            outcomes::because("banned from server"@, reason),
        );
    } else {
        assert(banned.sessions.dom() =~= st.sessions.dom());
    }
    let set = st.term_on_write(AfterTermWriteView::SetRole { target, role: name }, true).0;
    assert(set.sessions.dom() =~= st.sessions.dom());
}

/// `/rooms` lists all rooms, `/online` the users online with the roles they have, and `/info` how
/// many there are of both, for how long the server runs, the number that the next text gets, and
/// where the server listens. Nothing happens.
pub proof fn law_question_commands(st: StateView, rest: Seq<char>, now: i64)
    requires
        st.valid(),
        st.rooms.dom().len() <= usize::MAX,
        st.online.dom().len() <= usize::MAX,
        i64::MIN <= now - st.started_at <= i64::MAX,
    ensures
        ({
            let (after, step) = typed(st, "/rooms"@, rest, now);
            after == st && (step matches TermStepView::Reply(TermReplyView::Rooms { rooms })
                && outcomes::lists_those(rooms, |room: Seq<char>| st.rooms.contains_key(room)))
        }),
        ({
            let (after, step) = typed(st, "/online"@, rest, now);
            after == st && (step matches TermStepView::Reply(TermReplyView::Online { users }) && {
                &&& outcomes::lists_those(
                    users.map_values(|user: (Seq<char>, Role)| user.0),
                    |user: Seq<char>| st.online.contains_key(user),
                )
                &&& forall|i: int|
                    0 <= i < users.len() ==> (#[trigger] users[i]).1 == st.online[users[i].0].role
            })
        }),
        typed(st, "/info"@, rest, now) == (
            st,
            TermStepView::Reply(
                TermReplyView::Info {
                    rooms: st.rooms.dom().len() as usize,
                    online: st.online.dom().len() as usize,
                    uptime_ms: (now - st.started_at) as i64,
                    server_seq: st.next_seq,
                    bind_addr: st.cfg.bind_addr,
                },
            ),
        ),
{
    lemma_command_words();
    text::law_cut("/rooms"@, rest);
    text::law_cut("/online"@, rest);
    text::law_cut("/info"@, rest);
    names::lemma_listing_exists(st.online.dom());
    names::lemma_listing_exists(st.rooms.dom());
    outcomes::lemma_counts(st.online_names(), st.online.dom());
    outcomes::lemma_counts(st.room_names(), st.rooms.dom());
    if let TermStepView::Reply(TermReplyView::Online { users }) = typed(
        st,
        "/online"@,
        rest,
        now,
    ).1 {
        assert(users.map_values(|user: (Seq<char>, Role)| user.0) =~= st.online_names());
    }
}

/// `/broadcast` says a text in every room, once, under the name `Server`; a text without a body is
/// reported. `/help` shows the help. An empty line and an unknown command are reported.
pub proof fn law_other_commands(st: StateView, cmd: Seq<char>, rest: Seq<char>, now: i64)
    requires
        text::spaceless(cmd),
        cmd.len() > 0,
        !(cmd == "/help"@ || cmd == "/info"@ || cmd == "/rooms"@ || cmd == "/online"@ || cmd
            == "/kick"@ || cmd == "/ban"@ || cmd == "/restore"@ || cmd == "/setrole"@ || cmd
            == "/setpwd"@ || cmd == "/create"@ || cmd == "/delete"@ || cmd == "/createuser"@ || cmd
            == "/broadcast"@),
    ensures
        ({
            let body = text::trimmed(rest);
            let (after, step) = typed(st, "/broadcast"@, rest, now);
            if body.len() == 0 {
                after == st && step == wrong("usage: /broadcast <text>"@)
            } else {
                after == st.broadcast_texts("Server"@, st.room_names(), body, now) && step == done(
                    "broadcast sent to all rooms"@,
                )
            }
        }),
        typed(st, cmd, rest, now) == (
            st,
            wrong("unknown command: "@ + cmd + " (try /help)"@),
        ),
        st.term_request(ClientRequestView::Command(Seq::empty()), now) == (
            st,
            wrong("empty command"@),
        ),
        typed(st, "/help"@, rest, now) == (st, done(terminal::help_text())),
        st.term_request(ClientRequestView::Command("/help"@), now) == (
            st,
            done(terminal::help_text()),
        ),
{
    lemma_command_words();
    text::law_cut("/broadcast"@, rest);
    text::law_cut("/help"@, rest);
    text::law_cut(cmd, rest);
    text::law_cut(Seq::empty(), rest);
}

/// A text for everybody is said in every room: each room keeps it as its last item, under the name
/// `Server` and with the next number, one after the other in ascending order of the rooms, and the
/// members of each who are online are told, in that order. Nobody's presence, rooms or sessions
/// are different.
pub proof fn law_broadcast_command(st: StateView, rest: Seq<char>, now: i64, i: int)
    requires
        st.valid(),
        text::trimmed(rest).len() > 0,
        st.next_seq + st.rooms.dom().len() <= u64::MAX,
        0 <= i < st.rooms.dom().len(),
    ensures
        ({
            let body = text::trimmed(rest);
            let (after, step) = typed(st, "/broadcast"@, rest, now);
            let rooms = st.room_names();
            let n = st.out.len() as int;
            let seq = (st.next_seq + i) as u64;
            &&& step == done("broadcast sent to all rooms"@)
            &&& outcomes::lists_those(rooms, |room: Seq<char>| st.rooms.contains_key(room))
            &&& rooms.len() == st.rooms.dom().len()
            &&& after.out.len() == n + rooms.len()
            &&& after.out.take(n) == st.out
            &&& outcomes::is_told(
                after.out[n + i],
                st,
                rooms[i],
                MessageView::PushText { room: rooms[i], from: "Server"@, body, seq, ts: now },
            )
            &&& after.online == st.online
            &&& after.rooms == st.rooms
            &&& after.sessions == st.sessions
            &&& after.next_id == st.next_id
            &&& after.next_seq == st.next_seq + rooms.len()
            &&& after.cfg == st.cfg
            &&& after.history.contains_key(rooms[i])
            &&& after.history[rooms[i]].last() == (crate::message::HistoryItemView {
                seq,
                room: rooms[i],
                from: "Server"@,
                body,
                ts: now,
            })
        }),
{
    let body = text::trimmed(rest);
    let rooms = st.room_names();
    lemma_command_words();
    text::law_cut("/broadcast"@, rest);
    names::lemma_listing_exists(st.rooms.dom());
    outcomes::lemma_counts(rooms, st.rooms.dom());
    laws::law_broadcast_reaches_every_room(st, "Server"@, body, now);
    lemma_told_each(st, rooms, body, now, i);
    let after = st.broadcast_texts("Server"@, rooms, body, now);
    assert(rooms.contains(rooms[i]));
    assert(st.rooms.contains_key(rooms[i]));
    assert(after.kept(rooms[i]).len() > 0);
}

/// A text in several rooms is told in each of them, in order.
proof fn lemma_told_each(
    st: StateView,
    rooms: Seq<Seq<char>>,
    body: Seq<char>,
    now: i64,
    i: int,
)
    requires
        st.valid(),
        st.next_seq + rooms.len() <= u64::MAX,
        0 <= i < rooms.len(),
    ensures
        ({
            let after = st.broadcast_texts("Server"@, rooms, body, now);
            let n = st.out.len() as int;
            &&& after.out.len() == n + rooms.len()
            &&& after.out.take(n) == st.out
            &&& outcomes::is_told(
                after.out[n + i],
                st,
                rooms[i],
                MessageView::PushText {
                    room: rooms[i],
                    from: "Server"@,
                    body,
                    seq: (st.next_seq + i) as u64,
                    ts: now,
                },
            )
            &&& after.next_seq == st.next_seq + rooms.len()
            &&& after.online == st.online
            &&& after.rooms == st.rooms
            &&& after.sessions == st.sessions
            &&& after.next_id == st.next_id
            &&& after.cfg == st.cfg
        }),
    decreases rooms.len(),
{
    let rest = rooms.drop_last();
    let mid = st.broadcast_texts("Server"@, rest, body, now);
    let after = st.broadcast_texts("Server"@, rooms, body, now);
    let n = st.out.len() as int;
    laws::lemma_texts_keep_valid(st, "Server"@, rest, body, now);
    if rest.len() > 0 {
        lemma_told_each(
            st,
            rest,
            body,
            now,
            if i < rest.len() {
                i
            } else {
                0
            },
        );
    } else {
        assert(mid == st);
        assert(mid.out.take(n) =~= st.out);
    }
    assert(after.out.take(n) =~= mid.out.take(n));
    if i < rest.len() {
        assert(after.out[n + i] == mid.out[n + i]);
    } else {
        outcomes::lemma_said(mid, after, "Server"@, rooms.last(), body, now);
    }
}

/// The help of the terminal names every command.
pub proof fn law_help_names_the_commands()
    ensures
        text::mentions(terminal::help_text(), "/kick"@),
        text::mentions(terminal::help_text(), "/ban"@),
        text::mentions(terminal::help_text(), "/restore"@),
        text::mentions(terminal::help_text(), "/setrole"@),
        text::mentions(terminal::help_text(), "/setpwd"@),
        text::mentions(terminal::help_text(), "/create"@),
        text::mentions(terminal::help_text(), "/delete"@),
        text::mentions(terminal::help_text(), "/broadcast"@),
        text::mentions(terminal::help_text(), "/createuser"@),
        text::mentions(terminal::help_text(), "/info"@),
        text::mentions(terminal::help_text(), "/rooms"@),
        text::mentions(terminal::help_text(), "/online"@),
{
    reveal_strlit("/kick <u>  /ban <u> [r]  /restore <u>  /setrole <u> <role>  /setpwd <u> <p>  /create <room>  /delete <room>  /broadcast <text>  /createuser <u> <p> <role>  /info  /rooms  /online");
    let all = terminal::help_text();
    assert(text::mentions(all, "/kick"@)) by {
        reveal_strlit("/kick");
        let part = all.subrange(0, 5);
        assert forall|i: int| 0 <= i < 5 implies #[trigger] part[i] == "/kick"@[i] by {
            assert(i == 0 || i == 1 || i == 2 || i == 3 || i == 4);
        }
        assert(part =~= "/kick"@);
    }
    assert(text::mentions(all, "/ban"@)) by {
        reveal_strlit("/ban");
        let part = all.subrange(11, 15);
        assert forall|i: int| 0 <= i < 4 implies #[trigger] part[i] == "/ban"@[i] by {
            assert(i == 0 || i == 1 || i == 2 || i == 3);
        }
        assert(part =~= "/ban"@);
    }
    assert(text::mentions(all, "/restore"@)) by {
        reveal_strlit("/restore");
        let part = all.subrange(25, 33);
        assert forall|i: int| 0 <= i < 8 implies #[trigger] part[i] == "/restore"@[i] by {
            assert(i == 0 || i == 1 || i == 2 || i == 3 || i == 4 || i == 5 || i == 6 || i == 7);
        }
        assert(part =~= "/restore"@);
    }
    assert(text::mentions(all, "/setrole"@)) by {
        reveal_strlit("/setrole");
        let part = all.subrange(39, 47);
        assert forall|i: int| 0 <= i < 8 implies #[trigger] part[i] == "/setrole"@[i] by {
            assert(i == 0 || i == 1 || i == 2 || i == 3 || i == 4 || i == 5 || i == 6 || i == 7);
        }
        assert(part =~= "/setrole"@);
    }
    assert(text::mentions(all, "/setpwd"@)) by {
        reveal_strlit("/setpwd");
        let part = all.subrange(60, 67);
        assert forall|i: int| 0 <= i < 7 implies #[trigger] part[i] == "/setpwd"@[i] by {
            assert(i == 0 || i == 1 || i == 2 || i == 3 || i == 4 || i == 5 || i == 6);
        }
        assert(part =~= "/setpwd"@);
    }
    assert(text::mentions(all, "/create"@)) by {
        reveal_strlit("/create");
        let part = all.subrange(77, 84);
        assert forall|i: int| 0 <= i < 7 implies #[trigger] part[i] == "/create"@[i] by {
            assert(i == 0 || i == 1 || i == 2 || i == 3 || i == 4 || i == 5 || i == 6);
        }
        assert(part =~= "/create"@);
    }
    assert(text::mentions(all, "/delete"@)) by {
        reveal_strlit("/delete");
        let part = all.subrange(93, 100);
        assert forall|i: int| 0 <= i < 7 implies #[trigger] part[i] == "/delete"@[i] by {
            assert(i == 0 || i == 1 || i == 2 || i == 3 || i == 4 || i == 5 || i == 6);
        }
        assert(part =~= "/delete"@);
    }
    assert(text::mentions(all, "/broadcast"@)) by {
        reveal_strlit("/broadcast");
        let part = all.subrange(109, 119);
        assert forall|i: int| 0 <= i < 10 implies #[trigger] part[i] == "/broadcast"@[i] by {
            assert(i == 0 || i == 1 || i == 2 || i == 3 || i == 4 || i == 5 || i == 6 || i == 7 || i == 8 || i == 9);
        }
        assert(part =~= "/broadcast"@);
    }
    assert(text::mentions(all, "/createuser"@)) by {
        reveal_strlit("/createuser");
        let part = all.subrange(128, 139);
        assert forall|i: int| 0 <= i < 11 implies #[trigger] part[i] == "/createuser"@[i] by {
            assert(i == 0 || i == 1 || i == 2 || i == 3 || i == 4 || i == 5 || i == 6 || i == 7 || i == 8 || i == 9 || i == 10);
        }
        assert(part =~= "/createuser"@);
    }
    assert(text::mentions(all, "/info"@)) by {
        reveal_strlit("/info");
        let part = all.subrange(156, 161);
        assert forall|i: int| 0 <= i < 5 implies #[trigger] part[i] == "/info"@[i] by {
            assert(i == 0 || i == 1 || i == 2 || i == 3 || i == 4);
        }
        assert(part =~= "/info"@);
    }
    assert(text::mentions(all, "/rooms"@)) by {
        reveal_strlit("/rooms");
        let part = all.subrange(163, 169);
        assert forall|i: int| 0 <= i < 6 implies #[trigger] part[i] == "/rooms"@[i] by {
            assert(i == 0 || i == 1 || i == 2 || i == 3 || i == 4 || i == 5);
        }
        assert(part =~= "/rooms"@);
    }
    assert(text::mentions(all, "/online"@)) by {
        reveal_strlit("/online");
        let part = all.subrange(171, 178);
        assert forall|i: int| 0 <= i < 7 implies #[trigger] part[i] == "/online"@[i] by {
            assert(i == 0 || i == 1 || i == 2 || i == 3 || i == 4 || i == 5 || i == 6);
        }
        assert(part =~= "/online"@);
    }
}

} // verus!
