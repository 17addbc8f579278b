//! The client's side of the protocol: matching answers to requests, and keeping pushes for later.

use std::collections::VecDeque;
use vstd::prelude::*;

use crate::envelope::{Frame, FrameView};
use crate::message::{Message, MessageView};
use crate::text;

verus! {

/// The view of a [`Client`].
pub ghost struct ClientView {
    /// The id of the next request.
    pub next_id: u64,
    /// The frames that have arrived and nobody has asked for, oldest first.
    pub pending: Seq<FrameView>,
}

impl ClientView {
    /// A frame arrives while the answer to a request is awaited.
    pub open spec fn arrived(self, id: u64, frame: FrameView) -> (ClientView, Option<MessageView>) {
        if frame.id == id {
            (self, Some(frame.msg))
        } else {
            (ClientView { pending: self.pending.push(frame), ..self }, None)
        }
    }

    /// Another request is made: what the client remembers then, and the id of the request.
    pub open spec fn asked(self) -> (ClientView, u64) {
        (ClientView { next_id: (self.next_id + 1) as u64, ..self }, self.next_id)
    }

    /// The oldest frame that was kept is taken, if any is.
    pub open spec fn taken(self) -> (ClientView, Option<FrameView>) {
        if self.pending.len() == 0 {
            (self, None)
        } else {
            (
                ClientView { pending: self.pending.drop_first(), ..self },
                Some(self.pending[0]),
            )
        }
    }

    /// Frames arrive, one after the other, until one of them is the answer.
    pub open spec fn awaited(self, id: u64, frames: Seq<FrameView>) -> (
        ClientView,
        Option<MessageView>,
    )
        decreases frames.len(),
    {
        if frames.len() == 0 {
            (self, None)
        } else {
            match self.arrived(id, frames[0]) {
                (after, None) => after.awaited(id, frames.drop_first()),
                answered => answered,
            }
        }
    }
}

/// What a client remembers between the frames it sends and receives.
#[derive(Debug)]
pub struct Client {
    next_id: u64,
    pending: VecDeque<Frame>,
}

impl View for Client {
    type V = ClientView;

    closed spec fn view(&self) -> ClientView {
        ClientView { next_id: self.next_id, pending: text::views(self.pending@) }
    }
}

impl Client {
    /// A client that has sent nothing yet. Ids of requests begin at 1.
    pub fn new() -> (client: Self)
        ensures
            client@ == (ClientView { next_id: 1, pending: Seq::empty() }),
    {
        let client = Client { next_id: 1, pending: VecDeque::new() };
        assert(client@.pending =~= Seq::empty());
        client
    }

    /// The id that the next request will have.
    pub fn next_id(&self) -> (id: u64)
        ensures
            id == self@.next_id,
    {
        self.next_id
    }

    /// Makes the frame of a new request, under an id of its own.
    pub fn request(&mut self, msg: Message) -> (frame: Frame)
        requires
            old(self)@.next_id < u64::MAX,
        ensures
            frame@ == FrameView::of(old(self)@.next_id, msg@),
            final(self)@ == (ClientView {
                next_id: (old(self)@.next_id + 1) as u64,
                ..old(self)@
            }),
            (final(self)@, frame@.id) == old(self)@.asked(),
    {
        let id = self.next_id;
        self.next_id = id + 1;
        Frame::request(id, msg)
    }

    /// Takes a frame that arrived while the answer to a request is awaited: its message, if it is
    /// the answer; otherwise the frame is kept for [`Client::recv_push`].
    pub fn accept(&mut self, id: u64, frame: Frame) -> (answer: Option<Message>)
        ensures
            (final(self)@, text::opt_view(answer)) == old(self)@.arrived(id, frame@),
    {
        if frame.id == id {
            return Some(frame.msg);
        }
        let ghost before = self.pending@;
        self.pending.push_back(frame);
        assert(text::views(self.pending@) =~= text::views(before).push(frame@));
        None
    }

    /// The oldest frame that was kept, if any is.
    pub fn recv_push(&mut self) -> (frame: Option<Frame>)
        ensures
            match frame {
                Some(f) => old(self)@.pending.len() > 0 && f@ == old(self)@.pending[0]
                    && final(self)@ == (ClientView {
                    pending: old(self)@.pending.drop_first(),
                    ..old(self)@
                }),
                None => old(self)@.pending.len() == 0 && final(self)@ == old(self)@,
            },
            (final(self)@, text::opt_view(frame)) == old(self)@.taken(),
    {
        let ghost before = self.pending@;
        let frame = self.pending.pop_front();
        if frame.is_some() {
            assert(text::views(self.pending@) =~= text::views(before).drop_first());
        } else {
            assert(text::views(self.pending@) =~= text::views(before));
        }
        frame
    }

    /// The text of an error, if the message is one.
    pub fn error_text(msg: &Message) -> (t: Option<&str>)
        ensures
            match t {
                Some(shown) => msg@ matches MessageView::Error { message, .. } && shown@ == message,
                None => !(msg@ is Error),
            },
    {
        match msg {
            Message::Error { message, .. } => Some(message.as_str()),
            _ => None,
        }
    }
}

/// The answer to a request is the first frame that carries its id; all that arrive before it are
/// kept, in order, behind what was kept already, and what arrives later is not looked at.
pub proof fn law_answer_is_found_and_pushes_are_kept(
    client: ClientView,
    id: u64,
    frames: Seq<FrameView>,
    n: int,
)
    requires
        0 <= n < frames.len(),
        frames[n].id == id,
        forall|i: int| 0 <= i < n ==> (#[trigger] frames[i]).id != id,
    ensures
        client.awaited(id, frames) == (
            ClientView { pending: client.pending + frames.take(n), ..client },
            Some(frames[n].msg),
        ),
    decreases n,
{
    if n == 0 {
        assert(client.pending + frames.take(0) =~= client.pending);
    } else {
        let rest = frames.drop_first();
        let (after, _) = client.arrived(id, frames[0]);
        assert forall|i: int| 0 <= i < n - 1 implies (#[trigger] rest[i]).id != id by {
            assert(rest[i] == frames[i + 1]);
        }
        law_answer_is_found_and_pushes_are_kept(after, id, rest, n - 1);
        assert(after.pending + rest.take(n - 1) =~= client.pending + frames.take(n));
    }
}

/// Where none of the frames is the answer, all of them are kept, in order.
pub proof fn law_all_is_kept_until_the_answer(
    client: ClientView,
    id: u64,
    frames: Seq<FrameView>,
)
    requires
        forall|i: int| 0 <= i < frames.len() ==> (#[trigger] frames[i]).id != id,
    ensures
        client.awaited(id, frames) == (
            ClientView { pending: client.pending + frames, ..client },
            None::<MessageView>,
        ),
    decreases frames.len(),
{
    if frames.len() == 0 {
        assert(client.pending + frames =~= client.pending);
    } else {
        let rest = frames.drop_first();
        let (after, _) = client.arrived(id, frames[0]);
        assert forall|i: int| 0 <= i < rest.len() implies (#[trigger] rest[i]).id != id by {
            assert(rest[i] == frames[i + 1]);
        }
        law_all_is_kept_until_the_answer(after, id, rest);
        assert(after.pending + rest =~= client.pending + frames);
    }
}

/// No id is given twice, and none is that of a push: a request has a greater id than every one
/// before it, the first has 1, and what was kept is not touched.
pub proof fn law_ids_ascend(client: ClientView)
    requires
        0 < client.next_id < u64::MAX,
    ensures
        ({
            let (after, id) = client.asked();
            &&& id > 0
            &&& id < after.asked().1
            &&& after.next_id > 0
            &&& after.pending == client.pending
        }),
        (ClientView { next_id: 1, pending: Seq::empty() }).asked().1 == 1,
{
}

/// What is kept comes out in the order in which it arrived, once and unchanged: a frame that is
/// kept comes out at once where nothing else is kept, and otherwise does not change what comes out
/// first.
pub proof fn law_pushes_come_out_in_order(client: ClientView, id: u64, frame: FrameView)
    requires
        frame.id != id,
    ensures
        ({
            let kept = client.arrived(id, frame).0;
            if client.pending.len() == 0 {
                &&& client.taken() == (client, None::<FrameView>)
                &&& kept.taken() == (client, Some(frame))
            } else {
                &&& kept.taken().1 == client.taken().1
                &&& kept.taken().1 is Some
                &&& kept.taken().0 == client.taken().0.arrived(id, frame).0
            }
        }),
{
    let kept = client.arrived(id, frame).0;
    if client.pending.len() == 0 {
        assert(kept.pending.drop_first() =~= client.pending);
    } else {
        assert(kept.pending.drop_first() =~= client.pending.drop_first().push(frame));
    }
}

} // verus!
