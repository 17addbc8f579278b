//! Length-prefixed framing of the wire protocol.
//!
//! Each frame on the wire is `[u32 big-endian length][payload]`. The prefix makes the boundaries
//! unambiguous, so one stream can carry any number of frames.

use vstd::prelude::*;
use vstd::slice::slice_subrange;

use crate::error::{FrameError, TransportError, TransportErrorView};
use crate::text;

verus! {

/// The longest payload that is accepted (16 MiB): a corrupt or hostile peer cannot declare a
/// length that exhausts memory.
pub const MAX_FRAME: usize = 16 * 1024 * 1024;

/// The length of the length prefix.
pub const LEN_PREFIX: usize = 4;

/// The length prefix of a payload: the low 32 bits of its length, big-endian.
pub open spec fn prefix(len: nat) -> Seq<u8> {
    seq![
        (len / 16777216 % 256) as u8,
        (len / 65536 % 256) as u8,
        (len / 256 % 256) as u8,
        (len % 256) as u8,
    ]
}

/// The wire form of a payload.
pub open spec fn encoded(payload: Seq<u8>) -> Seq<u8> {
    prefix(payload.len()) + payload
}

/// The length that the first four bytes declare.
pub open spec fn declared(buf: Seq<u8>) -> nat {
    (buf[0] * 16777216 + buf[1] * 65536 + buf[2] * 256 + buf[3]) as nat
}

/// What stands at the front of a buffer.
pub ghost enum Front {
    /// Not enough bytes yet for a whole frame.
    Incomplete,
    /// A whole frame: the number of bytes it takes, and its payload.
    Whole { consumed: nat, payload: Seq<u8> },
    /// A frame whose declared length is over the limit.
    TooLong { len: nat },
}

/// What stands at the front of `buf`.
pub open spec fn front(buf: Seq<u8>) -> Front {
    if buf.len() < LEN_PREFIX {
        Front::Incomplete
    } else if declared(buf) > MAX_FRAME {
        Front::TooLong { len: declared(buf) }
    } else if buf.len() < LEN_PREFIX + declared(buf) {
        Front::Incomplete
    } else {
        Front::Whole {
            consumed: LEN_PREFIX as nat + declared(buf),
            payload: buf.subrange(LEN_PREFIX as int, LEN_PREFIX + declared(buf)),
        }
    }
}

/// What comes out of a buffer when whole frames are taken from its front for as long as there
/// is one.
pub ghost struct Drained {
    /// The payloads in order.
    pub frames: Seq<Seq<u8>>,
    /// The bytes that are left.
    pub rest: Seq<u8>,
    /// The declared length that stopped it, where one is over the limit.
    pub stopped_by: Option<nat>,
}

/// Takes whole frames from the front of `buf` for as long as there is one.
pub open spec fn drained(buf: Seq<u8>) -> Drained
    decreases buf.len(),
{
    match front(buf) {
        Front::Incomplete => Drained { frames: Seq::empty(), rest: buf, stopped_by: None },
        Front::TooLong { len } => Drained {
            frames: Seq::empty(),
            rest: buf,
            stopped_by: Some(len),
        },
        Front::Whole { consumed, payload } => {
            let after = drained(buf.skip(consumed as int));
            Drained { frames: seq![payload] + after.frames, ..after }
        },
    }
}

/// The wire form of several payloads, one behind the other.
pub open spec fn stream(payloads: Seq<Seq<u8>>) -> Seq<u8>
    decreases payloads.len(),
{
    if payloads.len() == 0 {
        Seq::empty()
    } else {
        encoded(payloads[0]) + stream(payloads.drop_first())
    }
}

/// The buffered bytes once something has been read, and whether the peer is still there.
pub open spec fn fed_with(buf: Seq<u8>, read: Option<Seq<u8>>) -> (Seq<u8>, bool) {
    match read {
        Some(chunk) => (buf + chunk, chunk.len() > 0),
        None => (buf, false),
    }
}

/// Whether every payload is within the limit.
pub open spec fn all_fit(payloads: Seq<Seq<u8>>) -> bool {
    forall|i: int| 0 <= i < payloads.len() ==> (#[trigger] payloads[i]).len() <= MAX_FRAME
}

/// A length below 2^32 is declared by its prefix, whatever follows.
pub proof fn law_prefix_declares(len: nat, more: Seq<u8>)
    requires
        len <= u32::MAX,
    ensures
        declared(prefix(len) + more) == len,
{
    let p = prefix(len);
    let buf = p + more;
    assert(buf[0] == p[0] && buf[1] == p[1] && buf[2] == p[2] && buf[3] == p[3]);
}

/// Decoding gives back what encoding wrote, and does not touch the bytes behind it.
pub proof fn law_front_of_encoded(payload: Seq<u8>, more: Seq<u8>)
    requires
        payload.len() <= MAX_FRAME,
    ensures
        front(encoded(payload) + more) == (Front::Whole {
            consumed: encoded(payload).len(),
            payload,
        }),
        (encoded(payload) + more).skip(encoded(payload).len() as int) == more,
{
    let buf = encoded(payload) + more;
    assert(buf =~= prefix(payload.len()) + (payload + more));
    law_prefix_declares(payload.len(), payload + more);
    assert(buf.subrange(LEN_PREFIX as int, LEN_PREFIX + payload.len()) =~= payload);
    assert(buf.skip(encoded(payload).len() as int) =~= more);
}

/// A frame that lacks its last bytes is not taken for a whole one, and not for an error.
pub proof fn law_partial_frame_waits(payload: Seq<u8>, n: int)
    requires
        payload.len() <= MAX_FRAME,
        0 <= n < encoded(payload).len(),
    ensures
        front(encoded(payload).take(n)) == Front::Incomplete,
{
    let part = encoded(payload).take(n);
    if n >= LEN_PREFIX {
        assert(part =~= prefix(payload.len()) + payload.take(n - LEN_PREFIX));
        law_prefix_declares(payload.len(), payload.take(n - LEN_PREFIX));
    }
}

/// A declared length over the limit is refused, whatever follows.
pub proof fn law_oversized_is_refused(len: nat, more: Seq<u8>)
    requires
        MAX_FRAME < len <= u32::MAX,
    ensures
        front(prefix(len) + more) == (Front::TooLong { len }),
{
    law_prefix_declares(len, more);
}

/// Bytes that arrive later do not change a frame that is complete already, nor a refusal.
pub proof fn law_front_is_stable(buf: Seq<u8>, more: Seq<u8>)
    requires
        front(buf) != Front::Incomplete,
    ensures
        front(buf + more) == front(buf),
{
    let all = buf + more;
    assert(all[0] == buf[0] && all[1] == buf[1] && all[2] == buf[2] && all[3] == buf[3]);
    if declared(buf) <= MAX_FRAME {
        assert(all.subrange(LEN_PREFIX as int, LEN_PREFIX + declared(buf)) =~= buf.subrange(
            LEN_PREFIX as int,
            LEN_PREFIX + declared(buf),
        ));
    }
}

/// A frame at the front comes out first, and what follows it is read as if it stood alone.
proof fn lemma_first_comes_out(payload: Seq<u8>, rest: Seq<u8>)
    requires
        payload.len() <= MAX_FRAME,
    ensures
        drained(encoded(payload) + rest) == (Drained {
            frames: seq![payload] + drained(rest).frames,
            ..drained(rest)
        }),
{
    law_front_of_encoded(payload, rest);
}

/// A stream of frames comes out as the payloads that went in, in order, and what follows the
/// stream is read from its own start.
pub proof fn law_stream_comes_back(payloads: Seq<Seq<u8>>, tail: Seq<u8>)
    requires
        all_fit(payloads),
    ensures
        drained(stream(payloads) + tail).frames == payloads + drained(tail).frames,
        drained(stream(payloads) + tail).rest == drained(tail).rest,
        drained(stream(payloads) + tail).stopped_by == drained(tail).stopped_by,
    decreases payloads.len(),
{
    if payloads.len() == 0 {
        assert(stream(payloads) + tail =~= tail);
        assert(payloads + drained(tail).frames =~= drained(tail).frames);
    } else {
        let others = payloads.drop_first();
        assert(all_fit(others)) by {
            assert forall|i: int| 0 <= i < others.len() implies (#[trigger] others[i]).len()
                <= MAX_FRAME by {
                assert(others[i] == payloads[i + 1]);
            }
        }
        law_stream_comes_back(others, tail);
        let rest = stream(others) + tail;
        lemma_first_comes_out(payloads[0], rest);
        assert(stream(payloads) + tail == encoded(payloads[0]) + rest) by {
            assert(stream(payloads) + tail =~= encoded(payloads[0]) + rest);
        }
        let later = drained(tail).frames;
        assert(seq![payloads[0]] + (others + later) == payloads + later) by {
            assert(seq![payloads[0]] + (others + later) =~= payloads + later);
        }
    }
}

/// Where a stream is cut into pieces does not matter: draining after each piece gives the frames,
/// the remainder and the refusal that draining once at the end gives.
pub proof fn law_pieces_do_not_matter(first: Seq<u8>, second: Seq<u8>)
    requires
        drained(first).stopped_by is None,
    ensures
        drained(first + second).frames == drained(first).frames + drained(
            drained(first).rest + second,
        ).frames,
        drained(first + second).rest == drained(drained(first).rest + second).rest,
        drained(first + second).stopped_by == drained(drained(first).rest + second).stopped_by,
    decreases first.len(),
{
    match front(first) {
        Front::Whole { consumed, payload } => {
            law_front_is_stable(first, second);
            let after = first.skip(consumed as int);
            law_pieces_do_not_matter(after, second);
            assert((first + second).skip(consumed as int) =~= after + second);
            let later = drained(drained(first).rest + second).frames;
            assert(seq![payload] + (drained(after).frames + later) =~= (seq![payload] + drained(
                after,
            ).frames) + later);
        },
        _ => {
            assert(drained(first).frames + drained(first + second).frames =~= drained(
                first + second,
            ).frames);
        },
    }
}

/// What is left after draining holds no whole frame.
pub proof fn law_rest_is_incomplete(buf: Seq<u8>)
    ensures
        drained(buf).stopped_by is None ==> front(drained(buf).rest) == Front::Incomplete,
        drained(buf).stopped_by matches Some(len) ==> front(drained(buf).rest) == (
        Front::TooLong { len }),
    decreases buf.len(),
{
    if let Front::Whole { consumed, payload } = front(buf) {
        law_rest_is_incomplete(buf.skip(consumed as int));
    }
}

/// Puts the length prefix before a payload.
pub fn encode_frame(payload: &[u8]) -> (wire: Vec<u8>)
    ensures
        wire@ == encoded(payload@),
{
    let len: u64 = payload.len() as u64;
    let mut wire: Vec<u8> = Vec::new();
    wire.push((len / 16777216 % 256) as u8);
    wire.push((len / 65536 % 256) as u8);
    wire.push((len / 256 % 256) as u8);
    wire.push((len % 256) as u8);
    wire.extend_from_slice(payload);
    assert(wire@ =~= encoded(payload@));
    wire
}

/// Looks for a whole frame at the front of `buf`.
///
/// `Ok(None)` while bytes are missing; `Ok(Some((consumed, payload)))` for a whole frame; `Err`
/// where the declared length is over [`MAX_FRAME`].
pub fn decode_frame(buf: &[u8]) -> (found: Result<Option<(usize, &[u8])>, FrameError>)
    ensures
        match found {
            Ok(None) => front(buf@) == Front::Incomplete,
            Ok(Some((consumed, payload))) => front(buf@) == (Front::Whole {
                consumed: consumed as nat,
                payload: payload@,
            }),
            Err(err) => front(buf@) == (Front::TooLong { len: err.len as nat }) && err.max
                == MAX_FRAME,
        },
{
    if buf.len() < LEN_PREFIX {
        return Ok(None);
    }
    let len: u64 = buf[0] as u64 * 16777216 + buf[1] as u64 * 65536 + buf[2] as u64 * 256
        + buf[3] as u64;
    assert(len == declared(buf@));
    if len > MAX_FRAME as u64 {
        return Err(FrameError { len: len as u32, max: MAX_FRAME as u32 });
    }
    let total: usize = LEN_PREFIX + len as usize;
    if buf.len() < total {
        return Ok(None);
    }
    Ok(Some((total, slice_subrange(buf, LEN_PREFIX, total))))
}

/// An incremental frame parser over a byte stream.
///
/// Feed it raw bytes with [`FrameCodec::push`], then take whole frames with
/// [`FrameCodec::try_pop`]. A part of a frame is kept until later bytes complete it.
#[derive(Debug)]
pub struct FrameCodec {
    buf: Vec<u8>,
}

impl View for FrameCodec {
    type V = Seq<u8>;

    closed spec fn view(&self) -> Seq<u8> {
        self.buf@
    }
}

impl Default for FrameCodec {
    fn default() -> (codec: Self)
        ensures
            codec@ == Seq::<u8>::empty(),
    {
        FrameCodec { buf: Vec::new() }
    }
}

impl FrameCodec {
    /// An empty codec.
    pub fn new() -> (codec: Self)
        ensures
            codec@ == Seq::<u8>::empty(),
    {
        FrameCodec { buf: Vec::new() }
    }

    /// Appends raw bytes of the stream.
    pub fn push(&mut self, chunk: &[u8]) -> (done: Result<(), FrameError>)
        ensures
            done is Ok,
            final(self)@ == old(self)@ + chunk@,
    {
        self.buf.extend_from_slice(chunk);
        assert(self.buf@ =~= old(self).buf@ + chunk@);
        Ok(())
    }

    /// Takes the payload of one whole frame, or `Ok(None)` while there is none.
    pub fn try_pop(&mut self) -> (popped: Result<Option<Vec<u8>>, FrameError>)
        ensures
            match popped {
                Ok(None) => front(old(self)@) == Front::Incomplete && final(self)@ == old(self)@,
                Ok(Some(payload)) => front(old(self)@) matches Front::Whole {
                    consumed,
                    payload: bytes,
                } && payload@ == bytes && final(self)@ == old(self)@.skip(consumed as int),
                Err(err) => front(old(self)@) == (Front::TooLong { len: err.len as nat })
                    && err.max == MAX_FRAME && final(self)@ == old(self)@,
            },
    {
        let mut owned: Vec<u8> = Vec::new();
        let consumed: usize = match decode_frame(self.buf.as_slice()) {
            Err(err) => {
                return Err(err);
            },
            Ok(None) => {
                return Ok(None);
            },
            Ok(Some((consumed, payload))) => {
                owned.extend_from_slice(payload);
                assert(owned@ =~= payload@);
                consumed
            },
        };
        let rest = self.buf.split_off(consumed);
        self.buf = rest;
        assert(self@ =~= old(self)@.skip(consumed as int));
        Ok(Some(owned))
    }

    /// Takes all frames that are whole. Where a declared length over the limit stands behind
    /// them, the frames before it are gone and the error is reported.
    pub fn drain_all(&mut self) -> (all: Result<Vec<Vec<u8>>, FrameError>)
        ensures
            final(self)@ == drained(old(self)@).rest,
            match all {
                Ok(frames) => drained(old(self)@).stopped_by is None && text::views(frames@)
                    == drained(old(self)@).frames,
                Err(err) => drained(old(self)@).stopped_by == Some(err.len as nat) && err.max
                    == MAX_FRAME,
            },
    {
        let mut frames: Vec<Vec<u8>> = Vec::new();
        let ghost whole = drained(self@);
        assert(text::views(frames@) + drained(self@).frames =~= whole.frames);
        loop
            invariant
                text::views(frames@) + drained(self@).frames == whole.frames,
                drained(self@).rest == whole.rest,
                drained(self@).stopped_by == whole.stopped_by,
                whole == drained(old(self)@),
            decreases self@.len(),
        {
            let ghost before = self@;
            let ghost had = text::views(frames@);
            match self.try_pop() {
                Err(err) => {
                    return Err(err);
                },
                Ok(None) => {
                    assert(text::views(frames@) + drained(self@).frames =~= text::views(frames@));
                    return Ok(frames);
                },
                Ok(Some(payload)) => {
                    frames.push(payload);
                    proof {
                        assert(text::views(frames@) =~= had.push(payload@));
                        assert(had.push(payload@) + drained(self@).frames =~= had + (seq![payload@]
                            + drained(self@).frames));
                    }
                },
            }
        }
    }

    /// The number of bytes that are kept and not taken yet.
    pub fn buffered(&self) -> (n: usize)
        ensures
            n == self@.len(),
    {
        self.buf.len()
    }

    /// Takes in the outcome of one read of the stream: `None`, or a chunk without bytes, is the
    /// end of the stream; any other chunk is appended.
    pub fn feed(&mut self, read: Option<&[u8]>) -> (fed: Result<(), TransportError>)
        ensures
            match read {
                Some(chunk) => if chunk@.len() == 0 {
                    final(self)@ == old(self)@ && (fed matches Err(err) && err@
                        == TransportErrorView::Closed)
                } else {
                    final(self)@ == old(self)@ + chunk@ && fed is Ok
                },
                None => final(self)@ == old(self)@ && (fed matches Err(err) && err@
                    == TransportErrorView::Closed),
            },
            (final(self)@, fed is Ok) == fed_with(old(self)@, text::opt_view(read)),
    {
        match read {
            None => Err(TransportError::Closed),
            Some(chunk) => {
                if chunk.len() == 0 {
                    return Err(TransportError::Closed);
                }
                match self.push(chunk) {
                    Ok(()) => Ok(()),
                    Err(err) => Err(TransportError::Io(err.message())),
                }
            },
        }
    }
}

/// The prefix is the length in four bytes, the highest first.
pub proof fn law_prefix_is_big_endian(len: nat)
    requires
        len <= u32::MAX,
    ensures
        prefix(len).len() == 4,
        prefix(len)[0] * 0x1000000 + prefix(len)[1] * 0x10000 + prefix(len)[2] * 0x100 + prefix(
            len,
        )[3] == len,
{
}

/// The bytes at the front decide by the number in the first four of them, the highest first. A
/// number over 16 MiB is refused, with the number; otherwise the frame is whole exactly where so
/// many bytes follow, and they are its payload.
pub proof fn law_front(buf: Seq<u8>)
    ensures
        buf.len() < 4 ==> front(buf) == Front::Incomplete,
        buf.len() >= 4 ==> ({
            let len = (buf[0] * 0x1000000 + buf[1] * 0x10000 + buf[2] * 0x100 + buf[3]) as nat;
            &&& len > 0x1000000 <==> front(buf) is TooLong
            &&& front(buf) matches Front::TooLong { len: shown } ==> shown == len
            &&& front(buf) is Whole <==> len <= 0x1000000 && buf.len() >= 4 + len
            &&& front(buf) matches Front::Whole { consumed, payload } ==> consumed == 4 + len
                && payload.len() == len && forall|i: int|
                0 <= i < len ==> #[trigger] payload[i] == buf[4 + i]
        }),
{
}

/// What is read is buffered behind what was, and frames that are read whole come out, whatever
/// the pieces. A peer is gone exactly where a read brings nothing, and the buffer is then kept.
pub proof fn law_reads_are_buffered(buf: Seq<u8>, read: Option<Seq<u8>>, payload: Seq<u8>, n: int)
    requires
        0 < n < encoded(payload).len(),
        payload.len() <= MAX_FRAME,
    ensures
        !fed_with(buf, read).1 <==> read is None || read->0.len() == 0,
        !fed_with(buf, read).1 ==> fed_with(buf, read).0 == buf,
        fed_with(buf, read).1 ==> fed_with(buf, read).0 == buf + read->0,
        ({
            let first = fed_with(Seq::empty(), Some(encoded(payload).take(n)));
            let second = fed_with(first.0, Some(encoded(payload).skip(n)));
            &&& first.1 && second.1
            &&& front(first.0) == Front::Incomplete
            &&& front(second.0) == (Front::Whole { consumed: 4 + payload.len(), payload })
        }),
{
    let wire = encoded(payload);
    if read is Some && read->0.len() == 0 {
        assert(buf + read->0 =~= buf);
    }
    law_partial_frame_waits(payload, n);
    law_front_of_encoded(payload, Seq::empty());
    assert(Seq::<u8>::empty() + wire.take(n) =~= wire.take(n));
    assert(wire.take(n) + wire.skip(n) =~= wire);
    assert(wire + Seq::<u8>::empty() =~= wire);
}

} // verus!
