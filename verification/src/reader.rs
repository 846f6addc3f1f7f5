//! Streaming decoder over a blocking byte source.
//!
//! [`Utf8Reader`] keeps at most [`CAPACITY`] undecoded bytes. One step tops
//! the buffer up from the source and then decodes the scalar value at its
//! front. The parts of a step are also offered on their own, for a caller
//! that does its own reading: [`Utf8Reader::feed`] takes bytes in,
//! [`Utf8Reader::request`] makes the chunk for a read,
//! [`Utf8Reader::after_read`] takes the outcome of the read in and decides
//! whether to read again, and [`Utf8Reader::decode_buffered`] decodes what is
//! buffered without touching the source.
//!
//! What a step yields depends on the source only through the bytes that
//! arrive. [`lemma_window_suffices`] shows that the small buffer loses
//! nothing: a step sees of the stream all that decoding its front needs.

use std::collections::VecDeque;
use std::io::Read;
use vstd::math::min;
use vstd::prelude::*;
use vstd::utf8::encode_scalar;

use crate::errors::Error;
use crate::utf::{
    decode, lemma_decode_bounds, lemma_decode_ignores_tail, lemma_decode_inverts_encode, read_utf,
};

verus! {

/// The most bytes ever buffered: the longest UTF-8 sequence.
pub const CAPACITY: usize = 4;

/// What one read from the byte source brought.
#[derive(Debug)]
pub enum ReadOutcome {
    /// The source reported this many bytes as written to the front of the
    /// chunk handed over. No bytes at all means that it has nothing more for
    /// now.
    Read(usize),
    /// The source reported that the input has ended.
    Ended,
    /// The source failed for another reason.
    Failed(std::io::Error),
}

/// `std::io::Read::read` on `buf`. The call cannot change the length of
/// `buf`, and that is all that is claimed. An error of kind `UnexpectedEof`
/// is told apart from the other errors. Which outcome occurs, which bytes
/// arrive and which count comes back depend on the source; the count is
/// taken as it comes, also where a source reports more than it was given
/// room for.
#[verifier::external_body]
fn read_some<R: Read>(reader: &mut R, buf: &mut Vec<u8>) -> (r: ReadOutcome)
    ensures
        final(buf)@.len() == old(buf)@.len(),
{
    match reader.read(buf.as_mut_slice()) {
        Ok(n) => ReadOutcome::Read(n),
        Err(e) if e.kind() == std::io::ErrorKind::UnexpectedEof => ReadOutcome::Ended,
        Err(e) => ReadOutcome::Failed(e),
    }
}

/// What the filling does after a read.
#[derive(Debug)]
pub enum Filling {
    /// Bytes arrived and the buffer still has room for this many: read again.
    More(usize),
    /// The buffer is full, or the read brought nothing: stop.
    Done,
}

/// The buffer `before` after `bytes` are taken in: the bytes are appended
/// from their front as far as the room up to [`CAPACITY`] goes.
pub open spec fn fed(before: Seq<u8>, bytes: Seq<u8>) -> Seq<u8> {
    before + bytes.take(min(bytes.len() as int, CAPACITY - before.len()))
}

/// Bytes taken in piece by piece fill the buffer as the same bytes do when
/// taken in at once. So it makes no difference to the buffer in how many
/// reads a source hands its bytes over.
pub proof fn lemma_pieces_feed_alike(before: Seq<u8>, first: Seq<u8>, second: Seq<u8>)
    requires
        before.len() <= CAPACITY,
    ensures
        fed(fed(before, first), second) == fed(before, first + second),
{
}

/// What decoding the front of the buffer `before` yields and leaves behind.
///
/// An empty buffer yields nothing. A scalar value is yielded with its bytes
/// removed from the front. A fault is yielded as its error, and the buffer
/// stays as it was.
pub open spec fn front_step(
    before: Seq<u8>,
    out: Option<Result<char, Error>>,
    after: Seq<u8>,
) -> bool {
    if before.len() == 0 {
        out is None && after == before
    } else {
        match decode(before) {
            Ok((c, extra)) => out == Some(Ok::<char, Error>(c)) && after == before.skip(
                extra as int + 1,
            ),
            Err(fault) => out matches Some(Err(error)) && fault.reported_as(error) && after
                == before,
        }
    }
}

/// What one full step does to a buffer `before`, where `filled` is the buffer
/// after topping up. Either the source failed while `before` still had room,
/// the error is handed on and the bytes that arrived first are kept; or the
/// front of `filled` is decoded.
pub open spec fn next_step(
    before: Seq<u8>,
    filled: Seq<u8>,
    out: Option<Result<char, Error>>,
    after: Seq<u8>,
) -> bool {
    &&& before.is_prefix_of(filled)
    &&& filled.len() <= CAPACITY
    &&& {
        ||| (out matches Some(Err(error)) && error is IoError && before.len() < CAPACITY && after
            == filled)
        ||| front_step(filled, out, after)
    }
}

/// The part of `stream` that a full buffer shows: its first [`CAPACITY`]
/// bytes, or all of it where it is shorter.
pub open spec fn window_of(stream: Seq<u8>) -> Seq<u8> {
    if stream.len() <= CAPACITY {
        stream
    } else {
        stream.take(CAPACITY as int)
    }
}

/// A window of [`CAPACITY`] bytes shows all that a step needs of a stream:
/// decoding the front of the window yields what decoding the front of the
/// whole stream yields, and leaves what that would leave.
pub proof fn lemma_window_suffices(
    stream: Seq<u8>,
    out: Option<Result<char, Error>>,
    after: Seq<u8>,
)
    requires
        front_step(window_of(stream), out, after),
    ensures
        front_step(stream, out, after + stream.skip(window_of(stream).len() as int)),
{
    let window = window_of(stream);
    let tail = stream.skip(window.len() as int);
    assert(window + tail == stream);
    if stream.len() > CAPACITY {
        // A full window is never too short, so the tail cannot matter.
        lemma_decode_bounds(window);
        lemma_decode_ignores_tail(window, tail);
        if let Ok((c, extra)) = decode(window) {
            assert(window.skip(extra as int + 1) + tail == stream.skip(extra as int + 1));
        }
    }
}

/// A step on a stream that begins with the standard encoding of `c` yields
/// `c` and leaves what follows the encoding, whatever that is.
pub proof fn lemma_step_yields_encoded(
    c: char,
    rest: Seq<u8>,
    out: Option<Result<char, Error>>,
    after: Seq<u8>,
)
    requires
        front_step(window_of(encode_scalar(c as u32) + rest), out, after),
    ensures
        out == Some(Ok::<char, Error>(c)),
        after + (encode_scalar(c as u32) + rest).skip(
            window_of(encode_scalar(c as u32) + rest).len() as int,
        ) == rest,
{
    let encoded = encode_scalar(c as u32);
    let stream = encoded + rest;
    lemma_decode_inverts_encode(c, rest);
    lemma_window_suffices(stream, out, after);
}

/// The undecoded bytes: a first-in, first-out queue that never holds more
/// than [`CAPACITY`] of them.
struct Window {
    bytes: VecDeque<u8>,
}

impl Window {
    #[verifier::type_invariant]
    spec fn bounded(&self) -> bool {
        self.bytes@.len() <= CAPACITY
    }

    /// The queued bytes, oldest first.
    closed spec fn view(&self) -> Seq<u8> {
        self.bytes@
    }

    fn new() -> (w: Self)
        ensures
            w@ == Seq::<u8>::empty(),
    {
        Window { bytes: VecDeque::with_capacity(CAPACITY) }
    }

    fn len(&self) -> (n: usize)
        ensures
            n == self@.len(),
            n <= CAPACITY,
    {
        proof {
            use_type_invariant(self);
        }
        self.bytes.len()
    }

    fn get(&self, i: usize) -> (byte: u8)
        requires
            i < self@.len(),
        ensures
            byte == self@[i as int],
    {
        self.bytes[i]
    }

    // The queue is taken out of the field while it changes, and put back
    // whole: the bound is judged where the field is assigned.
    fn push(&mut self, byte: u8)
        requires
            old(self)@.len() < CAPACITY,
        ensures
            final(self)@ == old(self)@.push(byte),
    {
        let mut bytes: VecDeque<u8> = VecDeque::new();
        std::mem::swap(&mut self.bytes, &mut bytes);
        bytes.push_back(byte);
        self.bytes = bytes;
    }

    fn pop(&mut self)
        requires
            old(self)@.len() > 0,
        ensures
            final(self)@ == old(self)@.drop_first(),
    {
        proof {
            use_type_invariant(&*self);
        }
        let mut bytes: VecDeque<u8> = VecDeque::new();
        std::mem::swap(&mut self.bytes, &mut bytes);
        bytes.pop_front();
        self.bytes = bytes;
    }
}

/// A decoder that pulls bytes from `R` as it needs them.
pub struct Utf8Reader<R> {
    reader: Box<R>,
    buffer: Window,
}

impl<R> Utf8Reader<R> {
    /// The bytes taken in and not yet decoded, oldest first.
    pub closed spec fn buffered(&self) -> Seq<u8> {
        self.buffer@
    }

    /// The byte source in its present state.
    pub closed spec fn source(&self) -> R {
        *self.reader
    }

    /// Appends bytes from the front of `bytes` until the buffer is full or
    /// `bytes` is used up, and returns how many were taken.
    pub fn feed(&mut self, bytes: &[u8]) -> (taken: usize)
        ensures
            old(self).buffered().len() <= CAPACITY,
            taken == min(bytes@.len() as int, CAPACITY - old(self).buffered().len()),
            final(self).buffered() == fed(old(self).buffered(), bytes@),
            final(self).source() == old(self).source(),
    {
        proof {
            use_type_invariant(&self.buffer);
        }
        let mut taken: usize = 0;
        while taken < bytes.len() && self.buffer.len() < CAPACITY
            invariant
                taken <= bytes@.len(),
                self.buffer@.len() <= CAPACITY,
                self.buffer@ == old(self).buffer@ + bytes@.take(taken as int),
                self.reader == old(self).reader,
            decreases bytes@.len() - taken,
        {
            self.buffer.push(bytes[taken]);
            taken = taken + 1;
        }
        taken
    }

    /// The chunk to hand to the next read: as many zero bytes as the buffer
    /// has room for, so that whatever a read brings fits. With a full buffer
    /// the chunk is empty, and no read is due.
    pub fn request(&self) -> (chunk: Vec<u8>)
        ensures
            self.buffered().len() <= CAPACITY,
            chunk@.len() == CAPACITY - self.buffered().len(),
            forall|i: int| 0 <= i < chunk@.len() ==> chunk@[i] == 0u8,
    {
        let room: usize = CAPACITY - self.buffer.len();
        vec![0u8; room]
    }

    /// Takes in the outcome of one read into `chunk`, and decides how the
    /// filling goes on.
    ///
    /// Bytes that were read are appended as far as the buffer has room; a
    /// count beyond the chunk's length stands for the whole chunk. The
    /// filling goes on where bytes were added and room is left, and stops
    /// where the buffer is full or nothing was added. The end of the input
    /// stops it too. A failure is handed on as `IoError`. In the last two
    /// cases the buffer stays as it was.
    pub fn after_read(&mut self, chunk: &[u8], outcome: ReadOutcome) -> (r: Result<
        Filling,
        Error,
    >)
        ensures
            old(self).buffered().len() <= CAPACITY,
            final(self).source() == old(self).source(),
            match outcome {
                ReadOutcome::Read(n) => {
                    let got = min(n as int, chunk@.len() as int);
                    let taken = min(got, CAPACITY - old(self).buffered().len());
                    &&& final(self).buffered() == fed(old(self).buffered(), chunk@.take(got))
                    &&& final(self).buffered() == old(self).buffered() + chunk@.take(taken)
                    &&& r == Ok::<Filling, Error>(
                        if taken == 0 || final(self).buffered().len() == CAPACITY {
                            Filling::Done
                        } else {
                            Filling::More((CAPACITY - final(self).buffered().len()) as usize)
                        },
                    )
                },
                ReadOutcome::Ended => {
                    &&& r == Ok::<Filling, Error>(Filling::Done)
                    &&& final(self).buffered() == old(self).buffered()
                },
                ReadOutcome::Failed(e) => {
                    &&& r == Err::<Filling, Error>(Error::IoError(e))
                    &&& final(self).buffered() == old(self).buffered()
                },
            },
    {
        match outcome {
            ReadOutcome::Read(n) => {
                let got: usize = if n < chunk.len() {
                    n
                } else {
                    chunk.len()
                };
                let taken = self.feed(&chunk[0..got]);
                let room: usize = CAPACITY - self.buffer.len();
                if taken == 0 || room == 0 {
                    Ok(Filling::Done)
                } else {
                    Ok(Filling::More(room))
                }
            },
            ReadOutcome::Ended => {
                proof {
                    use_type_invariant(&self.buffer);
                }
                Ok(Filling::Done)
            },
            ReadOutcome::Failed(e) => {
                proof {
                    use_type_invariant(&self.buffer);
                }
                Err(Error::from(e))
            },
        }
    }

    /// Decodes the scalar value at the front of the buffer and removes its
    /// bytes. The source is not read.
    pub fn decode_buffered(&mut self) -> (r: Option<Result<char, Error>>)
        ensures
            old(self).buffered().len() <= CAPACITY,
            front_step(old(self).buffered(), r, final(self).buffered()),
            final(self).source() == old(self).source(),
    {
        let len = self.buffer.len();
        if len == 0 {
            return None;
        }
        let mut front: Vec<u8> = Vec::with_capacity(CAPACITY);
        let mut i: usize = 0;
        while i < len
            invariant
                i <= len,
                len == self.buffer@.len(),
                front@ == self.buffer@.take(i as int),
            decreases len - i,
        {
            front.push(self.buffer.get(i));
            i = i + 1;
        }
        assert(front@ == self.buffer@);
        match read_utf(front.as_slice()) {
            Err(error) => Some(Err(error)),
            Ok((c, extra)) => {
                let mut gone: usize = 0;
                while gone <= extra
                    invariant
                        gone <= extra + 1,
                        extra < old(self).buffer@.len() <= CAPACITY,
                        self.buffer@ == old(self).buffer@.skip(gone as int),
                        self.reader == old(self).reader,
                    decreases extra + 1 - gone,
                {
                    self.buffer.pop();
                    gone = gone + 1;
                }
                Some(Ok(c))
            },
        }
    }
}

impl<R: Read> Utf8Reader<R> {
    /// A decoder over `reader` that has read nothing yet.
    pub fn new(reader: Box<R>) -> (r: Self)
        ensures
            r.buffered() == Seq::<u8>::empty(),
            r.source() == *reader,
    {
        Utf8Reader { reader, buffer: Window::new() }
    }

    /// Reads from the source until the buffer is full, the source reports the
    /// end of its input, or a read brings no byte. The filling only drives
    /// its two steps: each read is handed the chunk that
    /// [`Utf8Reader::request`] makes, and what follows the read is what
    /// [`Utf8Reader::after_read`] decides. A failure of the source ends the
    /// filling at once; the bytes that arrived before it stay buffered.
    pub fn fill(&mut self) -> (r: Result<(), Error>)
        ensures
            old(self).buffered().is_prefix_of(final(self).buffered()),
            final(self).buffered().len() <= CAPACITY,
            old(self).buffered().len() == CAPACITY ==> r is Ok && final(self).buffered() == old(
                self,
            ).buffered() && final(self).source() == old(self).source(),
            r matches Err(error) ==> error is IoError,
    {
        let mut room: usize = CAPACITY - self.buffer.len();
        while room > 0
            invariant
                room == CAPACITY - self.buffered().len(),
                old(self).buffered().is_prefix_of(self.buffered()),
                old(self).buffered().len() == CAPACITY ==> self.buffered() == old(self).buffered()
                    && self.source() == old(self).source(),
            decreases room,
        {
            let mut chunk = self.request();
            let outcome = read_some(&mut *self.reader, &mut chunk);
            match self.after_read(chunk.as_slice(), outcome) {
                Ok(Filling::More(left)) => {
                    room = left;
                },
                Ok(Filling::Done) => {
                    return Ok(());
                },
                Err(error) => {
                    return Err(error);
                },
            }
        }
        Ok(())
    }

    /// One step of the stream: tops the buffer up, then decodes its front.
    ///
    /// `None` says that the input is used up. A decoding error leaves the
    /// buffer as it was, so the next step meets the same bytes again. Which
    /// bytes the topping up brings is the source's matter; with a full buffer
    /// nothing is read, and the step is the decoding of the buffer's front.
    pub fn next(&mut self) -> (r: Option<Result<char, Error>>)
        ensures
            exists|filled: Seq<u8>| #[trigger]
                next_step(old(self).buffered(), filled, r, final(self).buffered()),
            old(self).buffered().len() == CAPACITY ==> final(self).source() == old(self).source()
                && front_step(old(self).buffered(), r, final(self).buffered()),
    {
        match self.fill() {
            Err(error) => {
                assert(next_step(
                    old(self).buffered(),
                    self.buffered(),
                    Some(Err(error)),
                    self.buffered(),
                ));
                Some(Err(error))
            },
            Ok(()) => {
                let ghost filled = self.buffered();
                let r = self.decode_buffered();
                assert(next_step(old(self).buffered(), filled, r, self.buffered()));
                r
            },
        }
    }
}

} // verus!
