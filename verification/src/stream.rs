//! The streaming envelope codec: an incremental parser that turns a body
//! arriving in arbitrary chunks into frames.
//!
//! Each frame on the wire is one flags byte, a four-byte big-endian payload
//! length, and the payload.

use vstd::prelude::*;
use crate::{Error, ErrorView};

verus! {

#[verifier::external_type_specification]
#[verifier::external_body]
pub struct ExBytesMut(bytes::BytesMut);

#[verifier::external_type_specification]
#[verifier::external_body]
pub struct ExBytes(bytes::Bytes);

/// The bytes that a `BytesMut` holds, first to last.
pub uninterp spec fn buffer_bytes(buf: bytes::BytesMut) -> Seq<u8>;

/// The bytes that a `Bytes` holds, first to last.
pub uninterp spec fn shared_bytes(data: bytes::Bytes) -> Seq<u8>;

/// `BytesMut::new`: the new buffer holds no bytes.
#[verifier::external_body]
fn buffer_new() -> (buf: bytes::BytesMut)
    ensures
        buffer_bytes(buf) == Seq::<u8>::empty(),
{
    bytes::BytesMut::new()
}

/// `BytesMut::len`: the number of bytes held.
#[verifier::external_body]
fn buffer_len(buf: &bytes::BytesMut) -> (n: usize)
    ensures
        n == buffer_bytes(*buf).len(),
{
    buf.len()
}

/// `BufMut::put` with a byte slice: the slice's bytes are added behind those
/// already held.
#[verifier::external_body]
fn buffer_put(buf: &mut bytes::BytesMut, chunk: &[u8])
    ensures
        buffer_bytes(*final(buf)) == buffer_bytes(*old(buf)) + chunk@,
{
    bytes::BufMut::put(buf, chunk)
}

/// Indexing a `BytesMut`: the byte at a position below its length.
#[verifier::external_body]
fn buffer_byte(buf: &bytes::BytesMut, at: usize) -> (b: u8)
    requires
        at < buffer_bytes(*buf).len(),
    ensures
        b == buffer_bytes(*buf)[at as int],
{
    buf[at]
}

/// `Buf::get_u32` on the buffer's bytes from `at` on: the next four bytes
/// read as a big-endian number. It panics where fewer than four are left.
#[verifier::external_body]
fn buffer_u32(buf: &bytes::BytesMut, at: usize) -> (n: u32)
    requires
        at + 4 <= buffer_bytes(*buf).len(),
    ensures
        n == big_endian_u32(buffer_bytes(*buf).subrange(at as int, at + 4)),
{
    bytes::Buf::get_u32(&mut &buf[at..])
}

/// `BytesMut::split_to`: the first `at` bytes leave the buffer and are
/// returned; the rest stays. It panics where `at` is beyond the length.
#[verifier::external_body]
fn buffer_split_to(buf: &mut bytes::BytesMut, at: usize) -> (head: bytes::BytesMut)
    requires
        at <= buffer_bytes(*old(buf)).len(),
    ensures
        buffer_bytes(head) == buffer_bytes(*old(buf)).take(at as int),
        buffer_bytes(*final(buf)) == buffer_bytes(*old(buf)).skip(at as int),
{
    buf.split_to(at)
}

/// `BytesMut::split_off`: the bytes from `at` on leave the buffer and are
/// returned; the first `at` stay. It panics where `at` is beyond the
/// capacity, which is never below the length.
#[verifier::external_body]
fn buffer_split_off(buf: &mut bytes::BytesMut, at: usize) -> (tail: bytes::BytesMut)
    requires
        at <= buffer_bytes(*old(buf)).len(),
    ensures
        buffer_bytes(tail) == buffer_bytes(*old(buf)).skip(at as int),
        buffer_bytes(*final(buf)) == buffer_bytes(*old(buf)).take(at as int),
{
    buf.split_off(at)
}

/// `BytesMut::freeze`: the same bytes, now immutable.
#[verifier::external_body]
fn buffer_freeze(buf: bytes::BytesMut) -> (data: bytes::Bytes)
    ensures
        shared_bytes(data) == buffer_bytes(buf),
{
    buf.freeze()
}

/// The flag bit that marks a compressed payload.
pub const FLAGS_COMPRESSED: u8 = 0b01;

/// The flag bit that marks the last frame of a stream.
pub const FLAGS_END: u8 = 0b10;

/// The length of a frame's header: the flags byte and the payload length.
pub const HEADER_LEN: usize = 5;

/// One envelope of a streaming body.
pub struct ConnectFrame {
    pub compressed: bool,
    pub end: bool,
    pub data: bytes::Bytes,
}

/// The mathematical content of a [`ConnectFrame`].
pub ghost struct FrameView {
    pub compressed: bool,
    pub end: bool,
    pub data: Seq<u8>,
}

impl View for ConnectFrame {
    type V = FrameView;

    open spec fn view(&self) -> FrameView {
        FrameView { compressed: self.compressed, end: self.end, data: shared_bytes(self.data) }
    }
}

/// Four bytes read as a big-endian number.
pub open spec fn big_endian_u32(b: Seq<u8>) -> int
    recommends
        b.len() == 4,
{
    b[0] as int * 0x100_0000 + b[1] as int * 0x1_0000 + b[2] as int * 0x100 + b[3] as int
}

/// The whole length that the header at the front of `buf` announces: the
/// header and the payload.
pub open spec fn announced_len(buf: Seq<u8>) -> int
    recommends
        buf.len() >= 5,
{
    5 + big_endian_u32(buf.subrange(1, 5))
}

/// A header is at the front of `buf` and announces a frame that no buffer
/// on this machine can hold.
pub open spec fn too_large(buf: Seq<u8>) -> bool {
    buf.len() >= 5 && announced_len(buf) > usize::MAX
}

/// A whole frame is at the front of `buf`.
pub open spec fn has_frame(buf: Seq<u8>) -> bool {
    buf.len() >= 5 && announced_len(buf) <= buf.len()
}

/// The compressed flag of a flags byte.
pub open spec fn flag_compressed(flags: u8) -> bool {
    flags & FLAGS_COMPRESSED != 0
}

/// The end-of-stream flag of a flags byte.
pub open spec fn flag_end(flags: u8) -> bool {
    flags & FLAGS_END != 0
}

/// The frame at the front of `buf`.
pub open spec fn first_frame(buf: Seq<u8>) -> FrameView
    recommends
        has_frame(buf),
{
    FrameView {
        compressed: flag_compressed(buf[0]),
        end: flag_end(buf[0]),
        data: buf.subrange(5, announced_len(buf)),
    }
}

/// The frames that can be taken from the front of `buf`, in order.
pub open spec fn frames_of(buf: Seq<u8>) -> Seq<FrameView>
    decreases buf.len(),
{
    if has_frame(buf) {
        seq![first_frame(buf)] + frames_of(buf.skip(announced_len(buf)))
    } else {
        Seq::empty()
    }
}

/// What is left of `buf` once every whole frame has been taken from its
/// front.
pub open spec fn rest_of(buf: Seq<u8>) -> Seq<u8>
    decreases buf.len(),
{
    if has_frame(buf) {
        rest_of(buf.skip(announced_len(buf)))
    } else {
        buf
    }
}

/// The flags byte of a frame.
pub open spec fn flags_byte(compressed: bool, end: bool) -> u8 {
    if compressed && end {
        0b11
    } else if end {
        0b10
    } else if compressed {
        0b01
    } else {
        0b00
    }
}

/// A payload length as four big-endian bytes.
pub open spec fn big_endian_bytes(n: nat) -> Seq<u8>
    recommends
        n <= u32::MAX,
{
    seq![
        (n / 0x100_0000) as u8,
        ((n / 0x1_0000) % 0x100) as u8,
        ((n / 0x100) % 0x100) as u8,
        (n % 0x100) as u8,
    ]
}

/// A frame on the wire: the flags, the length of the payload, the payload.
pub open spec fn frame_bytes(frame: FrameView) -> Seq<u8>
    recommends
        frame.data.len() <= u32::MAX,
{
    seq![flags_byte(frame.compressed, frame.end)] + big_endian_bytes(frame.data.len())
        + frame.data
}

/// What one step of the parser yields.
pub type FrameResult = Result<ConnectFrame, Error>;

/// The mathematical content of a parser result.
pub open spec fn result_view(r: FrameResult) -> Result<FrameView, ErrorView> {
    match r {
        Ok(frame) => Ok(frame@),
        Err(e) => Err(e@),
    }
}

/// The mathematical content of a list of parser results.
pub open spec fn results_view(rs: Seq<FrameResult>) -> Seq<Result<FrameView, ErrorView>> {
    rs.map_values(|r: FrameResult| result_view(r))
}

/// A list of frames as successful parser results.
pub open spec fn ok_frames(frames: Seq<FrameView>) -> Seq<Result<FrameView, ErrorView>> {
    frames.map_values(|f: FrameView| Ok::<FrameView, ErrorView>(f))
}

/// The message of the error that a frame too large for this machine gives.
pub open spec fn frame_too_large_error() -> ErrorView {
    ErrorView::BodyError("frame too large"@)
}

/// The message of the error that a stream ending inside a frame gives.
pub open spec fn partial_frame_error() -> ErrorView {
    ErrorView::BodyError("partial frame at end of stream"@)
}

/// What feeding the bytes `buf` to a parser in a good state yields: every
/// whole frame, then one error if the next header announces a frame too
/// large.
pub open spec fn parsed(buf: Seq<u8>) -> Seq<Result<FrameView, ErrorView>> {
    if too_large(rest_of(buf)) {
        ok_frames(frames_of(buf)).push(Err(frame_too_large_error()))
    } else {
        ok_frames(frames_of(buf))
    }
}

impl ConnectFrame {
    /// Writes a frame for the wire. A payload whose length four bytes
    /// cannot hold gives none.
    pub fn encode(compressed: bool, end: bool, data: &[u8]) -> (r: Option<Vec<u8>>)
        ensures
            match r {
                Some(bytes) => data@.len() <= u32::MAX && bytes@ == frame_bytes(
                    FrameView { compressed, end, data: data@ },
                ),
                None => data@.len() > u32::MAX,
            },
    {
        let len: usize = data.len();
        if len > 0xffff_ffff {
            return None;
        }
        let mut flags: u8 = 0;
        if compressed {
            flags = flags + FLAGS_COMPRESSED;
        }
        if end {
            flags = flags + FLAGS_END;
        }
        let mut bytes: Vec<u8> = Vec::new();
        bytes.push(flags);
        bytes.push((len / 0x100_0000) as u8);
        bytes.push(((len / 0x1_0000) % 0x100) as u8);
        bytes.push(((len / 0x100) % 0x100) as u8);
        bytes.push((len % 0x100) as u8);
        bytes.extend_from_slice(data);
        Some(bytes)
    }
}

/// A frame that was written is read back: bytes that start with a written
/// frame start with a whole frame, which is the frame written, and what
/// follows it is left.
pub proof fn lemma_written_frame_is_read(frame: FrameView, rest: Seq<u8>)
    requires
        frame.data.len() <= u32::MAX,
    ensures
        has_frame(frame_bytes(frame) + rest),
        first_frame(frame_bytes(frame) + rest) == frame,
        (frame_bytes(frame) + rest).skip(announced_len(frame_bytes(frame) + rest)) == rest,
        frames_of(frame_bytes(frame) + rest) == seq![frame] + frames_of(rest),
{
    let n = frame.data.len() as int;
    let all = frame_bytes(frame) + rest;
    let length = all.subrange(1, 5);
    assert(big_endian_u32(length) == n);
    assert(all.skip(5 + n) =~= rest);
    assert(0b11u8 & 0b01u8 != 0 && 0b11u8 & 0b10u8 != 0 && 0b10u8 & 0b01u8 == 0 && 0b10u8 & 0b10u8
        != 0 && 0b01u8 & 0b01u8 != 0 && 0b01u8 & 0b10u8 == 0 && 0b00u8 & 0b01u8 == 0 && 0b00u8
        & 0b10u8 == 0) by (bit_vector);
    assert(first_frame(all).data == frame.data);
}

/// The state of the incremental frame parser: the bytes that have arrived
/// and belong to no whole frame yet, and whether the stream has failed.
pub struct FrameParseState {
    buf: bytes::BytesMut,
    failed: bool,
}

impl FrameParseState {
    /// The bytes waiting for the rest of their frame.
    pub closed spec fn pending(&self) -> Seq<u8> {
        buffer_bytes(self.buf)
    }

    /// Whether the stream has failed; a failed parser ignores all input.
    pub closed spec fn has_failed(&self) -> bool {
        self.failed
    }

    /// A parser at the start of a stream.
    pub fn new() -> (state: FrameParseState)
        ensures
            state.pending() == Seq::<u8>::empty(),
            !state.has_failed(),
    {
        FrameParseState { buf: buffer_new(), failed: false }
    }

    /// Takes one whole frame from the front of the buffer, if one is there.
    ///
    /// `Ok(None)` means that more bytes are needed; the error, that the
    /// header at the front announces a frame that does not fit this machine.
    fn parse_frame(&mut self) -> (r: Result<Option<ConnectFrame>, Error>)
        ensures
            final(self).has_failed() == old(self).has_failed(),
            old(self).pending().len() <= usize::MAX,
            match r {
                Ok(Some(frame)) => {
                    &&& has_frame(old(self).pending())
                    &&& frame@ == first_frame(old(self).pending())
                    &&& final(self).pending() == old(self).pending().skip(
                        announced_len(old(self).pending()),
                    )
                },
                Ok(None) => {
                    &&& !has_frame(old(self).pending())
                    &&& !too_large(old(self).pending())
                    &&& final(self).pending() == old(self).pending()
                },
                Err(e) => {
                    &&& too_large(old(self).pending())
                    &&& e@ == frame_too_large_error()
                    &&& final(self).pending() == old(self).pending()
                },
            },
    {
        let len: usize = buffer_len(&self.buf);
        if len < HEADER_LEN {
            return Ok(None);
        }
        let data_len: u32 = buffer_u32(&self.buf, 1);
        let announced: u64 = data_len as u64 + 5;
        if announced > usize::MAX as u64 {
            return Err(Error::body("frame too large"));
        }
        let frame_len: usize = announced as usize;
        if len < frame_len {
            return Ok(None);
        }
        let ghost before = buffer_bytes(self.buf);
        let mut frame = buffer_split_to(&mut self.buf, frame_len);
        let data = buffer_freeze(buffer_split_off(&mut frame, HEADER_LEN));
        let flags: u8 = buffer_byte(&frame, 0);
        assert(before.take(frame_len as int).skip(5) =~= before.subrange(5, frame_len as int));
        Ok(Some(ConnectFrame {
            compressed: flags & FLAGS_COMPRESSED != 0,
            end: flags & FLAGS_END != 0,
            data,
        }))
    }

    /// Whether the stream has failed.
    pub fn failed(&self) -> (r: bool)
        ensures
            r == self.has_failed(),
    {
        self.failed
    }

    /// The number of bytes waiting for the rest of their frame.
    pub fn pending_len(&self) -> (n: usize)
        ensures
            n == self.pending().len(),
    {
        buffer_len(&self.buf)
    }

    /// Feeds the parser the next item of the byte stream and returns what
    /// that item completes.
    ///
    /// `Some(Ok(chunk))` is a chunk of the body, of any size: it is added to
    /// the buffer, and every frame that is now whole is returned, in order.
    /// `Some(Err(e))` is a failure of the byte source: it is handed on and
    /// the parser fails. `None` is the end of the stream: bytes still
    /// waiting then give an error. A failed parser returns nothing and
    /// changes nothing.
    pub fn feed(&mut self, item: Option<Result<&[u8], Error>>) -> (out: Vec<FrameResult>)
        ensures
            old(self).has_failed() ==> {
                &&& out@.len() == 0
                &&& final(self).has_failed()
                &&& final(self).pending() == old(self).pending()
            },
            !old(self).has_failed() ==> match item {
                None => {
                    &&& !final(self).has_failed()
                    &&& final(self).pending() == old(self).pending()
                    &&& results_view(out@) == if old(self).pending().len() == 0 {
                        Seq::<Result<FrameView, ErrorView>>::empty()
                    } else {
                        seq![Err::<FrameView, ErrorView>(partial_frame_error())]
                    }
                },
                Some(Err(e)) => {
                    &&& final(self).has_failed()
                    &&& final(self).pending() == old(self).pending()
                    &&& results_view(out@) == seq![Err::<FrameView, ErrorView>(e@)]
                },
                Some(Ok(chunk)) => {
                    &&& results_view(out@) == parsed(old(self).pending() + chunk@)
                    &&& final(self).pending() == rest_of(old(self).pending() + chunk@)
                    &&& final(self).has_failed() == too_large(
                        rest_of(old(self).pending() + chunk@),
                    )
                },
            },
    {
        let mut frames: Vec<FrameResult> = Vec::new();
        if self.failed {
            return frames;
        }
        let chunk = match item {
            Some(Ok(chunk)) => chunk,
            Some(Err(err)) => {
                self.failed = true;
                frames.push(Err(err));
                return frames;
            },
            None => {
                if buffer_len(&self.buf) != 0 {
                    frames.push(Err(Error::body("partial frame at end of stream")));
                }
                return frames;
            },
        };
        let ghost all = self.pending() + chunk@;
        buffer_put(&mut self.buf, chunk);
        loop
            invariant
                !self.failed,
                !old(self).has_failed(),
                item == Some(Ok::<&[u8], Error>(chunk)),
                all == old(self).pending() + chunk@,
                results_view(frames@) + ok_frames(frames_of(self.pending())) == ok_frames(
                    frames_of(all),
                ),
                rest_of(self.pending()) == rest_of(all),
            decreases self.pending().len(),
        {
            match self.parse_frame() {
                Ok(Some(frame)) => {
                    frames.push(Ok(frame));
                },
                Ok(None) => {
                    return frames;
                },
                Err(err) => {
                    self.failed = true;
                    frames.push(Err(err));
                    return frames;
                },
            }
        }
    }
}

/// A buffer that starts with a whole frame still does so, with the same
/// frame, when more bytes follow it.
proof fn lemma_frame_survives(a: Seq<u8>, b: Seq<u8>)
    requires
        has_frame(a),
    ensures
        has_frame(a + b),
        announced_len(a + b) == announced_len(a),
        first_frame(a + b) == first_frame(a),
        (a + b).skip(announced_len(a)) == a.skip(announced_len(a)) + b,
{
    let n = announced_len(a);
    assert((a + b).subrange(5, n) =~= a.subrange(5, n));
}

/// What is left after every whole frame was taken starts with no whole
/// frame.
pub proof fn lemma_rest_has_no_frame(buf: Seq<u8>)
    ensures
        !has_frame(rest_of(buf)),
        rest_of(rest_of(buf)) == rest_of(buf),
        frames_of(rest_of(buf)) == Seq::<FrameView>::empty(),
    decreases buf.len(),
{
    if has_frame(buf) {
        lemma_rest_has_no_frame(buf.skip(announced_len(buf)));
    }
}

/// The frames in a body do not depend on where it was cut: the frames of
/// `a` followed by `b` are those of `a`, then those that `b` completes
/// together with what `a` left over; and as much is left over in the end.
pub proof fn lemma_frames_ignore_chunking(a: Seq<u8>, b: Seq<u8>)
    ensures
        frames_of(a + b) == frames_of(a) + frames_of(rest_of(a) + b),
        rest_of(a + b) == rest_of(rest_of(a) + b),
    decreases a.len(),
{
    if has_frame(a) {
        let n = announced_len(a);
        lemma_frame_survives(a, b);
        lemma_frames_ignore_chunking(a.skip(n), b);
    }
}

/// Feeding a body in two chunks gives what feeding it in one gives: the
/// results of `a`, then, unless `a` made the parser fail, the results of
/// what `a` left over followed by `b`.
pub proof fn lemma_feed_ignores_chunking(a: Seq<u8>, b: Seq<u8>)
    requires
        (a + b).len() <= usize::MAX,
    ensures
        parsed(a + b) == if too_large(rest_of(a)) {
            parsed(a)
        } else {
            parsed(a) + parsed(rest_of(a) + b)
        },
{
    lemma_frames_ignore_chunking(a, b);
    lemma_rest_is_no_longer(a);
}

/// What is left over is no longer than the buffer was.
pub proof fn lemma_rest_is_no_longer(buf: Seq<u8>)
    ensures
        rest_of(buf).len() <= buf.len(),
    decreases buf.len(),
{
    if has_frame(buf) {
        lemma_rest_is_no_longer(buf.skip(announced_len(buf)));
    }
}

/// The bytes of a list of chunks, one after the other.
pub open spec fn joined(chunks: Seq<Seq<u8>>) -> Seq<u8>
    decreases chunks.len(),
{
    if chunks.len() == 0 {
        Seq::empty()
    } else {
        joined(chunks.drop_last()) + chunks.last()
    }
}

/// What a parser has yielded and holds after it was fed some chunks.
pub ghost struct Fed {
    pub results: Seq<Result<FrameView, ErrorView>>,
    pub pending: Seq<u8>,
    pub failed: bool,
}

/// A parser at the start of a stream, fed the chunks one by one: each chunk
/// is parsed together with what was pending, and a failed parser takes no
/// more.
pub open spec fn fed(chunks: Seq<Seq<u8>>) -> Fed
    decreases chunks.len(),
{
    if chunks.len() == 0 {
        Fed { results: Seq::empty(), pending: Seq::empty(), failed: false }
    } else {
        let before = fed(chunks.drop_last());
        if before.failed {
            before
        } else {
            let all = before.pending + chunks.last();
            Fed {
                results: before.results + parsed(all),
                pending: rest_of(all),
                failed: too_large(rest_of(all)),
            }
        }
    }
}

/// However a body is cut into chunks, feeding the chunks one by one yields
/// what feeding the whole body at once yields, and fails where that fails;
/// a parser that has not failed holds what the whole body leaves over.
pub proof fn lemma_any_chunking(chunks: Seq<Seq<u8>>)
    requires
        joined(chunks).len() <= usize::MAX,
    ensures
        fed(chunks).results == parsed(joined(chunks)),
        fed(chunks).failed == too_large(rest_of(joined(chunks))),
        !fed(chunks).failed ==> fed(chunks).pending == rest_of(joined(chunks)),
        fed(chunks).failed ==> too_large(fed(chunks).pending),
    decreases chunks.len(),
{
    if chunks.len() > 0 {
        let front = chunks.drop_last();
        let a = joined(front);
        let b = chunks.last();
        lemma_any_chunking(front);
        lemma_feed_ignores_chunking(a, b);
        lemma_frames_ignore_chunking(a, b);
        lemma_rest_is_no_longer(a);
        let before = fed(front);
        if before.failed {
            let left = rest_of(a);
            assert((left + b).subrange(1, 5) =~= left.subrange(1, 5));
            assert(!has_frame(left + b));
            assert(rest_of(a + b) == left + b);
        } else {
            assert(parsed(a) + parsed(rest_of(a) + b) == parsed(a + b));
        }
    }
}

} // verus!
