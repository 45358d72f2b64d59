use vstd::prelude::*;
use vstd::utf8::encode_utf8;
use crate::protocol::{MyProtocol, code_of, is_named, kind_of, lemma_code_round_trip};

verus! {

/// Bytes in a frame header: the opcode, then the payload length.
pub const HEADER_LEN: usize = 9;

/// The eight big-endian bytes of `n`.
pub open spec fn be_of_u64(n: u64) -> Seq<u8> {
    seq![
        ((n >> 56u64) & 0xffu64) as u8,
        ((n >> 48u64) & 0xffu64) as u8,
        ((n >> 40u64) & 0xffu64) as u8,
        ((n >> 32u64) & 0xffu64) as u8,
        ((n >> 24u64) & 0xffu64) as u8,
        ((n >> 16u64) & 0xffu64) as u8,
        ((n >> 8u64) & 0xffu64) as u8,
        (n & 0xffu64) as u8,
    ]
}

/// The number whose big-endian bytes are the first eight of `b`.
pub open spec fn u64_of_be(b: Seq<u8>) -> u64
    recommends
        b.len() >= 8,
{
    ((b[0] as u64) << 56u64) | ((b[1] as u64) << 48u64) | ((b[2] as u64) << 40u64) | ((
    b[3] as u64) << 32u64) | ((b[4] as u64) << 24u64) | ((b[5] as u64) << 16u64) | ((
    b[6] as u64) << 8u64) | (b[7] as u64)
}

/// The header of a frame: the opcode, then the payload length in big-endian order.
pub open spec fn header_bytes(code: u8, len: u64) -> Seq<u8> {
    seq![code] + be_of_u64(len)
}

/// A whole frame carrying `payload` under `code`.
pub open spec fn frame_bytes(code: u8, payload: Seq<u8>) -> Seq<u8> {
    header_bytes(code, payload.len() as u64) + payload
}

/// The payload length that a received header declares.
pub open spec fn declared_len(bytes: Seq<u8>) -> u64
    recommends
        bytes.len() >= 9,
{
    u64_of_be(bytes.subrange(1, 9))
}

/// `bytes` begin with a whole frame: the header and all the payload it declares.
pub open spec fn holds_frame(bytes: Seq<u8>) -> bool {
    &&& bytes.len() >= 9
    &&& bytes.len() - 9 >= declared_len(bytes)
}

/// The payload of the frame that `bytes` begin with.
pub open spec fn frame_payload(bytes: Seq<u8>) -> Seq<u8> {
    bytes.subrange(9, 9 + declared_len(bytes))
}

/// Why a run of received bytes does not hold a frame.
#[derive(Debug, Clone, Copy, PartialEq, Eq, Structural)]
pub enum FrameError {
    /// Fewer than the nine header bytes arrived.
    ShortHeader,
    /// Fewer payload bytes arrived than the header declares.
    ShortPayload,
    /// The declared length does not fit in memory on this machine.
    TooLarge,
}

/// A decoded frame: the raw opcode and the payload bytes.
pub struct Frame {
    pub code: u8,
    pub payload: Vec<u8>,
}

impl Frame {
    /// The message kind of the frame's opcode.
    pub fn kind(&self) -> (r: MyProtocol)
        ensures
            r == kind_of(self.code),
    {
        MyProtocol::new(&self.code)
    }
}

proof fn lemma_be_round_trip(n: u64)
    ensures
        u64_of_be(be_of_u64(n)) == n,
{
    assert(((((n >> 56u64) & 0xffu64) as u8 as u64) << 56u64) | ((((n >> 48u64) & 0xffu64) as u8
        as u64) << 48u64) | ((((n >> 40u64) & 0xffu64) as u8 as u64) << 40u64) | ((((n >> 32u64)
        & 0xffu64) as u8 as u64) << 32u64) | ((((n >> 24u64) & 0xffu64) as u8 as u64) << 24u64) | ((
    ((n >> 16u64) & 0xffu64) as u8 as u64) << 16u64) | ((((n >> 8u64) & 0xffu64) as u8 as u64)
        << 8u64) | ((n & 0xffu64) as u8 as u64) == n) by (bit_vector);
}

/// The eight big-endian bytes of `n`.
pub fn write_u64(n: u64) -> (r: Vec<u8>)
    ensures
        r@ == be_of_u64(n),
{
    let mut v: Vec<u8> = Vec::new();
    v.push(((n >> 56u64) & 0xffu64) as u8);
    v.push(((n >> 48u64) & 0xffu64) as u8);
    v.push(((n >> 40u64) & 0xffu64) as u8);
    v.push(((n >> 32u64) & 0xffu64) as u8);
    v.push(((n >> 24u64) & 0xffu64) as u8);
    v.push(((n >> 16u64) & 0xffu64) as u8);
    v.push(((n >> 8u64) & 0xffu64) as u8);
    v.push((n & 0xffu64) as u8);
    assert(v@ =~= be_of_u64(n));
    v
}

/// The number whose big-endian bytes are the first eight of `b`.
pub fn read_u64(b: &[u8]) -> (r: u64)
    requires
        b@.len() >= 8,
    ensures
        r == u64_of_be(b@),
{
    ((b[0] as u64) << 56u64) | ((b[1] as u64) << 48u64) | ((b[2] as u64) << 40u64) | ((
    b[3] as u64) << 32u64) | ((b[4] as u64) << 24u64) | ((b[5] as u64) << 16u64) | ((
    b[6] as u64) << 8u64) | (b[7] as u64)
}

/// The nine header bytes of a frame with opcode `code` and `payload` payload bytes.
pub fn header(code: u8, payload: u64) -> (r: Vec<u8>)
    ensures
        r@ == header_bytes(code, payload),
{
    let mut buf: Vec<u8> = Vec::new();
    buf.push(code);
    let mut len = write_u64(payload);
    buf.append(&mut len);
    buf
}

/// Appends `src[start..end]` to `dst`.
fn push_range(dst: &mut Vec<u8>, src: &[u8], start: usize, end: usize)
    requires
        start <= end <= src@.len(),
    ensures
        final(dst)@ == old(dst)@ + src@.subrange(start as int, end as int),
{
    let ghost base = dst@;
    let mut i: usize = start;
    while i < end
        invariant
            start <= i <= end <= src@.len(),
            dst@ == base + src@.subrange(start as int, i as int),
        decreases end - i,
    {
        dst.push(src[i]);
        i = i + 1;
        assert(dst@ =~= base + src@.subrange(start as int, i as int));
    }
}

/// The whole frame that carries `payload` as a message of kind `kind`.
pub fn encode_frame(kind: MyProtocol, payload: &[u8]) -> (r: Vec<u8>)
    requires
        payload@.len() + HEADER_LEN <= usize::MAX,
    ensures
        r@ == frame_bytes(code_of(kind), payload@),
{
    let mut buf = header(kind.get_code(), payload.len() as u64);
    push_range(&mut buf, payload, 0, payload.len());
    assert(payload@.subrange(0, payload@.len() as int) =~= payload@);
    buf
}

/// The whole frame that carries the UTF-8 bytes of `text` as a message of
/// kind `kind`: what is sent for an encoded payload.
pub fn encode_text_frame(kind: MyProtocol, text: &str) -> (r: Vec<u8>)
    requires
        encode_utf8(text@).len() + HEADER_LEN <= usize::MAX,
    ensures
        r@ == frame_bytes(code_of(kind), encode_utf8(text@)),
{
    encode_frame(kind, text.as_bytes())
}

/// Reads a frame header: the opcode and the payload length it declares.
///
/// Fails with `ShortHeader` when fewer than nine bytes are given, and with
/// `TooLarge` when the declared length does not fit in a `usize`.
pub fn parse_header(bytes: &[u8]) -> (r: Result<(u8, usize), FrameError>)
    ensures
        bytes@.len() < 9 ==> r == Err::<(u8, usize), FrameError>(FrameError::ShortHeader),
        bytes@.len() >= 9 && declared_len(bytes@) > usize::MAX ==> r == Err::<(u8, usize), FrameError>(
            FrameError::TooLarge,
        ),
        bytes@.len() >= 9 && declared_len(bytes@) <= usize::MAX ==> r == Ok::<(u8, usize), FrameError>(
            (bytes@[0], declared_len(bytes@) as usize),
        ),
{
    if bytes.len() < HEADER_LEN {
        return Err(FrameError::ShortHeader);
    }
    let n = read_u64(&bytes[1..9]);
    if n > usize::MAX as u64 {
        Err(FrameError::TooLarge)
    } else {
        Ok((bytes[0], n as usize))
    }
}

/// Decodes the frame that `bytes` begin with; bytes after it are ignored.
///
/// A frame whose header or payload is cut short is refused, never returned
/// truncated.
pub fn decode_frame(bytes: &[u8]) -> (r: Result<Frame, FrameError>)
    ensures
        bytes@.len() < 9 ==> r is Err && r->Err_0 == FrameError::ShortHeader,
        bytes@.len() >= 9 && !holds_frame(bytes@) ==> r is Err && r->Err_0 == FrameError::ShortPayload,
        holds_frame(bytes@) <==> r is Ok,
        r is Ok ==> r->Ok_0.code == bytes@[0] && r->Ok_0.payload@ == frame_payload(bytes@),
{
    match parse_header(bytes) {
        Err(e) => {
            if e == FrameError::TooLarge {
                // More payload is declared than any slice on this machine can hold.
                assert(bytes.len() - HEADER_LEN < declared_len(bytes@));
                Err(FrameError::ShortPayload)
            } else {
                Err(e)
            }
        },
        Ok((code, len)) => {
            if bytes.len() - HEADER_LEN < len {
                Err(FrameError::ShortPayload)
            } else {
                let mut payload: Vec<u8> = Vec::new();
                push_range(&mut payload, bytes, HEADER_LEN, HEADER_LEN + len);
                Ok(Frame { code, payload })
            }
        },
    }
}

/// A frame read back from the bytes it was written as carries the same
/// opcode and the same payload.
pub proof fn lemma_frame_round_trip(code: u8, payload: Seq<u8>)
    requires
        payload.len() <= u64::MAX,
    ensures
        holds_frame(frame_bytes(code, payload)),
        frame_bytes(code, payload)[0] == code,
        frame_payload(frame_bytes(code, payload)) == payload,
{
    let f = frame_bytes(code, payload);
    lemma_be_round_trip(payload.len() as u64);
    assert(f.subrange(1, 9) =~= be_of_u64(payload.len() as u64));
    assert(f.subrange(9, 9 + payload.len() as int) =~= payload);
}

/// Any proper prefix of a frame is not a whole frame: a short read is
/// refused.
pub proof fn lemma_short_read_refused(code: u8, payload: Seq<u8>, n: int)
    requires
        payload.len() <= u64::MAX,
        0 <= n < frame_bytes(code, payload).len(),
    ensures
        !holds_frame(frame_bytes(code, payload).subrange(0, n)),
{
    let f = frame_bytes(code, payload);
    let cut = f.subrange(0, n);
    lemma_be_round_trip(payload.len() as u64);
    if n >= 9 {
        assert(cut.subrange(1, 9) =~= be_of_u64(payload.len() as u64));
    }
}

/// A message of a named kind, framed and read back, has the same kind and
/// the same payload.
pub proof fn lemma_message_round_trip(kind: MyProtocol, payload: Seq<u8>)
    requires
        is_named(kind),
        payload.len() <= u64::MAX,
    ensures
        holds_frame(frame_bytes(code_of(kind), payload)),
        kind_of(frame_bytes(code_of(kind), payload)[0]) == kind,
        frame_payload(frame_bytes(code_of(kind), payload)) == payload,
{
    lemma_frame_round_trip(code_of(kind), payload);
    lemma_code_round_trip(kind);
}

} // verus!
