//! The Discord-RPC wire framing: `[i32 LE op][i32 LE len][json body]`.

use vstd::prelude::*;

verus! {

pub const OP_HANDSHAKE: i32 = 0;
pub const OP_FRAME: i32 = 1;
pub const OP_CLOSE: i32 = 2;
pub const OP_PING: i32 = 3;
pub const OP_PONG: i32 = 4;

/// A body larger than this is a malformed or hostile client: the largest
/// real SET_ACTIVITY is a few hundred bytes. 1 MiB.
pub const MAX_FRAME: usize = 1048576;

/// The four little-endian bytes of a 32-bit word.
pub open spec fn le_bytes(x: u32) -> Seq<u8> {
    seq![(x % 256) as u8, ((x / 256) % 256) as u8, ((x / 65536) % 256) as u8, (x / 16777216) as u8]
}

/// The 32-bit word four little-endian bytes spell.
pub open spec fn le_word(b0: u8, b1: u8, b2: u8, b3: u8) -> u32 {
    (b0 + 256 * b1 + 65536 * b2 + 16777216 * b3) as u32
}

/// The bytes of one frame: op, body length (as a 32-bit word), body.
pub open spec fn frame_bytes(op: i32, body: Seq<u8>) -> Seq<u8> {
    le_bytes(op as u32) + le_bytes(body.len() as u32) + body
}

fn word_bytes(x: u32) -> (r: [u8; 4])
    ensures
        r@ == le_bytes(x),
{
    assert((x & 0xff) as u8 == x % 256) by (bit_vector);
    assert(((x >> 8) & 0xff) as u8 == (x / 256) % 256) by (bit_vector);
    assert(((x >> 16) & 0xff) as u8 == (x / 65536) % 256) by (bit_vector);
    assert((x >> 24) as u8 == x / 16777216) by (bit_vector);
    let r = [(x & 0xff) as u8, ((x >> 8) & 0xff) as u8, ((x >> 16) & 0xff) as u8, (x >> 24) as u8];
    assert(r@ =~= le_bytes(x));
    r
}

/// Encodes one frame. A body longer than `i32::MAX` bytes would have its
/// length field wrap, exactly as a 32-bit cast does.
pub fn encode_frame(op: i32, body: &[u8]) -> (r: Vec<u8>)
    ensures
        r@ == frame_bytes(op, body@),
{
    let mut out: Vec<u8> = Vec::new();
    let op_bytes = word_bytes(op as u32);
    #[verifier::truncate]
    let len_word = body.len() as u32;
    let len_bytes = word_bytes(len_word);
    out.extend_from_slice(&op_bytes);
    out.extend_from_slice(&len_bytes);
    out.extend_from_slice(body);
    assert(out@ =~= frame_bytes(op, body@));
    out
}

/// What the buffered bytes hold at the front.
#[derive(Clone, Copy, Debug, PartialEq, Eq)]
pub enum FrameParse {
    /// Not a whole frame yet: read more.
    Incomplete,
    /// An op outside HANDSHAKE..=PONG or a negative length.
    Invalid { op: i32, len: i32 },
    /// A length over `MAX_FRAME`.
    TooLarge { size: usize },
    /// A whole frame: its op and body length; the body follows the 8-byte
    /// header.
    Complete { op: i32, body_len: usize },
}

/// How the front of a receive buffer parses.
pub open spec fn parse_spec(buf: Seq<u8>) -> FrameParse {
    if buf.len() < 8 {
        FrameParse::Incomplete
    } else {
        let op = le_word(buf[0], buf[1], buf[2], buf[3]);
        let len = le_word(buf[4], buf[5], buf[6], buf[7]);
        if op > 4 || len >= 0x8000_0000 {
            FrameParse::Invalid { op: op as i32, len: len as i32 }
        } else if len > MAX_FRAME {
            FrameParse::TooLarge { size: len as usize }
        } else if 8 + len > buf.len() {
            FrameParse::Incomplete
        } else {
            FrameParse::Complete { op: op as i32, body_len: len as usize }
        }
    }
}

fn read_word(b0: u8, b1: u8, b2: u8, b3: u8) -> (r: u32)
    ensures
        r == le_word(b0, b1, b2, b3),
{
    let r = (b0 as u32) | ((b1 as u32) << 8) | ((b2 as u32) << 16) | ((b3 as u32) << 24);
    assert(r == le_word(b0, b1, b2, b3)) by (bit_vector)
        requires r == (b0 as u32) | ((b1 as u32) << 8) | ((b2 as u32) << 16) | ((b3 as u32) << 24);
    r
}

/// Parses the frame at the front of a receive buffer.
pub fn parse_frame(buf: &[u8]) -> (r: FrameParse)
    ensures
        r == parse_spec(buf@),
{
    if buf.len() < 8 {
        return FrameParse::Incomplete;
    }
    let op = read_word(buf[0], buf[1], buf[2], buf[3]);
    let len = read_word(buf[4], buf[5], buf[6], buf[7]);
    if op > 4 || len >= 0x8000_0000 {
        #[verifier::truncate]
        let op_signed = op as i32;
        #[verifier::truncate]
        let len_signed = len as i32;
        return FrameParse::Invalid { op: op_signed, len: len_signed };
    }
    let len = len as usize;
    if len > MAX_FRAME {
        return FrameParse::TooLarge { size: len };
    }
    if 8 + len > buf.len() {
        return FrameParse::Incomplete;
    }
    FrameParse::Complete { op: op as i32, body_len: len }
}

proof fn lemma_le_round_trip(x: u32)
    ensures
        le_word(le_bytes(x)[0], le_bytes(x)[1], le_bytes(x)[2], le_bytes(x)[3]) == x,
{
    let b0 = (x % 256) as u8;
    let b1 = ((x / 256) % 256) as u8;
    let b2 = ((x / 65536) % 256) as u8;
    let b3 = (x / 16777216) as u8;
    assert(b0 + 256 * b1 + 65536 * b2 + 16777216 * b3 == x) by (nonlinear_arith)
        requires
            b0 == x % 256,
            b1 == (x / 256) % 256,
            b2 == (x / 65536) % 256,
            b3 == x / 16777216,
            x < 0x1_0000_0000,
    ;
}

/// Whatever a well-formed frame carries is read back whole: the op, and a
/// body of the same length at offset 8, no matter what follows it.
pub proof fn lemma_frame_round_trip(op: i32, body: Seq<u8>, rest: Seq<u8>)
    requires
        OP_HANDSHAKE <= op <= OP_PONG,
        body.len() <= MAX_FRAME,
    ensures
        parse_spec(frame_bytes(op, body) + rest) == (FrameParse::Complete { op, body_len: body.len() as usize }),
        (frame_bytes(op, body) + rest).subrange(8, 8 + body.len() as int) == body,
{
    let buf = frame_bytes(op, body) + rest;
    let ow = op as u32;
    let lw = body.len() as u32;
    lemma_le_round_trip(ow);
    lemma_le_round_trip(lw);
    assert(buf[0] == le_bytes(ow)[0] && buf[1] == le_bytes(ow)[1] && buf[2] == le_bytes(ow)[2] && buf[3] == le_bytes(ow)[3]);
    assert(buf[4] == le_bytes(lw)[0] && buf[5] == le_bytes(lw)[1] && buf[6] == le_bytes(lw)[2] && buf[7] == le_bytes(lw)[3]);
    assert(ow <= 4);
    assert((ow as i32) == op);
    assert(lw == body.len());
    assert(buf.subrange(8, 8 + body.len() as int) =~= body);
}

} // verus!
