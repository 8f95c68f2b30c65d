//! WebSocket frames and their wire format.

use vstd::prelude::*;

use bytes::BytesMut;

use crate::buf::buf_as_slice;
use crate::buf::buf_from_slice;
use crate::buf::buf_len;
use crate::buf::buf_put_slice;
use crate::buf::buf_put_u16;
use crate::buf::buf_put_u64;
use crate::buf::buf_put_u8;
use crate::buf::buf_remaining_mut;
use crate::buf::buf_reserve;
use crate::buf::buf_view;
use crate::buf::buf_with_capacity;

verus! {

/// The opcode of a WebSocket frame.
#[derive(Debug, Copy, Clone, PartialEq, Eq, Structural)]
pub enum OpCode {
    Continuation,
    Text,
    Binary,
    Close,
    Ping,
    Pong,
}

/// The wire value of an opcode, the low nibble of a frame's first byte.
pub open spec fn opcode_value(opcode: OpCode) -> u8 {
    match opcode {
        OpCode::Continuation => 0x0,
        OpCode::Text => 0x1,
        OpCode::Binary => 0x2,
        OpCode::Close => 0x8,
        OpCode::Ping => 0x9,
        OpCode::Pong => 0xA,
    }
}

/// The opcode a wire nibble stands for, if any.
pub open spec fn opcode_of_value(value: u8) -> Option<OpCode> {
    if value == 0x0 {
        Some(OpCode::Continuation)
    } else if value == 0x1 {
        Some(OpCode::Text)
    } else if value == 0x2 {
        Some(OpCode::Binary)
    } else if value == 0x8 {
        Some(OpCode::Close)
    } else if value == 0x9 {
        Some(OpCode::Ping)
    } else if value == 0xA {
        Some(OpCode::Pong)
    } else {
        None
    }
}

/// Close, Ping and Pong are the control opcodes.
pub open spec fn spec_is_control(opcode: OpCode) -> bool {
    match opcode {
        OpCode::Close | OpCode::Ping | OpCode::Pong => true,
        _ => false,
    }
}

/// Reports whether `opcode` is a control opcode (Close, Ping or Pong).
#[verifier::when_used_as_spec(spec_is_control)]
pub fn is_control(opcode: OpCode) -> (r: bool)
    ensures
        r == spec_is_control(opcode),
{
    matches!(opcode, OpCode::Close | OpCode::Ping | OpCode::Pong)
}

/// The wire value of an opcode, as executable code.
#[verifier::when_used_as_spec(opcode_value)]
pub fn opcode_to_value(opcode: OpCode) -> (v: u8)
    ensures
        v == opcode_value(opcode),
{
    match opcode {
        OpCode::Continuation => 0x0,
        OpCode::Text => 0x1,
        OpCode::Binary => 0x2,
        OpCode::Close => 0x8,
        OpCode::Ping => 0x9,
        OpCode::Pong => 0xA,
    }
}

/// The opcode a wire nibble stands for, as executable code.
#[verifier::when_used_as_spec(opcode_of_value)]
pub fn value_to_opcode(value: u8) -> (r: Option<OpCode>)
    ensures
        r == opcode_of_value(value),
{
    if value == 0x0 {
        Some(OpCode::Continuation)
    } else if value == 0x1 {
        Some(OpCode::Text)
    } else if value == 0x2 {
        Some(OpCode::Binary)
    } else if value == 0x8 {
        Some(OpCode::Close)
    } else if value == 0x9 {
        Some(OpCode::Ping)
    } else if value == 0xA {
        Some(OpCode::Pong)
    } else {
        None
    }
}

/// 256 to the power `k`: the number of values `k` bytes can carry.
pub open spec fn pow256(k: nat) -> nat
    decreases k,
{
    if k == 0 {
        1
    } else {
        256 * pow256((k - 1) as nat)
    }
}

/// The `k` big-endian base-256 digits of `n`.
pub open spec fn be_bytes(n: nat, k: nat) -> Seq<u8>
    decreases k,
{
    if k == 0 {
        Seq::empty()
    } else {
        be_bytes(n / 256, (k - 1) as nat).push((n % 256) as u8)
    }
}

/// The value a big-endian byte string stands for.
pub open spec fn be_val(b: Seq<u8>) -> nat
    decreases b.len(),
{
    if b.len() == 0 {
        0
    } else {
        (be_val(b.drop_last()) * 256 + b.last()) as nat
    }
}

pub proof fn lemma_pow256_values()
    ensures
        pow256(2) == 0x1_0000,
        pow256(8) == 0x1_0000_0000_0000_0000,
{
    assert(pow256(0) == 1);
    assert(pow256(1) == 256);
    assert(pow256(2) == 0x1_0000);
    assert(pow256(3) == 0x100_0000);
    assert(pow256(4) == 0x1_0000_0000);
    assert(pow256(5) == 0x100_0000_0000);
    assert(pow256(6) == 0x1_0000_0000_0000);
    assert(pow256(7) == 0x100_0000_0000_0000);
    assert(pow256(8) == 0x1_0000_0000_0000_0000);
}

pub proof fn lemma_pow256_le(a: nat, b: nat)
    requires
        a <= b,
    ensures
        pow256(a) <= pow256(b),
    decreases b,
{
    if a < b {
        lemma_pow256_le(a, (b - 1) as nat);
        assert(pow256(b) == 256 * pow256((b - 1) as nat));
        assert(pow256((b - 1) as nat) >= 1) by {
            lemma_pow256_le(0, (b - 1) as nat);
        }
    }
}

pub proof fn lemma_be_bytes_len(n: nat, k: nat)
    ensures
        be_bytes(n, k).len() == k,
    decreases k,
{
    if k > 0 {
        lemma_be_bytes_len(n / 256, (k - 1) as nat);
    }
}

pub proof fn lemma_be_val_push(b: Seq<u8>, x: u8)
    ensures
        be_val(b.push(x)) == be_val(b) * 256 + x,
{
    assert(b.push(x).drop_last() =~= b);
}

/// Big-endian digits read back as the value they were made from.
pub proof fn lemma_be_bytes_val(n: nat, k: nat)
    requires
        n < pow256(k),
    ensures
        be_bytes(n, k).len() == k,
        be_val(be_bytes(n, k)) == n,
    decreases k,
{
    if k > 0 {
        assert(n / 256 < pow256((k - 1) as nat)) by {
            vstd::arithmetic::div_mod::lemma_div_multiples_vanish_quotient(
                256,
                n as int,
                pow256((k - 1) as nat) as int,
            );
        }
        lemma_be_bytes_val(n / 256, (k - 1) as nat);
        lemma_be_val_push(be_bytes(n / 256, (k - 1) as nat), (n % 256) as u8);
        vstd::arithmetic::div_mod::lemma_fundamental_div_mod(n as int, 256);
    }
}

/// The first byte of a frame: the fin bit over the opcode nibble.
pub open spec fn header_byte(fin: bool, opcode: OpCode) -> u8 {
    if fin {
        (opcode_value(opcode) + 128) as u8
    } else {
        opcode_value(opcode)
    }
}

/// The wire form of a payload length: one byte below 126, else a marker
/// byte (126 or 127) followed by the length in 2 or 8 big-endian bytes.
pub open spec fn len_bytes(n: nat) -> Seq<u8> {
    if n < 126 {
        seq![n as u8]
    } else if n < 65536 {
        seq![126u8] + be_bytes(n, 2)
    } else {
        seq![127u8] + be_bytes(n, 8)
    }
}

/// The complete wire form of a frame: header byte, length, then the
/// payload verbatim (this codec applies no masking).
pub open spec fn frame_bytes(fin: bool, opcode: OpCode, payload: Seq<u8>) -> Seq<u8> {
    seq![header_byte(fin, opcode)] + len_bytes(payload.len()) + payload
}

/// What a decode attempt against an accumulated byte span yields: a complete
/// frame, a request for more bytes, or a span outside this codec's format
/// (reserved bits set, an unknown opcode nibble, or a masked length byte).
pub enum SpecDecode {
    Frame { fin: bool, opcode: OpCode, payload: Seq<u8> },
    NeedMore,
    Invalid,
}

/// The tail of a decode: the payload of `plen` bytes after a header of
/// `hdr` bytes, if the span already holds that many.
pub open spec fn spec_decode_payload(b: Seq<u8>, fin: bool, opcode: OpCode, hdr: nat, plen: nat) -> SpecDecode {
    if b.len() < hdr + plen {
        SpecDecode::NeedMore
    } else {
        SpecDecode::Frame { fin, opcode, payload: b.subrange(hdr as int, (hdr + plen) as int) }
    }
}

/// One decode attempt against the whole accumulated span `b`.
pub open spec fn spec_decode(b: Seq<u8>) -> SpecDecode {
    if b.len() < 1 {
        SpecDecode::NeedMore
    } else {
        let h = b[0];
        if (h / 16) % 8 != 0 {
            // reserved bits are unused and must be zero
            SpecDecode::Invalid
        } else {
            match opcode_of_value(h % 16) {
                None => SpecDecode::Invalid,
                Some(opcode) => {
                    let fin = h >= 128;
                    if b.len() < 2 {
                        SpecDecode::NeedMore
                    } else {
                        let l = b[1];
                        if l < 126 {
                            spec_decode_payload(b, fin, opcode, 2, l as nat)
                        } else if l == 126 {
                            if b.len() < 4 {
                                SpecDecode::NeedMore
                            } else {
                                spec_decode_payload(b, fin, opcode, 4, be_val(b.subrange(2, 4)))
                            }
                        } else if l == 127 {
                            if b.len() < 10 {
                                SpecDecode::NeedMore
                            } else {
                                spec_decode_payload(b, fin, opcode, 10, be_val(b.subrange(2, 10)))
                            }
                        } else {
                            // a set mask bit: this codec sends and receives
                            // unmasked frames only
                            SpecDecode::Invalid
                        }
                    }
                }
            }
        }
    }
}

proof fn lemma_header_byte_decodes(fin: bool, opcode: OpCode)
    ensures
        (header_byte(fin, opcode) / 16) % 8 == 0,
        opcode_of_value(header_byte(fin, opcode) % 16) == Some(opcode),
        (header_byte(fin, opcode) >= 128) == fin,
{
    assert(opcode_value(opcode) < 16);
}

/// The three length forms, each read back as the length it was made from.
proof fn lemma_len_bytes_val(n: nat)
    requires
        n <= u64::MAX,
    ensures
        n < 126 ==> len_bytes(n) =~= seq![n as u8],
        126 <= n < 65536 ==> len_bytes(n).len() == 3 && len_bytes(n)[0] == 126 && be_val(
            len_bytes(n).subrange(1, 3),
        ) == n,
        65536 <= n ==> len_bytes(n).len() == 9 && len_bytes(n)[0] == 127 && be_val(
            len_bytes(n).subrange(1, 9),
        ) == n,
{
    lemma_pow256_values();
    if 126 <= n < 65536 {
        lemma_be_bytes_val(n, 2);
        assert(len_bytes(n).subrange(1, 3) =~= be_bytes(n, 2));
    } else if 65536 <= n {
        assert(n < pow256(8));
        lemma_be_bytes_val(n, 8);
        assert(len_bytes(n).subrange(1, 9) =~= be_bytes(n, 8));
    }
}

/// Decoding the wire form of a frame gives back exactly that frame:
/// fin, opcode and payload are all preserved, in every length branch.
pub proof fn lemma_frame_round_trip(fin: bool, opcode: OpCode, payload: Seq<u8>)
    requires
        payload.len() <= u64::MAX,
    ensures
        spec_decode(frame_bytes(fin, opcode, payload)) == (SpecDecode::Frame {
            fin,
            opcode,
            payload,
        }),
{
    let n = payload.len();
    let lb = len_bytes(n);
    let b = frame_bytes(fin, opcode, payload);
    lemma_header_byte_decodes(fin, opcode);
    lemma_len_bytes_val(n);
    assert(b[0] == header_byte(fin, opcode));
    if n < 126 {
        assert(b[1] == n as u8);
        assert(b.len() == 2 + n);
        assert(b.subrange(2, (2 + n) as int) =~= payload);
    } else if n < 65536 {
        assert(b[1] == 126);
        assert(b.len() == 4 + n);
        assert(b.subrange(2, 4) =~= lb.subrange(1, 3));
        assert(b.subrange(4, (4 + n) as int) =~= payload);
    } else {
        assert(b[1] == 127);
        assert(b.len() == 10 + n);
        assert(b.subrange(2, 10) =~= lb.subrange(1, 9));
        assert(b.subrange(10, (10 + n) as int) =~= payload);
    }
}

/// A strict prefix of a frame's wire form never decodes to a frame and is
/// never rejected: it only asks for more bytes. So a frame delivered split
/// across any number of chunks is decoded exactly once, at the last chunk.
pub proof fn lemma_frame_prefix_needs_more(fin: bool, opcode: OpCode, payload: Seq<u8>, n: int)
    requires
        payload.len() <= u64::MAX,
        0 <= n < frame_bytes(fin, opcode, payload).len(),
    ensures
        spec_decode(frame_bytes(fin, opcode, payload).take(n)) is NeedMore,
{
    let pl = payload.len();
    let lb = len_bytes(pl);
    let b = frame_bytes(fin, opcode, payload);
    let t = b.take(n);
    lemma_header_byte_decodes(fin, opcode);
    lemma_len_bytes_val(pl);
    if n >= 1 {
        assert(t[0] == header_byte(fin, opcode));
        if n >= 2 {
            assert(t[1] == b[1]);
            if pl < 126 {
                assert(b.len() == 2 + pl);
                assert(t.len() < 2 + pl);
            } else if pl < 65536 {
                assert(b.len() == 4 + pl);
                if n >= 4 {
                    assert(t.subrange(2, 4) =~= b.subrange(2, 4));
                    assert(b.subrange(2, 4) =~= lb.subrange(1, 3));
                    assert(t.len() < 4 + pl);
                }
            } else {
                assert(b.len() == 10 + pl);
                if n >= 10 {
                    assert(t.subrange(2, 10) =~= b.subrange(2, 10));
                    assert(b.subrange(2, 10) =~= lb.subrange(1, 9));
                    assert(t.len() < 10 + pl);
                }
            }
        }
    }
}

/// Where a complete frame lies in a byte span: its flags and the bounds of
/// its payload, or a request for more bytes, or a rejection of the span.
#[derive(Debug, PartialEq, Eq, Structural)]
pub enum DecodedSpan {
    Complete { fin: bool, opcode: OpCode, payload_start: usize, payload_end: usize },
    NeedMore,
    Invalid,
}

/// Decodes the span `buffer[..len]` without materialising the payload:
/// a complete frame is reported by the bounds of its payload bytes.
pub fn decode_span(buffer: &[u8], len: usize) -> (r: DecodedSpan)
    requires
        len <= buffer@.len(),
    ensures
        match r {
            DecodedSpan::Complete { fin, opcode, payload_start, payload_end } => {
                &&& payload_start <= payload_end <= len
                &&& spec_decode(buffer@.take(len as int)) == (SpecDecode::Frame {
                    fin,
                    opcode,
                    payload: buffer@.subrange(payload_start as int, payload_end as int),
                })
            },
            DecodedSpan::NeedMore => spec_decode(buffer@.take(len as int)) is NeedMore,
            DecodedSpan::Invalid => spec_decode(buffer@.take(len as int)) is Invalid,
        },
{
    let ghost b = buffer@.take(len as int);
    if len < 1 {
        return DecodedSpan::NeedMore;
    }
    let h = buffer[0];
    assert(b[0] == h);
    if (h / 16) % 8 != 0 {
        return DecodedSpan::Invalid;
    }
    let opcode = match value_to_opcode(h % 16) {
        None => {
            return DecodedSpan::Invalid;
        },
        Some(opcode) => opcode,
    };
    let fin = h >= 128;
    if len < 2 {
        return DecodedSpan::NeedMore;
    }
    let l = buffer[1];
    assert(b[1] == l);
    let payload_start: usize;
    let payload_len: usize;
    if l < 126 {
        payload_start = 2;
        payload_len = l as usize;
    } else if l == 126 {
        if len < 4 {
            return DecodedSpan::NeedMore;
        }
        payload_start = 4;
        payload_len = (buffer[2] as usize) * 256 + (buffer[3] as usize);
        assert(payload_len == be_val(b.subrange(2, 4))) by {
            let s = b.subrange(2, 4);
            assert(s.drop_last() =~= seq![b[2]]);
            assert(seq![b[2]].drop_last() =~= Seq::<u8>::empty());
            assert(be_val(Seq::<u8>::empty()) == 0);
            assert(be_val(seq![b[2]]) == b[2]);
            assert(s.last() == b[3]);
            assert(be_val(s) == b[2] * 256 + b[3]);
        }
    } else if l == 127 {
        if len < 10 {
            return DecodedSpan::NeedMore;
        }
        payload_start = 10;
        let mut value: u64 = 0;
        let mut i: usize = 2;
        while i < 10
            invariant
                2 <= i <= 10,
                10 <= len <= buffer@.len(),
                b == buffer@.take(len as int),
                value == be_val(b.subrange(2, i as int)),
                value < pow256((i - 2) as nat),
            decreases 10 - i,
        {
            proof {
                lemma_be_val_push(b.subrange(2, i as int), b[i as int]);
                assert(b.subrange(2, i + 1) =~= b.subrange(2, i as int).push(b[i as int]));
                assert(pow256(((i + 1) - 2) as nat) == 256 * pow256((i - 2) as nat));
                assert(value * 256 + b[i as int] < pow256(((i + 1) - 2) as nat));
                lemma_pow256_le(((i + 1) - 2) as nat, 8);
                lemma_pow256_values();
                assert(value * 256 + b[i as int] <= u64::MAX);
            }
            value = value * 256 + (buffer[i] as u64);
            i = i + 1;
        }
        assert(b.subrange(2, 10) =~= b.subrange(2, i as int));
        // a length beyond what the span could ever hold only asks for more
        if value > (len as u64) - 10 {
            assert(b.len() < 10 + be_val(b.subrange(2, 10)));
            return DecodedSpan::NeedMore;
        }
        payload_len = value as usize;
    } else {
        return DecodedSpan::Invalid;
    }
    if len - payload_start >= payload_len {
        let payload_end = payload_start + payload_len;
        assert(buffer@.subrange(payload_start as int, payload_end as int) =~= b.subrange(
            payload_start as int,
            (payload_start + payload_len) as int,
        ));
        DecodedSpan::Complete { fin, opcode, payload_start, payload_end }
    } else {
        DecodedSpan::NeedMore
    }
}

/// Represents a WebSocket frame.
#[derive(Debug)]
pub struct Frame {
    /// Indicates if this is the final frame in a message.
    pub fin: bool,
    /// The opcode of the frame.
    pub opcode: OpCode,
    /// The payload of the frame.
    pub payload: BytesMut,
}

/// Room reserved for a frame header when an output buffer must grow.
pub const MAX_HEAD_SIZE: usize = 16;

impl Frame {
    /// Creates a new WebSocket `Frame`.
    pub fn new(fin: bool, opcode: OpCode, payload: BytesMut) -> (f: Frame)
        ensures
            f.fin == fin,
            f.opcode == opcode,
            f.payload == payload,
    {
        Frame { fin, opcode, payload }
    }

    /// Creates a new WebSocket binary `Frame`: final, opcode Binary.
    pub fn binary(payload: BytesMut) -> (f: Frame)
        ensures
            f.fin,
            f.opcode == OpCode::Binary,
            f.payload == payload,
    {
        Frame { fin: true, opcode: OpCode::Binary, payload }
    }

    /// Creates a new WebSocket close `Frame`: final, opcode Close, the
    /// payload the two big-endian bytes of `code` followed by `reason`.
    ///
    /// This method does not check that `code` is a valid close code or that
    /// `reason` is valid UTF-8.
    pub fn close(code: u16, reason: &[u8]) -> (f: Frame)
        requires
            reason@.len() + 2 <= isize::MAX as usize,
        ensures
            f.fin,
            f.opcode == OpCode::Close,
            buf_view(f.payload) == be_bytes(code as nat, 2) + reason@,
    {
        proof {
            lemma_be_bytes_len(code as nat, 2);
        }
        let mut payload = buf_with_capacity(2 + reason.len());
        buf_put_u16(&mut payload, code);
        buf_put_slice(&mut payload, reason);
        assert(buf_view(payload) =~= be_bytes(code as nat, 2) + reason@);
        Frame { fin: true, opcode: OpCode::Close, payload }
    }

    /// Creates a new WebSocket close `Frame` with a raw payload.
    ///
    /// This method does not check that `payload` is a valid Close payload.
    pub fn close_raw(payload: BytesMut) -> (f: Frame)
        ensures
            f.fin,
            f.opcode == OpCode::Close,
            f.payload == payload,
    {
        Frame { fin: true, opcode: OpCode::Close, payload }
    }

    /// Creates a new WebSocket pong `Frame`: final, opcode Pong.
    pub fn pong(payload: BytesMut) -> (f: Frame)
        ensures
            f.fin,
            f.opcode == OpCode::Pong,
            f.payload == payload,
    {
        Frame { fin: true, opcode: OpCode::Pong, payload }
    }

    /// Checks if the frame payload is valid UTF-8.
    ///
    /// Relies on std::str::from_utf8, which returns Ok exactly on valid
    /// UTF-8, and on AsRef<[u8]> for BytesMut.
    #[verifier::external_body]
    pub fn is_utf8(&self) -> (r: bool)
        ensures
            r == vstd::utf8::valid_utf8(buf_view(self.payload)),
    {
        std::str::from_utf8(self.payload.as_ref()).is_ok()
    }

    /// Formats the frame header into `buf`: the header byte, then the
    /// payload length in its wire form.
    pub fn fmt_head(&mut self, buf: &mut BytesMut)
        requires
            buf_view(*old(buf)).len() + 10 <= isize::MAX as usize,
        ensures
            buf_view(*final(buf)) == buf_view(*old(buf)) + seq![
                header_byte(old(self).fin, old(self).opcode),
            ] + len_bytes(buf_view(old(self).payload).len()),
            *final(self) == *old(self),
    {
        let ghost pre = buf_view(*buf);
        let ghost n = buf_view(self.payload).len();
        let head = if self.fin {
            128 + opcode_to_value(self.opcode)
        } else {
            opcode_to_value(self.opcode)
        };
        assert(head == header_byte(self.fin, self.opcode));
        buf_put_u8(buf, head);

        let len = buf_len(&self.payload);
        if len < 126 {
            buf_put_u8(buf, len as u8);
            assert(buf_view(*buf) =~= pre + seq![header_byte(old(self).fin, old(self).opcode)]
                + len_bytes(n));
        } else if len < 65536 {
            buf_put_u8(buf, 126);
            buf_put_u16(buf, len as u16);
            assert((len as u16) as nat == n);
            assert(buf_view(*buf) =~= pre + seq![header_byte(old(self).fin, old(self).opcode)]
                + len_bytes(n));
        } else {
            buf_put_u8(buf, 127);
            buf_put_u64(buf, len as u64);
            assert((len as u64) as nat == n);
            assert(buf_view(*buf) =~= pre + seq![header_byte(old(self).fin, old(self).opcode)]
                + len_bytes(n));
        }
    }

    /// Writes the whole frame to `buf`, growing `buf` first if the payload
    /// and a header might not fit in the room it has left: appends exactly
    /// the frame's wire form.
    pub fn write(&mut self, buf: &mut BytesMut)
        requires
            buf_view(*old(buf)).len() + buf_view(old(self).payload).len() + MAX_HEAD_SIZE
                <= isize::MAX as usize,
        ensures
            buf_view(*final(buf)) == buf_view(*old(buf)) + frame_bytes(
                old(self).fin,
                old(self).opcode,
                buf_view(old(self).payload),
            ),
            *final(self) == *old(self),
    {
        let ghost pre = buf_view(*buf);
        let len = buf_len(&self.payload);
        let rem = buf_remaining_mut(buf);
        if len > rem {
            buf_reserve(buf, len + MAX_HEAD_SIZE - rem);
        }

        self.fmt_head(buf);
        proof {
            let n = buf_view(self.payload).len();
            lemma_be_bytes_len(n, 2);
            lemma_be_bytes_len(n, 8);
            assert(len_bytes(n).len() <= 9);
        }
        let payload = buf_as_slice(&self.payload);
        buf_put_slice(buf, payload);
        assert(buf_view(*buf) =~= pre + frame_bytes(
            old(self).fin,
            old(self).opcode,
            buf_view(old(self).payload),
        ));
    }
}

/// The outcome of one decode attempt against an accumulated byte span:
/// a complete frame, a request for more bytes, or a span outside this
/// codec's format.
pub enum DecodeOutcome {
    Complete(Frame),
    NeedMore,
    Invalid,
}

/// Decodes one frame from `buffer[..len]`. A complete frame is returned
/// with its payload copied out; a shorter span only asks for more bytes.
pub fn decode(buffer: &[u8], len: usize) -> (r: DecodeOutcome)
    requires
        len <= buffer@.len(),
    ensures
        match r {
            DecodeOutcome::Complete(f) => spec_decode(buffer@.take(len as int))
                == (SpecDecode::Frame { fin: f.fin, opcode: f.opcode, payload: buf_view(f.payload) }),
            DecodeOutcome::NeedMore => spec_decode(buffer@.take(len as int)) is NeedMore,
            DecodeOutcome::Invalid => spec_decode(buffer@.take(len as int)) is Invalid,
        },
{
    match decode_span(buffer, len) {
        DecodedSpan::Complete { fin, opcode, payload_start, payload_end } => {
            let payload = buf_from_slice(vstd::slice::slice_subrange(
                buffer,
                payload_start,
                payload_end,
            ));
            DecodeOutcome::Complete(Frame { fin, opcode, payload })
        },
        DecodedSpan::NeedMore => DecodeOutcome::NeedMore,
        DecodedSpan::Invalid => DecodeOutcome::Invalid,
    }
}

} // verus!
