//! The incremental decoder of event-stream frames: bytes are fed in any
//! portions, and frames come out as soon as they are complete.

use vstd::prelude::*;
use vstd::utf8::decode_utf8;
use vstd::utf8::valid_utf8;
use vstd::string::StringSliceAdditionalSpecFns;
use crate::kiro::parser::crc::checksum;
use crate::kiro::parser::frame::be;
use crate::kiro::parser::frame::be_bytes;
use crate::kiro::parser::frame::frame_models;
use crate::kiro::parser::frame::header_models;
use crate::kiro::parser::frame::lemma_be_bound;
use crate::kiro::parser::frame::lemma_be_local;
use crate::kiro::parser::frame::lemma_pow256_values;
use crate::kiro::parser::frame::parse;
use crate::kiro::parser::frame::pow256;
use crate::kiro::parser::frame::read_all;
use crate::kiro::parser::frame::read_header;
use crate::kiro::parser::frame::read_headers;
use crate::kiro::parser::frame::read_value;
use crate::kiro::parser::frame::signed;
use crate::kiro::parser::frame::unsigned;
use crate::kiro::parser::frame::DecodeError;
use crate::kiro::parser::frame::Frame;
use crate::kiro::parser::frame::FrameModel;
use crate::kiro::parser::frame::Header;
use crate::kiro::parser::frame::HeaderModel;
use crate::kiro::parser::frame::HeaderValue;
use crate::kiro::parser::frame::Parsed;
use crate::kiro::parser::frame::FRAME_OVERHEAD;
use crate::kiro::parser::frame::PRELUDE_LEN;
use crate::kiro::parser::frame::TYPE_BYTES;
use crate::kiro::parser::frame::TYPE_FALSE;
use crate::kiro::parser::frame::TYPE_INT32;
use crate::kiro::parser::frame::TYPE_INT64;
use crate::kiro::parser::frame::TYPE_STRING;
use crate::kiro::parser::frame::TYPE_TIMESTAMP;
use crate::kiro::parser::frame::TYPE_TRUE;

verus! {

/// The largest frame that a decoder allows unless told otherwise: 16 MiB.
pub const DEFAULT_MAX_FRAME_SIZE: usize = 16 * 1024 * 1024;

/// Reads bytes as text. Trusted: calls `String::from_utf8`, which is
/// documented to succeed exactly on valid UTF-8 and then to hold the text that
/// the bytes encode.
#[verifier::external_body]
pub(crate) fn text_from_utf8(bytes: Vec<u8>) -> (text: Option<String>)
    ensures
        match text {
            Some(t) => valid_utf8(bytes@) && t@ == decode_utf8(bytes@),
            None => !valid_utf8(bytes@),
        },
{
    match String::from_utf8(bytes) {
        Ok(text) => Some(text),
        Err(_) => None,
    }
}

/// A copy of `b[from..to]`.
pub fn slice_of(b: &Vec<u8>, from: usize, to: usize) -> (out: Vec<u8>)
    requires
        from <= to <= b.len(),
    ensures
        out@ == b@.subrange(from as int, to as int),
{
    let mut out: Vec<u8> = Vec::new();
    let mut i: usize = from;
    while i < to
        invariant
            from <= i <= to <= b.len(),
            out@ == b@.subrange(from as int, i as int),
        decreases to - i,
    {
        out.push(b[i]);
        i = i + 1;
        proof {
            assert(b@.subrange(from as int, i as int) =~= b@.subrange(from as int, i - 1).push(
                b@[i - 1],
            ));
        }
    }
    out
}

/// The number that the `n` bytes from index `i` on denote.
pub fn read_be(b: &Vec<u8>, i: usize, n: usize) -> (v: u64)
    requires
        n <= 8,
        i + n <= b.len(),
    ensures
        v == be(b@, i as int, n as nat),
{
    let mut v: u64 = 0;
    let mut k: usize = 0;
    while k < n
        invariant
            k <= n <= 8,
            i + n <= b.len(),
            v == be(b@, i as int, k as nat),
        decreases n - k,
    {
        proof {
            lemma_be_bound(b@, i as int, k as nat);
            lemma_be_bound(b@, i as int, (k + 1) as nat);
            lemma_pow256_values();
            reveal_with_fuel(pow256, 9);
        }
        v = v * 256 + b[i + k] as u64;
        k = k + 1;
    }
    v
}

/// Appends the `n` bytes that denote `v`.
pub fn write_be(out: &mut Vec<u8>, v: u64, n: usize)
    requires
        n <= 8,
    ensures
        final(out)@ == old(out)@ + be_bytes(v as nat, n as nat),
    decreases n,
{
    if n == 0 {
        proof {
            assert(out@ + Seq::<u8>::empty() =~= out@);
        }
    } else {
        write_be(out, v / 256, n - 1);
        out.push((v % 256) as u8);
        proof {
            assert(out@ =~= old(out)@ + be_bytes(v as nat, n as nat));
        }
    }
}

/// The signed number that four bytes stand for.
pub fn to_i32(v: u64) -> (n: i32)
    requires
        v < 0x1_0000_0000,
    ensures
        n == signed(v as nat, 0x8000_0000),
{
    if v >= 0x8000_0000 {
        (v as i64 - 0x1_0000_0000) as i32
    } else {
        v as i32
    }
}

/// The signed number that eight bytes stand for.
pub fn to_i64(v: u64) -> (n: i64)
    ensures
        n == signed(v as nat, 0x8000_0000_0000_0000),
{
    if v >= 0x8000_0000_0000_0000 {
        (v as i128 - 0x1_0000_0000_0000_0000) as i64
    } else {
        v as i64
    }
}

/// The unsigned number that stands for a signed one in four bytes.
pub fn from_i32(n: i32) -> (v: u64)
    ensures
        v == unsigned(n as int, 0x8000_0000),
        v < 0x1_0000_0000,
{
    if n < 0 {
        (n as i64 + 0x1_0000_0000) as u64
    } else {
        n as u64
    }
}

/// The unsigned number that stands for a signed one in eight bytes.
pub fn from_i64(n: i64) -> (v: u64)
    ensures
        v == unsigned(n as int, 0x8000_0000_0000_0000),
{
    if n < 0 {
        (n as i128 + 0x1_0000_0000_0000_0000) as u64
    } else {
        n as u64
    }
}

/// Reads the header value of the given type that starts at index `at`.
pub fn read_value_at(b: &Vec<u8>, at: usize, kind: u8) -> (out: Option<(HeaderValue, usize)>)
    requires
        at <= b.len(),
    ensures
        match out {
            Some((value, used)) => read_value(b@.skip(at as int), kind) == Some(
                (value@, used as int),
            ) && at + used <= b.len(),
            None => read_value(b@.skip(at as int), kind) is None,
        },
{
    let ghost tail = b@.skip(at as int);
    let left = b.len() - at;
    if kind == TYPE_TRUE {
        Some((HeaderValue::Bool(true), 0))
    } else if kind == TYPE_FALSE {
        Some((HeaderValue::Bool(false), 0))
    } else if kind == TYPE_INT32 {
        if left >= 4 {
            proof {
                assert(tail.subrange(0, 4) =~= b@.subrange(at as int, at + 4));
                lemma_be_local(tail, 0, b@, at as int, 4);
                lemma_be_bound(b@, at as int, 4);
                lemma_pow256_values();
            }
            Some((HeaderValue::Int32(to_i32(read_be(b, at, 4))), 4))
        } else {
            None
        }
    } else if kind == TYPE_INT64 || kind == TYPE_TIMESTAMP {
        if left >= 8 {
            proof {
                assert(tail.subrange(0, 8) =~= b@.subrange(at as int, at + 8));
                lemma_be_local(tail, 0, b@, at as int, 8);
            }
            let n = to_i64(read_be(b, at, 8));
            if kind == TYPE_INT64 {
                Some((HeaderValue::Int64(n), 8))
            } else {
                Some((HeaderValue::Timestamp(n), 8))
            }
        } else {
            None
        }
    } else if kind == TYPE_BYTES || kind == TYPE_STRING {
        if left < 2 {
            return None;
        }
        proof {
            assert(tail.subrange(0, 2) =~= b@.subrange(at as int, at + 2));
            lemma_be_local(tail, 0, b@, at as int, 2);
            lemma_be_bound(b@, at as int, 2);
            lemma_pow256_values();
        }
        let len = read_be(b, at, 2) as usize;
        if left - 2 < len {
            return None;
        }
        let bytes = slice_of(b, at + 2, at + 2 + len);
        proof {
            assert(bytes@ =~= tail.subrange(2, 2 + len));
        }
        if kind == TYPE_BYTES {
            Some((HeaderValue::Bytes(bytes), 2 + len))
        } else {
            match text_from_utf8(bytes) {
                Some(text) => Some((HeaderValue::String(text), 2 + len)),
                None => None,
            }
        }
    } else {
        None
    }
}

/// Reads the header at the start of `b`.
pub fn read_header_front(b: &Vec<u8>) -> (out: Option<(Header, usize)>)
    ensures
        match out {
            Some((header, used)) => read_header(b@) == Some((header@, used as int)) && 0 < used
                <= b.len(),
            None => read_header(b@) is None,
        },
{
    if b.len() < 1 {
        return None;
    }
    let n = b[0] as usize;
    if b.len() < 2 || b.len() - 2 < n {
        return None;
    }
    let name = match text_from_utf8(slice_of(b, 1, 1 + n)) {
        Some(name) => name,
        None => {
            return None;
        },
    };
    match read_value_at(b, n + 2, b[n + 1]) {
        Some((value, used)) => Some((Header { name, value }, n + 2 + used)),
        None => None,
    }
}

/// Reads headers that stand one after another.
pub fn read_headers_from(region: Vec<u8>) -> (out: Option<Vec<Header>>)
    ensures
        match out {
            Some(headers) => read_headers(region@) == Some(header_models(headers@)),
            None => read_headers(region@) is None,
        },
{
    let ghost all = region@;
    let mut rest = region;
    let mut done: Vec<Header> = Vec::new();
    proof {
        assert(header_models(done@) =~= Seq::<HeaderModel>::empty());
        match read_headers(rest@) {
            Some(r) => {
                assert(Seq::<HeaderModel>::empty() + r =~= r);
            },
            None => {},
        }
    }
    while rest.len() > 0
        invariant
            all == region@,
            read_headers(all) == match read_headers(rest@) {
                Some(r) => Some(header_models(done@) + r),
                None => None,
            },
        decreases rest.len(),
    {
        match read_header_front(&rest) {
            Some((header, used)) => {
                let ghost before = header_models(done@);
                let ghost shown = header@;
                let ghost old_rest = rest@;
                let tail = rest.split_off(used);
                rest = tail;
                done.push(header);
                proof {
                    assert(rest@ =~= old_rest.skip(used as int));
                    assert(header_models(done@) =~= before.push(shown));
                    match read_headers(rest@) {
                        Some(r) => {
                            assert(before + (seq![shown] + r) =~= before.push(shown) + r);
                        },
                        None => {},
                    }
                }
            },
            None => {
                return None;
            },
        }
    }
    proof {
        assert(header_models(done@) + Seq::<HeaderModel>::empty() =~= header_models(done@));
    }
    Some(done)
}

/// What the start of a buffer says.
#[derive(Clone, Debug)]
pub enum ParsedFrame {
    /// More bytes are needed to tell.
    Incomplete,
    /// The bytes are not a frame.
    Failed(DecodeError),
    /// A frame, and the number of bytes it takes.
    Frame(Frame, usize),
}

impl View for ParsedFrame {
    type V = Parsed;

    open spec fn view(&self) -> Parsed {
        match self {
            ParsedFrame::Incomplete => Parsed::Incomplete,
            ParsedFrame::Failed(e) => Parsed::Failed(*e),
            ParsedFrame::Frame(f, used) => Parsed::Frame(f@, *used as int),
        }
    }
}

/// Reads the start of a buffer for a decoder that allows frames of up to
/// `cap` bytes.
pub fn parse_front(b: &Vec<u8>, cap: usize) -> (out: ParsedFrame)
    ensures
        out@ == parse(b@, cap as nat),
        out matches ParsedFrame::Frame(_, used) ==> FRAME_OVERHEAD <= used <= b.len(),
{
    if b.len() < PRELUDE_LEN {
        return ParsedFrame::Incomplete;
    }
    proof {
        lemma_be_bound(b@, 0, 4);
        lemma_be_bound(b@, 4, 4);
        lemma_be_bound(b@, 8, 4);
        lemma_pow256_values();
    }
    let total64 = read_be(b, 0, 4);
    let hlen64 = read_be(b, 4, 4);
    let prelude_sum = read_be(b, 8, 4);
    if total64 > cap as u64 {
        return ParsedFrame::Failed(DecodeError::Overflow);
    }
    let total = total64 as usize;
    if checksum(b, 0, 8) as u64 != prelude_sum {
        return ParsedFrame::Failed(DecodeError::CrcMismatch);
    }
    if total < FRAME_OVERHEAD || hlen64 > (total - FRAME_OVERHEAD) as u64 {
        return ParsedFrame::Failed(DecodeError::BadHeader);
    }
    let hlen = hlen64 as usize;
    if b.len() < total {
        return ParsedFrame::Incomplete;
    }
    proof {
        lemma_be_bound(b@, total - 4, 4);
    }
    if checksum(b, 0, total - 4) as u64 != read_be(b, total - 4, 4) {
        return ParsedFrame::Failed(DecodeError::CrcMismatch);
    }
    match read_headers_from(slice_of(b, PRELUDE_LEN, PRELUDE_LEN + hlen)) {
        Some(headers) => {
            let payload = slice_of(b, PRELUDE_LEN + hlen, total - 4);
            ParsedFrame::Frame(Frame { headers, payload }, total)
        },
        None => ParsedFrame::Failed(DecodeError::BadHeader),
    }
}

/// The decoder: the bytes not yet decoded, and the largest frame allowed.
pub struct EventStreamDecoder {
    buffer: Vec<u8>,
    max_frame_size: usize,
}

/// The decoder, as contracts see it.
pub struct DecoderModel {
    pub buffer: Seq<u8>,
    pub max_frame_size: usize,
}

impl View for EventStreamDecoder {
    type V = DecoderModel;

    closed spec fn view(&self) -> DecoderModel {
        DecoderModel { buffer: self.buffer@, max_frame_size: self.max_frame_size }
    }
}

impl EventStreamDecoder {
    /// A decoder with an empty buffer that allows frames of up to 16 MiB.
    pub fn new() -> (decoder: Self)
        ensures
            decoder@ == (DecoderModel {
                buffer: Seq::empty(),
                max_frame_size: DEFAULT_MAX_FRAME_SIZE,
            }),
    {
        EventStreamDecoder { buffer: Vec::new(), max_frame_size: DEFAULT_MAX_FRAME_SIZE }
    }

    /// A decoder with an empty buffer that allows frames of up to
    /// `max_frame_size` bytes.
    pub fn with_max_frame_size(max_frame_size: usize) -> (decoder: Self)
        ensures
            decoder@ == (DecoderModel { buffer: Seq::empty(), max_frame_size }),
    {
        EventStreamDecoder { buffer: Vec::new(), max_frame_size }
    }

    /// How many bytes wait to be decoded.
    pub fn buffered(&self) -> (n: usize)
        ensures
            n == self@.buffer.len(),
    {
        self.buffer.len()
    }

    /// Takes more bytes.
    pub fn feed(&mut self, bytes: &[u8])
        ensures
            final(self)@ == (DecoderModel {
                buffer: old(self)@.buffer + bytes@,
                ..old(self)@
            }),
    {
        let mut i: usize = 0;
        let ghost start = self.buffer@;
        proof {
            assert(start + bytes@.take(0) =~= start);
        }
        while i < bytes.len()
            invariant
                i <= bytes.len(),
                self.max_frame_size == old(self).max_frame_size,
                self.buffer@ == start + bytes@.take(i as int),
            decreases bytes.len() - i,
        {
            self.buffer.push(bytes[i]);
            i = i + 1;
            proof {
                assert(bytes@.take(i as int) =~= bytes@.take(i - 1).push(bytes@[i - 1]));
                assert(self.buffer@ =~= start + bytes@.take(i as int));
            }
        }
        proof {
            assert(bytes@.take(bytes@.len() as int) =~= bytes@);
        }
    }

    /// Forgets the bytes that wait to be decoded.
    pub fn reset(&mut self)
        ensures
            final(self)@ == (DecoderModel { buffer: Seq::empty(), ..old(self)@ }),
    {
        self.buffer = Vec::new();
    }

    /// Decodes the frame at the start of the buffer, if a whole one is there,
    /// and takes its bytes off the buffer. Where the buffer does not start
    /// with a frame the error says why, and the buffer stays as it is.
    pub fn decode(&mut self) -> (out: Result<Option<Frame>, DecodeError>)
        ensures
            match parse(old(self)@.buffer, old(self)@.max_frame_size as nat) {
                Parsed::Incomplete => out == Ok::<Option<Frame>, DecodeError>(None)
                    && final(self)@ == old(self)@,
                Parsed::Failed(e) => out == Err::<Option<Frame>, DecodeError>(e) && final(self)@
                    == old(self)@,
                Parsed::Frame(f, used) => {
                    &&& out is Ok
                    &&& out->Ok_0 is Some
                    &&& out->Ok_0->0@ == f
                    &&& 0 < used <= old(self)@.buffer.len()
                    &&& final(self)@ == (DecoderModel {
                        buffer: old(self)@.buffer.skip(used),
                        ..old(self)@
                    })
                },
            },
    {
        match parse_front(&self.buffer, self.max_frame_size) {
            ParsedFrame::Incomplete => Ok(None),
            ParsedFrame::Failed(e) => Err(e),
            ParsedFrame::Frame(frame, used) => {
                let ghost before = self.buffer@;
                let tail = self.buffer.split_off(used);
                self.buffer = tail;
                proof {
                    assert(self.buffer@ =~= before.skip(used as int));
                }
                Ok(Some(frame))
            },
        }
    }

    /// Decodes every frame that the buffer holds in full, up to the first
    /// error.
    pub fn decode_all(&mut self) -> (out: (Vec<Frame>, Option<DecodeError>))
        ensures
            ({
                let reading = read_all(old(self)@.buffer, old(self)@.max_frame_size as nat);
                &&& frame_models(out.0@) == reading.frames
                &&& out.1 == reading.error
                &&& final(self)@ == (DecoderModel { buffer: reading.rest, ..old(self)@ })
            }),
    {
        let ghost start = self.buffer@;
        let ghost cap = self.max_frame_size as nat;
        let mut frames: Vec<Frame> = Vec::new();
        proof {
            assert(frame_models(frames@) =~= Seq::<FrameModel>::empty());
            assert(Seq::<FrameModel>::empty() + read_all(start, cap).frames =~= read_all(
                start,
                cap,
            ).frames);
        }
        loop
            invariant
                self.max_frame_size == old(self).max_frame_size,
                cap == self.max_frame_size as nat,
                start == old(self)@.buffer,
                read_all(start, cap).frames == frame_models(frames@) + read_all(
                    self.buffer@,
                    cap,
                ).frames,
                read_all(start, cap).rest == read_all(self.buffer@, cap).rest,
                read_all(start, cap).error == read_all(self.buffer@, cap).error,
            decreases self.buffer@.len(),
        {
            let ghost before = frame_models(frames@);
            let ghost buffer = self.buffer@;
            match self.decode() {
                Ok(Some(frame)) => {
                    let ghost shown = frame@;
                    frames.push(frame);
                    proof {
                        assert(frame_models(frames@) =~= before.push(shown));
                        assert(before + (seq![shown] + read_all(self.buffer@, cap).frames)
                            =~= before.push(shown) + read_all(self.buffer@, cap).frames);
                    }
                },
                Ok(None) => {
                    proof {
                        assert(before + Seq::<FrameModel>::empty() =~= before);
                    }
                    return (frames, None);
                },
                Err(e) => {
                    proof {
                        assert(before + Seq::<FrameModel>::empty() =~= before);
                    }
                    return (frames, Some(e));
                },
            }
        }
    }
}

} // verus!
