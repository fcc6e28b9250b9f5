//! Event-stream frames and their layout on the wire.
//!
//! A frame is laid out as
//!
//! ```text
//! [total length: u32][headers length: u32][prelude checksum: u32]
//! [headers][payload][message checksum: u32]
//! ```
//!
//! with every number in big-endian order. The prelude checksum covers the
//! first eight bytes, the message checksum everything before itself. A header
//! is a name, of up to 255 bytes of UTF-8 after a length byte, a type byte and
//! a value whose layout the type decides.

use vstd::prelude::*;
use vstd::utf8::decode_utf8;
use vstd::utf8::encode_utf8;
use vstd::utf8::valid_utf8;
use crate::kiro::parser::crc::crc32;

verus! {

/// The bytes of a frame that are neither headers nor payload.
pub const FRAME_OVERHEAD: usize = 16;

/// The bytes of the prelude: the two lengths and their checksum.
pub const PRELUDE_LEN: usize = 12;

pub const TYPE_TRUE: u8 = 0;

pub const TYPE_FALSE: u8 = 1;

pub const TYPE_INT32: u8 = 4;

pub const TYPE_INT64: u8 = 5;

pub const TYPE_BYTES: u8 = 6;

pub const TYPE_STRING: u8 = 7;

pub const TYPE_TIMESTAMP: u8 = 8;

/// The value of a header.
#[derive(Clone, Debug, PartialEq, Eq)]
pub enum HeaderValue {
    Bool(bool),
    Int32(i32),
    Int64(i64),
    Bytes(Vec<u8>),
    String(String),
    /// Milliseconds since the Unix epoch.
    Timestamp(i64),
}

/// A header value, as contracts see it.
pub enum ValueModel {
    Bool(bool),
    Int32(i32),
    Int64(i64),
    Bytes(Seq<u8>),
    String(Seq<char>),
    Timestamp(i64),
}

impl View for HeaderValue {
    type V = ValueModel;

    open spec fn view(&self) -> ValueModel {
        match self {
            HeaderValue::Bool(b) => ValueModel::Bool(*b),
            HeaderValue::Int32(n) => ValueModel::Int32(*n),
            HeaderValue::Int64(n) => ValueModel::Int64(*n),
            HeaderValue::Bytes(b) => ValueModel::Bytes(b@),
            HeaderValue::String(s) => ValueModel::String(s@),
            HeaderValue::Timestamp(n) => ValueModel::Timestamp(*n),
        }
    }
}

/// A header of a frame.
#[derive(Clone, Debug, PartialEq, Eq)]
pub struct Header {
    pub name: String,
    pub value: HeaderValue,
}

/// A header, as contracts see it.
pub struct HeaderModel {
    pub name: Seq<char>,
    pub value: ValueModel,
}

impl View for Header {
    type V = HeaderModel;

    open spec fn view(&self) -> HeaderModel {
        HeaderModel { name: self.name@, value: self.value@ }
    }
}

/// A frame: headers, in the order in which they stand, and a payload.
#[derive(Clone, Debug, PartialEq, Eq)]
pub struct Frame {
    pub headers: Vec<Header>,
    pub payload: Vec<u8>,
}

/// A frame, as contracts see it.
pub struct FrameModel {
    pub headers: Seq<HeaderModel>,
    pub payload: Seq<u8>,
}

pub open spec fn header_models(v: Seq<Header>) -> Seq<HeaderModel> {
    v.map_values(|h: Header| h@)
}

impl View for Frame {
    type V = FrameModel;

    open spec fn view(&self) -> FrameModel {
        FrameModel { headers: header_models(self.headers@), payload: self.payload@ }
    }
}

pub open spec fn frame_models(v: Seq<Frame>) -> Seq<FrameModel> {
    v.map_values(|f: Frame| f@)
}

// ----------------------------------------------------------------- numbers

/// The number that the `n` bytes from index `i` on denote in big-endian
/// order.
pub open spec fn be(b: Seq<u8>, i: int, n: nat) -> nat
    decreases n,
{
    if n == 0 {
        0
    } else {
        be(b, i, (n - 1) as nat) * 256 + b[i + n - 1] as nat
    }
}

/// The `n` bytes that denote `v` in big-endian order.
pub open spec fn be_bytes(v: nat, n: nat) -> Seq<u8>
    decreases n,
{
    if n == 0 {
        Seq::empty()
    } else {
        be_bytes(v / 256, (n - 1) as nat).push((v % 256) as u8)
    }
}

/// Two hundred and fifty-six to the power `n`.
pub open spec fn pow256(n: nat) -> nat
    decreases n,
{
    if n == 0 {
        1
    } else {
        256 * pow256((n - 1) as nat)
    }
}

pub proof fn lemma_be_bytes_len(v: nat, n: nat)
    ensures
        be_bytes(v, n).len() == n,
    decreases n,
{
    if n > 0 {
        lemma_be_bytes_len(v / 256, (n - 1) as nat);
    }
}

/// Reading reads only the bytes it is pointed at.
pub proof fn lemma_be_local(a: Seq<u8>, i: int, b: Seq<u8>, j: int, n: nat)
    requires
        0 <= i,
        i + n <= a.len(),
        0 <= j,
        j + n <= b.len(),
        a.subrange(i, i + n) == b.subrange(j, j + n),
    ensures
        be(a, i, n) == be(b, j, n),
    decreases n,
{
    if n > 0 {
        let x = a.subrange(i, i + n);
        let y = b.subrange(j, j + n);
        assert(a.subrange(i, i + n - 1) =~= x.take(n - 1));
        assert(b.subrange(j, j + n - 1) =~= y.take(n - 1));
        lemma_be_local(a, i, b, j, (n - 1) as nat);
        assert(a[i + (n - 1)] == x[n - 1]);
        assert(b[j + (n - 1)] == y[n - 1]);
    }
}

/// A number below `256^n` is read back from its `n` bytes.
pub proof fn lemma_be_round_trip(v: nat, n: nat)
    requires
        v < pow256(n),
    ensures
        be(be_bytes(v, n), 0, n) == v,
    decreases n,
{
    lemma_be_bytes_len(v, n);
    if n > 0 {
        let m = (n - 1) as nat;
        let front = be_bytes(v / 256, m);
        let all = be_bytes(v, n);
        lemma_be_bytes_len(v / 256, m);
        assert(v / 256 < pow256(m)) by (nonlinear_arith)
            requires
                v < 256 * pow256(m),
        ;
        lemma_be_round_trip(v / 256, m);
        assert(all.subrange(0, m as int) =~= front.subrange(0, m as int));
        lemma_be_local(all, 0, front, 0, m);
        assert(all[n - 1] == (v % 256) as u8);
    }
}

/// What `n` bytes denote lies below `256^n`.
pub proof fn lemma_be_bound(b: Seq<u8>, i: int, n: nat)
    ensures
        be(b, i, n) < pow256(n),
    decreases n,
{
    if n > 0 {
        let m = (n - 1) as nat;
        lemma_be_bound(b, i, m);
        let high = be(b, i, m);
        let low = b[i + n - 1] as nat;
        let limit = pow256(m);
        assert(high * 256 + low < 256 * limit) by (nonlinear_arith)
            requires
                high < limit,
                low <= 255,
        ;
    }
}

pub proof fn lemma_pow256_values()
    ensures
        pow256(0) == 1,
        pow256(1) == 0x100,
        pow256(2) == 0x1_0000,
        pow256(4) == 0x1_0000_0000,
        pow256(8) == 0x1_0000_0000_0000_0000,
{
    reveal_with_fuel(pow256, 9);
}

/// The signed number that an unsigned one of `bits` bits stands for in two's
/// complement.
pub open spec fn signed(v: nat, half: nat) -> int {
    if v >= half {
        v - 2 * half
    } else {
        v as int
    }
}

/// The unsigned number that stands for a signed one in two's complement.
pub open spec fn unsigned(v: int, half: nat) -> nat {
    if v < 0 {
        (v + 2 * half) as nat
    } else {
        v as nat
    }
}

// ------------------------------------------------------------------ layout

/// The bytes of a header value after the type byte.
pub open spec fn value_bytes(v: ValueModel) -> Seq<u8> {
    match v {
        ValueModel::Bool(_) => Seq::empty(),
        ValueModel::Int32(n) => be_bytes(unsigned(n as int, 0x8000_0000), 4),
        ValueModel::Int64(n) => be_bytes(unsigned(n as int, 0x8000_0000_0000_0000), 8),
        ValueModel::Bytes(b) => be_bytes(b.len(), 2) + b,
        ValueModel::String(s) => be_bytes(encode_utf8(s).len(), 2) + encode_utf8(s),
        ValueModel::Timestamp(n) => be_bytes(unsigned(n as int, 0x8000_0000_0000_0000), 8),
    }
}

/// The type byte of a header value.
pub open spec fn type_byte(v: ValueModel) -> u8 {
    match v {
        ValueModel::Bool(b) => if b {
            TYPE_TRUE
        } else {
            TYPE_FALSE
        },
        ValueModel::Int32(_) => TYPE_INT32,
        ValueModel::Int64(_) => TYPE_INT64,
        ValueModel::Bytes(_) => TYPE_BYTES,
        ValueModel::String(_) => TYPE_STRING,
        ValueModel::Timestamp(_) => TYPE_TIMESTAMP,
    }
}

/// The bytes of a header.
pub open spec fn header_bytes(h: HeaderModel) -> Seq<u8> {
    seq![encode_utf8(h.name).len() as u8] + encode_utf8(h.name) + seq![type_byte(h.value)]
        + value_bytes(h.value)
}

/// The bytes of headers, one after another.
pub open spec fn headers_bytes(hs: Seq<HeaderModel>) -> Seq<u8>
    decreases hs.len(),
{
    if hs.len() == 0 {
        Seq::empty()
    } else {
        header_bytes(hs[0]) + headers_bytes(hs.drop_first())
    }
}

/// Whether a header can be laid out: its name takes at most 255 bytes, and a
/// value of bytes or of text at most 65535.
pub open spec fn header_fits(h: HeaderModel) -> bool {
    &&& encode_utf8(h.name).len() <= 255
    &&& match h.value {
        ValueModel::Bytes(b) => b.len() <= 0xFFFF,
        ValueModel::String(s) => encode_utf8(s).len() <= 0xFFFF,
        _ => true,
    }
}

/// Whether a frame can be laid out: every header can, and the whole takes no
/// more bytes than a length field can tell.
pub open spec fn frame_fits(f: FrameModel) -> bool {
    &&& forall|i: int| 0 <= i < f.headers.len() ==> header_fits(#[trigger] f.headers[i])
    &&& FRAME_OVERHEAD + headers_bytes(f.headers).len() + f.payload.len() <= 0xFFFF_FFFF
}

/// The bytes of a frame before the message checksum.
pub open spec fn frame_body(f: FrameModel) -> Seq<u8> {
    let hs = headers_bytes(f.headers);
    let prelude = be_bytes((FRAME_OVERHEAD + hs.len() + f.payload.len()) as nat, 4) + be_bytes(
        hs.len(),
        4,
    );
    prelude + be_bytes(crc32(prelude) as nat, 4) + hs + f.payload
}

/// The bytes of a frame.
pub open spec fn frame_bytes(f: FrameModel) -> Seq<u8> {
    frame_body(f) + be_bytes(crc32(frame_body(f)) as nat, 4)
}

// ----------------------------------------------------------------- reading

/// Why bytes are not a frame.
#[derive(Clone, Copy, Debug, PartialEq, Eq, Structural)]
pub enum DecodeError {
    /// The frame is longer than the decoder allows.
    Overflow,
    /// A checksum does not match.
    CrcMismatch,
    /// The lengths contradict each other, or the headers cannot be read.
    BadHeader,
}

/// What the start of a header value says: the value and the bytes it takes.
pub open spec fn read_value(b: Seq<u8>, kind: u8) -> Option<(ValueModel, int)> {
    if kind == TYPE_TRUE {
        Some((ValueModel::Bool(true), 0))
    } else if kind == TYPE_FALSE {
        Some((ValueModel::Bool(false), 0))
    } else if kind == TYPE_INT32 {
        if b.len() >= 4 {
            Some((ValueModel::Int32(signed(be(b, 0, 4), 0x8000_0000) as i32), 4))
        } else {
            None
        }
    } else if kind == TYPE_INT64 {
        if b.len() >= 8 {
            Some((ValueModel::Int64(signed(be(b, 0, 8), 0x8000_0000_0000_0000) as i64), 8))
        } else {
            None
        }
    } else if kind == TYPE_TIMESTAMP {
        if b.len() >= 8 {
            Some((ValueModel::Timestamp(signed(be(b, 0, 8), 0x8000_0000_0000_0000) as i64), 8))
        } else {
            None
        }
    } else if kind == TYPE_BYTES {
        if b.len() >= 2 && b.len() >= 2 + be(b, 0, 2) {
            Some((ValueModel::Bytes(b.subrange(2, 2 + be(b, 0, 2) as int)), 2 + be(b, 0, 2) as int))
        } else {
            None
        }
    } else if kind == TYPE_STRING {
        if b.len() >= 2 && b.len() >= 2 + be(b, 0, 2) && valid_utf8(
            b.subrange(2, 2 + be(b, 0, 2) as int),
        ) {
            Some(
                (
                    ValueModel::String(decode_utf8(b.subrange(2, 2 + be(b, 0, 2) as int))),
                    2 + be(b, 0, 2) as int,
                ),
            )
        } else {
            None
        }
    } else {
        None
    }
}

/// What the start of `b` says as a header: the header and the bytes it takes.
pub open spec fn read_header(b: Seq<u8>) -> Option<(HeaderModel, int)> {
    if b.len() < 1 {
        None
    } else {
        let n = b[0] as int;
        if b.len() < n + 2 || !valid_utf8(b.subrange(1, 1 + n)) {
            None
        } else {
            match read_value(b.skip(n + 2), b[n + 1]) {
                Some((value, used)) => Some(
                    (HeaderModel { name: decode_utf8(b.subrange(1, 1 + n)), value }, n + 2 + used),
                ),
                None => None,
            }
        }
    }
}

/// What `b` says as headers one after another.
pub open spec fn read_headers(b: Seq<u8>) -> Option<Seq<HeaderModel>>
    decreases b.len(),
{
    if b.len() == 0 {
        Some(Seq::empty())
    } else {
        match read_header(b) {
            Some((h, used)) => if 0 < used <= b.len() {
                match read_headers(b.skip(used)) {
                    Some(rest) => Some(seq![h] + rest),
                    None => None,
                }
            } else {
                None
            },
            None => None,
        }
    }
}

/// What the start of a buffer says.
pub enum Parsed {
    /// More bytes are needed to tell.
    Incomplete,
    /// The bytes are not a frame.
    Failed(DecodeError),
    /// A frame, and the number of bytes it takes.
    Frame(FrameModel, int),
}

/// What the start of the buffer `b` says to a decoder that allows frames of up
/// to `cap` bytes. Nothing is said before the twelve bytes of the prelude are
/// there. Then the length is held against the cap, the prelude against its
/// checksum and the two lengths against each other; and once the whole frame
/// is there, the frame against its checksum and the headers against their
/// layout.
pub open spec fn parse(b: Seq<u8>, cap: nat) -> Parsed {
    if b.len() < PRELUDE_LEN {
        Parsed::Incomplete
    } else {
        let total = be(b, 0, 4);
        let hlen = be(b, 4, 4);
        if total > cap {
            Parsed::Failed(DecodeError::Overflow)
        } else if crc32(b.subrange(0, 8)) != be(b, 8, 4) {
            Parsed::Failed(DecodeError::CrcMismatch)
        } else if total < FRAME_OVERHEAD || hlen > total - FRAME_OVERHEAD {
            Parsed::Failed(DecodeError::BadHeader)
        } else if b.len() < total {
            Parsed::Incomplete
        } else if crc32(b.subrange(0, total - 4)) != be(b, total - 4, 4) {
            Parsed::Failed(DecodeError::CrcMismatch)
        } else {
            match read_headers(b.subrange(PRELUDE_LEN as int, PRELUDE_LEN + hlen)) {
                Some(headers) => Parsed::Frame(
                    FrameModel {
                        headers,
                        payload: b.subrange(PRELUDE_LEN + hlen, total - 4),
                    },
                    total as int,
                ),
                None => Parsed::Failed(DecodeError::BadHeader),
            }
        }
    }
}

/// All that a buffer says: the frames at its start, the bytes left over, and
/// the error that stopped the reading, if one did.
pub struct Reading {
    pub frames: Seq<FrameModel>,
    pub rest: Seq<u8>,
    pub error: Option<DecodeError>,
}

/// All that the buffer `b` says.
pub open spec fn read_all(b: Seq<u8>, cap: nat) -> Reading
    decreases b.len(),
{
    match parse(b, cap) {
        Parsed::Incomplete => Reading { frames: Seq::empty(), rest: b, error: None },
        Parsed::Failed(e) => Reading { frames: Seq::empty(), rest: b, error: Some(e) },
        Parsed::Frame(f, used) => if 0 < used <= b.len() {
            let more = read_all(b.skip(used), cap);
            Reading { frames: seq![f] + more.frames, rest: more.rest, error: more.error }
        } else {
            Reading { frames: Seq::empty(), rest: b, error: Some(DecodeError::BadHeader) }
        },
    }
}

} // verus!
