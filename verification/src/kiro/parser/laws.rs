//! What holds of the frame layout and of the decoder: frames that are laid
//! out are read back as they were, and the frames that a decoder gives do not
//! depend on the portions in which the bytes reach it.

use vstd::prelude::*;
use vstd::utf8::encode_utf8;
use vstd::utf8::encode_utf8_decode_utf8;
use vstd::utf8::encode_utf8_valid_utf8;
use crate::kiro::parser::crc::crc32;
use crate::kiro::parser::frame::be;
use crate::kiro::parser::frame::be_bytes;
use crate::kiro::parser::frame::frame_body;
use crate::kiro::parser::frame::frame_bytes;
use crate::kiro::parser::frame::frame_fits;
use crate::kiro::parser::frame::header_bytes;
use crate::kiro::parser::frame::header_fits;
use crate::kiro::parser::frame::headers_bytes;
use crate::kiro::parser::frame::lemma_be_bytes_len;
use crate::kiro::parser::frame::lemma_be_local;
use crate::kiro::parser::frame::lemma_be_round_trip;
use crate::kiro::parser::frame::lemma_pow256_values;
use crate::kiro::parser::frame::parse;
use crate::kiro::parser::frame::read_all;
use crate::kiro::parser::frame::read_header;
use crate::kiro::parser::frame::read_headers;
use crate::kiro::parser::frame::read_value;
use crate::kiro::parser::frame::type_byte;
use crate::kiro::parser::frame::unsigned;
use crate::kiro::parser::frame::value_bytes;
use crate::kiro::parser::frame::DecodeError;
use crate::kiro::parser::frame::FrameModel;
use crate::kiro::parser::frame::HeaderModel;
use crate::kiro::parser::frame::Parsed;
use crate::kiro::parser::frame::Reading;
use crate::kiro::parser::frame::ValueModel;
use crate::kiro::parser::frame::FRAME_OVERHEAD;
use crate::kiro::parser::frame::PRELUDE_LEN;

verus! {

/// A number written at the start of a buffer is read back, whatever follows.
pub proof fn lemma_number_read_back(v: nat, n: nat, tail: Seq<u8>)
    requires
        v < crate::kiro::parser::frame::pow256(n),
    ensures
        be_bytes(v, n).len() == n,
        be(be_bytes(v, n) + tail, 0, n) == v,
{
    lemma_be_bytes_len(v, n);
    lemma_be_round_trip(v, n);
    let whole = be_bytes(v, n) + tail;
    assert(whole.subrange(0, n as int) =~= be_bytes(v, n).subrange(0, n as int));
    lemma_be_local(whole, 0, be_bytes(v, n), 0, n);
}

/// A header value that is laid out is read back, whatever follows it.
pub proof fn lemma_value_read_back(v: ValueModel, tail: Seq<u8>)
    requires
        match v {
            ValueModel::Bytes(b) => b.len() <= 0xFFFF,
            ValueModel::String(s) => encode_utf8(s).len() <= 0xFFFF,
            _ => true,
        },
    ensures
        read_value(value_bytes(v) + tail, type_byte(v)) == Some((v, value_bytes(v).len() as int)),
{
    lemma_pow256_values();
    let whole = value_bytes(v) + tail;
    match v {
        ValueModel::Bool(b) => {},
        ValueModel::Int32(n) => {
            lemma_number_read_back(unsigned(n as int, 0x8000_0000), 4, tail);
        },
        ValueModel::Int64(n) => {
            lemma_number_read_back(unsigned(n as int, 0x8000_0000_0000_0000), 8, tail);
        },
        ValueModel::Timestamp(n) => {
            lemma_number_read_back(unsigned(n as int, 0x8000_0000_0000_0000), 8, tail);
        },
        ValueModel::Bytes(b) => {
            lemma_number_read_back(b.len(), 2, b + tail);
            assert(whole =~= be_bytes(b.len(), 2) + (b + tail));
            assert(whole.subrange(2, 2 + b.len() as int) =~= b);
        },
        ValueModel::String(s) => {
            let b = encode_utf8(s);
            lemma_number_read_back(b.len(), 2, b + tail);
            assert(whole =~= be_bytes(b.len(), 2) + (b + tail));
            assert(whole.subrange(2, 2 + b.len() as int) =~= b);
            encode_utf8_valid_utf8(s);
            encode_utf8_decode_utf8(s);
        },
    }
}

/// A header that is laid out is read back, whatever follows it.
pub proof fn lemma_header_read_back(h: HeaderModel, tail: Seq<u8>)
    requires
        header_fits(h),
    ensures
        read_header(header_bytes(h) + tail) == Some((h, header_bytes(h).len() as int)),
        header_bytes(h).len() >= 2,
{
    let name = encode_utf8(h.name);
    let n = name.len() as int;
    let whole = header_bytes(h) + tail;
    assert(whole[0] == n as u8);
    assert(whole.subrange(1, 1 + n) =~= name);
    assert(whole[n + 1] == type_byte(h.value));
    assert(whole.skip(n + 2) =~= value_bytes(h.value) + tail);
    encode_utf8_valid_utf8(h.name);
    encode_utf8_decode_utf8(h.name);
    lemma_value_read_back(h.value, tail);
}

/// Headers that are laid out one after another are read back.
pub proof fn lemma_headers_read_back(hs: Seq<HeaderModel>)
    requires
        forall|i: int| 0 <= i < hs.len() ==> header_fits(#[trigger] hs[i]),
    ensures
        read_headers(headers_bytes(hs)) == Some(hs),
    decreases hs.len(),
{
    if hs.len() > 0 {
        let rest = hs.drop_first();
        lemma_headers_read_back(rest);
        lemma_header_read_back(hs[0], headers_bytes(rest));
        let whole = headers_bytes(hs);
        assert(whole.skip(header_bytes(hs[0]).len() as int) =~= headers_bytes(rest));
        assert(seq![hs[0]] + rest =~= hs);
    }
}

/// A frame that is laid out is read back, whatever follows it: the decoder
/// gives the frame and takes exactly its bytes.
pub proof fn lemma_frame_read_back(f: FrameModel, tail: Seq<u8>, cap: nat)
    requires
        frame_fits(f),
        frame_bytes(f).len() <= cap,
    ensures
        frame_bytes(f).len() == FRAME_OVERHEAD + headers_bytes(f.headers).len() + f.payload.len(),
        parse(frame_bytes(f) + tail, cap) == Parsed::Frame(f, frame_bytes(f).len() as int),
{
    lemma_pow256_values();
    let hs = headers_bytes(f.headers);
    let total = (FRAME_OVERHEAD + hs.len() + f.payload.len()) as nat;
    let lengths = be_bytes(total, 4) + be_bytes(hs.len(), 4);
    let body = frame_body(f);
    let bytes = frame_bytes(f);
    let whole = bytes + tail;
    lemma_be_bytes_len(total, 4);
    lemma_be_bytes_len(hs.len(), 4);
    lemma_be_bytes_len(crc32(lengths) as nat, 4);
    lemma_be_bytes_len(crc32(body) as nat, 4);
    assert(lengths.len() == 8);
    assert(body.len() == 12 + hs.len() + f.payload.len());
    assert(bytes.len() == total);
    // The total length.
    assert(whole =~= be_bytes(total, 4) + (be_bytes(hs.len(), 4) + be_bytes(
        crc32(lengths) as nat,
        4,
    ) + hs + f.payload + be_bytes(crc32(body) as nat, 4) + tail));
    lemma_number_read_back(
        total,
        4,
        be_bytes(hs.len(), 4) + be_bytes(crc32(lengths) as nat, 4) + hs + f.payload + be_bytes(
            crc32(body) as nat,
            4,
        ) + tail,
    );
    // The length of the headers.
    let after_lengths = be_bytes(crc32(lengths) as nat, 4) + hs + f.payload + be_bytes(
        crc32(body) as nat,
        4,
    ) + tail;
    lemma_number_read_back(hs.len(), 4, after_lengths);
    assert(whole.subrange(4, 8) =~= (be_bytes(hs.len(), 4) + after_lengths).subrange(0, 4));
    lemma_be_local(whole, 4, be_bytes(hs.len(), 4) + after_lengths, 0, 4);
    // The checksum of the prelude.
    let after_prelude = hs + f.payload + be_bytes(crc32(body) as nat, 4) + tail;
    lemma_number_read_back(crc32(lengths) as nat, 4, after_prelude);
    assert(whole.subrange(8, 12) =~= (be_bytes(crc32(lengths) as nat, 4) + after_prelude).subrange(
        0,
        4,
    ));
    lemma_be_local(whole, 8, be_bytes(crc32(lengths) as nat, 4) + after_prelude, 0, 4);
    assert(whole.subrange(0, 8) =~= lengths);
    // The checksum of the message.
    assert(whole.subrange(0, total - 4) =~= body);
    lemma_number_read_back(crc32(body) as nat, 4, tail);
    assert(whole.subrange(total - 4, total as int) =~= (be_bytes(crc32(body) as nat, 4)
        + tail).subrange(0, 4));
    lemma_be_local(whole, total - 4, be_bytes(crc32(body) as nat, 4) + tail, 0, 4);
    // The headers and the payload.
    assert(whole.subrange(PRELUDE_LEN as int, PRELUDE_LEN + hs.len()) =~= hs);
    assert(whole.subrange(PRELUDE_LEN + hs.len(), total - 4) =~= f.payload);
    lemma_headers_read_back(f.headers);
}

/// The bytes of frames laid out one after another.
pub open spec fn stream_bytes(fs: Seq<FrameModel>) -> Seq<u8>
    decreases fs.len(),
{
    if fs.len() == 0 {
        Seq::empty()
    } else {
        frame_bytes(fs[0]) + stream_bytes(fs.drop_first())
    }
}

/// Decoding undoes the layout: from frames laid out one after another a
/// decoder gives those frames, in order, with no byte left and no error.
pub proof fn lemma_decode_inverts_encode(fs: Seq<FrameModel>, cap: nat)
    requires
        forall|i: int|
            0 <= i < fs.len() ==> frame_fits(#[trigger] fs[i]) && frame_bytes(fs[i]).len() <= cap,
    ensures
        read_all(stream_bytes(fs), cap) == (Reading {
            frames: fs,
            rest: Seq::empty(),
            error: None,
        }),
    decreases fs.len(),
{
    if fs.len() > 0 {
        let rest = fs.drop_first();
        assert forall|i: int| 0 <= i < rest.len() implies frame_fits(#[trigger] rest[i])
            && frame_bytes(rest[i]).len() <= cap by {
            assert(rest[i] == fs[i + 1]);
        }
        lemma_decode_inverts_encode(rest, cap);
        lemma_frame_read_back(fs[0], stream_bytes(rest), cap);
        let whole = stream_bytes(fs);
        assert(whole.skip(frame_bytes(fs[0]).len() as int) =~= stream_bytes(rest));
        assert(seq![fs[0]] + rest =~= fs);
    } else {
        assert(read_all(stream_bytes(fs), cap).frames =~= fs);
    }
}

/// What the start of a buffer says does not change when more bytes follow,
/// once it is a frame or an error.
pub proof fn lemma_parse_stable(a: Seq<u8>, b: Seq<u8>, cap: nat)
    requires
        !(parse(a, cap) is Incomplete),
    ensures
        parse(a + b, cap) == parse(a, cap),
{
    let whole = a + b;
    assert(whole.subrange(0, 4) =~= a.subrange(0, 4));
    assert(whole.subrange(4, 8) =~= a.subrange(4, 8));
    assert(whole.subrange(8, 12) =~= a.subrange(8, 12));
    lemma_be_local(whole, 0, a, 0, 4);
    lemma_be_local(whole, 4, a, 4, 4);
    lemma_be_local(whole, 8, a, 8, 4);
    assert(whole.subrange(0, 8) =~= a.subrange(0, 8));
    let total = be(a, 0, 4);
    let hlen = be(a, 4, 4);
    if total <= cap && crc32(a.subrange(0, 8)) == be(a, 8, 4) && total >= FRAME_OVERHEAD && hlen
        <= total - FRAME_OVERHEAD {
        assert(a.len() >= total);
        assert(whole.subrange(0, total - 4) =~= a.subrange(0, total - 4));
        assert(whole.subrange(total - 4, total as int) =~= a.subrange(total - 4, total as int));
        lemma_be_local(whole, total - 4, a, total - 4, 4);
        assert(whole.subrange(PRELUDE_LEN as int, PRELUDE_LEN + hlen) =~= a.subrange(
            PRELUDE_LEN as int,
            PRELUDE_LEN + hlen,
        ));
        assert(whole.subrange(PRELUDE_LEN + hlen, total - 4) =~= a.subrange(
            PRELUDE_LEN + hlen,
            total - 4,
        ));
    }
}

/// The frames that a decoder gives do not depend on the portions in which the
/// bytes arrive. Reading `a` and then, with what was left over, `b` gives the
/// frames, the leftover and the error that reading `a` and `b` at once gives.
/// So a decoder fed byte by byte gives what a decoder fed all at once gives.
pub proof fn lemma_portions_do_not_matter(a: Seq<u8>, b: Seq<u8>, cap: nat)
    requires
        read_all(a, cap).error is None,
    ensures
        read_all(a + b, cap) == (Reading {
            frames: read_all(a, cap).frames + read_all(read_all(a, cap).rest + b, cap).frames,
            rest: read_all(read_all(a, cap).rest + b, cap).rest,
            error: read_all(read_all(a, cap).rest + b, cap).error,
        }),
    decreases a.len(),
{
    match parse(a, cap) {
        Parsed::Incomplete => {
            assert(Seq::<FrameModel>::empty() + read_all(a + b, cap).frames =~= read_all(
                a + b,
                cap,
            ).frames);
        },
        Parsed::Failed(e) => {},
        Parsed::Frame(f, used) => {
            if 0 < used <= a.len() {
                lemma_parse_stable(a, b, cap);
                assert((a + b).skip(used) =~= a.skip(used) + b);
                lemma_portions_do_not_matter(a.skip(used), b, cap);
                let later = read_all(a.skip(used), cap);
                let joined = read_all(later.rest + b, cap);
                assert(seq![f] + (later.frames + joined.frames) =~= (seq![f] + later.frames)
                    + joined.frames);
            }
        },
    }
}

/// A frame longer than the decoder allows is refused as soon as its prelude is
/// there, whatever else the buffer holds.
pub proof fn lemma_long_frame_overflows(b: Seq<u8>, cap: nat)
    requires
        b.len() >= PRELUDE_LEN,
        be(b, 0, 4) > cap,
    ensures
        parse(b, cap) == Parsed::Failed(DecodeError::Overflow),
        read_all(b, cap).error == Some(DecodeError::Overflow),
        read_all(b, cap).rest == b,
{
}

} // verus!
