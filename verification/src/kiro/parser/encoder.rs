//! Laying frames out as bytes.

use vstd::prelude::*;
use vstd::string::StringSliceAdditionalSpecFns;
use crate::kiro::parser::crc::checksum;
use crate::kiro::parser::decoder::from_i32;
use crate::kiro::parser::decoder::from_i64;
use crate::kiro::parser::decoder::write_be;
use crate::kiro::parser::frame::frame_body;
use crate::kiro::parser::frame::frame_bytes;
use crate::kiro::parser::frame::frame_fits;
use crate::kiro::parser::frame::header_bytes;
use crate::kiro::parser::frame::header_fits;
use crate::kiro::parser::frame::header_models;
use crate::kiro::parser::frame::headers_bytes;
use crate::kiro::parser::frame::lemma_be_bytes_len;
use crate::kiro::parser::frame::Frame;
use crate::kiro::parser::frame::Header;
use crate::kiro::parser::frame::HeaderModel;
use crate::kiro::parser::frame::HeaderValue;
use crate::kiro::parser::frame::FRAME_OVERHEAD;
use crate::kiro::parser::frame::TYPE_BYTES;
use crate::kiro::parser::frame::TYPE_FALSE;
use crate::kiro::parser::frame::TYPE_INT32;
use crate::kiro::parser::frame::TYPE_INT64;
use crate::kiro::parser::frame::TYPE_STRING;
use crate::kiro::parser::frame::TYPE_TIMESTAMP;
use crate::kiro::parser::frame::TYPE_TRUE;

verus! {

/// Appends the bytes of a slice.
pub fn append_slice(out: &mut Vec<u8>, bytes: &[u8])
    ensures
        final(out)@ == old(out)@ + bytes@,
{
    let mut i: usize = 0;
    let ghost start = out@;
    proof {
        assert(start + bytes@.take(0) =~= start);
    }
    while i < bytes.len()
        invariant
            i <= bytes.len(),
            out@ == start + bytes@.take(i as int),
        decreases bytes.len() - i,
    {
        out.push(bytes[i]);
        i = i + 1;
        proof {
            assert(bytes@.take(i as int) =~= bytes@.take(i - 1).push(bytes@[i - 1]));
            assert(out@ =~= start + bytes@.take(i as int));
        }
    }
    proof {
        assert(bytes@.take(bytes@.len() as int) =~= bytes@);
    }
}

/// Whether a header can be laid out.
pub fn fits(h: &Header) -> (yes: bool)
    ensures
        yes == header_fits(h@),
{
    if h.name.as_str().as_bytes().len() > 255 {
        return false;
    }
    match &h.value {
        HeaderValue::Bytes(b) => b.len() <= 0xFFFF,
        HeaderValue::String(s) => s.as_str().as_bytes().len() <= 0xFFFF,
        _ => true,
    }
}

/// Appends the bytes of a header.
pub fn write_header(out: &mut Vec<u8>, h: &Header)
    requires
        header_fits(h@),
    ensures
        final(out)@ == old(out)@ + header_bytes(h@),
{
    let ghost start = out@;
    let name = h.name.as_str().as_bytes();
    out.push(name.len() as u8);
    append_slice(out, name);
    match &h.value {
        HeaderValue::Bool(b) => {
            out.push(if *b {
                TYPE_TRUE
            } else {
                TYPE_FALSE
            });
        },
        HeaderValue::Int32(n) => {
            out.push(TYPE_INT32);
            write_be(out, from_i32(*n), 4);
        },
        HeaderValue::Int64(n) => {
            out.push(TYPE_INT64);
            write_be(out, from_i64(*n), 8);
        },
        HeaderValue::Timestamp(n) => {
            out.push(TYPE_TIMESTAMP);
            write_be(out, from_i64(*n), 8);
        },
        HeaderValue::Bytes(b) => {
            out.push(TYPE_BYTES);
            write_be(out, b.len() as u64, 2);
            append_slice(out, b.as_slice());
        },
        HeaderValue::String(s) => {
            out.push(TYPE_STRING);
            let bytes = s.as_str().as_bytes();
            write_be(out, bytes.len() as u64, 2);
            append_slice(out, bytes);
        },
    }
    proof {
        assert(out@ =~= start + header_bytes(h@));
    }
}

/// Headers laid out one after another grow at the end.
pub proof fn lemma_headers_bytes_push(hs: Seq<HeaderModel>, h: HeaderModel)
    ensures
        headers_bytes(hs.push(h)) == headers_bytes(hs) + header_bytes(h),
    decreases hs.len(),
{
    if hs.len() == 0 {
        let one = hs.push(h);
        assert(one.drop_first() =~= Seq::<HeaderModel>::empty());
        assert(one[0] == h);
        assert(headers_bytes(one.drop_first()) =~= Seq::<u8>::empty());
        assert(headers_bytes(one) == header_bytes(h) + headers_bytes(one.drop_first()));
        assert(headers_bytes(hs) =~= Seq::<u8>::empty());
        assert(headers_bytes(hs.push(h)) =~= headers_bytes(hs) + header_bytes(h));
    } else {
        assert(hs.push(h).drop_first() =~= hs.drop_first().push(h));
        lemma_headers_bytes_push(hs.drop_first(), h);
        assert(headers_bytes(hs.push(h)) =~= headers_bytes(hs) + header_bytes(h));
    }
}

/// The bytes of a frame; nothing for a frame that cannot be laid out.
pub fn encode_frame(frame: &Frame) -> (out: Option<Vec<u8>>)
    ensures
        match out {
            Some(bytes) => frame_fits(frame@) && bytes@ == frame_bytes(frame@),
            None => !frame_fits(frame@),
        },
{
    let ghost hs = header_models(frame.headers@);
    let mut headers: Vec<u8> = Vec::new();
    let mut i: usize = 0;
    proof {
        assert(hs.take(0) =~= Seq::<HeaderModel>::empty());
    }
    while i < frame.headers.len()
        invariant
            i <= frame.headers.len(),
            hs == header_models(frame.headers@),
            headers@ == headers_bytes(hs.take(i as int)),
            forall|j: int| 0 <= j < i ==> header_fits(#[trigger] hs[j]),
        decreases frame.headers.len() - i,
    {
        proof {
            assert(hs[i as int] == frame.headers@[i as int]@);
            assert(hs.take(i + 1) =~= hs.take(i as int).push(hs[i as int]));
            lemma_headers_bytes_push(hs.take(i as int), hs[i as int]);
        }
        if !fits(&frame.headers[i]) {
            return None;
        }
        write_header(&mut headers, &frame.headers[i]);
        i = i + 1;
    }
    proof {
        assert(hs.take(hs.len() as int) =~= hs);
    }
    let total: u128 = FRAME_OVERHEAD as u128 + headers.len() as u128 + frame.payload.len() as u128;
    if total > 0xFFFF_FFFF {
        return None;
    }
    let mut out: Vec<u8> = Vec::new();
    write_be(&mut out, total as u64, 4);
    write_be(&mut out, headers.len() as u64, 4);
    proof {
        lemma_be_bytes_len(total as nat, 4);
        lemma_be_bytes_len(headers@.len(), 4);
        assert(out@.subrange(0, 8) =~= out@);
    }
    let prelude_sum = checksum(&out, 0, 8);
    write_be(&mut out, prelude_sum as u64, 4);
    append_slice(&mut out, headers.as_slice());
    append_slice(&mut out, frame.payload.as_slice());
    proof {
        assert(out@ =~= frame_body(frame@));
        assert(out@.subrange(0, out@.len() as int) =~= out@);
    }
    let n = out.len();
    let message_sum = checksum(&out, 0, n);
    write_be(&mut out, message_sum as u64, 4);
    Some(out)
}

} // verus!
