//! The 32-bit cyclic redundancy check that guards event-stream frames: the
//! reflected polynomial 0xEDB88320, with all bits set at the start and
//! inverted at the end.

use vstd::prelude::*;

verus! {

/// The polynomial, with its bits reflected.
pub const POLYNOMIAL: u32 = 0xEDB8_8320;

/// One step of the division: the register moves right by one bit, and the
/// polynomial is taken off if the bit that left was set.
pub open spec fn step(c: u32) -> u32 {
    if c & 1 == 1 {
        (c >> 1) ^ POLYNOMIAL
    } else {
        c >> 1
    }
}

/// The register after one more byte.
pub open spec fn after_byte(c: u32, b: u8) -> u32 {
    step(step(step(step(step(step(step(step(c ^ (b as u32)))))))))
}

/// The register after the bytes `bytes`.
pub open spec fn after_bytes(c: u32, bytes: Seq<u8>) -> u32
    decreases bytes.len(),
{
    if bytes.len() == 0 {
        c
    } else {
        after_byte(after_bytes(c, bytes.drop_last()), bytes.last())
    }
}

/// The checksum of `bytes`.
pub open spec fn crc32(bytes: Seq<u8>) -> u32 {
    after_bytes(0xFFFF_FFFF, bytes) ^ 0xFFFF_FFFF
}

/// One step of the division.
pub fn step_once(c: u32) -> (out: u32)
    ensures
        out == step(c),
{
    if c & 1 == 1 {
        (c >> 1) ^ POLYNOMIAL
    } else {
        c >> 1
    }
}

/// The register after one more byte.
pub fn feed_byte(c: u32, b: u8) -> (out: u32)
    ensures
        out == after_byte(c, b),
{
    let mut r = c ^ (b as u32);
    r = step_once(r);
    r = step_once(r);
    r = step_once(r);
    r = step_once(r);
    r = step_once(r);
    r = step_once(r);
    r = step_once(r);
    step_once(r)
}

/// The checksum of `bytes[from..to]`.
pub fn checksum(bytes: &Vec<u8>, from: usize, to: usize) -> (sum: u32)
    requires
        from <= to <= bytes.len(),
    ensures
        sum == crc32(bytes@.subrange(from as int, to as int)),
{
    let mut c: u32 = 0xFFFF_FFFF;
    let mut i: usize = from;
    proof {
        assert(bytes@.subrange(from as int, from as int) =~= Seq::<u8>::empty());
    }
    while i < to
        invariant
            from <= i <= to <= bytes.len(),
            c == after_bytes(0xFFFF_FFFF, bytes@.subrange(from as int, i as int)),
        decreases to - i,
    {
        proof {
            let grown = bytes@.subrange(from as int, i + 1);
            assert(grown.drop_last() =~= bytes@.subrange(from as int, i as int));
            assert(grown.last() == bytes@[i as int]);
        }
        c = feed_byte(c, bytes[i]);
        i = i + 1;
    }
    c ^ 0xFFFF_FFFF
}

} // verus!
