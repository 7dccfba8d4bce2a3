//! Big-endian encoding of 32-bit integers, as the chunk layout uses it for the
//! length and checksum fields.

use vstd::prelude::*;

verus! {

/// The four bytes of `v`, most significant first.
#[verifier::opaque]
pub open spec fn be_bytes(v: u32) -> Seq<u8> {
    seq![
        (v / 0x100_0000) as u8,
        ((v / 0x1_0000) % 0x100) as u8,
        ((v / 0x100) % 0x100) as u8,
        (v % 0x100) as u8,
    ]
}

/// The integer whose big-endian encoding is the first four bytes of `s`.
#[verifier::opaque]
pub open spec fn be_value(s: Seq<u8>) -> u32
    recommends
        s.len() >= 4,
{
    (s[0] * 0x100_0000 + s[1] * 0x1_0000 + s[2] * 0x100 + s[3]) as u32
}

/// An encoding has four bytes, and decoding undoes encoding.
pub proof fn lemma_be_value_of_bytes(v: u32)
    ensures
        be_bytes(v).len() == 4,
        be_value(be_bytes(v)) == v,
{
    reveal(be_bytes);
    reveal(be_value);
    let s = be_bytes(v);
    assert(s[0] * 0x100_0000 + s[1] * 0x1_0000 + s[2] * 0x100 + s[3] == v) by {
        assert(((v / 0x100_0000) as u8) * 0x100_0000 + (((v / 0x1_0000) % 0x100) as u8) * 0x1_0000
            + (((v / 0x100) % 0x100) as u8) * 0x100 + ((v % 0x100) as u8) == v) by (bit_vector);
    }
}

/// Encoding undoes decoding: four bytes are the encoding of the integer they
/// decode to.
pub proof fn lemma_be_bytes_of_value(s: Seq<u8>)
    requires
        s.len() == 4,
    ensures
        be_bytes(be_value(s)) == s,
{
    reveal(be_bytes);
    reveal(be_value);
    lemma_digits(s[0], s[1], s[2], s[3]);
}

/// The four base-256 digits of a number written as a sum of their multiples.
proof fn lemma_digits(b0: u8, b1: u8, b2: u8, b3: u8)
    ensures
        ({
            let v = b0 * 0x100_0000 + b1 * 0x1_0000 + b2 * 0x100 + b3;
            &&& v / 0x100_0000 == b0
            &&& (v / 0x1_0000) % 0x100 == b1
            &&& (v / 0x100) % 0x100 == b2
            &&& v % 0x100 == b3
        }),
{
    let w: u32 = (b0 as u32) << 24 | (b1 as u32) << 16 | (b2 as u32) << 8 | (b3 as u32);
    assert(w == b0 * 0x100_0000 + b1 * 0x1_0000 + b2 * 0x100 + b3) by (bit_vector)
        requires
            w == (b0 as u32) << 24 | (b1 as u32) << 16 | (b2 as u32) << 8 | (b3 as u32),
    ;
    assert(w / 0x100_0000 == b0 && (w / 0x1_0000) % 0x100 == b1 && (w / 0x100) % 0x100 == b2 && w
        % 0x100 == b3) by (bit_vector)
        requires
            w == (b0 as u32) << 24 | (b1 as u32) << 16 | (b2 as u32) << 8 | (b3 as u32),
    ;
}

/// Encodes `v` as four bytes, most significant first.
pub fn u32_to_be(v: u32) -> (bytes: [u8; 4])
    ensures
        bytes@ == be_bytes(v),
{
    let bytes: [u8; 4] = [
        (v / 0x100_0000) as u8,
        ((v / 0x1_0000) % 0x100) as u8,
        ((v / 0x100) % 0x100) as u8,
        (v % 0x100) as u8,
    ];
    proof {
        reveal(be_bytes);
    }
    bytes
}

/// Decodes the four bytes of `bytes` that start at `at`, most significant
/// first.
pub fn u32_from_be(bytes: &[u8], at: usize) -> (v: u32)
    requires
        at + 4 <= bytes@.len(),
    ensures
        v == be_value(bytes@.subrange(at as int, at + 4)),
{
    let b0: u32 = bytes[at] as u32;
    let b1: u32 = bytes[at + 1] as u32;
    let b2: u32 = bytes[at + 2] as u32;
    let b3: u32 = bytes[at + 3] as u32;
    proof {
        reveal(be_value);
    }
    b0 * 0x100_0000 + b1 * 0x1_0000 + b2 * 0x100 + b3
}

} // verus!
