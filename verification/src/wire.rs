//! Byte-level building blocks of the wire model: 16-bit fields written least
//! significant byte first (the native order of the hosts this crate targets),
//! and runs of zero padding bytes.

use vstd::prelude::*;
use crate::align::pad_len;

verus! {

/// The two wire bytes of a 16-bit field, least significant byte first.
pub open spec fn u16_le(v: u16) -> Seq<u8> {
    seq![(v % 256) as u8, (v / 256) as u8]
}

/// The 16-bit value read back from its two wire bytes.
pub open spec fn u16_of(lo: u8, hi: u8) -> u16 {
    (lo + 256 * hi) as u16
}

/// A run of `n` zero bytes.
pub open spec fn zeros(n: int) -> Seq<u8> {
    Seq::new(n as nat, |i: int| 0u8)
}

/// Reading a 16-bit field back from its wire bytes reproduces the value.
pub proof fn lemma_u16_round_trip(v: u16)
    ensures
        u16_of(u16_le(v)[0], u16_le(v)[1]) == v,
{
    assert(v == 256 * (v as int / 256) + v as int % 256);
}

/// Writing the value read from two bytes reproduces those bytes.
pub proof fn lemma_u16_bytes_round_trip(lo: u8, hi: u8)
    ensures
        u16_le(u16_of(lo, hi)) == seq![lo, hi],
{
    let v = u16_of(lo, hi);
    assert(v == lo + 256 * hi);
    assert(v as int % 256 == lo as int) by (nonlinear_arith)
        requires
            v == lo + 256 * hi,
            lo < 256,
    ;
    assert(v as int / 256 == hi as int) by (nonlinear_arith)
        requires
            v == lo + 256 * hi,
            lo < 256,
            hi < 256,
    ;
    assert(u16_le(v) =~= seq![lo, hi]);
}

/// The aligned image of a byte sequence: the bytes followed by their padding.
pub open spec fn padded(s: Seq<u8>) -> Seq<u8> {
    s + zeros(pad_len(s.len() as int))
}

/// Padding an already 4-byte-aligned sequence leaves it unchanged.
pub proof fn lemma_padded_aligned(s: Seq<u8>)
    requires
        s.len() % 4 == 0,
    ensures
        padded(s) == s,
{
    assert(pad_len(s.len() as int) == 0);
    assert(padded(s) =~= s);
}

} // verus!
