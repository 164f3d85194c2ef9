//! Alignment arithmetic: every attribute on the wire occupies a multiple of
//! 4 bytes, so sizes are rounded up to the next 4-byte boundary.

use vstd::prelude::*;

verus! {

/// `n` rounded up to the next multiple of 4.
pub open spec fn aligned_size_spec(n: int) -> int {
    n + ((4 - n % 4) % 4)
}

/// Number of zero padding bytes that follow `n` content bytes on the wire.
pub open spec fn pad_len(n: int) -> int {
    (4 - n % 4) % 4
}

/// The aligned size is at least `n`, is a multiple of 4, adds less than 4
/// bytes, and equals `n` exactly when `n` is already a multiple of 4.
pub proof fn lemma_aligned_size_props(n: int)
    requires
        n >= 0,
    ensures
        aligned_size_spec(n) >= n,
        aligned_size_spec(n) % 4 == 0,
        aligned_size_spec(n) == n <==> n % 4 == 0,
        aligned_size_spec(n) < n + 4,
        aligned_size_spec(n) == n + pad_len(n),
{
    let r = n % 4;
    assert(0 <= r < 4);
    assert(n == 4 * (n / 4) + r);
    if r == 0 {
        assert(aligned_size_spec(n) == n);
    } else {
        assert(aligned_size_spec(n) == n + (4 - r));
        assert(n + (4 - r) == 4 * (n / 4) + 4);
        assert((4 * (n / 4) + 4) % 4 == 0) by {
            assert((4 * (n / 4) + 4) == 4 * (n / 4 + 1));
            assert(4 * (n / 4 + 1) % 4 == 0) by (nonlinear_arith);
        }
    }
}

/// Executable form of `aligned_size_spec`.
pub fn aligned_size(n: usize) -> (r: usize)
    requires
        n + 3 <= usize::MAX,
    ensures
        r as int == aligned_size_spec(n as int),
{
    let rem: usize = n % 4;
    if rem == 0 {
        n
    } else {
        n + (4 - rem)
    }
}

} // verus!
