//! The numeric order of `f64` values, read from their IEEE-754 bit patterns.
use vstd::prelude::*;

verus! {

/// The sign bit of a 64-bit IEEE-754 pattern.
pub const SIGN_BIT: u64 = 0x8000_0000_0000_0000;

/// The pattern of positive infinity: exponent all ones, mantissa zero.
pub const INFINITY_BITS: u64 = 0x7FF0_0000_0000_0000;

/// The pattern of `+0.0`.
pub const ZERO_BITS: u64 = 0;

/// A pattern is NaN when its magnitude lies above that of infinity.
pub open spec fn is_nan(bits: u64) -> bool {
    bits % SIGN_BIT > INFINITY_BITS
}

/// An integer that orders non-NaN patterns as their numbers: magnitudes
/// order as integers, negative numbers below zero, and `-0.0` equal to `+0.0`.
pub open spec fn order_key(bits: u64) -> int {
    if bits >= SIGN_BIT {
        -((bits - SIGN_BIT) as int)
    } else {
        bits as int
    }
}

/// `a <= b` on the numbers that the patterns encode (false when either is NaN).
pub open spec fn float_le(a: u64, b: u64) -> bool {
    !is_nan(a) && !is_nan(b) && order_key(a) <= order_key(b)
}

/// `a < b` on the numbers that the patterns encode (false when either is NaN).
pub open spec fn float_lt(a: u64, b: u64) -> bool {
    !is_nan(a) && !is_nan(b) && order_key(a) < order_key(b)
}

/// Whether `bits` encodes NaN.
pub fn is_nan_bits(bits: u64) -> (r: bool)
    ensures
        r == is_nan(bits),
{
    bits % SIGN_BIT > INFINITY_BITS
}

fn order_key_of(bits: u64) -> (r: i64)
    ensures
        r as int == order_key(bits),
{
    if bits >= SIGN_BIT {
        -((bits - SIGN_BIT) as i64)
    } else {
        bits as i64
    }
}

/// Compares two `f64` patterns as numbers: `a <= b`.
pub fn le_bits(a: u64, b: u64) -> (r: bool)
    ensures
        r == float_le(a, b),
{
    !is_nan_bits(a) && !is_nan_bits(b) && order_key_of(a) <= order_key_of(b)
}

/// Whether the bounds ascend strictly and none of them is NaN.
pub open spec fn strictly_ascending(bounds: Seq<u64>) -> bool {
    &&& forall|i: int| 0 <= i < bounds.len() ==> !is_nan(#[trigger] bounds[i])
    &&& forall|i: int, j: int| 0 <= i < j < bounds.len() ==> float_lt(bounds[i], bounds[j])
}

/// `i` is the bucket of `x` under `bounds`: the first bucket whose bound is at
/// least `x`, or the overflow bucket `bounds.len()` when no bound is.
pub open spec fn is_bucket(bounds: Seq<u64>, x: u64, i: int) -> bool {
    &&& 0 <= i <= bounds.len()
    &&& forall|j: int| 0 <= j < i ==> !float_le(x, #[trigger] bounds[j])
    &&& i < bounds.len() ==> float_le(x, bounds[i])
}

/// The bucket that an observation `x` falls in (see `is_bucket`).
pub fn bucket_index(bounds: &Vec<u64>, x: u64) -> (r: usize)
    ensures
        is_bucket(bounds@, x, r as int),
{
    let mut i: usize = 0;
    while i < bounds.len()
        invariant
            0 <= i <= bounds.len(),
            forall|j: int| 0 <= j < i ==> !float_le(x, #[trigger] bounds@[j]),
        decreases bounds.len() - i,
    {
        if le_bits(x, bounds[i]) {
            return i;
        }
        i = i + 1;
    }
    i
}

/// Every observation falls in exactly one bucket. For strictly ascending,
/// non-NaN bounds `b` and a non-NaN `x`, that bucket `i` is the one with
/// `b[i-1] < x <= b[i]`, where bucket 0 has no lower bound and the overflow
/// bucket `b.len()` no upper bound.
pub proof fn lemma_bucket_unique(bounds: Seq<u64>, x: u64, i: int, k: int)
    requires
        is_bucket(bounds, x, i),
        is_bucket(bounds, x, k),
    ensures
        i == k,
{
    if i < k {
        assert(!float_le(x, bounds[i]));
    } else if k < i {
        assert(!float_le(x, bounds[k]));
    }
}

/// Under strictly ascending bounds, the bucket of a non-NaN `x` is the
/// interval `(b[i-1], b[i]]` that holds it.
pub proof fn lemma_bucket_interval(bounds: Seq<u64>, x: u64, i: int)
    requires
        strictly_ascending(bounds),
        !is_nan(x),
        0 <= i <= bounds.len(),
    ensures
        is_bucket(bounds, x, i) <==> ((i == 0 || float_lt(bounds[i - 1], x)) && (i
            == bounds.len() || float_le(x, bounds[i]))),
{
    if (i == 0 || float_lt(bounds[i - 1], x)) && (i == bounds.len() || float_le(x, bounds[i])) {
        assert forall|j: int| 0 <= j < i implies !float_le(x, #[trigger] bounds[j]) by {
            if j < i - 1 {
                assert(float_lt(bounds[j], bounds[i - 1]));
            }
            assert(!is_nan(bounds[j]));
        }
    }
    if is_bucket(bounds, x, i) && i > 0 {
        assert(!float_le(x, bounds[i - 1]));
        assert(!is_nan(bounds[i - 1]));
    }
}

} // verus!
