//! Square roots rounded down.
//!
//! A 16.16 number with raw bits `r` squares to a number whose raw bits, with
//! thirty-two fractional bits, are `r * r`. So the square root of the 32.32
//! number with raw bits `w`, rounded down to sixteen fractional bits, has as
//! raw bits the integer square root of `w`.

use vstd::prelude::*;

verus! {

/// Whether `r` is the square root of `w`, rounded down to an integer.
pub open spec fn is_floor_root(r: int, w: int) -> bool {
    0 <= r && r * r <= w < (r + 1) * (r + 1)
}

/// The square root of `w`, rounded down to an integer; meaningful for
/// `w >= 0`.
pub open spec fn floor_root(w: int) -> int {
    choose|r: int| is_floor_root(r, w)
}

/// A number has at most one rounded-down square root.
pub proof fn lemma_floor_root_unique(r: int, m: int, w: int)
    requires
        is_floor_root(r, w),
        is_floor_root(m, w),
    ensures
        r == m,
{
    if r < m {
        assert((r + 1) * (r + 1) <= m * m) by (nonlinear_arith)
            requires
                0 <= r + 1 <= m,
        ;
    }
    if m < r {
        assert((m + 1) * (m + 1) <= r * r) by (nonlinear_arith)
            requires
                0 <= m + 1 <= r,
        ;
    }
}

/// Whatever is a rounded-down square root of `w` is [`floor_root`] of `w`.
pub proof fn lemma_floor_root(r: int, w: int)
    requires
        is_floor_root(r, w),
    ensures
        floor_root(w) == r,
{
    lemma_floor_root_unique(floor_root(w), r, w);
}

/// The rounded-down square root of a square is the number squared.
pub proof fn lemma_floor_root_of_square(k: int)
    requires
        0 <= k,
    ensures
        floor_root(k * k) == k,
{
    assert(k * k < (k + 1) * (k + 1)) by (nonlinear_arith)
        requires
            0 <= k,
    ;
    lemma_floor_root(k, k * k);
}

/// The rounded-down square root of zero is zero.
pub proof fn lemma_floor_root_of_zero()
    ensures
        floor_root(0) == 0,
{
    assert(is_floor_root(0, 0)) by (nonlinear_arith);
    lemma_floor_root(0, 0);
}

/// From a root in the 32.32 format to the same root with sixteen fractional
/// bits: `big` is a root of `w` whose rounded square does not exceed `w`, and
/// which, for `w` of one and more, is the largest such number. Dropping its
/// sixteen low bits gives a number whose exact square does not exceed `w`, and
/// for `w` of one and more the rounded-down square root of `w`.
pub proof fn lemma_narrowed_root(big: int, w: int)
    requires
        0 <= big,
        0 <= w,
        (big * big) / 0x1_0000_0000 <= w,
        w >= 0x1_0000_0000 ==> ((big + 1) * (big + 1)) / 0x1_0000_0000 > w,
    ensures
        0 <= big / 65536,
        (big / 65536) * (big / 65536) <= w,
        w >= 0x1_0000_0000 ==> is_floor_root(big / 65536, w),
        w < 0x4000_0000_0000_0000 ==> big < 0x8000_0000_0000,
{
    let r = big / 65536;
    let low = 65536 * r;
    assert(0 <= low <= big < low + 65536);
    assert(big * big < (w + 1) * 0x1_0000_0000) by (nonlinear_arith)
        requires
            (big * big) / 0x1_0000_0000 <= w,
    ;
    assert(low * low <= big * big) by (nonlinear_arith)
        requires
            0 <= low <= big,
    ;
    assert(low * low == 0x1_0000_0000 * (r * r)) by (nonlinear_arith)
        requires
            low == 65536 * r,
    ;
    assert(r * r <= w) by (nonlinear_arith)
        requires
            0x1_0000_0000 * (r * r) < (w + 1) * 0x1_0000_0000,
    ;
    if w >= 0x1_0000_0000 {
        let high = 65536 * (r + 1);
        assert((big + 1) * (big + 1) >= (w + 1) * 0x1_0000_0000) by (nonlinear_arith)
            requires
                ((big + 1) * (big + 1)) / 0x1_0000_0000 > w,
        ;
        assert((big + 1) * (big + 1) <= high * high) by (nonlinear_arith)
            requires
                0 <= big + 1 <= high,
        ;
        assert(high * high == 0x1_0000_0000 * ((r + 1) * (r + 1))) by (nonlinear_arith)
            requires
                high == 65536 * (r + 1),
        ;
        assert(w < (r + 1) * (r + 1)) by (nonlinear_arith)
            requires
                0x1_0000_0000 * ((r + 1) * (r + 1)) >= (w + 1) * 0x1_0000_0000,
        ;
    }
    if w < 0x4000_0000_0000_0000 && big >= 0x8000_0000_0000 {
        assert(big * big >= 0x8000_0000_0000 * 0x8000_0000_0000) by (nonlinear_arith)
            requires
                big >= 0x8000_0000_0000,
        ;
        assert(false);
    }
}

} // verus!
