//! Exact integer arithmetic for the camera: saturation to the `i64` range
//! and division that rounds toward negative infinity, so that world
//! coordinates on either side of zero map to distinct, contiguous cells.

use vstd::arithmetic::div_mod::{lemma_fundamental_div_mod, lemma_fundamental_div_mod_converse};
use vstd::prelude::*;

verus! {

/// An unbounded integer clamped to the `i64` range.
pub open spec fn clip_i64(v: int) -> int {
    if v > i64::MAX {
        i64::MAX as int
    } else if v < i64::MIN {
        i64::MIN as int
    } else {
        v
    }
}

/// Division rounding toward negative infinity.  Ghost `/` is Euclidean
/// division, which agrees with flooring for a positive divisor; negating
/// both operands reduces a negative divisor to that case.
pub open spec fn floor_div(a: int, b: int) -> int
    recommends
        b != 0,
{
    if b < 0 {
        (-a) / (-b)
    } else {
        a / b
    }
}

/// `a + b - c`, saturated at the ends of the `i64` range.
pub fn sat_add_sub(a: i64, b: i64, c: i64) -> (r: i64)
    ensures
        r == clip_i64(a + b - c),
{
    let v: i128 = a as i128 + b as i128 - c as i128;
    if v > i64::MAX as i128 {
        i64::MAX
    } else if v < i64::MIN as i128 {
        i64::MIN
    } else {
        v as i64
    }
}

/// A wide intermediate value clamped back to the `i64` range.
pub fn clip_i128_to_i64(v: i128) -> (r: i64)
    ensures
        r == clip_i64(v as int),
{
    if v > i64::MAX as i128 {
        i64::MAX
    } else if v < i64::MIN as i128 {
        i64::MIN
    } else {
        v as i64
    }
}

/// Floor division on wide intermediates.  The operand bounds keep every
/// intermediate value inside the `i128`/`u128` ranges; the camera only ever
/// divides values well below them.
pub fn floor_div_i128(a: i128, b: i128) -> (q: i128)
    requires
        b != 0,
        -0x4000_0000_0000_0000_0000_0000_0000_0000 <= a
            <= 0x4000_0000_0000_0000_0000_0000_0000_0000,
        -0x4000_0000_0000_0000_0000_0000_0000_0000 <= b
            <= 0x4000_0000_0000_0000_0000_0000_0000_0000,
    ensures
        q == floor_div(a as int, b as int),
{
    let (aa, bb): (i128, i128) = if b < 0 {
        (-a, -b)
    } else {
        (a, b)
    };
    proof {
        assert(floor_div(a as int, b as int) == aa as int / bb as int);
    }
    if aa >= 0 {
        let q0: u128 = (aa as u128) / (bb as u128);
        proof {
            assert(q0 == aa as int / bb as int);
            assert(q0 <= aa) by {
                lemma_fundamental_div_mod(aa as int, bb as int);
                assert(aa as int == bb as int * (aa as int / bb as int) + aa as int % bb as int);
                assert(bb as int * (aa as int / bb as int) >= 1 * (aa as int / bb as int))
                    by (nonlinear_arith)
                    requires
                        bb >= 1,
                        aa as int / bb as int >= 0,
                ;
            }
        }
        q0 as i128
    } else {
        let n: u128 = (-aa) as u128;
        let q0: u128 = (n + (bb as u128) - 1) / (bb as u128);
        proof {
            let ae = aa as int;
            let be = bb as int;
            let qe = ae / be;
            let re = ae % be;
            lemma_fundamental_div_mod(ae, be);
            assert(ae == be * qe + re);
            assert(0 <= re < be);
            assert((-qe) * be == -(be * qe)) by (nonlinear_arith);
            // n + bb - 1 == (-qe) * be + (be - 1 - re), with the remainder in range
            lemma_fundamental_div_mod_converse(n as int + be - 1, be, -qe, be - 1 - re);
            assert((n as int + be - 1) / be == -qe);
            assert(q0 == -qe);
            assert(qe <= 0) by {
                assert(be * qe == ae - re);
                assert(ae - re < 0);
                assert(qe > 0 ==> be * qe >= be * 1) by (nonlinear_arith)
                    requires
                        be >= 1,
                ;
            }
            assert(be * (-qe) == -(be * qe)) by (nonlinear_arith);
            assert(be * (-qe) == n as int + re);
            assert(-qe <= n as int + re) by {
                assert(be * (-qe) >= 1 * (-qe)) by (nonlinear_arith)
                    requires
                        be >= 1,
                        -qe >= 0,
                ;
            }
            assert(q0 < 0x8000_0000_0000_0000_0000_0000_0000_0000);
        }
        -(q0 as i128)
    }
}

} // verus!
