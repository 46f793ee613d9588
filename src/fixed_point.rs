//! 32.32 fixed-point multiply and divide on unsigned 64-bit quantities.
use vstd::prelude::*;

verus! {

/// One in 32.32 fixed point.
pub const FP_32_ONE: u64 = 0x1_0000_0000;

/// The exact value of `a * b / 2^32`, rounded toward zero.
pub open spec fn fp32_mul_spec(a: u64, b_fp32: u64) -> int {
    (a as int * b_fp32 as int) / 0x1_0000_0000
}

/// The exact value of `a * 2^32 / b`, rounded toward zero.
pub open spec fn fp32_div_spec(a: u64, b_fp32: u64) -> int
    recommends
        b_fp32 != 0,
{
    (a as int * 0x1_0000_0000) / b_fp32 as int
}

/// Multiplies `a` by the 32.32 fraction `b_fp32`, truncating; `None` when the
/// product does not fit in 64 bits.
pub fn fp32_mul(a: u64, b_fp32: u64) -> (r: Option<u64>)
    ensures
        r is Some <==> fp32_mul_spec(a, b_fp32) <= u64::MAX,
        r matches Some(v) ==> v == fp32_mul_spec(a, b_fp32),
{
    assert((a as u128) * (b_fp32 as u128) <= u128::MAX) by (nonlinear_arith)
        requires
            a <= u64::MAX,
            b_fp32 <= u64::MAX,
    ;
    let prod: u128 = (a as u128) * (b_fp32 as u128);
    let shifted: u128 = prod >> 32u32;
    assert(shifted == prod / 0x1_0000_0000) by (bit_vector)
        requires
            shifted == prod >> 32u32,
    ;
    if shifted <= u64::MAX as u128 {
        Some(shifted as u64)
    } else {
        None
    }
}

/// Divides `a` by the 32.32 fraction `b_fp32`, truncating; `None` when
/// `b_fp32` is zero or the quotient does not fit in 64 bits.
pub fn fp32_div(a: u64, b_fp32: u64) -> (r: Option<u64>)
    ensures
        r is Some <==> (b_fp32 != 0 && fp32_div_spec(a, b_fp32) <= u64::MAX),
        r matches Some(v) ==> v == fp32_div_spec(a, b_fp32),
{
    if b_fp32 == 0 {
        return None;
    }
    let wide: u128 = (a as u128) << 32u32;
    assert(wide == a as u128 * 0x1_0000_0000) by (bit_vector)
        requires
            wide == (a as u128) << 32u32,
    ;
    let q: u128 = wide / (b_fp32 as u128);
    if q <= u64::MAX as u128 {
        Some(q as u64)
    } else {
        None
    }
}

} // verus!
