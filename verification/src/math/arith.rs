use vstd::prelude::*;

verus! {

/// `v as i32` in Rust for a `u32`: the two's-complement reinterpretation.
pub open spec fn u32_as_i32(v: u32) -> int {
    if v <= i32::MAX { v as int } else { v - 0x1_0000_0000 }
}

/// Integer division truncating toward zero, as Rust's `/` on signed integers.
pub open spec fn tdiv(a: int, b: int) -> int
    recommends b != 0,
{
    if a >= 0 {
        if b > 0 { a / b } else { -(a / (-b)) }
    } else {
        if b > 0 { -((-a) / b) } else { (-a) / (-b) }
    }
}

/// The remainder of Rust's `%` on signed integers (sign of the dividend).
pub open spec fn trem(a: int, b: int) -> int
    recommends b != 0,
{
    a - b * tdiv(a, b)
}

/// Half of a `u32` size as Rust computes `(size as i32) / 2`.
pub open spec fn half_size(v: u32) -> int {
    tdiv(u32_as_i32(v), 2)
}

pub fn u32_to_i32(v: u32) -> (r: i32)
    ensures
        r == u32_as_i32(v),
{
    #[verifier::truncate]
    let r = v as i32;
    assert(r == u32_as_i32(v)) by (bit_vector)
        requires r == v as i32;
    r
}

} // verus!
