use vstd::prelude::*;

verus! {

/// Absolute value over the integers.
pub open spec fn abs_int(a: int) -> int {
    if a < 0 {
        -a
    } else {
        a
    }
}

/// Integer division rounding toward zero, as Rust's `/` on signed integers does.
pub open spec fn trunc_div(a: int, b: int) -> int {
    if (a < 0) == (b < 0) {
        abs_int(a) / abs_int(b)
    } else {
        -(abs_int(a) / abs_int(b))
    }
}

/// The smaller of two integers.
pub open spec fn min_of(a: int, b: int) -> int {
    if a < b {
        a
    } else {
        b
    }
}

/// The larger of two integers.
pub open spec fn max_of(a: int, b: int) -> int {
    if a < b {
        b
    } else {
        a
    }
}

/// Dividing, toward zero, a number between `lo * b` and `hi * b` by a positive `b` gives a
/// number between `lo` and `hi`.
pub proof fn lemma_trunc_div_between(a: int, b: int, lo: int, hi: int)
    requires
        b > 0,
        lo * b <= a <= hi * b,
    ensures
        lo <= trunc_div(a, b) <= hi,
{
    if a >= 0 {
        assert(lo <= a / b <= hi) by (nonlinear_arith)
            requires
                b > 0,
                a >= 0,
                lo * b <= a <= hi * b,
        ;
    } else {
        let m = -a;
        assert(-hi <= m / b <= -lo) by (nonlinear_arith)
            requires
                b > 0,
                m > 0,
                -(hi * b) <= m <= -(lo * b),
        ;
    }
}

/// `a / b` on `i32`, rounding toward zero.
pub fn div_toward_zero(a: i32, b: i32) -> (r: i32)
    requires
        b != 0,
        !(a == i32::MIN && b == -1),
    ensures
        r == trunc_div(a as int, b as int),
{
    let ua: u32 = if a < 0 { (0i64 - a as i64) as u32 } else { a as u32 };
    let ub: u32 = if b < 0 { (0i64 - b as i64) as u32 } else { b as u32 };
    let q: u32 = ua / ub;
    assert(q <= ua) by (nonlinear_arith)
        requires
            ub >= 1,
            q == ua / ub,
    ;
    assert(ub >= 2 ==> q * 2 <= ua) by (nonlinear_arith)
        requires
            ub >= 1,
            q == ua / ub,
    ;
    if (a < 0) == (b < 0) {
        q as i32
    } else {
        (0i64 - q as i64) as i32
    }
}

/// Whether `n` is a multiple of five (negative numbers included).
pub fn is_multiple_of_five(n: i32) -> (r: bool)
    ensures
        r == (n % 5 == 0),
{
    let r = if n >= 0 {
        (n as u32) % 5 == 0
    } else {
        ((0i64 - n as i64) as u64) % 5 == 0
    };
    assert(r == (n % 5 == 0)) by (nonlinear_arith)
        requires
            n >= 0 ==> r == ((n as u32) % 5 == 0),
            n < 0 ==> r == (((0i64 - n as i64) as u64) % 5 == 0),
            -0x1_0000_0000 < n < 0x1_0000_0000,
    ;
    r
}

} // verus!
