//! Doubles by their bits: the few comparisons that decisions rest on.
use vstd::prelude::*;

verus! {

/// The bits of one half.
pub const HALF: u64 = 0x3FE0000000000000;

/// The bits of one.
pub const ONE: u64 = 0x3FF0000000000000;

/// The bits of zero.
pub const ZERO: u64 = 0;

/// The bits of minus zero.
pub const MINUS_ZERO: u64 = 0x8000000000000000;

/// The bits of infinity.
pub const INFINITY: u64 = 0x7FF0000000000000;

/// The bits of minus infinity.
pub const MINUS_INFINITY: u64 = 0xFFF0000000000000;

/// Whether a double is zero, of either sign.
pub fn is_zero(bits: u64) -> (r: bool)
    ensures
        r == zero(bits),
{
    bits == ZERO || bits == MINUS_ZERO
}

/// Whether a double is zero, of either sign.
pub open spec fn zero(bits: u64) -> bool {
    bits == ZERO || bits == MINUS_ZERO
}

/// Whether a double is more than one half. The bits of positive doubles are
/// ordered as the doubles are; those above infinity are no numbers.
pub open spec fn over_half(bits: u64) -> bool {
    HALF < bits <= INFINITY
}

/// Whether a double is less than one half: a smaller positive one or zero, or any
/// negative one.
pub open spec fn under_half(bits: u64) -> bool {
    bits < HALF || MINUS_ZERO <= bits <= MINUS_INFINITY
}

/// Whether a double is more than one half.
pub fn is_over_half(bits: u64) -> (r: bool)
    ensures
        r == over_half(bits),
{
    HALF < bits && bits <= INFINITY
}

/// Whether a double is less than one half.
pub fn is_under_half(bits: u64) -> (r: bool)
    ensures
        r == under_half(bits),
{
    bits < HALF || (MINUS_ZERO <= bits && bits <= MINUS_INFINITY)
}

/// `a / d`, to the nearest whole number, and to the even one of two equally near.
pub open spec fn nearest(a: nat, d: nat) -> nat {
    let q = a / d;
    let r = a % d;
    if 2 * r > d || (2 * r == d && q % 2 == 1) {
        q + 1
    } else {
        q
    }
}

/// How far apart the doubles are around a whole number, when that is more than 1.
pub open spec fn spacing(n: nat) -> nat
    decreases n,
{
    if n < 0x20000000000000 {
        1
    } else {
        2 * spacing(n / 2)
    }
}

/// The double nearest to a whole number, which is itself a whole number.
pub open spec fn as_double(n: nat) -> nat {
    nearest(n, spacing(n)) * spacing(n)
}

fn nearest_of(a: u128, d: u128) -> (r: u128)
    requires
        0 < d <= 0x10000000000000000,
    ensures
        r == nearest(a as nat, d as nat),
        r <= a + 1,
{
    let q: u128 = a / d;
    let m: u128 = a % d;
    assert(q <= a && (d > 1 || m == 0)) by (nonlinear_arith)
        requires
            d > 0,
            q == a / d,
            m == a % d,
    ;
    assert(d > 1 ==> 2 * q <= a) by (nonlinear_arith)
        requires
            d > 0,
            q == a / d,
    ;
    if 2 * m > d || (2 * m == d && q % 2 == 1) {
        q + 1
    } else {
        q
    }
}

/// The distance of the doubles around a number below 2^64.
fn spacing_of(n: u64) -> (r: u128)
    ensures
        r == spacing(n as nat),
        1 <= r <= 2048,
        n / r as u64 <= 0x20000000000000,
{
    let mut left: u64 = n;
    let mut unit: u128 = 1;
    let mut steps: u64 = 0;
    let mut top: u64 = 0xFFFFFFFFFFFFFFFF;
    assert(n / 1 == n);
    while left >= 0x20000000000000
        invariant
            spacing(n as nat) == unit * spacing(left as nat),
            left <= top,
            steps <= 11,
            1 <= unit <= 2048,
            (steps == 0 && top == 0xFFFFFFFFFFFFFFFF && unit == 1) || (steps == 1 && top
                == 0x7FFFFFFFFFFFFFFF && unit == 2) || (steps == 2 && top == 0x3FFFFFFFFFFFFFFF
                && unit == 4) || (steps == 3 && top == 0x1FFFFFFFFFFFFFFF && unit == 8) || (steps
                == 4 && top == 0x0FFFFFFFFFFFFFFF && unit == 16) || (steps == 5 && top
                == 0x07FFFFFFFFFFFFFF && unit == 32) || (steps == 6 && top == 0x03FFFFFFFFFFFFFF
                && unit == 64) || (steps == 7 && top == 0x01FFFFFFFFFFFFFF && unit == 128) || (steps
                == 8 && top == 0x00FFFFFFFFFFFFFF && unit == 256) || (steps == 9 && top
                == 0x007FFFFFFFFFFFFF && unit == 512) || (steps == 10 && top == 0x003FFFFFFFFFFFFF
                && unit == 1024) || (steps == 11 && top == 0x001FFFFFFFFFFFFF && unit == 2048),
            left == n / unit as u64,
        decreases left,
    {
        proof {
            assert(steps < 11);
            assert(spacing(left as nat) == 2 * spacing((left / 2) as nat));
            assert(unit * (2 * spacing((left / 2) as nat)) == (unit * 2) * spacing(
                (left / 2) as nat,
            )) by (nonlinear_arith);
            assert(n / (unit as u64) / 2 == n / ((unit * 2) as u64)) by (nonlinear_arith)
                requires
                    1 <= unit <= 1024,
            ;
        }
        left = left / 2;
        unit = unit * 2;
        steps = steps + 1;
        top = top / 2;
    }
    assert(unit * 1 == unit);
    unit
}

/// The double nearest to a number below 2^64.
pub fn to_double(n: u64) -> (r: u128)
    ensures
        r == as_double(n as nat),
        r <= 0x10000000000000000 + 4096,
{
    let unit: u128 = spacing_of(n);
    let q: u128 = nearest_of(n as u128, unit);
    proof {
        assert(q <= n / (unit as u64) + 1);
        assert(q * unit <= n + unit) by (nonlinear_arith)
            requires
                q <= n / (unit as u64) + 1,
                1 <= unit <= 2048,
        ;
    }
    q * unit
}

/// A fraction `a / d` to the nearest whole number.
pub fn rounded(a: u128, d: u64) -> (r: u128)
    requires
        d > 0,
    ensures
        r == nearest(a as nat, d as nat),
{
    nearest_of(a, d as u128)
}

/// One half is neither more nor less than one half; one is more and zero is less, and no
/// double is both.
pub proof fn halves_are_told_apart(bits: u64)
    ensures
        !(over_half(bits) && under_half(bits)),
        !over_half(HALF) && !under_half(HALF),
        over_half(ONE) && !under_half(ONE),
        zero(bits) ==> under_half(bits),
        zero(ZERO) && !zero(ONE) && !zero(HALF),
        HALF < bits <= ONE ==> over_half(bits),
        bits < HALF ==> under_half(bits),
{
}

} // verus!
