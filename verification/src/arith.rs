//! Integer arithmetic that reports a trap (overflow, division by zero)
//! instead of panicking, with Rust's truncating division.
use crate::ledger::fits_i128;
use crate::outcome::{Failure, PanicReason};
use vstd::prelude::*;

verus! {

/// The failure of an arithmetic overflow.
pub open spec fn overflow() -> Failure {
    Failure::Panic(PanicReason::ArithmeticOverflow)
}

/// The failure of an arithmetic overflow, as a value.
pub fn overflow_failure() -> (f: Failure)
    ensures
        f == overflow(),
{
    Failure::Panic(PanicReason::ArithmeticOverflow)
}

/// Integer division rounding toward zero, as Rust's `/` on signed integers.
pub open spec fn tdiv(x: int, d: int) -> int {
    if x == 0 {
        0
    } else if x > 0 && d > 0 {
        x / d
    } else if x < 0 && d < 0 {
        (x * -1) / (d * -1)
    } else if x < 0 {
        ((x * -1) / d) * -1
    } else {
        (x / (d * -1)) * -1
    }
}

/// `x` percent of `amount`, as `amount * x / 100` computes it.
pub open spec fn percent(amount: int, x: int) -> int {
    tdiv(amount * x, 100)
}

/// `percent(amount, x)` is computed without a trap.
pub open spec fn percent_fits(amount: int, x: int) -> bool {
    fits_i128(amount * x)
}

/// `a + b`, or the overflow trap.
pub fn plus(a: i128, b: i128) -> (r: Result<i128, Failure>)
    ensures
        match r {
            Ok(x) => fits_i128(a + b) && x == a + b,
            Err(f) => !fits_i128(a + b) && f == overflow(),
        },
{
    match a.checked_add(b) {
        Some(x) => Ok(x),
        None => Err(Failure::Panic(PanicReason::ArithmeticOverflow)),
    }
}

/// `a - b`, or the overflow trap.
pub fn minus(a: i128, b: i128) -> (r: Result<i128, Failure>)
    ensures
        match r {
            Ok(x) => fits_i128(a - b) && x == a - b,
            Err(f) => !fits_i128(a - b) && f == overflow(),
        },
{
    match a.checked_sub(b) {
        Some(x) => Ok(x),
        None => Err(Failure::Panic(PanicReason::ArithmeticOverflow)),
    }
}

/// `a * b`, or the overflow trap.
pub fn times(a: i128, b: i128) -> (r: Result<i128, Failure>)
    ensures
        match r {
            Ok(x) => fits_i128(a * b) && x == a * b,
            Err(f) => !fits_i128(a * b) && f == overflow(),
        },
{
    match a.checked_mul(b) {
        Some(x) => Ok(x),
        None => Err(Failure::Panic(PanicReason::ArithmeticOverflow)),
    }
}

/// `a / b` rounded toward zero, or the trap of a zero divisor or an overflow.
pub fn quot(a: i128, b: i128) -> (r: Result<i128, Failure>)
    ensures
        match r {
            Ok(x) => b != 0 && fits_i128(tdiv(a as int, b as int)) && x == tdiv(a as int, b as int),
            Err(f) => if b == 0 {
                f == Failure::Panic(PanicReason::DivisionByZero)
            } else {
                !fits_i128(tdiv(a as int, b as int)) && f == overflow()
            },
        },
{
    if b == 0 {
        return Err(Failure::Panic(PanicReason::DivisionByZero));
    }
    match a.checked_div(b) {
        Some(x) => Ok(x),
        None => Err(Failure::Panic(PanicReason::ArithmeticOverflow)),
    }
}

/// `amount * x / 100`, or the overflow trap.
pub fn percent_of(amount: i128, x: i128) -> (r: Result<i128, Failure>)
    ensures
        match r {
            Ok(v) => percent_fits(amount as int, x as int) && v == percent(amount as int, x as int),
            Err(f) => !percent_fits(amount as int, x as int) && f == overflow(),
        },
{
    let p = times(amount, x)?;
    let r = quot(p, 100);
    assert(fits_i128(tdiv(p as int, 100))) by (nonlinear_arith)
        requires
            fits_i128(p as int),
    {
    }
    r
}

/// `a + b` on `u32`, or the overflow trap.
pub fn add_u32(a: u32, b: u32) -> (r: Result<u32, Failure>)
    ensures
        match r {
            Ok(x) => a + b <= u32::MAX && x == a + b,
            Err(f) => a + b > u32::MAX && f == overflow(),
        },
{
    match a.checked_add(b) {
        Some(x) => Ok(x),
        None => Err(Failure::Panic(PanicReason::ArithmeticOverflow)),
    }
}

} // verus!
