//! Fixed-point arithmetic: every magnitude, height, position and frequency
//! of this library is an integer count of millionths.

use vstd::prelude::*;

verus! {

/// One whole, in millionths.
pub const UNIT: u32 = 1_000_000;

/// A full turn in millionths of a radian, rounded down.
pub const FULL_TURN: u64 = 6_283_185;

/// `a * b / c` on mathematical integers, rounded down; zero where `c` is zero.
pub open spec fn scaled(a: nat, b: nat, c: nat) -> nat {
    if c == 0 {
        0
    } else {
        (a * b) / c
    }
}

/// A value held within two bounds.
pub open spec fn held(value: int, low: int, high: int) -> int {
    if value < low {
        low
    } else if value > high {
        high
    } else {
        value
    }
}

/// The quotient of a signed value by a positive one, rounded toward zero.
pub open spec fn toward_zero(value: int, by: int) -> int {
    if value >= 0 {
        value / by
    } else {
        -((-value) / by)
    }
}

/// Two to the power of `exponent`.
pub open spec fn two_to(exponent: nat) -> nat
    decreases exponent,
{
    if exponent == 0 {
        1
    } else {
        2 * two_to((exponent - 1) as nat)
    }
}

/// Whether a number is a power of two.
pub open spec fn power_of_two(number: nat) -> bool {
    exists|exponent: nat| number == two_to(exponent)
}

/// Powers of two rise with their exponent.
pub proof fn lemma_two_to_rises(low: nat, high: nat)
    requires
        low <= high,
    ensures
        0 < two_to(low) <= two_to(high),
        low < high ==> 2 * two_to(low) <= two_to(high),
    decreases high,
{
    if low < high {
        lemma_two_to_rises(low, (high - 1) as nat);
    } else if high > 0 {
        lemma_two_to_rises((low - 1) as nat, (high - 1) as nat);
    }
}

/// `a * b / c` without intermediate overflow, cut off at `u64::MAX`;
/// zero where `c` is zero.
pub fn mul_div(a: u64, b: u32, c: u32) -> (quotient: u64)
    ensures
        quotient == held(scaled(a as nat, b as nat, c as nat) as int, 0, u64::MAX as int),
{
    if c == 0 {
        return 0;
    }
    assert(a as u128 * b as u128 <= u64::MAX as u128 * u32::MAX as u128) by (nonlinear_arith)
        requires
            a <= u64::MAX,
            b <= u32::MAX,
    ;
    let product: u128 = a as u128 * b as u128;
    let wide: u128 = product / c as u128;
    if wide > u64::MAX as u128 {
        u64::MAX
    } else {
        wide as u64
    }
}

/// Two to the power of `exponent`, for an exponent below 32.
pub fn pow2(exponent: usize) -> (power: usize)
    requires
        exponent < 32,
    ensures
        power == two_to(exponent as nat),
        0 < power <= 0x8000_0000,
{
    let mut power: usize = 1;
    let mut done: usize = 0;
    assert(two_to(31) == 0x8000_0000) by {
        reveal_with_fuel(two_to, 32);
    }
    while done < exponent
        invariant
            done <= exponent < 32,
            power == two_to(done as nat),
            0 < power,
            two_to(31) == 0x8000_0000,
        decreases exponent - done,
    {
        proof {
            lemma_two_to_rises((done + 1) as nat, 31);
        }
        power = power * 2;
        done = done + 1;
    }
    proof {
        lemma_two_to_rises(exponent as nat, 31);
    }
    power
}

/// Whether `number` is a power of two.
pub fn is_power_of_two(number: usize) -> (answer: bool)
    ensures
        answer <==> power_of_two(number as nat),
{
    let mut power: usize = 1;
    let ghost mut exponent: nat = 0;
    while power < number && power <= usize::MAX / 2
        invariant
            0 < power,
            power == two_to(exponent),
            forall|lower: nat| lower < exponent ==> #[trigger] two_to(lower) < number,
        decreases usize::MAX - power,
    {
        power = power * 2;
        proof {
            exponent = exponent + 1;
        }
    }
    proof {
        if power != number {
            assert forall|other: nat| number != #[trigger] two_to(other) by {
                if other >= exponent {
                    lemma_two_to_rises(exponent, other);
                }
            }
        }
    }
    power == number
}

} // verus!
