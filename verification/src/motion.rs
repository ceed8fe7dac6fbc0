//! How the ring of columns moves: its radius grows with the loudness, each
//! column eases toward the new radius, and the ring turns.

use crate::fixed::held;
use crate::fixed::toward_zero;
use crate::fixed::UNIT;
use vstd::prelude::*;

verus! {

/// The radius that the columns head for: the resting radius and on top of
/// it the mean magnitude times the scale strength, at most `i64::MAX`.
pub open spec fn radius_target(radius: nat, average: nat, strength: nat) -> int {
    held((radius + (strength * average) / (UNIT as nat)) as int, 0, i64::MAX as int)
}

/// A position after one step toward its target: the way to go, divided by
/// the threshold, is added. A threshold of one whole arrives at once, a
/// larger one eases, and one of zero leaves the position where it is. The
/// result stays within `i64`.
pub open spec fn eased(current: int, target: int, threshold: nat) -> int {
    if threshold == 0 {
        current
    } else {
        held(
            current + toward_zero((target - current) * UNIT, threshold as int),
            i64::MIN as int,
            i64::MAX as int,
        )
    }
}

/// The turn of one tick: against the rotation speed, none at speed zero.
pub open spec fn turn_of(rotation_speed: int) -> Option<int> {
    if rotation_speed == 0 {
        None
    } else {
        Some(-rotation_speed)
    }
}

/// With a threshold of one whole a step lands exactly on the target.
pub proof fn lemma_unit_threshold_arrives(current: int, target: int)
    requires
        i64::MIN <= target <= i64::MAX,
    ensures
        eased(current, target, UNIT as nat) == target,
{
    let way = target - current;
    if way >= 0 {
        assert((way * UNIT) / (UNIT as int) == way) by (nonlinear_arith)
            requires
                UNIT > 0,
        ;
    } else {
        assert((-(way * UNIT)) / (UNIT as int) == -way) by (nonlinear_arith)
            requires
                UNIT > 0,
        ;
    }
}

/// A step never passes a target that the threshold allows it to reach
/// at most: with a threshold of at least one whole, the new position lies
/// between the old one and the target.
pub proof fn lemma_easing_stays_between(current: int, target: int, threshold: nat)
    requires
        i64::MIN <= current <= i64::MAX,
        i64::MIN <= target <= i64::MAX,
        threshold >= UNIT,
    ensures
        current <= target ==> current <= eased(current, target, threshold) <= target,
        current >= target ==> target <= eased(current, target, threshold) <= current,
{
    let way = target - current;
    if way >= 0 {
        assert(0 <= (way * UNIT) / (threshold as int) <= way) by (nonlinear_arith)
            requires
                way >= 0,
                threshold >= UNIT,
                UNIT > 0,
        ;
    } else {
        assert(0 <= (-(way * UNIT)) / (threshold as int) <= -way) by (nonlinear_arith)
            requires
                way < 0,
                threshold >= UNIT,
                UNIT > 0,
        ;
    }
}

/// The radius that the columns head for.
pub fn scaled_radius(radius: u32, average: u32, strength: u64) -> (target: i64)
    ensures
        target == radius_target(radius as nat, average as nat, strength as nat),
        target >= 0,
{
    assert(strength as u128 * average as u128 <= u64::MAX as u128 * u32::MAX as u128)
        by (nonlinear_arith)
        requires
            strength <= u64::MAX,
            average <= u32::MAX,
    ;
    let growth: u128 = (strength as u128 * average as u128) / UNIT as u128;
    let wide: u128 = radius as u128 + growth;
    if wide > i64::MAX as u128 {
        i64::MAX
    } else {
        wide as i64
    }
}

/// One step of a position toward its target.
pub fn ease_toward(current: i64, target: i64, threshold: u32) -> (next: i64)
    ensures
        next == eased(current as int, target as int, threshold as nat),
{
    if threshold == 0 {
        return current;
    }
    if target >= current {
        let way: u128 = (target as i128 - current as i128) as u128;
        assert(way * UNIT <= 0x1_0000_0000_0000_0000 * UNIT) by (nonlinear_arith)
            requires
                way <= 0x1_0000_0000_0000_0000,
        ;
        let step: u128 = (way * UNIT as u128) / threshold as u128;
        assert(step <= way * UNIT) by (nonlinear_arith)
            requires
                step == (way * UNIT) / (threshold as int),
                threshold > 0,
                way >= 0,
        ;
        let wide: i128 = current as i128 + step as i128;
        if wide > i64::MAX as i128 {
            i64::MAX
        } else {
            wide as i64
        }
    } else {
        let way: u128 = (current as i128 - target as i128) as u128;
        assert(way * UNIT <= 0x1_0000_0000_0000_0000 * UNIT) by (nonlinear_arith)
            requires
                way <= 0x1_0000_0000_0000_0000,
        ;
        let step: u128 = (way * UNIT as u128) / threshold as u128;
        assert(step <= way * UNIT) by (nonlinear_arith)
            requires
                step == (way * UNIT) / (threshold as int),
                threshold > 0,
                way >= 0,
        ;
        assert(-((target - current) * UNIT) == way * UNIT) by (nonlinear_arith)
            requires
                way == current - target,
        ;
        let wide: i128 = current as i128 - step as i128;
        if wide < i64::MIN as i128 {
            i64::MIN
        } else {
            wide as i64
        }
    }
}

/// The turn of one tick, in millionths of a radian.
pub fn rotation_step(rotation_speed: i32) -> (turn: Option<i64>)
    ensures
        turn.is_some() <==> rotation_speed != 0,
        turn matches Some(angle) ==> turn_of(rotation_speed as int) == Some(angle as int),
{
    if rotation_speed == 0 {
        None
    } else {
        Some(-(rotation_speed as i64))
    }
}

} // verus!
