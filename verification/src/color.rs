//! The colour transition: a progress that swings between the primary and
//! the secondary colour, and the colour it gives at each tick.

use crate::fixed::held;
use crate::fixed::toward_zero;
use crate::fixed::UNIT;
use crate::settings::Rgba;
use vstd::prelude::*;

verus! {

/// The speed after the turn at either end: a progress above one whole that
/// still rises, or one below zero that still falls, reverses the speed.
pub open spec fn turned(progress: int, speed: int) -> int {
    if (progress > UNIT && speed > 0) || (progress < 0 && speed < 0) {
        held(-speed, i32::MIN as int, i32::MAX as int)
    } else {
        speed
    }
}

/// The progress after one tick.
pub open spec fn advanced(progress: int, speed: int) -> int {
    held(progress + turned(progress, speed), i32::MIN as int, i32::MAX as int)
}

/// The value `progress` of the way from `from` to `to`.
pub open spec fn blended(from: int, to: int, progress: int) -> int {
    from + toward_zero((to - from) * progress, UNIT as int)
}

/// A channel times a brightness factor, within `i32`.
pub open spec fn lit(channel: int, factor: int) -> int {
    held(toward_zero(channel * factor, UNIT as int), i32::MIN as int, i32::MAX as int)
}

/// The colour `progress` of the way from one colour to another, its three
/// colour channels times the brightness factor. The opacity is blended and
/// not brightened.
pub open spec fn mixed(primary: Rgba, secondary: Rgba, progress: int, factor: int) -> Rgba {
    Rgba {
        r: lit(blended(primary.r as int, secondary.r as int, progress), factor) as i32,
        g: lit(blended(primary.g as int, secondary.g as int, progress), factor) as i32,
        b: lit(blended(primary.b as int, secondary.b as int, progress), factor) as i32,
        a: held(
            blended(primary.a as int, secondary.a as int, progress),
            i32::MIN as int,
            i32::MAX as int,
        ) as i32,
    }
}

/// A colour at a brightness factor: its three colour channels times the
/// factor, its opacity as it is.
pub open spec fn brightened(color: Rgba, factor: int) -> Rgba {
    Rgba {
        r: lit(color.r as int, factor) as i32,
        g: lit(color.g as int, factor) as i32,
        b: lit(color.b as int, factor) as i32,
        a: color.a,
    }
}

/// One colour of the display in transition.
#[derive(Debug, Clone, Copy, PartialEq, Eq, Structural)]
pub struct Transition {
    pub progress: i32,
    pub speed: i32,
    pub color: Rgba,
}

/// A transition after one tick. While it is enabled, the speed turns at
/// the ends, the progress moves on by it, and the colour and its
/// brightness are blended at the new progress. While it is not, progress
/// and speed rest and the colour is the primary one at its own brightness.
pub open spec fn stepped(
    enabled: bool,
    progress: int,
    speed: int,
    primary: Rgba,
    secondary: Rgba,
    primary_factor: int,
    secondary_factor: int,
) -> Transition {
    if enabled {
        let next = advanced(progress, speed);
        Transition {
            progress: next as i32,
            speed: turned(progress, speed) as i32,
            color: mixed(
                primary,
                secondary,
                next,
                blended(primary_factor, secondary_factor, next),
            ),
        }
    } else {
        Transition {
            progress: progress as i32,
            speed: speed as i32,
            color: brightened(primary, primary_factor),
        }
    }
}

/// At progress zero the blend is its start, at one whole its end.
pub proof fn lemma_blend_ends(from: int, to: int)
    ensures
        blended(from, to, 0) == from,
        blended(from, to, UNIT as int) == to,
{
    let way = to - from;
    assert(way * 0 == 0) by (nonlinear_arith);
    if way >= 0 {
        assert((way * UNIT) / (UNIT as int) == way) by (nonlinear_arith)
            requires
                UNIT > 0,
        ;
    } else {
        assert((-(way * UNIT)) / (UNIT as int) == -way) by (nonlinear_arith)
            requires
                UNIT > 0,
        ;
    }
}

/// A progress within one step of the span from zero to one whole stays
/// within one step of it.
pub proof fn lemma_progress_swings(progress: int, speed: int)
    requires
        -UNIT <= speed <= UNIT,
        -UNIT <= progress <= 2 * UNIT,
    ensures
        -UNIT <= advanced(progress, speed) <= 2 * UNIT,
        turned(progress, speed) == speed || turned(progress, speed) == -speed,
        progress > UNIT ==> advanced(progress, speed) <= progress,
        progress < 0 ==> advanced(progress, speed) >= progress,
{
}

/// The quotient of a signed value by a positive one, rounded toward zero.
fn div_toward_zero(value: i128, by: u32) -> (quotient: i128)
    requires
        by > 0,
        value > i128::MIN,
    ensures
        quotient == toward_zero(value as int, by as int),
{
    if value >= 0 {
        ((value as u128) / by as u128) as i128
    } else {
        let magnitude: u128 = (-value) as u128;
        -((magnitude / by as u128) as i128)
    }
}

/// A value held within `i32`.
fn hold(value: i128) -> (kept: i32)
    ensures
        kept == held(value as int, i32::MIN as int, i32::MAX as int),
{
    if value < i32::MIN as i128 {
        i32::MIN
    } else if value > i32::MAX as i128 {
        i32::MAX
    } else {
        value as i32
    }
}

/// The value `progress` of the way from `from` to `to`.
fn blend(from: i32, to: i32, progress: i32) -> (value: i64)
    ensures
        value == blended(from as int, to as int, progress as int),
        -0x4000_0000_0000_0000 <= value <= 0x4000_0000_0000_0000,
{
    let way: i128 = to as i128 - from as i128;
    assert(-0x8000_0000_0000_0000 <= way * progress <= 0x8000_0000_0000_0000)
        by (nonlinear_arith)
        requires
            -0x1_0000_0000 <= way <= 0x1_0000_0000,
            -0x8000_0000 <= progress <= 0x8000_0000,
    ;
    let product: i128 = way * progress as i128;
    let part = div_toward_zero(product, UNIT);
    assert(-0x8000_0000_0000_0000 <= part * 1 <= 0x8000_0000_0000_0000 && (part * 1000000
        <= 0x8000_0000_0000_0000) && (part * 1000000 >= -0x8000_0000_0000_0000))
        by (nonlinear_arith)
        requires
            part == toward_zero(product as int, 1000000),
            -0x8000_0000_0000_0000 <= product <= 0x8000_0000_0000_0000,
    ;
    (from as i128 + part) as i64
}

/// A channel times a brightness factor, within `i32`.
fn light(channel: i64, factor: i64) -> (value: i32)
    ensures
        value == lit(channel as int, factor as int),
{
    assert(-0x4000_0000_0000_0000_0000_0000_0000_0000 <= channel * factor
        <= 0x4000_0000_0000_0000_0000_0000_0000_0000) by (nonlinear_arith)
        requires
            -0x8000_0000_0000_0000 <= channel <= 0x8000_0000_0000_0000,
            -0x8000_0000_0000_0000 <= factor <= 0x8000_0000_0000_0000,
    ;
    let product: i128 = channel as i128 * factor as i128;
    hold(div_toward_zero(product, UNIT))
}

/// The colour `progress` of the way from one colour to another, its three
/// colour channels times the brightness factor.
fn mix(primary: Rgba, secondary: Rgba, progress: i32, factor: i64) -> (color: Rgba)
    ensures
        color == mixed(primary, secondary, progress as int, factor as int),
{
    Rgba {
        r: light(blend(primary.r, secondary.r, progress), factor),
        g: light(blend(primary.g, secondary.g, progress), factor),
        b: light(blend(primary.b, secondary.b, progress), factor),
        a: hold(blend(primary.a, secondary.a, progress) as i128),
    }
}

/// One tick of a colour transition.
pub fn transition_step(
    enabled: bool,
    progress: i32,
    speed: i32,
    primary: Rgba,
    secondary: Rgba,
    primary_factor: i32,
    secondary_factor: i32,
) -> (next: Transition)
    ensures
        next == stepped(
            enabled,
            progress as int,
            speed as int,
            primary,
            secondary,
            primary_factor as int,
            secondary_factor as int,
        ),
{
    if enabled {
        let turns = (progress > UNIT as i32 && speed > 0) || (progress < 0 && speed < 0);
        let new_speed = if turns {
            hold(-(speed as i128))
        } else {
            speed
        };
        let new_progress = hold(progress as i128 + new_speed as i128);
        let factor = blend(primary_factor, secondary_factor, new_progress);
        Transition {
            progress: new_progress,
            speed: new_speed,
            color: mix(primary, secondary, new_progress, factor),
        }
    } else {
        proof {
            lemma_blend_ends(primary.r as int, secondary.r as int);
            lemma_blend_ends(primary.g as int, secondary.g as int);
            lemma_blend_ends(primary.b as int, secondary.b as int);
            lemma_blend_ends(primary.a as int, secondary.a as int);
        }
        Transition {
            progress,
            speed,
            color: mix(primary, secondary, 0, primary_factor as i64),
        }
    }
}

} // verus!
