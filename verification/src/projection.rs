//! The rules that turn a gaze direction, projected into each eye's view, into foveation center
//! shifts.
//!
//! Callers do the floating-point arithmetic. It never traps, so all of its results can be computed
//! first; the rules then decide which of them count.

use crate::binary32::{
    law_order_by_pattern, law_value_of_fields, Binary32, EPSILON_BITS, MINUS_EPSILON_BITS,
    MINUS_ONE_BITS, ONE_BITS, ZERO_BITS,
};
use vstd::arithmetic::power2::pow2;
use vstd::prelude::*;

verus! {

/// A pair of numbers.
#[derive(Clone, Copy, Debug, PartialEq, Eq, Structural)]
pub struct Vec2 {
    pub x: Binary32,
    pub y: Binary32,
}

/// A direction in a right-handed space: `+X` right, `+Y` up, `-Z` forward.
#[derive(Clone, Copy, Debug, PartialEq, Eq, Structural)]
pub struct Vec3 {
    pub x: Binary32,
    pub y: Binary32,
    pub z: Binary32,
}

/// What the arithmetic gives for one eye and one head-local gaze direction.
#[derive(Clone, Copy, Debug, PartialEq, Eq, Structural)]
pub struct EyeProjection {
    /// The gaze direction, rotated into eye-local space.
    pub direction: Vec3,
    /// The tangent of the right field-of-view angle less that of the left one.
    pub horizontal_span: Binary32,
    /// The tangent of the upper field-of-view angle less that of the lower one.
    pub vertical_span: Binary32,
    /// Where the direction meets the view: `(0, 0)` upper left, `(1, 1)` lower right.
    pub uv: Vec2,
    /// On each axis, one less the size of the full-density center.
    pub movable_fraction: Vec2,
    /// On each axis, twice the offset of `uv` from 0.5, over the movable fraction.
    pub scaled_offset: Vec2,
    /// The same on the X axis for a view whose X coordinate is mirrored: for `1 - uv.x`.
    pub mirrored_scaled_offset_x: Binary32,
}

/// Whether both numbers are finite.
pub open spec fn vec2_finite(v: Vec2) -> bool {
    v.x.finite() && v.y.finite()
}

/// Whether all three numbers are finite.
pub open spec fn vec3_finite(v: Vec3) -> bool {
    v.x.finite() && v.y.finite() && v.z.finite()
}

/// A direction can be projected if it is finite and points forward by more than epsilon.
pub open spec fn points_forward(direction: Vec3) -> bool {
    vec3_finite(direction) && direction.z.units() < (Binary32 { bits: MINUS_EPSILON_BITS }).units()
}

/// A field of view is degenerate on an axis whose span is at most epsilon. A span that is not a
/// number is not called degenerate: no finite position comes of it.
pub open spec fn span_degenerate(span: Binary32) -> bool {
    span.at_most(Binary32 { bits: EPSILON_BITS })
}

/// The view position of a direction, where it has one.
pub open spec fn projected_uv(
    direction: Vec3,
    horizontal_span: Binary32,
    vertical_span: Binary32,
    uv: Vec2,
) -> Option<Vec2> {
    if points_forward(direction) && !span_degenerate(horizontal_span) && !span_degenerate(
        vertical_span,
    ) && vec2_finite(uv) {
        Some(uv)
    } else {
        None
    }
}

/// The center can move on an axis only if the movable fraction exceeds epsilon.
pub open spec fn can_move(movable_fraction: Binary32) -> bool {
    (Binary32 { bits: EPSILON_BITS }).below(movable_fraction)
}

/// The shift on an axis: zero where the center cannot move.
pub open spec fn axis_shift(movable_fraction: Binary32, scaled_offset: Binary32) -> Binary32 {
    if can_move(movable_fraction) {
        scaled_offset
    } else {
        Binary32 { bits: ZERO_BITS }
    }
}

/// The number between -1 and 1 that is nearest to `v`, and -1 where `v` is not a number.
pub open spec fn clamped_axis(v: Binary32) -> Binary32 {
    if v.nan() || v.units() < (Binary32 { bits: MINUS_ONE_BITS }).units() {
        Binary32 { bits: MINUS_ONE_BITS }
    } else if v.units() > (Binary32 { bits: ONE_BITS }).units() {
        Binary32 { bits: ONE_BITS }
    } else {
        v
    }
}

/// The center shift of one eye, where its gaze can be projected.
pub open spec fn eye_center(eye: EyeProjection, mirror_x: bool) -> Option<Vec2> {
    match projected_uv(eye.direction, eye.horizontal_span, eye.vertical_span, eye.uv) {
        None => None,
        Some(_) => Some(
            Vec2 {
                x: clamped_axis(
                    axis_shift(
                        eye.movable_fraction.x,
                        if mirror_x {
                            eye.mirrored_scaled_offset_x
                        } else {
                            eye.scaled_offset.x
                        },
                    ),
                ),
                y: clamped_axis(axis_shift(eye.movable_fraction.y, eye.scaled_offset.y)),
            },
        ),
    }
}

/// The center shifts of the left eye and the right one, where both can be projected. The packed
/// texture mirrors only the X coordinate of the right eye.
pub open spec fn both_centers(left: EyeProjection, right: EyeProjection) -> Option<[Vec2; 2]> {
    match (eye_center(left, false), eye_center(right, true)) {
        (Some(left_center), Some(right_center)) => Some([left_center, right_center]),
        _ => None,
    }
}

/// Decides whether a direction has a position in a view, given the spans of the view and the
/// position that the arithmetic gave.
pub fn project_direction_to_view_uv(
    direction: Vec3,
    horizontal_span: Binary32,
    vertical_span: Binary32,
    uv: Vec2,
) -> (r: Option<Vec2>)
    ensures
        r == projected_uv(direction, horizontal_span, vertical_span, uv),
{
    let epsilon = Binary32 { bits: EPSILON_BITS };
    let minus_epsilon = Binary32 { bits: MINUS_EPSILON_BITS };
    if !direction.x.is_finite() || !direction.y.is_finite() || !direction.z.is_finite()
        || minus_epsilon.is_at_most(direction.z) {
        return None;
    }
    if horizontal_span.is_at_most(epsilon) || vertical_span.is_at_most(epsilon) {
        return None;
    }
    if uv.x.is_finite() && uv.y.is_finite() {
        Some(uv)
    } else {
        None
    }
}

/// Keeps a scaled offset on the axes on which the center can move, and zero on the others.
pub fn uv_delta_to_center_shift(movable_fraction: Vec2, scaled_offset: Vec2) -> (r: Vec2)
    ensures
        r.x == axis_shift(movable_fraction.x, scaled_offset.x),
        r.y == axis_shift(movable_fraction.y, scaled_offset.y),
{
    let epsilon = Binary32 { bits: EPSILON_BITS };
    let zero = Binary32 { bits: ZERO_BITS };
    Vec2 {
        x: if epsilon.is_below(movable_fraction.x) {
            scaled_offset.x
        } else {
            zero
        },
        y: if epsilon.is_below(movable_fraction.y) {
            scaled_offset.y
        } else {
            zero
        },
    }
}

/// Limits a shift to the range from -1 to 1.
fn clamp_axis(v: Binary32) -> (r: Binary32)
    ensures
        r == clamped_axis(v),
{
    let one = Binary32 { bits: ONE_BITS };
    let minus_one = Binary32 { bits: MINUS_ONE_BITS };
    if v.is_nan() || v.is_below(minus_one) {
        minus_one
    } else if one.is_below(v) {
        one
    } else {
        v
    }
}

/// The center shift of one eye, if its gaze can be projected.
pub fn head_local_direction_to_center(eye: EyeProjection, mirror_x: bool) -> (r: Option<Vec2>)
    ensures
        r == eye_center(eye, mirror_x),
{
    if project_direction_to_view_uv(
        eye.direction,
        eye.horizontal_span,
        eye.vertical_span,
        eye.uv,
    ).is_none() {
        return None;
    }
    let packed_offset = Vec2 {
        x: if mirror_x {
            eye.mirrored_scaled_offset_x
        } else {
            eye.scaled_offset.x
        },
        y: eye.scaled_offset.y,
    };
    let shift = uv_delta_to_center_shift(eye.movable_fraction, packed_offset);
    Some(Vec2 { x: clamp_axis(shift.x), y: clamp_axis(shift.y) })
}

/// The center shifts of the left eye and the right one, if both can be projected.
pub fn head_local_directions_to_centers(eyes: [EyeProjection; 2]) -> (r: Option<[Vec2; 2]>)
    ensures
        r == both_centers(eyes[0], eyes[1]),
{
    let left = head_local_direction_to_center(eyes[0], false);
    let right = head_local_direction_to_center(eyes[1], true);
    match (left, right) {
        (Some(left_center), Some(right_center)) => Some([left_center, right_center]),
        _ => None,
    }
}

/// Whether both shifts are numbers between -1 and 1.
pub open spec fn in_range(center: Vec2) -> bool {
    &&& (Binary32 { bits: MINUS_ONE_BITS }).at_most(center.x)
    &&& center.x.at_most(Binary32 { bits: ONE_BITS })
    &&& (Binary32 { bits: MINUS_ONE_BITS }).at_most(center.y)
    &&& center.y.at_most(Binary32 { bits: ONE_BITS })
}

/// A center shift is a number, and lies between -1 and 1 on both axes.
pub proof fn law_centers_stay_in_range(eye: EyeProjection, mirror_x: bool)
    ensures
        eye_center(eye, mirror_x) matches Some(center) ==> in_range(center),
{
    let one = Binary32 { bits: ONE_BITS };
    let minus_one = Binary32 { bits: MINUS_ONE_BITS };
    assert(one.low_bits() == minus_one.low_bits());
    assert(minus_one.units() == -one.units());
}

/// The distance of an integer from zero.
pub open spec fn distance_from_zero(n: int) -> int {
    if n < 0 {
        -n
    } else {
        n
    }
}

/// Mirroring is for the X axis alone, and decides only where the center goes, not whether there is
/// one. It negates the X shift as far as the arithmetic negates the offset: the two shifts are no
/// further from being negations of each other than the two offsets are. Where the center cannot
/// move on the X axis both shifts are zero, whatever the offsets are. An offset that is not a
/// number has no negation: on an axis that can move its shift is -1 with mirroring and without.
pub proof fn law_mirroring_is_horizontal(eye: EyeProjection)
    ensures
        eye_center(eye, false) is Some <==> eye_center(eye, true) is Some,
        eye_center(eye, false) is Some ==> eye_center(eye, false)->0.y == eye_center(
            eye,
            true,
        )->0.y,
        eye_center(eye, false) is Some && (can_move(eye.movable_fraction.x)
            ==> !eye.scaled_offset.x.nan() && !eye.mirrored_scaled_offset_x.nan()) ==> {
            let plain = eye_center(eye, false)->0.x;
            let mirrored = eye_center(eye, true)->0.x;
            &&& !plain.nan() && !mirrored.nan()
            &&& distance_from_zero(plain.units() + mirrored.units()) <= distance_from_zero(
                eye.scaled_offset.x.units() + eye.mirrored_scaled_offset_x.units(),
            )
            &&& eye.mirrored_scaled_offset_x.units() == -eye.scaled_offset.x.units()
                ==> mirrored.units() == -plain.units()
        },
        eye_center(eye, false) is Some && !can_move(eye.movable_fraction.x) ==> {
            &&& eye_center(eye, false)->0.x == (Binary32 { bits: ZERO_BITS })
            &&& eye_center(eye, true)->0.x == (Binary32 { bits: ZERO_BITS })
        },
        eye_center(eye, false) is Some && can_move(eye.movable_fraction.x) ==> {
            &&& eye.scaled_offset.x.nan() ==> eye_center(eye, false)->0.x == (Binary32 {
                bits: MINUS_ONE_BITS,
            })
            &&& eye.mirrored_scaled_offset_x.nan() ==> eye_center(eye, true)->0.x == (Binary32 {
                bits: MINUS_ONE_BITS,
            })
        },
{
    let one = Binary32 { bits: ONE_BITS };
    let minus_one = Binary32 { bits: MINUS_ONE_BITS };
    let zero = Binary32 { bits: ZERO_BITS };
    assert(one.low_bits() == minus_one.low_bits());
    assert(minus_one.units() == -one.units());
    assert(zero.units() == 0);
}

/// A gaze has a center exactly where its direction is finite and points forward by more than
/// epsilon, no span is a number of at most epsilon, and the position is finite; here by the
/// patterns of the numbers. What is found of a position is the position itself.
pub proof fn law_projectable_gaze(eye: EyeProjection, mirror_x: bool)
    ensures
        ({
            let finite = |v: Binary32|
                v.bits < 0x7f80_0000 || 0x8000_0000 <= v.bits < 0xff80_0000;
            let wide = |v: Binary32|
                0x3400_0000 < v.bits < 0x8000_0000 || 0xff80_0000 < v.bits;
            let projectable = {
                &&& finite(eye.direction.x)
                &&& finite(eye.direction.y)
                &&& 0xb400_0000 < eye.direction.z.bits < 0xff80_0000
                &&& wide(eye.horizontal_span)
                &&& wide(eye.vertical_span)
                &&& finite(eye.uv.x)
                &&& finite(eye.uv.y)
            };
            &&& eye_center(eye, mirror_x) is Some <==> projectable
            &&& projected_uv(
                eye.direction,
                eye.horizontal_span,
                eye.vertical_span,
                eye.uv,
            ) == (if projectable {
                Some(eye.uv)
            } else {
                None
            })
        }),
{
    let epsilon = Binary32 { bits: EPSILON_BITS };
    let minus_epsilon = Binary32 { bits: MINUS_EPSILON_BITS };
    law_order_by_pattern(eye.direction.x, epsilon);
    law_order_by_pattern(eye.direction.y, epsilon);
    law_order_by_pattern(eye.direction.z, minus_epsilon);
    law_order_by_pattern(eye.horizontal_span, epsilon);
    law_order_by_pattern(eye.vertical_span, epsilon);
    law_order_by_pattern(eye.uv.x, epsilon);
    law_order_by_pattern(eye.uv.y, epsilon);
}

/// The shift on one axis by the patterns of its movable fraction and its offset: the offset where
/// the movable fraction exceeds epsilon, else zero. Limited, an offset from -1 to 1 stays as it
/// is, one beyond is cut to 1 or -1, and one that is not a number gives -1.
pub proof fn law_axis_shift_by_pattern(movable_fraction: Binary32, offset: Binary32)
    ensures
        0x3400_0000 < movable_fraction.bits <= 0x7f80_0000 ==> axis_shift(movable_fraction, offset)
            == offset,
        !(0x3400_0000 < movable_fraction.bits <= 0x7f80_0000) ==> axis_shift(
            movable_fraction,
            offset,
        ).bits == 0,
        offset.bits <= 0x3f80_0000 ==> clamped_axis(offset) == offset,
        0x8000_0000 <= offset.bits <= 0xbf80_0000 ==> clamped_axis(offset) == offset,
        0x3f80_0000 < offset.bits <= 0x7f80_0000 ==> clamped_axis(offset).bits == 0x3f80_0000,
        0x7f80_0000 < offset.bits < 0x8000_0000 ==> clamped_axis(offset).bits == 0xbf80_0000,
        0xbf80_0000 < offset.bits ==> clamped_axis(offset).bits == 0xbf80_0000,
{
    let one = Binary32 { bits: ONE_BITS };
    let minus_one = Binary32 { bits: MINUS_ONE_BITS };
    law_order_by_pattern(Binary32 { bits: EPSILON_BITS }, movable_fraction);
    law_order_by_pattern(movable_fraction, movable_fraction);
    law_order_by_pattern(offset, minus_one);
    law_order_by_pattern(minus_one, offset);
    law_order_by_pattern(one, offset);
    law_order_by_pattern(offset, one);
}

/// A gaze that can be projected moves its center, on each axis on which the center can move, by
/// the scaled offset: by the offset itself where that is from -1 to 1, else by 1 or -1. On the X
/// axis of a mirrored view the offset is the mirrored one; the Y axis knows no mirroring.
pub proof fn law_center_moves_by_offset(eye: EyeProjection, mirror_x: bool, vertical: bool)
    ensures
        eye_center(eye, mirror_x) matches Some(center) ==> {
            let shift = if vertical {
                center.y
            } else {
                center.x
            };
            let movable_fraction = if vertical {
                eye.movable_fraction.y
            } else {
                eye.movable_fraction.x
            };
            let offset = if vertical {
                eye.scaled_offset.y
            } else if mirror_x {
                eye.mirrored_scaled_offset_x
            } else {
                eye.scaled_offset.x
            };
            &&& 0x3400_0000 < movable_fraction.bits <= 0x7f80_0000 ==> {
                &&& offset.bits <= 0x3f80_0000 ==> shift == offset
                &&& 0x8000_0000 <= offset.bits <= 0xbf80_0000 ==> shift == offset
                &&& 0x3f80_0000 < offset.bits <= 0x7f80_0000 ==> shift.bits == 0x3f80_0000
                &&& 0x7f80_0000 < offset.bits < 0x8000_0000 ==> shift.bits == 0xbf80_0000
                &&& 0xbf80_0000 < offset.bits ==> shift.bits == 0xbf80_0000
            }
            &&& !(0x3400_0000 < movable_fraction.bits <= 0x7f80_0000) ==> shift.bits == 0
        },
{
    let zero = Binary32 { bits: ZERO_BITS };
    law_axis_shift_by_pattern(eye.movable_fraction.x, eye.scaled_offset.x);
    law_axis_shift_by_pattern(eye.movable_fraction.x, eye.mirrored_scaled_offset_x);
    law_axis_shift_by_pattern(eye.movable_fraction.y, eye.scaled_offset.y);
    law_axis_shift_by_pattern(zero, zero);
}

/// The same by the values of the numbers: the shift lies between -1 and 1, is the offset where
/// that does, and else is the end of the range on the side of the offset.
pub proof fn law_center_moves_towards_gaze(eye: EyeProjection, mirror_x: bool, vertical: bool)
    ensures
        eye_center(eye, mirror_x) matches Some(center) ==> {
            let shift = if vertical {
                center.y
            } else {
                center.x
            };
            let movable_fraction = if vertical {
                eye.movable_fraction.y
            } else {
                eye.movable_fraction.x
            };
            let offset = if vertical {
                eye.scaled_offset.y
            } else if mirror_x {
                eye.mirrored_scaled_offset_x
            } else {
                eye.scaled_offset.x
            };
            let one = (0x80_0000 * pow2(126)) as int;
            (Binary32 { bits: EPSILON_BITS }).below(movable_fraction) && !offset.nan() ==> {
                &&& -one <= shift.units() <= one
                &&& -one <= offset.units() <= one ==> shift.units() == offset.units()
                &&& offset.units() > one ==> shift.units() == one
                &&& offset.units() < -one ==> shift.units() == -one
            }
        },
{
    let one = Binary32 { bits: ONE_BITS };
    let minus_one = Binary32 { bits: MINUS_ONE_BITS };
    law_value_of_fields(false, 127, 0, one);
    law_value_of_fields(true, 127, 0, minus_one);
}

/// A pair of eyes has centers exactly where each eye has one: that of the left eye is the first
/// and goes by the plain X offset, that of the right eye is the second and goes by the mirrored
/// one.
pub proof fn law_each_eye_has_its_own_center(left: EyeProjection, right: EyeProjection)
    ensures
        both_centers(left, right) is Some <==> eye_center(left, false) is Some && eye_center(
            right,
            true,
        ) is Some,
        both_centers(left, right) matches Some(centers) ==> {
            &&& eye_center(left, false) == Some(centers[0])
            &&& eye_center(right, true) == Some(centers[1])
        },
{
}

} // verus!
