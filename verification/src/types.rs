//! Small components shared by the game rules, and the sampling of random
//! directions within a cone.

use crate::vector::{unit, unit_of, within, Vec3i};
use vstd::prelude::*;

verus! {

/// How fast and which way an entity moves, per component in thousandths.
#[derive(Clone, Copy, Debug, PartialEq, Eq, Structural)]
pub struct Velocity(pub Vec3i);

/// The damage that touching an entity deals, in thousandths of a hit point.
#[derive(Clone, Copy, Debug, PartialEq, Eq, Structural)]
pub struct CollisionDamage(pub u32);

/// Represents health, in thousandths of a hit point.
///
/// The members are private to preserve their invariants.
#[derive(Clone, Copy, Debug, PartialEq, Eq, Structural)]
pub struct Health {
    total: u32,
    current: u32,
    bar_offset: i32,
}

/// `value`, held to the range from `low` to `high`.
pub open spec fn clamped(value: int, low: int, high: int) -> int {
    if value < low {
        low
    } else if value > high {
        high
    } else {
        value
    }
}

impl Health {
    /// There is never more health than the total.
    #[verifier::type_invariant]
    spec fn within_total(self) -> bool {
        self.current <= self.total
    }

    pub closed spec fn total_spec(&self) -> u32 {
        self.total
    }

    pub closed spec fn current_spec(&self) -> u32 {
        self.current
    }

    pub closed spec fn offset_spec(&self) -> i32 {
        self.bar_offset
    }

    /// Full health of `total`, with its bar drawn `offset` away.
    pub fn new(total: u32, offset: i32) -> (health: Health)
        ensures
            health.total() == total,
            health.current() == total,
            health.offset() == offset,
    {
        Health { total, current: total, bar_offset: offset }
    }

    #[verifier::when_used_as_spec(total_spec)]
    pub fn total(&self) -> (t: u32)
        ensures
            t == self.total_spec(),
    {
        self.total
    }

    #[verifier::when_used_as_spec(current_spec)]
    pub fn current(&self) -> (c: u32)
        ensures
            c == self.current_spec(),
            c <= self.total(),
    {
        proof {
            use_type_invariant(self);
        }
        self.current
    }

    /// Sets the health to `value`, held to the range from none to the
    /// total.
    pub fn set_current(&mut self, value: i64)
        ensures
            final(self).current() == clamped(value as int, 0, old(self).total() as int),
            final(self).total() == old(self).total(),
            final(self).offset() == old(self).offset(),
    {
        self.current = if value < 0 {
            0
        } else if value > self.total as i64 {
            self.total
        } else {
            value as u32
        };
    }

    pub fn is_depleted(&self) -> (b: bool)
        ensures
            b == (self.current() == 0),
    {
        self.current == 0
    }

    pub fn is_full(&self) -> (b: bool)
        ensures
            b == (self.current() == self.total()),
    {
        self.current == self.total
    }

    /// The share of the total that is left, in thousandths, rounded down.
    pub fn ratio(&self) -> (r: u32)
        requires
            self.total() > 0,
        ensures
            r == (self.current() * 1000) / (self.total() as int),
            r <= 1000,
    {
        proof {
            use_type_invariant(self);
            assert((self.current * 1000) / (self.total as int) <= 1000) by (nonlinear_arith)
                requires
                    0 <= self.current <= self.total,
                    self.total > 0,
            ;
        }
        ((self.current as u64 * 1000) / (self.total as u64)) as u32
    }

    #[verifier::when_used_as_spec(offset_spec)]
    pub fn offset(&self) -> (o: i32)
        ensures
            o == self.offset_spec(),
    {
        self.bar_offset
    }
}

/// Where a child sits relative to its parent.
#[derive(Clone, Copy, Debug, PartialEq, Eq, Structural)]
pub struct ChildOffset(pub Vec3i);

/// One draw of the random source for a direction in a cone: the cosine and
/// sine of the angle off the axis, and of the rotation about the axis, in
/// thousandths. Values beyond one whole are taken as one whole.
#[derive(Clone, Copy, Debug, PartialEq, Eq, Structural)]
pub struct ConeSample {
    pub cos_angle: i32,
    pub sin_angle: i32,
    pub cos_rotation: i32,
    pub sin_rotation: i32,
}

/// Yields directions within a cone around a fixed direction, one for each
/// draw of the random source.
#[derive(Clone, Copy, Debug, PartialEq, Eq, Structural)]
pub struct RandomDirectionIterator {
    direction: Vec3i,
    angle: u32,
}

/// `v`, held to the range from minus one whole to one whole.
pub open spec fn clamp_unit(v: i32) -> int {
    if v < -1000 {
        -1000
    } else if v > 1000 {
        1000
    } else {
        v as int
    }
}

/// Whether `direction` runs nearly along the world's `x` axis.
pub open spec fn along_x(direction: Vec3i) -> bool {
    direction.x <= -900 || direction.x >= 900
}

/// The first axis across `direction`: the unit vector of `direction × up`,
/// where `up` is the world's `x` axis, or its `y` axis where `direction`
/// runs nearly along `x`.
pub open spec fn across(direction: Vec3i) -> Vec3i {
    if along_x(direction) {
        unit_of(-1000 * direction.z, 0, 1000 * direction.x)
    } else {
        unit_of(0, 1000 * direction.z, -1000 * direction.y)
    }
}

/// One component of `a × b`; `(a1, a2)` and `(b1, b2)` are the two other
/// components of each, in cyclic order.
pub open spec fn cross_part(a1: int, a2: int, b1: int, b2: int) -> int {
    a1 * b2 - a2 * b1
}

/// One component of the direction that a draw picks, before it is scaled to
/// length one: `d cos(angle) + (v cos(rotation) + w sin(rotation))
/// sin(angle)`, where `d`, `v` and `w` are this component of the cone's
/// axis and of the two axes across it.
pub open spec fn tilt(d: int, v: int, w: int, sample: ConeSample) -> int {
    let cos_a = clamp_unit(sample.cos_angle);
    let sin_a = clamp_unit(sample.sin_angle);
    let cos_r = clamp_unit(sample.cos_rotation);
    let sin_r = clamp_unit(sample.sin_rotation);
    crate::vector::div_trunc(
        d * cos_a * 1_000_000 + (v * cos_r * 1000 + w * sin_r) * sin_a,
        1000,
    )
}

/// The direction that `sample` picks in the cone around `direction`, which
/// has length one. With `v = across(direction)` and `w = direction × v` it
/// is the unit vector of `direction cos(angle) + (v cos(rotation) + w
/// sin(rotation)) sin(angle)`.
pub open spec fn tilted(direction: Vec3i, sample: ConeSample) -> Vec3i {
    let d = direction;
    let v = across(d);
    let wx = cross_part(d.y as int, d.z as int, v.y as int, v.z as int);
    let wy = cross_part(d.z as int, d.x as int, v.z as int, v.x as int);
    let wz = cross_part(d.x as int, d.y as int, v.x as int, v.y as int);
    unit_of(
        tilt(d.x as int, v.x as int, wx, sample),
        tilt(d.y as int, v.y as int, wy, sample),
        tilt(d.z as int, v.z as int, wz, sample),
    )
}

fn clamp(v: i32) -> (c: i64)
    ensures
        c == clamp_unit(v),
{
    if v < -1000 {
        -1000
    } else if v > 1000 {
        1000
    } else {
        v as i64
    }
}

fn cross(a1: i32, a2: i32, b1: i32, b2: i32) -> (c: i64)
    requires
        -1000 <= a1 <= 1000,
        -1000 <= a2 <= 1000,
        -1000 <= b1 <= 1000,
        -1000 <= b2 <= 1000,
    ensures
        c == cross_part(a1 as int, a2 as int, b1 as int, b2 as int),
        -2_000_000 <= c <= 2_000_000,
{
    assert(-1_000_000 <= a1 * b2 <= 1_000_000 && -1_000_000 <= a2 * b1 <= 1_000_000)
        by (nonlinear_arith)
        requires
            -1000 <= a1 <= 1000,
            -1000 <= a2 <= 1000,
            -1000 <= b1 <= 1000,
            -1000 <= b2 <= 1000,
    ;
    (a1 as i64) * (b2 as i64) - (a2 as i64) * (b1 as i64)
}

fn tilt_part(d: i32, v: i32, w: i64, sample: &ConeSample) -> (t: i64)
    requires
        -1000 <= d <= 1000,
        -1000 <= v <= 1000,
        -2_000_000 <= w <= 2_000_000,
    ensures
        t == tilt(d as int, v as int, w as int, *sample),
        -4_000_000_000 <= t <= 4_000_000_000,
{
    let cos_a = clamp(sample.cos_angle);
    let sin_a = clamp(sample.sin_angle);
    let cos_r = clamp(sample.cos_rotation);
    let sin_r = clamp(sample.sin_rotation);
    assert(-1_000_000 <= d * cos_a <= 1_000_000 && -1_000_000 <= v * cos_r <= 1_000_000
        && -2_000_000_000 <= w * sin_r <= 2_000_000_000) by (nonlinear_arith)
        requires
            -1000 <= d <= 1000,
            -1000 <= v <= 1000,
            -2_000_000 <= w <= 2_000_000,
            -1000 <= cos_a <= 1000,
            -1000 <= cos_r <= 1000,
            -1000 <= sin_r <= 1000,
    ;
    let along: i64 = (d as i64) * cos_a * 1_000_000;
    let side: i64 = (v as i64) * cos_r * 1000 + w * sin_r;
    assert(-3_000_000_000_000 <= side * sin_a <= 3_000_000_000_000) by (nonlinear_arith)
        requires
            -3_000_000_000 <= side <= 3_000_000_000,
            -1000 <= sin_a <= 1000,
    ;
    (along + side * sin_a) / 1000
}

impl RandomDirectionIterator {
    /// The axis has been scaled to length one.
    #[verifier::type_invariant]
    spec fn axis_is_unit(self) -> bool {
        within(self.direction, 1000)
    }

    pub closed spec fn direction_spec(&self) -> Vec3i {
        self.direction
    }

    pub closed spec fn angle_spec(&self) -> u32 {
        self.angle
    }

    /// A cone around `direction` that opens by `angle`, in thousandths of a
    /// radian, to each side. The direction is scaled to length one.
    pub fn new(direction: Vec3i, angle: u32) -> (cone: RandomDirectionIterator)
        ensures
            cone.direction() == direction.normalized(),
            cone.angle() == angle,
    {
        RandomDirectionIterator { direction: direction.normalize(), angle }
    }

    /// The axis of the cone.
    #[verifier::when_used_as_spec(direction_spec)]
    pub fn direction(&self) -> (d: Vec3i)
        ensures
            d == self.direction_spec(),
    {
        self.direction
    }

    /// The largest angle off the axis that a draw may have, in thousandths
    /// of a radian.
    #[verifier::when_used_as_spec(angle_spec)]
    pub fn angle(&self) -> (a: u32)
        ensures
            a == self.angle_spec(),
    {
        self.angle
    }

    /// The direction that `sample` picks in the cone.
    pub fn next(&self, sample: &ConeSample) -> (picked: Vec3i)
        ensures
            picked == tilted(self.direction(), *sample),
            within(picked, 1000),
    {
        proof {
            use_type_invariant(self);
        }
        let d = self.direction;
        let x: i64 = 1000 * (d.x as i64);
        let y: i64 = 1000 * (d.y as i64);
        let z: i64 = 1000 * (d.z as i64);
        // Create an orthonormal basis.
        let v = if d.x <= -900 || d.x >= 900 {
            unit(-z, 0, x)
        } else {
            unit(0, z, -y)
        };
        let wx = cross(d.y, d.z, v.y, v.z);
        let wy = cross(d.z, d.x, v.z, v.x);
        let wz = cross(d.x, d.y, v.x, v.y);
        // Compute the rotated vector.
        unit(
            tilt_part(d.x, v.x, wx, sample),
            tilt_part(d.y, v.y, wy, sample),
            tilt_part(d.z, v.z, wz, sample),
        )
    }
}

} // verus!
