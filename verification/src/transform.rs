//! Placement of an entity in the world: where it is, how it is turned and
//! how it is scaled.

use crate::vector::{Vec2u, Vec3i};
use vstd::prelude::*;

verus! {

/// A rotation about the `z` axis, given by the cosine and sine of its angle
/// in thousandths.
#[derive(Clone, Copy, Debug, PartialEq, Eq, Structural)]
pub struct Rotation {
    pub cos: i32,
    pub sin: i32,
}

/// Translation, rotation and per-axis scale of an entity. The scale is
/// counted in thousandths.
#[derive(Clone, Copy, Debug, PartialEq, Eq, Structural)]
pub struct Transform {
    pub translation: Vec3i,
    pub rotation: Rotation,
    pub scale: Vec2u,
}

impl Rotation {
    pub open spec fn identity_spec() -> Rotation {
        Rotation { cos: 1000, sin: 0 }
    }

    pub open spec fn is_identity_spec(&self) -> bool {
        self.cos == 1000 && self.sin == 0
    }

    /// The rotation by no angle at all.
    #[verifier::when_used_as_spec(identity_spec)]
    pub fn identity() -> (r: Rotation)
        ensures
            r == Rotation::identity_spec(),
    {
        Rotation { cos: 1000, sin: 0 }
    }

    #[verifier::when_used_as_spec(is_identity_spec)]
    pub fn is_identity(&self) -> (b: bool)
        ensures
            b == self.is_identity_spec(),
    {
        self.cos == 1000 && self.sin == 0
    }

    /// A thousand times the `x` that `p` has after the rotation.
    pub open spec fn turned_x(&self, p: Vec3i) -> int {
        self.cos * p.x - self.sin * p.y
    }

    /// A thousand times the `y` that `p` has after the rotation.
    pub open spec fn turned_y(&self, p: Vec3i) -> int {
        self.sin * p.x + self.cos * p.y
    }
}

impl Transform {
    pub open spec fn identity_spec() -> Transform {
        Transform {
            translation: Vec3i { x: 0, y: 0, z: 0 },
            rotation: Rotation::identity_spec(),
            scale: Vec2u { x: 1000, y: 1000 },
        }
    }

    /// The transform that leaves every shape where and as it is.
    #[verifier::when_used_as_spec(identity_spec)]
    pub fn identity() -> (t: Transform)
        ensures
            t == Transform::identity_spec(),
    {
        Transform {
            translation: Vec3i::zero(),
            rotation: Rotation::identity(),
            scale: Vec2u::one(),
        }
    }

    /// A transform that only moves: no rotation, scale one.
    pub fn at(translation: Vec3i) -> (t: Transform)
        ensures
            t == (Transform {
                translation,
                rotation: Rotation::identity_spec(),
                scale: Vec2u { x: 1000, y: 1000 },
            }),
    {
        Transform { translation, rotation: Rotation::identity(), scale: Vec2u::one() }
    }

    /// Where the local point `p` lands on the world's `x` axis: rotated,
    /// then scaled, then moved, rounded down to a whole unit.
    pub open spec fn world_x(&self, p: Vec3i) -> int {
        self.translation.x + (self.scale.x * self.rotation.turned_x(p)) / 1_000_000
    }

    /// Where the local point `p` lands on the world's `y` axis.
    pub open spec fn world_y(&self, p: Vec3i) -> int {
        self.translation.y + (self.scale.y * self.rotation.turned_y(p)) / 1_000_000
    }

    /// Where the local point `p` lands on the world's `z` axis. Neither the
    /// rotation nor the scale touch it.
    pub open spec fn world_z(&self, p: Vec3i) -> int {
        self.translation.z + p.z
    }

    /// A local radius in world space: scaled by the mean of the two scale
    /// factors, rounded down.
    pub open spec fn world_radius(&self, radius: u32) -> int {
        (radius * (self.scale.x + self.scale.y)) / 2000
    }
}

} // verus!
