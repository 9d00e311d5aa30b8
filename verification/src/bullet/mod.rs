//! Neutrons: the small, fast projectiles that the player fires and that a
//! splitting atom throws off.

pub mod spawner;

use self::spawner::{Lifespan, Uptime};
use crate::collision::{CircleCollider, Collider};
use crate::commands::Command;
use crate::transform::Transform;
use crate::types::{CollisionDamage, Velocity};
use crate::vector::{Vec2u, Vec3i};
use crate::Entity;
use vstd::prelude::*;

verus! {

/// Holds on to the entity that spawned it if any.
#[derive(Clone, Copy, Debug, PartialEq, Eq, Structural)]
pub struct Progenitor(pub Option<Entity>);

/// Applies rotation to an entity's transform.
#[derive(Clone, Copy, Debug, PartialEq, Eq, Structural)]
pub struct RadialVelocity {
    /// The turn per second, in thousandths of a radian.
    strength: i32,
    total_rotation: i32,
}

impl RadialVelocity {
    pub closed spec fn strength_spec(&self) -> i32 {
        self.strength
    }

    pub closed spec fn total_rotation_spec(&self) -> i32 {
        self.total_rotation
    }

    /// A spin of the given strength that has not turned anything yet.
    pub closed spec fn new_spec(strength: i32) -> RadialVelocity {
        RadialVelocity { strength, total_rotation: 0 }
    }

    #[verifier::when_used_as_spec(new_spec)]
    pub fn new(strength: i32) -> (radial: RadialVelocity)
        ensures
            radial == RadialVelocity::new_spec(strength),
            radial.strength() == strength,
            radial.total_rotation() == 0,
    {
        RadialVelocity { strength, total_rotation: 0 }
    }

    #[verifier::when_used_as_spec(strength_spec)]
    pub fn strength(&self) -> (s: i32)
        ensures
            s == self.strength_spec(),
    {
        self.strength
    }

    #[verifier::when_used_as_spec(total_rotation_spec)]
    pub fn total_rotation(&self) -> (r: i32)
        ensures
            r == self.total_rotation_spec(),
    {
        self.total_rotation
    }
}

/// All that a new neutron is made of.
#[derive(Clone, Copy, Debug, PartialEq, Eq, Structural)]
pub struct NeutronBundle {
    pub transform: Transform,
    pub velocity: Velocity,
    pub collider: Collider,
    pub damage: CollisionDamage,
    pub lifespan: Lifespan,
    pub uptime: Uptime,
    pub radial_velocity: RadialVelocity,
    pub progenitor: Progenitor,
    /// Whether the neutron also harms the player, and is used up on doing
    /// so. Every neutron harms enemies.
    pub hit_player: bool,
}

impl NeutronBundle {
    /// The neutron that [`NeutronBundle::spawn`] queues: a tenth of full
    /// size, with a circle of radius 30 set 50 units off its origin, one
    /// point of damage, four seconds to live and a spin of one radian per
    /// second.
    pub open spec fn new_spec(
        transform: Transform,
        velocity: Velocity,
        progenitor: Option<Entity>,
        hit_player: bool,
    ) -> NeutronBundle {
        NeutronBundle {
            transform: Transform { scale: Vec2u { x: 100, y: 100 }, ..transform },
            velocity,
            collider: Collider::Circle(
                CircleCollider { position: Vec3i { x: 0, y: (-50) as i32, z: 0 }, radius: 30 },
            ),
            damage: CollisionDamage(1000),
            lifespan: Lifespan(4000),
            uptime: Uptime(0),
            radial_velocity: RadialVelocity::new_spec(1000),
            progenitor: Progenitor(progenitor),
            hit_player,
        }
    }

    /// Queues the creation of a neutron at `transform`, whose scale is
    /// replaced by a tenth.
    pub fn spawn(
        transform: Transform,
        velocity: Velocity,
        progenitor: Option<Entity>,
        hit_player: bool,
        commands: &mut Vec<Command>,
    )
        ensures
            final(commands)@ == old(commands)@.push(
                Command::SpawnNeutron(
                    NeutronBundle::new_spec(transform, velocity, progenitor, hit_player),
                ),
            ),
    {
        let mut transform = transform;
        transform.scale = Vec2u::new(100, 100);
        let bundle = NeutronBundle {
            transform,
            velocity,
            collider: Collider::Circle(
                CircleCollider { position: Vec3i::new(0, -50, 0), radius: 30 },
            ),
            damage: CollisionDamage(1000),
            lifespan: Lifespan(4000),
            uptime: Uptime(0),
            radial_velocity: RadialVelocity::new(1000),
            progenitor: Progenitor(progenitor),
            hit_player,
        };
        commands.push(Command::SpawnNeutron(bundle));
    }
}

} // verus!
