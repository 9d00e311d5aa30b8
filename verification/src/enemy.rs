//! Regular enemies: a core with a cloud of atoms on a ring around it, which
//! bursts into neutrons when hit.

use crate::bullet::NeutronBundle;
use crate::collision::EnemyCollideEvent;
use crate::commands::Command;
use crate::transform::{Rotation, Transform};
use crate::types::{clamp_unit, ChildOffset, Velocity};
use crate::vector::{Vec2u, Vec3i};
use crate::Entity;
use vstd::prelude::*;

verus! {

/// The radius of the ring that the cloud sits on.
pub const REGULAR_RADIUS: i32 = 50;

/// How fast the neutrons of a burst fly, in units of the unit speed.
pub const BURST_SPEED: i32 = 4;

/// What the rule reads of a regular enemy. Every child of the cloud has a
/// spoke: the direction from the core to its place on the ring at this
/// tick, of length one, in thousandths. The spokes divide the full turn
/// evenly and turn with the enemy's spin.
pub struct Regular {
    pub entity: Entity,
    pub position: Vec3i,
    pub cloud: Vec<Entity>,
    pub spokes: Vec<Vec3i>,
}

impl Regular {
    /// There is a spoke for each child.
    pub open spec fn wf(&self) -> bool {
        self.spokes@.len() == self.cloud@.len()
    }
}

/// Whether one of `events` tells that `enemy` was hit.
pub open spec fn was_hit(events: Seq<EnemyCollideEvent>, enemy: Entity) -> bool {
    exists|k: int| 0 <= k < events.len() && (#[trigger] events[k]).enemy == enemy
}

/// `spoke` stretched by `factor`. A component beyond one whole counts as
/// one whole.
pub open spec fn along(spoke: Vec3i, factor: int) -> Vec3i {
    Vec3i {
        x: (clamp_unit(spoke.x) * factor) as i32,
        y: (clamp_unit(spoke.y) * factor) as i32,
        z: (clamp_unit(spoke.z) * factor) as i32,
    }
}

/// The place on the ring that `spoke` points to, relative to the core,
/// rounded towards the core.
pub open spec fn on_ring(spoke: Vec3i) -> Vec3i {
    Vec3i {
        x: crate::vector::div_trunc(clamp_unit(spoke.x) * REGULAR_RADIUS, 1000) as i32,
        y: crate::vector::div_trunc(clamp_unit(spoke.y) * REGULAR_RADIUS, 1000) as i32,
        z: crate::vector::div_trunc(clamp_unit(spoke.z) * REGULAR_RADIUS, 1000) as i32,
    }
}

/// The neutron that a burst throws off along `spoke`: it starts at the
/// core, has no progenitor and harms the player too.
pub open spec fn burst_neutron(position: Vec3i, spoke: Vec3i) -> NeutronBundle {
    NeutronBundle::new_spec(
        Transform {
            translation: position,
            rotation: Rotation::identity_spec(),
            scale: Vec2u { x: 1000, y: 1000 },
        },
        Velocity(along(spoke, BURST_SPEED as int)),
        None,
        true,
    )
}

/// What becomes of a regular enemy that was hit: it is removed, and a
/// neutron flies off along each spoke.
pub open spec fn burst(entity: Entity, position: Vec3i, spokes: Seq<Vec3i>) -> Seq<Command> {
    seq![Command::Despawn(entity)] + Seq::new(
        spokes.len(),
        |i: int| Command::SpawnNeutron(burst_neutron(position, spokes[i])),
    )
}

/// What a regular enemy that was not hit does: each child of its cloud is
/// placed on the ring where its spoke points.
pub open spec fn orbit(cloud: Seq<Entity>, spokes: Seq<Vec3i>) -> Seq<Command> {
    Seq::new(cloud.len(), |i: int| Command::Offset(cloud[i], ChildOffset(on_ring(spokes[i]))))
}

/// What `regulars` do in a tick with `events`, enemy by enemy.
pub open spec fn regular_commands(regulars: Seq<Regular>, events: Seq<EnemyCollideEvent>) -> Seq<
    Command,
>
    decreases regulars.len(),
{
    if regulars.len() == 0 {
        Seq::empty()
    } else {
        let last = regulars.last();
        regular_commands(regulars.drop_last(), events) + if was_hit(events, last.entity) {
            burst(last.entity, last.position, last.spokes@)
        } else {
            orbit(last.cloud@, last.spokes@)
        }
    }
}

fn find_hit(events: &Vec<EnemyCollideEvent>, enemy: Entity) -> (hit: bool)
    ensures
        hit == was_hit(events@, enemy),
{
    let mut k: usize = 0;
    while k < events.len()
        invariant
            k <= events.len(),
            forall|j: int| 0 <= j < k ==> (#[trigger] events@[j]).enemy != enemy,
        decreases events.len() - k,
    {
        if events[k].enemy == enemy {
            return true;
        }
        k += 1;
    }
    false
}

fn clamp(v: i32) -> (c: i32)
    ensures
        c == clamp_unit(v),
{
    if v < -1000 {
        -1000
    } else if v > 1000 {
        1000
    } else {
        v
    }
}

/// The rule of the regular enemies for one tick. One that an event names
/// as hit is removed and bursts into as many neutrons as its cloud has
/// children, evenly around. Every other one moves the children of its cloud
/// along the ring.
pub fn update_regular(
    regulars: &Vec<Regular>,
    events: &Vec<EnemyCollideEvent>,
    commands: &mut Vec<Command>,
)
    requires
        forall|i: int| 0 <= i < regulars@.len() ==> (#[trigger] regulars@[i]).wf(),
    ensures
        final(commands)@ == old(commands)@ + regular_commands(regulars@, events@),
{
    let mut n: usize = 0;
    assert(commands@ =~= old(commands)@ + regular_commands(regulars@.take(0), events@));
    while n < regulars.len()
        invariant
            n <= regulars.len(),
            forall|i: int| 0 <= i < regulars@.len() ==> (#[trigger] regulars@[i]).wf(),
            commands@ == old(commands)@ + regular_commands(regulars@.take(n as int), events@),
        decreases regulars.len() - n,
    {
        let regular = &regulars[n];
        assert(regulars@[n as int].wf());
        let ghost before = commands@;
        proof {
            assert(regulars@.take(n + 1).drop_last() =~= regulars@.take(n as int));
            assert(regulars@.take(n + 1).last() == regulars@[n as int]);
        }
        if find_hit(events, regular.entity) {
            commands.push(Command::Despawn(regular.entity));
            let mut i: usize = 0;
            while i < regular.spokes.len()
                invariant
                    i <= regular.spokes.len(),
                    commands@ == before + burst(
                        regular.entity,
                        regular.position,
                        regular.spokes@,
                    ).take(1 + i),
                decreases regular.spokes.len() - i,
            {
                let spoke = regular.spokes[i];
                NeutronBundle::spawn(
                    Transform::at(regular.position),
                    Velocity(
                        Vec3i::new(
                            clamp(spoke.x) * BURST_SPEED,
                            clamp(spoke.y) * BURST_SPEED,
                            clamp(spoke.z) * BURST_SPEED,
                        ),
                    ),
                    None,
                    true,
                    commands,
                );
                i += 1;
                assert(commands@ =~= before + burst(
                    regular.entity,
                    regular.position,
                    regular.spokes@,
                ).take(1 + i));
            }
            assert(burst(regular.entity, regular.position, regular.spokes@).take(
                1 + regular.spokes.len(),
            ) =~= burst(regular.entity, regular.position, regular.spokes@));
        } else {
            let mut i: usize = 0;
            assert(commands@ =~= before + orbit(regular.cloud@, regular.spokes@).take(0));
            while i < regular.cloud.len()
                invariant
                    i <= regular.cloud.len(),
                    regular.wf(),
                    commands@ == before + orbit(regular.cloud@, regular.spokes@).take(i as int),
                decreases regular.cloud.len() - i,
            {
                let spoke = regular.spokes[i];
                let place = Vec3i::new(
                    clamp(spoke.x) * REGULAR_RADIUS / 1000,
                    clamp(spoke.y) * REGULAR_RADIUS / 1000,
                    clamp(spoke.z) * REGULAR_RADIUS / 1000,
                );
                commands.push(Command::Offset(regular.cloud[i], ChildOffset(place)));
                i += 1;
                assert(commands@ =~= before + orbit(regular.cloud@, regular.spokes@).take(
                    i as int,
                ));
            }
            assert(orbit(regular.cloud@, regular.spokes@).take(regular.cloud.len() as int)
                =~= orbit(regular.cloud@, regular.spokes@));
        }
        n += 1;
    }
    assert(regulars@.take(regulars.len() as int) =~= regulars@);
}

} // verus!
