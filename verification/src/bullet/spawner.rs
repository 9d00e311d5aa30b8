//! How long a bullet lasts.

use crate::commands::Command;
use crate::vector::{dist2_spec, Vec3i};
use crate::Entity;
use vstd::prelude::*;

verus! {

/// Whether `enemies[k]` is the nearest to `position`, and the first of
/// those that are as near.
pub open spec fn is_nearest(position: Vec3i, enemies: Seq<Vec3i>, k: int) -> bool {
    &&& 0 <= k < enemies.len()
    &&& forall|j: int|
        0 <= j < enemies.len() ==> dist2_spec(enemies[k], position) <= dist2_spec(
            #[trigger] enemies[j],
            position,
        )
    &&& forall|j: int|
        0 <= j < k ==> dist2_spec(enemies[k], position) < dist2_spec(
            #[trigger] enemies[j],
            position,
        )
}

/// Generate a vector to the nearest position: the way from `position` to
/// the nearest of `enemies`, per axis. Of several that are as near, the
/// first counts. Without enemies there is none.
pub fn to_nearest(position: &Vec3i, enemies: &Vec<Vec3i>) -> (offset: Option<(i64, i64, i64)>)
    ensures
        match offset {
            None => enemies@.len() == 0,
            Some(way) => exists|k: int|
                {
                    &&& is_nearest(*position, enemies@, k)
                    &&& way.0 == enemies@[k].x - position.x
                    &&& way.1 == enemies@[k].y - position.y
                    &&& way.2 == enemies@[k].z - position.z
                },
        },
{
    if enemies.len() == 0 {
        return None;
    }
    let mut best: usize = 0;
    let mut least: u128 = enemies[0].dist2(position);
    let mut i: usize = 1;
    while i < enemies.len()
        invariant
            1 <= i <= enemies.len(),
            best < i,
            least == dist2_spec(enemies@[best as int], *position),
            forall|j: int| 0 <= j < i ==> least <= dist2_spec(#[trigger] enemies@[j], *position),
            forall|j: int| 0 <= j < best ==> least < dist2_spec(#[trigger] enemies@[j], *position),
        decreases enemies.len() - i,
    {
        let d: u128 = enemies[i].dist2(position);
        if d < least {
            best = i;
            least = d;
        }
        i += 1;
    }
    let p = enemies[best];
    assert(is_nearest(*position, enemies@, best as int));
    Some((p.x as i64 - position.x as i64, p.y as i64 - position.y as i64, p.z as i64 - position.z as i64))
}

/// The time a bullet should last, in milliseconds.
#[derive(Clone, Copy, Debug, PartialEq, Eq, Structural)]
pub struct Lifespan(pub u32);

/// The time a bullet has been around, in milliseconds.
#[derive(Clone, Copy, Debug, PartialEq, Eq, Structural)]
pub struct Uptime(pub u32);

/// A bullet with what the expiry rule reads and writes of it.
#[derive(Clone, Copy, Debug, PartialEq, Eq, Structural)]
pub struct Aging {
    pub entity: Entity,
    pub uptime: Uptime,
    pub lifespan: Lifespan,
}

/// `bullet` after `delta` more milliseconds.
pub open spec fn aged(bullet: Aging, delta: u32) -> Aging {
    Aging { uptime: Uptime((bullet.uptime.0 + delta) as u32), ..bullet }
}

/// Whether `bullet` has lasted as long as it should.
pub open spec fn expired(bullet: Aging) -> bool {
    bullet.uptime.0 >= bullet.lifespan.0
}

/// The removals of the expired among `bullets`, in order.
pub open spec fn expiries(bullets: Seq<Aging>) -> Seq<Command>
    decreases bullets.len(),
{
    if bullets.len() == 0 {
        Seq::empty()
    } else if expired(bullets.last()) {
        expiries(bullets.drop_last()).push(Command::Despawn(bullets.last().entity))
    } else {
        expiries(bullets.drop_last())
    }
}

/// Lets `delta` milliseconds pass for every bullet, and queues the removal
/// of each that has then lasted as long as it should.
pub fn bullet_lifetime(bullets: &mut Vec<Aging>, delta: u32, commands: &mut Vec<Command>)
    requires
        forall|i: int|
            0 <= i < old(bullets)@.len() ==> (#[trigger] old(bullets)@[i]).uptime.0 + delta
                <= u32::MAX,
    ensures
        final(bullets)@ == old(bullets)@.map_values(|b: Aging| aged(b, delta)),
        final(commands)@ == old(commands)@ + expiries(final(bullets)@),
{
    let ghost target = old(bullets)@.map_values(|b: Aging| aged(b, delta));
    let mut i: usize = 0;
    assert(commands@ =~= old(commands)@ + expiries(target.take(0)));
    while i < bullets.len()
        invariant
            i <= bullets.len(),
            bullets@.len() == old(bullets)@.len(),
            target == old(bullets)@.map_values(|b: Aging| aged(b, delta)),
            forall|j: int| 0 <= j < i ==> bullets@[j] == target[j],
            forall|j: int| i <= j < bullets@.len() ==> bullets@[j] == old(bullets)@[j],
            forall|j: int|
                0 <= j < old(bullets)@.len() ==> (#[trigger] old(bullets)@[j]).uptime.0 + delta
                    <= u32::MAX,
            commands@ == old(commands)@ + expiries(target.take(i as int)),
        decreases bullets.len() - i,
    {
        let mut bullet = bullets[i];
        assert(bullet == old(bullets)@[i as int]);
        bullet.uptime = Uptime(bullet.uptime.0 + delta);
        bullets[i] = bullet;
        proof {
            assert(target.take(i + 1).drop_last() =~= target.take(i as int));
            assert(target.take(i + 1).last() == bullet);
        }
        if bullet.uptime.0 >= bullet.lifespan.0 {
            commands.push(Command::Despawn(bullet.entity));
        }
        i += 1;
        assert(commands@ =~= old(commands)@ + expiries(target.take(i as int)));
    }
    assert(target.take(bullets.len() as int) =~= target);
    assert(bullets@ =~= target);
}

} // verus!
