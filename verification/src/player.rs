//! What touching things does to the player.

use crate::collision::PlayerCollideEvent;
use crate::commands::Command;
use crate::types::{clamped, CollisionDamage, Health};
use crate::Entity;
use vstd::prelude::*;

verus! {

/// An entity that harms the player on touch.
#[derive(Clone, Copy, Debug, PartialEq, Eq, Structural)]
pub struct Damaging {
    pub entity: Entity,
    pub damage: CollisionDamage,
    /// Whether the entity is used up by the touch.
    pub remove: bool,
}

/// The first of `damaging` with the handle `entity`.
pub open spec fn lookup_damaging(damaging: Seq<Damaging>, entity: Entity) -> Option<Damaging>
    decreases damaging.len(),
{
    if damaging.len() == 0 {
        None
    } else if damaging.first().entity == entity {
        Some(damaging.first())
    } else {
        lookup_damaging(damaging.drop_first(), entity)
    }
}

/// The health that is left of `current` once every of `events` with a
/// harmful entity has taken its damage, never less than none.
pub open spec fn health_after(
    current: int,
    total: int,
    damaging: Seq<Damaging>,
    events: Seq<PlayerCollideEvent>,
) -> int
    decreases events.len(),
{
    if events.len() == 0 {
        current
    } else {
        let before = health_after(current, total, damaging, events.drop_last());
        match lookup_damaging(damaging, events.last().with) {
            Some(hit) => clamped(before - hit.damage.0, 0, total),
            None => before,
        }
    }
}

/// The removals of the entities that are used up by touching the player, in
/// the order of `events`.
pub open spec fn used_up(damaging: Seq<Damaging>, events: Seq<PlayerCollideEvent>) -> Seq<Command>
    decreases events.len(),
{
    if events.len() == 0 {
        Seq::empty()
    } else {
        let before = used_up(damaging, events.drop_last());
        match lookup_damaging(damaging, events.last().with) {
            Some(hit) => if hit.remove {
                before.push(Command::Despawn(events.last().with))
            } else {
                before
            },
            None => before,
        }
    }
}

fn find_damaging(damaging: &Vec<Damaging>, entity: Entity) -> (found: Option<Damaging>)
    ensures
        found == lookup_damaging(damaging@, entity),
{
    let mut i: usize = 0;
    assert(damaging@.skip(0) =~= damaging@);
    while i < damaging.len()
        invariant
            i <= damaging.len(),
            lookup_damaging(damaging@, entity) == lookup_damaging(
                damaging@.skip(i as int),
                entity,
            ),
        decreases damaging.len() - i,
    {
        if damaging[i].entity == entity {
            return Some(damaging[i]);
        }
        assert(damaging@.skip(i as int).drop_first() =~= damaging@.skip(i + 1));
        i += 1;
    }
    None
}

/// Takes from the player's health the damage of each harmful entity that
/// an event names, and queues the removal of those that the touch uses up.
/// An event about an entity that is not harmful, or gone, does nothing.
pub fn apply_damage(
    health: &mut Health,
    damaging: &Vec<Damaging>,
    events: &Vec<PlayerCollideEvent>,
    commands: &mut Vec<Command>,
)
    ensures
        final(health).current() == health_after(
            old(health).current() as int,
            old(health).total() as int,
            damaging@,
            events@,
        ),
        final(health).total() == old(health).total(),
        final(health).offset() == old(health).offset(),
        final(commands)@ == old(commands)@ + used_up(damaging@, events@),
{
    let mut i: usize = 0;
    assert(commands@ =~= old(commands)@ + used_up(damaging@, events@.take(0)));
    while i < events.len()
        invariant
            i <= events.len(),
            health.total() == old(health).total(),
            health.offset() == old(health).offset(),
            health.current() == health_after(
                old(health).current() as int,
                old(health).total() as int,
                damaging@,
                events@.take(i as int),
            ),
            commands@ == old(commands)@ + used_up(damaging@, events@.take(i as int)),
        decreases events.len() - i,
    {
        let event = events[i];
        proof {
            assert(events@.take(i + 1).drop_last() =~= events@.take(i as int));
            assert(events@.take(i + 1).last() == event);
        }
        if let Some(hit) = find_damaging(damaging, event.with) {
            health.set_current(health.current() as i64 - hit.damage.0 as i64);
            if hit.remove {
                commands.push(Command::Despawn(event.with));
            }
        }
        i += 1;
        assert(commands@ =~= old(commands)@ + used_up(damaging@, events@.take(i as int)));
    }
    assert(events@.take(events.len() as int) =~= events@);
}

} // verus!
