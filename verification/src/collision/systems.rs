//! The collision pass of one tick: which pairs touch now, which of them did
//! not touch before, and who is told.

use super::spatial::{neighborhood, SpatialData, SpatialHash};
use super::{
    overlap, AbsoluteCollider, Body, CollidesWith, EnemyCollideEvent, EnemyCollisionMap,
    PlayerCollideEvent, PlayerCollisionMap,
};
use crate::fx::{set_insert, set_remove};
use crate::Entity;
use fxhash::FxHashSet;
use vstd::prelude::*;

verus! {

/// The edge length of the grid cells of the enemy pass. It is small: a grid
/// that is sparsely filled costs next to nothing.
pub const CELL_SIZE: u32 = 100;

/// What one test of the narrow phase found: whether the target touches the
/// entity `with` in this tick.
pub struct Contact {
    pub with: Entity,
    pub touching: bool,
}

/// The entities in contact with a target once `seen` has been applied, in
/// order, to the set `active` of those in contact before. A touching entity
/// joins the set, one that does not touch leaves it, and an entity that was
/// not tested stays as it was.
pub open spec fn contacts_after(active: Set<Entity>, seen: Seq<Contact>) -> Set<Entity>
    decreases seen.len(),
{
    if seen.len() == 0 {
        active
    } else {
        let before = contacts_after(active, seen.drop_last());
        if seen.last().touching {
            before.insert(seen.last().with)
        } else {
            before.remove(seen.last().with)
        }
    }
}

/// The entities that come into contact while `seen` is applied to `active`:
/// those found touching that were not in the set at that moment. Contact
/// that lasts and contact that ends yield nothing.
pub open spec fn entered(active: Set<Entity>, seen: Seq<Contact>) -> Seq<Entity>
    decreases seen.len(),
{
    if seen.len() == 0 {
        Seq::empty()
    } else {
        let earlier = entered(active, seen.drop_last());
        let before = contacts_after(active, seen.drop_last());
        if seen.last().touching && !before.contains(seen.last().with) {
            earlier.push(seen.last().with)
        } else {
            earlier
        }
    }
}

/// How often `entity` occurs in `entities`.
pub open spec fn count(entities: Seq<Entity>, entity: Entity) -> nat
    decreases entities.len(),
{
    if entities.len() == 0 {
        0
    } else {
        count(entities.drop_last(), entity) + if entities.last() == entity {
            1nat
        } else {
            0nat
        }
    }
}

/// Whether `seen` holds exactly one finding about `entity`, and that
/// finding is `touching`.
pub open spec fn seen_once(seen: Seq<Contact>, entity: Entity, touching: bool) -> bool {
    exists|k: int|
        {
            &&& 0 <= k < seen.len()
            &&& #[trigger] seen[k] == (Contact { with: entity, touching })
            &&& forall|i: int| 0 <= i < seen.len() && i != k ==> (#[trigger] seen[i]).with != entity
        }
}

/// An entity that a pass does not test keeps its state and enters nothing.
pub proof fn lemma_unseen_keeps_state(active: Set<Entity>, seen: Seq<Contact>, entity: Entity)
    requires
        forall|i: int| 0 <= i < seen.len() ==> (#[trigger] seen[i]).with != entity,
    ensures
        contacts_after(active, seen).contains(entity) == active.contains(entity),
        count(entered(active, seen), entity) == 0,
    decreases seen.len(),
{
    if seen.len() > 0 {
        lemma_unseen_keeps_state(active, seen.drop_last(), entity);
        assert(seen.last() == seen[seen.len() - 1]);
        let earlier = entered(active, seen.drop_last());
        if entered(active, seen) != earlier {
            assert(entered(active, seen).drop_last() =~= earlier);
        }
    }
}

/// The two states of a tracked pair and the one transition that is told:
/// an entity that a pass tests once is in contact afterwards exactly if it
/// was found touching, and it enters once if it was found touching and was
/// not in contact before, else not at all. So contact that lasts and contact
/// that ends are silent.
pub proof fn lemma_seen_once(
    active: Set<Entity>,
    seen: Seq<Contact>,
    entity: Entity,
    touching: bool,
)
    requires
        seen_once(seen, entity, touching),
    ensures
        contacts_after(active, seen).contains(entity) == touching,
        count(entered(active, seen), entity) == (if touching && !active.contains(entity) {
            1nat
        } else {
            0nat
        }),
    decreases seen.len(),
{
    let k = choose|k: int|
        {
            &&& 0 <= k < seen.len()
            &&& #[trigger] seen[k] == (Contact { with: entity, touching })
            &&& forall|i: int| 0 <= i < seen.len() && i != k ==> (#[trigger] seen[i]).with != entity
        };
    let rest = seen.drop_last();
    let earlier = entered(active, rest);
    assert(seen.last() == seen[seen.len() - 1]);
    if entered(active, seen) != earlier {
        assert(entered(active, seen).drop_last() =~= earlier);
    }
    if k == seen.len() - 1 {
        assert forall|i: int| 0 <= i < rest.len() implies (#[trigger] rest[i]).with != entity by {
            assert(rest[i] == seen[i]);
        }
        lemma_unseen_keeps_state(active, rest, entity);
    } else {
        assert(rest[k] == seen[k]);
        assert forall|i: int| 0 <= i < rest.len() && i != k implies (#[trigger] rest[i]).with
            != entity by {
            assert(rest[i] == seen[i]);
        }
        assert(seen_once(rest, entity, touching));
        lemma_seen_once(active, rest, entity, touching);
    }
}

/// The contacts after a run of passes, each applied to what the one before
/// left.
pub open spec fn contacts_after_ticks(active: Set<Entity>, ticks: Seq<Seq<Contact>>) -> Set<
    Entity,
>
    decreases ticks.len(),
{
    if ticks.len() == 0 {
        active
    } else {
        contacts_after(contacts_after_ticks(active, ticks.drop_last()), ticks.last())
    }
}

/// How often `entity` enters over a run of passes.
pub open spec fn count_over_ticks(
    active: Set<Entity>,
    ticks: Seq<Seq<Contact>>,
    entity: Entity,
) -> nat
    decreases ticks.len(),
{
    if ticks.len() == 0 {
        0
    } else {
        count_over_ticks(active, ticks.drop_last(), entity) + count(
            entered(contacts_after_ticks(active, ticks.drop_last()), ticks.last()),
            entity,
        )
    }
}

/// A run of passes that finds a pair apart in the first pass and touching
/// in every later one tells of the contact exactly once, however long the
/// contact lasts.
pub proof fn lemma_lasting_contact_enters_once(
    active: Set<Entity>,
    ticks: Seq<Seq<Contact>>,
    entity: Entity,
)
    requires
        ticks.len() >= 1,
        seen_once(ticks[0], entity, false),
        forall|t: int| 1 <= t < ticks.len() ==> seen_once(#[trigger] ticks[t], entity, true),
    ensures
        contacts_after_ticks(active, ticks).contains(entity) == (ticks.len() >= 2),
        count_over_ticks(active, ticks, entity) == (if ticks.len() >= 2 {
            1nat
        } else {
            0nat
        }),
    decreases ticks.len(),
{
    let rest = ticks.drop_last();
    let before = contacts_after_ticks(active, rest);
    assert(ticks.last() == ticks[ticks.len() - 1]);
    if ticks.len() == 1 {
        assert(rest.len() == 0);
        assert(count_over_ticks(active, rest, entity) == 0);
        assert(before == active);
        lemma_seen_once(before, ticks.last(), entity, false);
    } else {
        assert(rest[0] == ticks[0]);
        assert forall|t: int| 1 <= t < rest.len() implies seen_once(
            #[trigger] rest[t],
            entity,
            true,
        ) by {
            assert(rest[t] == ticks[t]);
        }
        lemma_lasting_contact_enters_once(active, rest, entity);
        lemma_seen_once(before, ticks.last(), entity, true);
    }
}

/// Events are told on entry only. Over a run of passes in which a pair is
/// apart at first, then touching for one pass or more, then apart again,
/// exactly one event tells of the contact, none tells of its end, and the
/// pair is left out of contact.
pub proof fn lemma_enter_only(active: Set<Entity>, ticks: Seq<Seq<Contact>>, entity: Entity)
    requires
        ticks.len() >= 3,
        seen_once(ticks[0], entity, false),
        forall|t: int| 1 <= t < ticks.len() - 1 ==> seen_once(#[trigger] ticks[t], entity, true),
        seen_once(ticks[ticks.len() - 1], entity, false),
    ensures
        count_over_ticks(active, ticks, entity) == 1,
        count(
            entered(contacts_after_ticks(active, ticks.drop_last()), ticks.last()),
            entity,
        ) == 0,
        !contacts_after_ticks(active, ticks).contains(entity),
{
    let rest = ticks.drop_last();
    assert(rest[0] == ticks[0]);
    assert forall|t: int| 1 <= t < rest.len() implies seen_once(#[trigger] rest[t], entity, true) by {
        assert(rest[t] == ticks[t]);
    }
    lemma_lasting_contact_enters_once(active, rest, entity);
    assert(ticks.last() == ticks[ticks.len() - 1]);
    lemma_seen_once(contacts_after_ticks(active, rest), ticks.last(), entity, false);
}

/// Whether every body of `bodies` can be resolved into world space.
pub open spec fn all_resolvable(bodies: Seq<Body>) -> bool {
    forall|i: int| 0 <= i < bodies.len() ==> (#[trigger] bodies[i]).resolvable()
}

/// What the player's pass finds: each collider, in order, tested against
/// the player.
pub open spec fn player_contacts(colliders: Seq<Body>, player: AbsoluteCollider) -> Seq<Contact> {
    Seq::new(
        colliders.len(),
        |i: int| Contact { with: colliders[i].entity, touching: overlap(colliders[i].resolved(), player) },
    )
}

/// The events that tell of each of `entities` meeting the player.
pub open spec fn player_events(entities: Seq<Entity>) -> Seq<PlayerCollideEvent> {
    Seq::new(entities.len(), |i: int| PlayerCollideEvent { with: entities[i] })
}

/// Tests every collider against the player and brings `map`, the set of
/// entities in contact with the player, up to date. Returns one event for
/// each entity that has come into contact. Without a player nothing
/// happens.
pub fn update_player_collision(
    colliders: &Vec<Body>,
    player: Option<Body>,
    map: &mut PlayerCollisionMap,
) -> (events: Vec<PlayerCollideEvent>)
    requires
        all_resolvable(colliders@),
        player matches Some(p) ==> p.resolvable(),
    ensures
        player is None ==> final(map)@ == old(map)@ && events@ == Seq::<
            PlayerCollideEvent,
        >::empty(),
        player matches Some(p) ==> {
            let seen = player_contacts(colliders@, p.resolved());
            &&& final(map)@ == contacts_after(old(map)@, seen)
            &&& events@ == player_events(entered(old(map)@, seen))
        },
{
    let mut events: Vec<PlayerCollideEvent> = Vec::new();
    let p = match player {
        Some(p) => p,
        None => {
            return events;
        },
    };
    let p_coll = p.collider.absolute(&p.transform);
    let ghost seen = player_contacts(colliders@, p_coll);
    let mut i: usize = 0;
    while i < colliders.len()
        invariant
            i <= colliders.len(),
            all_resolvable(colliders@),
            seen == player_contacts(colliders@, p_coll),
            map@ == contacts_after(old(map)@, seen.take(i as int)),
            events@ == player_events(entered(old(map)@, seen.take(i as int))),
        decreases colliders.len() - i,
    {
        let body = &colliders[i];
        assert(colliders@[i as int].resolvable());
        let absolute_enemy = body.collider.absolute(&body.transform);
        let collision = absolute_enemy.collides_with(&p_coll);
        proof {
            assert(seen.take(i + 1).drop_last() =~= seen.take(i as int));
            assert(seen.take(i + 1).last() == seen[i as int]);
        }
        if collision {
            if map.insert(body.entity) {
                events.push(PlayerCollideEvent { with: body.entity });
            }
        } else {
            map.remove(body.entity);
        }
        i += 1;
        assert(events@ =~= player_events(entered(old(map)@, seen.take(i as int))));
    }
    assert(seen.take(colliders.len() as int) =~= seen);
    events
}

/// What the grid of the enemy pass holds: each collider, in order, resolved
/// and filed by its position.
pub open spec fn grid_entries(colliders: Seq<Body>) -> Seq<SpatialData> {
    Seq::new(
        colliders.len(),
        |i: int|
            SpatialData {
                entity: colliders[i].entity,
                position: colliders[i].resolved().position(),
                collider: colliders[i].resolved(),
            },
    )
}

/// What the pass finds for one enemy: each entry of the grid cells around
/// the enemy's position, in the order of the query, tested against the
/// enemy.
pub open spec fn enemy_contacts(entries: Seq<SpatialData>, enemy: AbsoluteCollider) -> Seq<
    Contact,
> {
    let near = neighborhood(entries, CELL_SIZE, enemy.position());
    Seq::new(
        near.len(),
        |i: int| Contact { with: near[i].entity, touching: overlap(enemy, near[i].collider) },
    )
}

/// Nothing nearby escapes the pass: a collider whose position is less than
/// a cell away from the enemy's on both axes is tested against the enemy.
pub proof fn lemma_close_collider_is_tested(
    colliders: Seq<Body>,
    enemy: AbsoluteCollider,
    k: int,
)
    requires
        0 <= k < colliders.len(),
        -CELL_SIZE < colliders[k].resolved().position().x - enemy.position().x < CELL_SIZE,
        -CELL_SIZE < colliders[k].resolved().position().y - enemy.position().y < CELL_SIZE,
    ensures
        enemy_contacts(grid_entries(colliders), enemy).contains(
            Contact {
                with: colliders[k].entity,
                touching: overlap(enemy, colliders[k].resolved()),
            },
        ),
{
    let entries = grid_entries(colliders);
    let data = entries[k];
    assert(entries.contains(data));
    crate::collision::spatial::lemma_nearby_complete(entries, CELL_SIZE, data, enemy.position());
    let near = neighborhood(entries, CELL_SIZE, enemy.position());
    let i = choose|i: int| 0 <= i < near.len() && near[i] == data;
    let seen = enemy_contacts(entries, enemy);
    assert(seen[i] == Contact {
        with: colliders[k].entity,
        touching: overlap(enemy, colliders[k].resolved()),
    });
}

/// The set recorded for `enemy`; empty where none is.
pub open spec fn active_of(map: Map<Entity, Set<Entity>>, enemy: Entity) -> Set<Entity> {
    if map.contains_key(enemy) {
        map[enemy]
    } else {
        Set::empty()
    }
}

/// The contact sets after the pass over `enemies`: each enemy in turn gets
/// its set brought up to date with what the pass finds for it. Enemies that
/// the pass does not visit keep their sets.
pub open spec fn enemy_map_after(
    map: Map<Entity, Set<Entity>>,
    entries: Seq<SpatialData>,
    enemies: Seq<Body>,
) -> Map<Entity, Set<Entity>>
    decreases enemies.len(),
{
    if enemies.len() == 0 {
        map
    } else {
        let before = enemy_map_after(map, entries, enemies.drop_last());
        let enemy = enemies.last();
        before.insert(
            enemy.entity,
            contacts_after(
                active_of(before, enemy.entity),
                enemy_contacts(entries, enemy.resolved()),
            ),
        )
    }
}

/// The events that tell of `enemy` meeting each of `entities`.
pub open spec fn events_of(enemy: Entity, entities: Seq<Entity>) -> Seq<EnemyCollideEvent> {
    Seq::new(entities.len(), |i: int| EnemyCollideEvent { enemy, with: entities[i] })
}

/// The events of the pass over `enemies`, enemy by enemy.
pub open spec fn enemy_events(
    map: Map<Entity, Set<Entity>>,
    entries: Seq<SpatialData>,
    enemies: Seq<Body>,
) -> Seq<EnemyCollideEvent>
    decreases enemies.len(),
{
    if enemies.len() == 0 {
        Seq::empty()
    } else {
        let before = enemy_map_after(map, entries, enemies.drop_last());
        let enemy = enemies.last();
        enemy_events(map, entries, enemies.drop_last()) + events_of(
            enemy.entity,
            entered(active_of(before, enemy.entity), enemy_contacts(entries, enemy.resolved())),
        )
    }
}

/// Files every collider in a fresh grid.
fn fill_grid(colliders: &Vec<Body>) -> (grid: SpatialHash)
    requires
        all_resolvable(colliders@),
    ensures
        grid.wf(),
        grid.cell_size() == CELL_SIZE,
        grid@ == grid_entries(colliders@),
{
    let mut grid = SpatialHash::new(CELL_SIZE);
    let mut i: usize = 0;
    while i < colliders.len()
        invariant
            i <= colliders.len(),
            all_resolvable(colliders@),
            grid.wf(),
            grid.cell_size() == CELL_SIZE,
            grid@ == grid_entries(colliders@).take(i as int),
        decreases colliders.len() - i,
    {
        let body = &colliders[i];
        assert(colliders@[i as int].resolvable());
        let absolute = body.collider.absolute(&body.transform);
        grid.insert(SpatialData { entity: body.entity, position: absolute.position(), collider: absolute });
        i += 1;
        assert(grid@ =~= grid_entries(colliders@).take(i as int));
    }
    assert(grid_entries(colliders@).take(colliders.len() as int) =~= grid_entries(colliders@));
    grid
}

/// Brings the contact set of one enemy up to date with the candidates that
/// the grid returned for it, and appends an event for each that has come
/// into contact.
fn track_enemy(
    enemy: Entity,
    absolute: &AbsoluteCollider,
    near: &Vec<SpatialData>,
    active: &mut FxHashSet<Entity>,
    events: &mut Vec<EnemyCollideEvent>,
)
    ensures
        ({
            let seen = Seq::new(
                near@.len(),
                |i: int| Contact { with: near@[i].entity, touching: overlap(*absolute, near@[i].collider) },
            );
            &&& final(active)@ == contacts_after(old(active)@, seen)
            &&& final(events)@ == old(events)@ + events_of(enemy, entered(old(active)@, seen))
        }),
{
    let ghost seen = Seq::new(
        near@.len(),
        |i: int| Contact { with: near@[i].entity, touching: overlap(*absolute, near@[i].collider) },
    );
    let mut i: usize = 0;
    assert(events@ =~= old(events)@ + events_of(enemy, entered(old(active)@, seen.take(0))));
    while i < near.len()
        invariant
            i <= near.len(),
            seen == Seq::new(
                near@.len(),
                |i: int| Contact { with: near@[i].entity, touching: overlap(*absolute, near@[i].collider) },
            ),
            active@ == contacts_after(old(active)@, seen.take(i as int)),
            events@ == old(events)@ + events_of(
                enemy,
                entered(old(active)@, seen.take(i as int)),
            ),
        decreases near.len() - i,
    {
        let candidate = &near[i];
        let collision = absolute.collides_with(&candidate.collider);
        proof {
            assert(seen.take(i + 1).drop_last() =~= seen.take(i as int));
            assert(seen.take(i + 1).last() == seen[i as int]);
        }
        if collision {
            if set_insert(active, candidate.entity) {
                events.push(EnemyCollideEvent { enemy, with: candidate.entity });
            }
        } else {
            set_remove(active, candidate.entity);
        }
        i += 1;
        assert(events@ =~= old(events)@ + events_of(
            enemy,
            entered(old(active)@, seen.take(i as int)),
        ));
    }
    assert(seen.take(near.len() as int) =~= seen);
}

/// Tests every enemy against the colliders near it and brings `map`, the
/// contact set of each enemy, up to date. The colliders are filed in a grid
/// with cells of [`CELL_SIZE`]; an enemy is tested against what is filed in
/// the three by three cells around its position. Returns one event for each
/// pair that has come into contact.
pub fn update_enemy_collision(
    colliders: &Vec<Body>,
    enemies: &Vec<Body>,
    map: &mut EnemyCollisionMap,
) -> (events: Vec<EnemyCollideEvent>)
    requires
        all_resolvable(colliders@),
        all_resolvable(enemies@),
    ensures
        final(map)@ == enemy_map_after(old(map)@, grid_entries(colliders@), enemies@),
        events@ == enemy_events(old(map)@, grid_entries(colliders@), enemies@),
{
    // First fill the grid. The colliders go in because there are more of them.
    let spatial = fill_grid(colliders);
    let ghost entries = grid_entries(colliders@);
    let mut events: Vec<EnemyCollideEvent> = Vec::new();
    let mut i: usize = 0;
    while i < enemies.len()
        invariant
            i <= enemies.len(),
            all_resolvable(enemies@),
            spatial.wf(),
            spatial.cell_size() == CELL_SIZE,
            spatial@ == entries,
            map@ == enemy_map_after(old(map)@, entries, enemies@.take(i as int)),
            events@ == enemy_events(old(map)@, entries, enemies@.take(i as int)),
        decreases enemies.len() - i,
    {
        let body = &enemies[i];
        assert(enemies@[i as int].resolvable());
        let absolute = body.collider.absolute(&body.transform);
        let near = spatial.nearby_objects(&absolute.position());
        let ghost before = map@;
        let mut active = map.take(body.entity);
        track_enemy(body.entity, &absolute, &near, &mut active, &mut events);
        map.put(body.entity, active);
        i += 1;
        proof {
            assert(enemies@.take(i as int).drop_last() =~= enemies@.take(i - 1));
            assert(enemies@.take(i as int).last() == enemies@[i - 1]);
            assert(enemy_contacts(entries, absolute) =~= Seq::new(
                near@.len(),
                |i: int| Contact { with: near@[i].entity, touching: overlap(absolute, near@[i].collider) },
            ));
        }
    }
    assert(enemies@.take(enemies.len() as int) =~= enemies@);
    events
}

} // verus!
