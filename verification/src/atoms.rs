//! Atoms, the enemies that split when hit, and the rule by which they do.

use crate::bullet::{NeutronBundle, Progenitor};
use crate::camera::ScreenShake;
use crate::collision::{CircleCollider, Collider, EnemyCollideEvent};
use crate::commands::Command;
use crate::fx::set_insert;
use crate::transform::{Rotation, Transform};
use crate::types::{tilted, CollisionDamage, ConeSample, RandomDirectionIterator, Velocity};
use crate::vector::{unit, unit_of, Vec2u, Vec3i};
use crate::Entity;
use fxhash::FxHashSet;
use vstd::prelude::*;

verus! {

/// The generation after which an atom no longer splits.
pub const MAX_EVENTS: u32 = 6;

/// The generation of an atom: how many splits lie behind it.
#[derive(Clone, Copy, Debug, PartialEq, Eq, Structural)]
pub struct Events(pub u32);

/// How many atoms have been hit since the session began.
#[derive(Clone, Copy, Debug, PartialEq, Eq, Structural)]
pub struct TotalEvents(pub usize);

/// All that a new atom is made of.
#[derive(Clone, Copy, Debug, PartialEq, Eq, Structural)]
pub struct AtomBundle {
    pub transform: Transform,
    pub velocity: Option<Velocity>,
    pub collider: Collider,
    pub progenitor: Progenitor,
    pub events: Events,
    pub damage: CollisionDamage,
    /// Which of the seven looks the atom has: six less its generation.
    pub material: usize,
}

impl AtomBundle {
    /// The atom that [`AtomBundle::new`] makes: at `position`, half of full
    /// size, with a circle of radius 40 around its origin, one point of
    /// damage and no velocity.
    pub open spec fn new_spec(
        position: Vec3i,
        progenitor: Option<Entity>,
        events: u32,
    ) -> AtomBundle {
        AtomBundle {
            transform: Transform {
                translation: position,
                rotation: Rotation::identity_spec(),
                scale: Vec2u { x: 500, y: 500 },
            },
            velocity: None,
            collider: Collider::Circle(
                CircleCollider { position: Vec3i { x: 0, y: 0, z: 0 }, radius: 40 },
            ),
            progenitor: Progenitor(progenitor),
            events: Events(events),
            damage: CollisionDamage(1000),
            material: (6 - events) as usize,
        }
    }

    /// The atom that [`AtomBundle::spawn`] queues.
    pub open spec fn spawned(
        position: Vec3i,
        velocity: Option<Vec3i>,
        progenitor: Option<Entity>,
        events: u32,
    ) -> AtomBundle {
        AtomBundle {
            velocity: match velocity {
                Some(v) => Some(Velocity(v)),
                None => None,
            },
            ..AtomBundle::new_spec(position, progenitor, events)
        }
    }

    pub fn new(position: Vec3i, progenitor: Option<Entity>, events: u32) -> (bundle: AtomBundle)
        requires
            events <= MAX_EVENTS,
        ensures
            bundle == AtomBundle::new_spec(position, progenitor, events),
    {
        AtomBundle {
            transform: Transform {
                translation: position,
                rotation: Rotation::identity(),
                scale: Vec2u::new(500, 500),
            },
            velocity: None,
            collider: Collider::Circle(CircleCollider { position: Vec3i::zero(), radius: 40 }),
            progenitor: Progenitor(progenitor),
            events: Events(events),
            damage: CollisionDamage(1000),
            material: (MAX_EVENTS - events) as usize,
        }
    }

    /// Queues the creation of an atom of generation `events`.
    pub fn spawn(
        commands: &mut Vec<Command>,
        position: Vec3i,
        velocity: Option<Vec3i>,
        progenitor: Option<Entity>,
        events: u32,
    )
        requires
            events <= MAX_EVENTS,
        ensures
            final(commands)@ == old(commands)@.push(
                Command::SpawnAtom(AtomBundle::spawned(position, velocity, progenitor, events)),
            ),
    {
        let mut bundle = AtomBundle::new(position, progenitor, events);
        if let Some(vel) = velocity {
            bundle.velocity = Some(Velocity(vel));
        }
        commands.push(Command::SpawnAtom(bundle));
    }
}

/// What the fission rule reads of an atom.
#[derive(Clone, Copy, Debug, PartialEq, Eq, Structural)]
pub struct AtomState {
    pub entity: Entity,
    pub position: Vec3i,
    pub velocity: Option<Velocity>,
    pub progenitor: Progenitor,
    pub events: Events,
}

/// What the fission rule reads of a projectile.
#[derive(Clone, Copy, Debug, PartialEq, Eq, Structural)]
pub struct BulletState {
    pub entity: Entity,
    pub velocity: Velocity,
    pub progenitor: Progenitor,
}

/// Half a turn of a quarter: the widest that the cone of a split opens to
/// each side, in thousandths of a radian.
pub const CONE_ANGLE: u32 = 1571;

/// How many draws of the random source one split uses up.
pub const DRAWS_PER_EVENT: usize = 5;

/// The first atom of `atoms` with the handle `entity`.
pub open spec fn lookup_atom(atoms: Seq<AtomState>, entity: Entity) -> Option<AtomState>
    decreases atoms.len(),
{
    if atoms.len() == 0 {
        None
    } else if atoms.first().entity == entity {
        Some(atoms.first())
    } else {
        lookup_atom(atoms.drop_first(), entity)
    }
}

/// The first projectile of `bullets` with the handle `entity`.
pub open spec fn lookup_bullet(bullets: Seq<BulletState>, entity: Entity) -> Option<BulletState>
    decreases bullets.len(),
{
    if bullets.len() == 0 {
        None
    } else if bullets.first().entity == entity {
        Some(bullets.first())
    } else {
        lookup_bullet(bullets.drop_first(), entity)
    }
}

/// Whether atom and projectile were spawned by the same entity. Neither of
/// two such siblings harms the other.
pub open spec fn siblings(atom: AtomState, bullet: BulletState) -> bool {
    atom.progenitor.0 is Some && atom.progenitor.0 == bullet.progenitor.0
}

/// The way the fragments of a split head, before the random spread: the
/// unit vector of the sum of the projectile's velocity and the atom's, if
/// it has one. Where the two cancel out, the world's `x` axis.
pub open spec fn heading(atom: AtomState, bullet: BulletState) -> Vec3i {
    let a = match atom.velocity {
        Some(v) => v.0,
        None => Vec3i { x: 0, y: 0, z: 0 },
    };
    let b = bullet.velocity.0;
    if a.x + b.x == 0 && a.y + b.y == 0 && a.z + b.z == 0 {
        Vec3i { x: 1000, y: 0, z: 0 }
    } else {
        unit_of(a.x + b.x, a.y + b.y, a.z + b.z)
    }
}

/// One of the two atoms that a split leaves: at the place of the split
/// atom, a generation on, moving along `direction`.
pub open spec fn child_atom(atom: AtomState, direction: Vec3i) -> AtomBundle {
    AtomBundle::spawned(
        atom.position,
        Some(direction),
        Some(atom.entity),
        (atom.events.0 + 1) as u32,
    )
}

/// One of the three neutrons that a split throws off: at the place of the
/// split atom, moving along `direction` at twice the unit speed, and
/// harmful to the player too.
pub open spec fn child_neutron(atom: AtomState, direction: Vec3i) -> NeutronBundle {
    NeutronBundle::new_spec(
        Transform {
            translation: atom.position,
            rotation: Rotation::identity_spec(),
            scale: Vec2u { x: 1000, y: 1000 },
        },
        Velocity(
            Vec3i {
                x: (direction.x * 2) as i32,
                y: (direction.y * 2) as i32,
                z: (direction.z * 2) as i32,
            },
        ),
        Some(atom.entity),
        true,
    )
}

/// The axis of the cone that the fragments of a split spread in.
pub open spec fn cone_axis(atom: AtomState, bullet: BulletState) -> Vec3i {
    heading(atom, bullet).normalized()
}

/// What a hit that counts does: atom and projectile are removed, and unless
/// the atom is of the last generation it leaves two atoms and three
/// neutrons, each heading where one of the five `draws` points.
pub open spec fn fission(atom: AtomState, bullet: BulletState, draws: Seq<ConeSample>) -> Seq<
    Command,
> {
    let axis = cone_axis(atom, bullet);
    if atom.events.0 >= MAX_EVENTS {
        seq![Command::Despawn(atom.entity), Command::Despawn(bullet.entity)]
    } else {
        seq![
            Command::Despawn(atom.entity),
            Command::Despawn(bullet.entity),
            Command::SpawnAtom(child_atom(atom, tilted(axis, draws[0]))),
            Command::SpawnAtom(child_atom(atom, tilted(axis, draws[1]))),
            Command::SpawnNeutron(child_neutron(atom, tilted(axis, draws[2]))),
            Command::SpawnNeutron(child_neutron(atom, tilted(axis, draws[3]))),
            Command::SpawnNeutron(child_neutron(atom, tilted(axis, draws[4]))),
        ]
    }
}

/// The atom and the projectile that `event` names, where both are still
/// around.
pub open spec fn struck(
    atoms: Seq<AtomState>,
    bullets: Seq<BulletState>,
    event: EnemyCollideEvent,
) -> Option<(AtomState, BulletState)> {
    match (lookup_bullet(bullets, event.with), lookup_atom(atoms, event.enemy)) {
        (Some(bullet), Some(atom)) => Some((atom, bullet)),
        _ => None,
    }
}

/// The atoms that `events` have dealt with: every atom that an event named
/// together with a projectile, both still around.
pub open spec fn handled(
    atoms: Seq<AtomState>,
    bullets: Seq<BulletState>,
    events: Seq<EnemyCollideEvent>,
) -> Set<Entity>
    decreases events.len(),
{
    if events.len() == 0 {
        Set::empty()
    } else {
        let before = handled(atoms, bullets, events.drop_last());
        match struck(atoms, bullets, events.last()) {
            Some((atom, _)) => before.insert(atom.entity),
            None => before,
        }
    }
}

/// Whether the last of `events` is a hit that counts: it names an atom and
/// a projectile that are both still around, no earlier event of the tick
/// has dealt with the atom, and the two are not siblings.
pub open spec fn counts(
    atoms: Seq<AtomState>,
    bullets: Seq<BulletState>,
    events: Seq<EnemyCollideEvent>,
) -> bool {
    events.len() > 0 && match struck(atoms, bullets, events.last()) {
        Some((atom, bullet)) => !handled(atoms, bullets, events.drop_last()).contains(
            atom.entity,
        ) && !siblings(atom, bullet),
        None => false,
    }
}

/// How many of `events` are hits that count.
pub open spec fn reactions(
    atoms: Seq<AtomState>,
    bullets: Seq<BulletState>,
    events: Seq<EnemyCollideEvent>,
) -> nat
    decreases events.len(),
{
    if events.len() == 0 {
        0
    } else {
        reactions(atoms, bullets, events.drop_last()) + if counts(atoms, bullets, events) {
            1nat
        } else {
            0nat
        }
    }
}

/// The draw that points straight along the axis of the cone.
pub open spec fn straight() -> ConeSample {
    ConeSample { cos_angle: 1000, sin_angle: 0, cos_rotation: 1000, sin_rotation: 0 }
}

/// The draw at `index`; where the samples have run out, the one that
/// points straight ahead.
pub open spec fn draw_at(samples: Seq<ConeSample>, index: int) -> ConeSample {
    if 0 <= index < samples.len() {
        samples[index]
    } else {
        straight()
    }
}

/// The five draws set aside for the event at `index`: those from `5 *
/// index` on.
pub open spec fn draws_for(samples: Seq<ConeSample>, index: int) -> Seq<ConeSample> {
    Seq::new(5, |k: int| draw_at(samples, 5 * index + k))
}

/// What `events` do to the entities, event by event: each hit that counts
/// adds its [`fission`], every other event adds nothing.
pub open spec fn cascade(
    atoms: Seq<AtomState>,
    bullets: Seq<BulletState>,
    events: Seq<EnemyCollideEvent>,
    samples: Seq<ConeSample>,
) -> Seq<Command>
    decreases events.len(),
{
    if events.len() == 0 {
        Seq::empty()
    } else {
        let before = cascade(atoms, bullets, events.drop_last(), samples);
        match struck(atoms, bullets, events.last()) {
            Some((atom, bullet)) => if counts(atoms, bullets, events) {
                before + fission(atom, bullet, draws_for(samples, events.len() - 1))
            } else {
                before
            },
            None => before,
        }
    }
}

/// The shake that a tick with a split asks for.
pub open spec fn fission_shake() -> ScreenShake {
    ScreenShake { intensity: 10_000, duration: 150 }
}

/// All that a tick's events lead to: the [`cascade`], and after it one
/// request to shake the screen if there was a hit that counts.
pub open spec fn fallout(
    atoms: Seq<AtomState>,
    bullets: Seq<BulletState>,
    events: Seq<EnemyCollideEvent>,
    samples: Seq<ConeSample>,
) -> Seq<Command> {
    if reactions(atoms, bullets, events) > 0 {
        cascade(atoms, bullets, events, samples).push(Command::Shake(fission_shake()))
    } else {
        cascade(atoms, bullets, events, samples)
    }
}

/// An atom of the last generation leaves nothing behind: where a hit on it
/// counts, atom and projectile are removed and nothing is created. The hit
/// is counted.
pub proof fn lemma_last_generation_ends(
    atoms: Seq<AtomState>,
    bullets: Seq<BulletState>,
    events: Seq<EnemyCollideEvent>,
    samples: Seq<ConeSample>,
    atom: AtomState,
    bullet: BulletState,
)
    requires
        counts(atoms, bullets, events),
        struck(atoms, bullets, events.last()) == Some((atom, bullet)),
        atom.events.0 >= MAX_EVENTS,
    ensures
        cascade(atoms, bullets, events, samples) == cascade(
            atoms,
            bullets,
            events.drop_last(),
            samples,
        ) + seq![Command::Despawn(atom.entity), Command::Despawn(bullet.entity)],
        reactions(atoms, bullets, events) == reactions(atoms, bullets, events.drop_last()) + 1,
{
}

/// Whether `command` creates an atom of generation `events` at `position`
/// whose progenitor is `parent`.
pub open spec fn spawns_atom(
    command: Command,
    position: Vec3i,
    parent: Entity,
    events: int,
) -> bool {
    command matches Command::SpawnAtom(child) && child.transform.translation == position
        && child.progenitor == Progenitor(Some(parent)) && child.events.0 == events
        && child.velocity is Some
}

/// Whether `command` creates a neutron at `position` whose progenitor is
/// `parent` and which harms the player too.
pub open spec fn spawns_neutron(command: Command, position: Vec3i, parent: Entity) -> bool {
    command matches Command::SpawnNeutron(child) && child.transform.translation == position
        && child.progenitor == Progenitor(Some(parent)) && child.hit_player
}

/// An atom below the last generation fans out: where a hit on it counts,
/// atom and projectile are removed, and exactly two atoms of the next
/// generation and three neutrons are created in its place, all with the
/// split atom as progenitor. The hit is counted.
pub proof fn lemma_split_fans_out(
    atoms: Seq<AtomState>,
    bullets: Seq<BulletState>,
    events: Seq<EnemyCollideEvent>,
    samples: Seq<ConeSample>,
    atom: AtomState,
    bullet: BulletState,
)
    requires
        counts(atoms, bullets, events),
        struck(atoms, bullets, events.last()) == Some((atom, bullet)),
        atom.events.0 < MAX_EVENTS,
    ensures
        ({
            let before = cascade(atoms, bullets, events.drop_last(), samples);
            let after = cascade(atoms, bullets, events, samples);
            let n = before.len() as int;
            &&& after.len() == n + 7
            &&& after.take(n) == before
            &&& after[n] == Command::Despawn(atom.entity)
            &&& after[n + 1] == Command::Despawn(bullet.entity)
            &&& spawns_atom(after[n + 2], atom.position, atom.entity, atom.events.0 + 1)
            &&& spawns_atom(after[n + 3], atom.position, atom.entity, atom.events.0 + 1)
            &&& spawns_neutron(after[n + 4], atom.position, atom.entity)
            &&& spawns_neutron(after[n + 5], atom.position, atom.entity)
            &&& spawns_neutron(after[n + 6], atom.position, atom.entity)
        }),
        reactions(atoms, bullets, events) == reactions(atoms, bullets, events.drop_last()) + 1,
{
    let before = cascade(atoms, bullets, events.drop_last(), samples);
    let after = cascade(atoms, bullets, events, samples);
    assert(after.take(before.len() as int) =~= before);
}

/// Siblings do not harm each other: an event that names an atom and a
/// projectile with the same progenitor is passed over. Nothing is removed,
/// nothing is created and nothing is counted.
pub proof fn lemma_siblings_spared(
    atoms: Seq<AtomState>,
    bullets: Seq<BulletState>,
    events: Seq<EnemyCollideEvent>,
    samples: Seq<ConeSample>,
    atom: AtomState,
    bullet: BulletState,
)
    requires
        events.len() > 0,
        struck(atoms, bullets, events.last()) == Some((atom, bullet)),
        siblings(atom, bullet),
    ensures
        !counts(atoms, bullets, events),
        cascade(atoms, bullets, events, samples) == cascade(
            atoms,
            bullets,
            events.drop_last(),
            samples,
        ),
        reactions(atoms, bullets, events) == reactions(atoms, bullets, events.drop_last()),
{
}

/// Nothing is ever removed or created but by a hit that counts: an event
/// that does not count leaves the queue and the counter as they were.
pub proof fn lemma_only_hits_that_count(
    atoms: Seq<AtomState>,
    bullets: Seq<BulletState>,
    events: Seq<EnemyCollideEvent>,
    samples: Seq<ConeSample>,
)
    requires
        events.len() > 0,
        !counts(atoms, bullets, events),
    ensures
        cascade(atoms, bullets, events, samples) == cascade(
            atoms,
            bullets,
            events.drop_last(),
            samples,
        ),
        reactions(atoms, bullets, events) == reactions(atoms, bullets, events.drop_last()),
{
}

fn find_atom(atoms: &Vec<AtomState>, entity: Entity) -> (found: Option<AtomState>)
    ensures
        found == lookup_atom(atoms@, entity),
{
    let mut i: usize = 0;
    assert(atoms@.skip(0) =~= atoms@);
    while i < atoms.len()
        invariant
            i <= atoms.len(),
            lookup_atom(atoms@, entity) == lookup_atom(atoms@.skip(i as int), entity),
        decreases atoms.len() - i,
    {
        if atoms[i].entity == entity {
            return Some(atoms[i]);
        }
        assert(atoms@.skip(i as int).drop_first() =~= atoms@.skip(i + 1));
        i += 1;
    }
    None
}

fn find_bullet(bullets: &Vec<BulletState>, entity: Entity) -> (found: Option<BulletState>)
    ensures
        found == lookup_bullet(bullets@, entity),
{
    let mut i: usize = 0;
    assert(bullets@.skip(0) =~= bullets@);
    while i < bullets.len()
        invariant
            i <= bullets.len(),
            lookup_bullet(bullets@, entity) == lookup_bullet(bullets@.skip(i as int), entity),
        decreases bullets.len() - i,
    {
        if bullets[i].entity == entity {
            return Some(bullets[i]);
        }
        assert(bullets@.skip(i as int).drop_first() =~= bullets@.skip(i + 1));
        i += 1;
    }
    None
}

/// The way the fragments of a split head, before the random spread.
fn combined_direction(atom: &AtomState, bullet: &BulletState) -> (direction: Vec3i)
    ensures
        direction == heading(*atom, *bullet),
{
    let a = match atom.velocity {
        Some(v) => v.0,
        None => Vec3i::zero(),
    };
    let b = bullet.velocity.0;
    let x: i64 = a.x as i64 + b.x as i64;
    let y: i64 = a.y as i64 + b.y as i64;
    let z: i64 = a.z as i64 + b.z as i64;
    if x == 0 && y == 0 && z == 0 {
        Vec3i::new(1000, 0, 0)
    } else {
        unit(x, y, z)
    }
}

/// The draw set aside for fragment `k` of the event at `index`.
fn pick(samples: &Vec<ConeSample>, index: usize, k: usize) -> (sample: ConeSample)
    requires
        k < 5,
    ensures
        sample == draws_for(samples@, index as int)[k as int],
{
    let at: u128 = 5 * (index as u128) + (k as u128);
    if at < samples.len() as u128 {
        samples[at as usize]
    } else {
        ConeSample { cos_angle: 1000, sin_angle: 0, cos_rotation: 1000, sin_rotation: 0 }
    }
}

/// Queues what one hit that counts does.
fn split(
    atom: &AtomState,
    bullet: &BulletState,
    samples: &Vec<ConeSample>,
    index: usize,
    commands: &mut Vec<Command>,
)
    ensures
        final(commands)@ == old(commands)@ + fission(
            *atom,
            *bullet,
            draws_for(samples@, index as int),
        ),
{
    let ghost draws = draws_for(samples@, index as int);
    commands.push(Command::Despawn(atom.entity));
    commands.push(Command::Despawn(bullet.entity));
    if atom.events.0 >= MAX_EVENTS {
        assert(commands@ =~= old(commands)@ + fission(*atom, *bullet, draws));
        return ;
    }
    let direction = combined_direction(atom, bullet);
    let directions = RandomDirectionIterator::new(direction, CONE_ANGLE);
    let mut k: usize = 0;
    while k < 2
        invariant
            k <= 2,
            atom.events.0 < MAX_EVENTS,
            directions.direction() == cone_axis(*atom, *bullet),
            draws == draws_for(samples@, index as int),
            commands@ == old(commands)@ + fission(*atom, *bullet, draws).take(2 + k),
        decreases 2 - k,
    {
        let direction = directions.next(&pick(samples, index, k));
        AtomBundle::spawn(
            commands,
            atom.position,
            Some(direction),
            Some(atom.entity),
            atom.events.0 + 1,
        );
        k += 1;
        assert(commands@ =~= old(commands)@ + fission(*atom, *bullet, draws).take(2 + k));
    }
    while k < 5
        invariant
            2 <= k <= 5,
            atom.events.0 < MAX_EVENTS,
            directions.direction() == cone_axis(*atom, *bullet),
            draws == draws_for(samples@, index as int),
            commands@ == old(commands)@ + fission(*atom, *bullet, draws).take(2 + k),
        decreases 5 - k,
    {
        let direction = directions.next(&pick(samples, index, k));
        NeutronBundle::spawn(
            Transform::at(atom.position),
            Velocity(Vec3i::new(direction.x * 2, direction.y * 2, direction.z * 2)),
            Some(atom.entity),
            true,
            commands,
        );
        k += 1;
        assert(commands@ =~= old(commands)@ + fission(*atom, *bullet, draws).take(2 + k));
    }
    assert(fission(*atom, *bullet, draws).take(7) =~= fission(*atom, *bullet, draws));
}

/// The fission rule of one tick. For each event that names an atom and a
/// projectile that are both still around, unless an earlier event of the
/// tick has dealt with the atom or the two are siblings: atom and
/// projectile are removed, the hit is counted in `total_events`, and unless
/// the atom is of the last generation it splits. If any hit counted, the
/// screen shakes. The event at index `i` spreads its fragments by the five
/// samples from index `5 * i` on; a fragment whose sample is missing flies
/// straight ahead.
pub fn handle_neutron(
    atoms: &Vec<AtomState>,
    bullets: &Vec<BulletState>,
    events: &Vec<EnemyCollideEvent>,
    samples: &Vec<ConeSample>,
    total_events: &mut TotalEvents,
) -> (commands: Vec<Command>)
    requires
        old(total_events).0 + events.len() <= usize::MAX,
    ensures
        commands@ == fallout(atoms@, bullets@, events@, samples@),
        final(total_events).0 == old(total_events).0 + reactions(atoms@, bullets@, events@),
{
    let mut commands: Vec<Command> = Vec::new();
    let mut already_handled: FxHashSet<Entity> = FxHashSet::default();
    let mut any: bool = false;
    let mut i: usize = 0;
    while i < events.len()
        invariant
            i <= events.len(),
            old(total_events).0 + events.len() <= usize::MAX,
            already_handled@ == handled(atoms@, bullets@, events@.take(i as int)),
            commands@ == cascade(atoms@, bullets@, events@.take(i as int), samples@),
            reactions(atoms@, bullets@, events@.take(i as int)) <= i,
            total_events.0 == old(total_events).0 + reactions(
                atoms@,
                bullets@,
                events@.take(i as int),
            ),
            any == (reactions(atoms@, bullets@, events@.take(i as int)) > 0),
        decreases events.len() - i,
    {
        let event = events[i];
        proof {
            assert(events@.take(i + 1).drop_last() =~= events@.take(i as int));
            assert(events@.take(i + 1).last() == event);
        }
        i += 1;
        let bullet = match find_bullet(bullets, event.with) {
            Some(bullet) => bullet,
            None => {
                continue ;
            },
        };
        let atom = match find_atom(atoms, event.enemy) {
            Some(atom) => atom,
            None => {
                continue ;
            },
        };
        if !set_insert(&mut already_handled, atom.entity) {
            continue ;
        }
        match (atom.progenitor.0, bullet.progenitor.0) {
            (Some(atom_progenitor), Some(progenitor)) => {
                if atom_progenitor == progenitor {
                    continue ;
                }
            },
            _ => {},
        }
        split(&atom, &bullet, samples, i - 1, &mut commands);
        total_events.0 += 1;
        any = true;
    }
    assert(events@.take(events.len() as int) =~= events@);
    if any {
        commands.push(Command::Shake(ScreenShake::new(10_000, 150)));
    }
    commands
}

} // verus!
