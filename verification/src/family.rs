//! Parents and their children: who belongs to whom, and what follows when
//! one of the two is gone.

use crate::commands::Command;
use crate::transform::Transform;
use crate::Entity;
use vstd::prelude::*;

verus! {

/// Describes a parent-child relationship: the children of an entity.
#[derive(Clone, Debug, PartialEq, Eq, Hash)]
pub struct Children(pub Vec<Entity>);

/// Describes a parent-child relationship: the parent of an entity.
#[derive(Clone, Copy, Debug, PartialEq, Eq, Hash, Structural)]
pub struct Parent(pub Entity);

/// An entity that may have children.
pub struct Family {
    pub entity: Entity,
    pub children: Option<Children>,
}

/// An entity with its place in the world.
#[derive(Clone, Copy, Debug, PartialEq, Eq, Structural)]
pub struct Placed {
    pub entity: Entity,
    pub transform: Transform,
}

/// A child with its parent and its own place in the world.
#[derive(Clone, Copy, Debug, PartialEq, Eq, Structural)]
pub struct Follower {
    pub parent: Parent,
    pub transform: Transform,
}

/// A child with its parent.
#[derive(Clone, Copy, Debug, PartialEq, Eq, Structural)]
pub struct Child {
    pub entity: Entity,
    pub parent: Parent,
}

/// The index of the first of `entities` that is `entity`, or their number
/// where none is.
pub open spec fn first_index(entities: Seq<Entity>, entity: Entity) -> int
    decreases entities.len(),
{
    if entities.len() == 0 {
        0
    } else if entities.first() == entity {
        0
    } else {
        1 + first_index(entities.drop_first(), entity)
    }
}

/// `first_index` is the least index at which `entity` stands.
pub proof fn lemma_first_index(entities: Seq<Entity>, entity: Entity)
    ensures
        0 <= first_index(entities, entity) <= entities.len(),
        first_index(entities, entity) < entities.len() ==> entities[first_index(
            entities,
            entity,
        )] == entity,
        forall|j: int| 0 <= j < first_index(entities, entity) ==> entities[j] != entity,
        first_index(entities, entity) == entities.len() <==> !entities.contains(entity),
    decreases entities.len(),
{
    if entities.len() > 0 && entities.first() != entity {
        let rest = entities.drop_first();
        lemma_first_index(rest, entity);
        assert forall|j: int| 0 <= j < first_index(entities, entity) implies entities[j]
            != entity by {
            if j > 0 {
                assert(rest[j - 1] == entities[j]);
            }
        }
        if first_index(rest, entity) < rest.len() {
            assert(rest[first_index(rest, entity)] == entities[first_index(entities, entity)]);
        }
        if entities.contains(entity) {
            let k = choose|k: int| 0 <= k < entities.len() && entities[k] == entity;
            assert(rest[k - 1] == entity);
        }
    }
}

/// The index of the first of `entities` that is `entity`, if there is one.
fn find(entities: &Vec<Entity>, entity: Entity) -> (found: Option<usize>)
    ensures
        match found {
            Some(k) => k < entities@.len() && k == first_index(entities@, entity),
            None => first_index(entities@, entity) == entities@.len(),
        },
{
    let mut k: usize = 0;
    while k < entities.len() && entities[k] != entity
        invariant
            k <= entities.len(),
            forall|j: int| 0 <= j < k ==> entities@[j] != entity,
        decreases entities.len() - k,
    {
        k += 1;
    }
    proof {
        lemma_first_index(entities@, entity);
    }
    if k < entities.len() {
        assert(entities@[k as int] == entity);
        assert(entities@.contains(entity));
        Some(k)
    } else {
        assert(!entities@.contains(entity));
        None
    }
}

/// The handles of `families`, in order.
pub open spec fn family_ids(families: Seq<Family>) -> Seq<Entity> {
    Seq::new(families.len(), |i: int| families[i].entity)
}

/// The handles of `placed`, in order.
pub open spec fn placed_ids(placed: Seq<Placed>) -> Seq<Entity> {
    Seq::new(placed.len(), |i: int| placed[i].entity)
}

/// Add a parent-child relationship between the parent entity and the child
/// entity. Where the parent has children already, the child joins them;
/// where it has none yet, its adoption is queued; where the parent is not
/// around, nothing happens.
pub fn push_child(
    parent: Entity,
    child: Entity,
    commands: &mut Vec<Command>,
    parents: &mut Vec<Family>,
)
    ensures
        final(parents)@.len() == old(parents)@.len(),
        ({
            let k = first_index(family_ids(old(parents)@), parent);
            &&& forall|i: int|
                0 <= i < old(parents)@.len() && i != k ==> final(parents)@[i] == old(parents)@[i]
            &&& k < old(parents)@.len() ==> final(parents)@[k].entity == parent
            &&& k < old(parents)@.len() ==> match old(parents)@[k].children {
                Some(before) => final(parents)@[k].children matches Some(after) && after.0@
                    == before.0@.push(child) && final(commands)@ == old(commands)@,
                None => final(parents)@[k].children is None && final(commands)@ == old(
                    commands,
                )@.push(Command::Adopt { parent, child }),
            }
            &&& k == old(parents)@.len() ==> final(commands)@ == old(commands)@
        }),
{
    let ghost ids = family_ids(parents@);
    proof {
        lemma_first_index(ids, parent);
    }
    let mut k: usize = 0;
    while k < parents.len() && parents[k].entity != parent
        invariant
            k <= parents.len(),
            parents@ == old(parents)@,
            ids == family_ids(parents@),
            forall|j: int| 0 <= j < k ==> ids[j] != parent,
        decreases parents.len() - k,
    {
        k += 1;
    }
    if k < parents.len() {
        assert(ids[k as int] == parent);
        assert(ids.contains(parent));
        let family = &mut parents[k];
        match &mut family.children {
            Some(children) => {
                children.0.push(child);
            },
            None => {
                commands.push(Command::Adopt { parent, child });
            },
        }
    } else {
        assert(!ids.contains(parent));
    }
}

/// An entity with the children it has.
pub struct Brood {
    pub entity: Entity,
    pub children: Children,
}

/// `follower`, moved to where the first of `parents` with the handle of its
/// parent is; unmoved where none has it.
pub open spec fn followed(parents: Seq<Placed>, follower: Follower) -> Follower {
    let k = first_index(placed_ids(parents), follower.parent.0);
    if k < parents.len() {
        Follower { parent: follower.parent, transform: parents[k].transform }
    } else {
        follower
    }
}

/// Places every child where its parent is. `parents` are the entities that
/// have children; a child whose parent is not among them stays where it
/// is.
pub fn move_children(parents: &Vec<Placed>, children: &mut Vec<Follower>)
    ensures
        final(children)@ == old(children)@.map_values(|f: Follower| followed(parents@, f)),
{
    let ghost target = old(children)@.map_values(|f: Follower| followed(parents@, f));
    let ghost ids = placed_ids(parents@);
    let mut i: usize = 0;
    while i < children.len()
        invariant
            i <= children.len(),
            children@.len() == old(children)@.len(),
            ids == placed_ids(parents@),
            target == old(children)@.map_values(|f: Follower| followed(parents@, f)),
            forall|j: int| 0 <= j < i ==> children@[j] == target[j],
            forall|j: int| i <= j < children@.len() ==> children@[j] == old(children)@[j],
        decreases children.len() - i,
    {
        let parent = children[i].parent.0;
        let mut k: usize = 0;
        while k < parents.len() && parents[k].entity != parent
            invariant
                k <= parents.len(),
                ids == placed_ids(parents@),
                forall|j: int| 0 <= j < k ==> ids[j] != parent,
            decreases parents.len() - k,
        {
            k += 1;
        }
        proof {
            lemma_first_index(ids, parent);
            if k < parents.len() {
                assert(ids[k as int] == parent);
                assert(ids.contains(parent));
            } else {
                assert(!ids.contains(parent));
            }
        }
        if k < parents.len() {
            let mut moved = children[i];
            moved.transform = parents[k].transform;
            children[i] = moved;
        }
        i += 1;
    }
    assert(children@ =~= target);
}

/// The removals of the children whose parent is not among `parents`, in
/// order.
pub open spec fn orphans(parents: Seq<Entity>, children: Seq<Child>) -> Seq<Command>
    decreases children.len(),
{
    if children.len() == 0 {
        Seq::empty()
    } else if parents.contains(children.last().parent.0) {
        orphans(parents, children.drop_last())
    } else {
        orphans(parents, children.drop_last()).push(Command::Despawn(children.last().entity))
    }
}

/// Queues the removal of every child whose parent is gone. `parents` are
/// the entities that have children.
pub fn manage_children(parents: &Vec<Entity>, children: &Vec<Child>, commands: &mut Vec<Command>)
    ensures
        final(commands)@ == old(commands)@ + orphans(parents@, children@),
{
    let mut i: usize = 0;
    assert(commands@ =~= old(commands)@ + orphans(parents@, children@.take(0)));
    while i < children.len()
        invariant
            i <= children.len(),
            commands@ == old(commands)@ + orphans(parents@, children@.take(i as int)),
        decreases children.len() - i,
    {
        let child = children[i];
        proof {
            assert(children@.take(i + 1).drop_last() =~= children@.take(i as int));
            assert(children@.take(i + 1).last() == child);
            lemma_first_index(parents@, child.parent.0);
        }
        if find(parents, child.parent.0).is_none() {
            commands.push(Command::Despawn(child.entity));
        }
        i += 1;
        assert(commands@ =~= old(commands)@ + orphans(parents@, children@.take(i as int)));
    }
    assert(children@.take(children.len() as int) =~= children@);
}

/// Those of `listed` that are among `children`, in order.
pub open spec fn surviving(listed: Seq<Entity>, children: Seq<Entity>) -> Seq<Entity> {
    listed.filter(|e: Entity| children.contains(e))
}

/// The notes that a parent has no children left, for each of `parents` of
/// which that is true, in order.
pub open spec fn bereft(parents: Seq<Brood>) -> Seq<Command>
    decreases parents.len(),
{
    if parents.len() == 0 {
        Seq::empty()
    } else if parents.last().children.0@.len() == 0 {
        bereft(parents.drop_last()).push(Command::RemoveChildren(parents.last().entity))
    } else {
        bereft(parents.drop_last())
    }
}

/// Strikes from every parent's list the children that are gone, and notes
/// each parent that is left with none. `children` are the entities that
/// have a parent.
pub fn manage_parents(
    parents: &mut Vec<Brood>,
    children: &Vec<Entity>,
    commands: &mut Vec<Command>,
)
    ensures
        final(parents)@.len() == old(parents)@.len(),
        forall|i: int|
            0 <= i < old(parents)@.len() ==> {
                &&& (#[trigger] final(parents)@[i]).entity == old(parents)@[i].entity
                &&& final(parents)@[i].children.0@ == surviving(
                    old(parents)@[i].children.0@,
                    children@,
                )
            },
        final(commands)@ == old(commands)@ + bereft(final(parents)@),
{
    let mut i: usize = 0;
    assert(commands@ =~= old(commands)@ + bereft(parents@.take(0)));
    while i < parents.len()
        invariant
            i <= parents.len(),
            parents@.len() == old(parents)@.len(),
            forall|j: int|
                0 <= j < i ==> {
                    &&& (#[trigger] parents@[j]).entity == old(parents)@[j].entity
                    &&& parents@[j].children.0@ == surviving(
                        old(parents)@[j].children.0@,
                        children@,
                    )
                },
            forall|j: int| i <= j < parents@.len() ==> parents@[j] == old(parents)@[j],
            commands@ == old(commands)@ + bereft(parents@.take(i as int)),
        decreases parents.len() - i,
    {
        let ghost listed = parents@[i as int].children.0@;
        let ghost before = parents@;
        let mut kept: Vec<Entity> = Vec::new();
        let mut j: usize = 0;
        proof {
            reveal(Seq::filter);
        }
        while j < parents[i].children.0.len()
            invariant
                i < parents.len(),
                parents@ == before,
                listed == parents@[i as int].children.0@,
                j <= listed.len(),
                kept@ == surviving(listed.take(j as int), children@),
            decreases listed.len() - j,
        {
            let e = parents[i].children.0[j];
            proof {
                reveal(Seq::filter);
                assert(listed.take(j + 1).drop_last() =~= listed.take(j as int));
                assert(listed.take(j + 1).last() == e);
                lemma_first_index(children@, e);
            }
            if find(children, e).is_some() {
                kept.push(e);
            }
            j += 1;
        }
        assert(listed.take(listed.len() as int) =~= listed);
        let empty = kept.len() == 0;
        let entity = parents[i].entity;
        let row = &mut parents[i];
        row.children = Children(kept);
        if empty {
            commands.push(Command::RemoveChildren(entity));
        }
        i += 1;
        proof {
            assert(parents@.take(i as int).drop_last() =~= before.take(i - 1));
            assert(parents@.take(i as int).last() == parents@[i - 1]);
            assert(commands@ =~= old(commands)@ + bereft(parents@.take(i as int)));
        }
    }
    assert(parents@.take(parents.len() as int) =~= parents@);
}

} // verus!
