//! Changes to the set of entities, queued while a tick runs and applied by
//! the entity store once all rules of the tick have run. Until then every
//! handle stays good for reading.

use crate::atoms::AtomBundle;
use crate::bullet::NeutronBundle;
use crate::camera::ScreenShake;
use crate::types::ChildOffset;
use crate::Entity;
use vstd::prelude::*;

verus! {

/// One queued change or request.
#[derive(Clone, Copy, Debug, PartialEq, Eq, Structural)]
pub enum Command {
    /// Remove the entity. Removing one that is already gone does nothing.
    Despawn(Entity),
    /// Create an atom.
    SpawnAtom(AtomBundle),
    /// Create a neutron.
    SpawnNeutron(NeutronBundle),
    /// Shake the screen.
    Shake(ScreenShake),
    /// Place the entity at the offset from its parent, if it still is
    /// around and has one.
    Offset(Entity, ChildOffset),
    /// Make `child` the only child of `parent`, which had none.
    Adopt { parent: Entity, child: Entity },
    /// Note that the entity has no children left.
    RemoveChildren(Entity),
}

} // verus!
