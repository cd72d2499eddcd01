//! The slice of the host engine's state that the plugin reads and writes: a
//! table of the entities it spawned, each with its components, its child
//! scene nodes and its change-detection flags.

use vstd::prelude::*;
use crate::transform::{Transform3, Vec3u};

verus! {

/// Cap on the number of entities the spawner ever creates.
pub const SPAWN_CAP: u64 = 50;

/// Number of child scene nodes rebuilt under an entity whose position
/// changed.
pub const CHILD_COUNT: usize = 5;

/// A child scene node, as the hierarchy storage keeps it: a local transform
/// and whether a mesh is attached. The rebuild routine only ever creates
/// empty nodes (identity transform, no mesh).
#[derive(Clone, Copy, PartialEq, Eq, Structural, Debug)]
pub struct ChildNode {
    pub local: Transform3,
    pub has_mesh: bool,
}

/// One row of the entity table, as far as the plugin reads or writes it.
///
/// `position` is `None` for an entity that does not carry the position
/// component (such entities can exist in the store; the routines here never
/// create one). `position_changed` and `transform_changed` are the host's
/// change-detection reports: whether the component was written since the
/// previous tick's observations. The host clears them at the end of a tick.
pub struct EntityRec {
    /// The entity's identifier in the host's store.
    pub id: u64,
    /// The position component, if the entity carries one.
    pub position: Option<Vec3u>,
    /// Whether the entity carries the rebuild-children marker tag.
    pub needs_children: bool,
    /// Whether a mesh is attached to the entity itself.
    pub has_mesh: bool,
    /// The entity's own (render) transform.
    pub local: Transform3,
    /// The world transform the host's propagation pass computed, still the
    /// default until that pass has run over this entity.
    pub world: Transform3,
    /// The entity's child scene nodes, owned by the hierarchy storage.
    pub children: Vec<ChildNode>,
    /// Change report for `position`.
    pub position_changed: bool,
    /// Change report for `local`.
    pub transform_changed: bool,
}

/// Mathematical value of an [`EntityRec`].
#[verifier::ext_equal]
pub struct RecV {
    pub id: u64,
    pub position: Option<Vec3u>,
    pub needs_children: bool,
    pub has_mesh: bool,
    pub local: Transform3,
    pub world: Transform3,
    pub children: Seq<ChildNode>,
    pub position_changed: bool,
    pub transform_changed: bool,
}

impl View for EntityRec {
    type V = RecV;

    open spec fn view(&self) -> RecV {
        RecV {
            id: self.id,
            position: self.position,
            needs_children: self.needs_children,
            has_mesh: self.has_mesh,
            local: self.local,
            world: self.world,
            children: self.children@,
            position_changed: self.position_changed,
            transform_changed: self.transform_changed,
        }
    }
}

/// The modelled engine state: the spawner's creation count and the entity
/// table.
pub struct World {
    /// How many entities the spawner has created so far.
    pub spawned: u64,
    /// The identifier the next spawned entity receives.
    pub next_id: u64,
    /// The entity table.
    pub entities: Vec<EntityRec>,
}

/// Mathematical value of a [`World`].
#[verifier::ext_equal]
pub struct WorldV {
    pub spawned: u64,
    pub next_id: u64,
    pub entities: Seq<RecV>,
}

impl View for World {
    type V = WorldV;

    open spec fn view(&self) -> WorldV {
        WorldV {
            spawned: self.spawned,
            next_id: self.next_id,
            entities: self.entities@.map_values(|r: EntityRec| r@),
        }
    }
}

/// Well-formedness of a world reachable from [`World::new`] by ticks alone:
/// the spawner has created every row, one per tick, with consecutive
/// identifiers.
pub open spec fn wf(w: WorldV) -> bool {
    &&& w.spawned <= SPAWN_CAP
    &&& w.entities.len() == w.spawned
    &&& w.next_id == w.spawned
    &&& forall|i: int| 0 <= i < w.entities.len() ==> (#[trigger] w.entities[i]).id == i
}

impl World {
    /// The state before any tick has run: nothing spawned, empty table.
    pub fn new() -> (w: World)
        ensures
            w@ == (WorldV { spawned: 0, next_id: 0, entities: Seq::<RecV>::empty() }),
            wf(w@),
    {
        let w = World { spawned: 0, next_id: 0, entities: Vec::new() };
        proof {
            assert(w@.entities =~= Seq::<RecV>::empty());
        }
        w
    }
}

} // verus!
