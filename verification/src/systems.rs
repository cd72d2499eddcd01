//! The per-tick routines, each with a spec-level transition function saying
//! exactly what it does to the modelled engine state.
//!
//! Order within a tick: the spawner runs first; the child rebuilder and the
//! transform sync both run next, before the host's propagation pass (they
//! write disjoint components, so their relative order is immaterial — see
//! [`crate::laws::lemma_rebuild_snap_commute`]); the logger observes the
//! state after propagation, if propagation ran this tick; finally the host's
//! change-detection bookkeeping stops reporting this tick's writes.

use vstd::prelude::*;
use crate::transform::{Transform3, Vec3u};
use crate::world::{ChildNode, EntityRec, RecV, World, WorldV, CHILD_COUNT, SPAWN_CAP};

verus! {

// ---------------------------------------------------------------------------
// Spawner
// ---------------------------------------------------------------------------

/// The row the spawner creates: position (1, 1, 1), the rebuild marker, a
/// mesh, default transforms, no children yet, and both component writes
/// reported to this tick's later routines.
pub open spec fn spawn_rec(id: u64) -> RecV {
    RecV {
        id,
        position: Some(Vec3u { x: 1, y: 1, z: 1 }),
        needs_children: true,
        has_mesh: true,
        local: Transform3::spec_identity(),
        world: Transform3::spec_identity(),
        children: Seq::empty(),
        position_changed: true,
        transform_changed: true,
    }
}

/// One spawner run: while fewer than [`SPAWN_CAP`] entities have been
/// created, append one new row; at the cap, do nothing.
pub open spec fn spawn_step(w: WorldV) -> WorldV {
    if w.spawned < SPAWN_CAP {
        WorldV {
            spawned: (w.spawned + 1) as u64,
            next_id: (w.next_id + 1) as u64,
            entities: w.entities.push(spawn_rec(w.next_id)),
        }
    } else {
        w
    }
}

// ---------------------------------------------------------------------------
// Child rebuilder
// ---------------------------------------------------------------------------

/// Whether the rebuilder touches a row: it carries the marker tag and a
/// position whose write was reported this tick.
pub open spec fn rebuild_matches(r: RecV) -> bool {
    r.needs_children && r.position is Some && r.position_changed
}

/// The freshly built child set: [`CHILD_COUNT`] empty nodes, each with an
/// identity local transform and no mesh.
pub open spec fn fresh_children() -> Seq<ChildNode> {
    Seq::new(
        CHILD_COUNT as nat,
        |j: int| ChildNode { local: Transform3::spec_identity(), has_mesh: false },
    )
}

/// Effect of the rebuilder on one row: a matched row's whole child set is
/// discarded and replaced by [`fresh_children`]; any other row is untouched.
pub open spec fn rebuild_rec(r: RecV) -> RecV {
    if rebuild_matches(r) {
        RecV { children: fresh_children(), ..r }
    } else {
        r
    }
}

/// One rebuilder run over the whole table.
pub open spec fn children_step(w: WorldV) -> WorldV {
    WorldV { entities: w.entities.map_values(|r: RecV| rebuild_rec(r)), ..w }
}

// ---------------------------------------------------------------------------
// Transform sync
// ---------------------------------------------------------------------------

/// Whether the sync touches a row: it has a position, and either the
/// position or the transform had a write reported this tick.
pub open spec fn snap_matches(r: RecV) -> bool {
    r.position is Some && (r.position_changed || r.transform_changed)
}

/// Effect of the sync on one row: a matched row's transform is overwritten
/// with the translation-only transform at its position, discarding any prior
/// rotation or scale; any other row is untouched.
pub open spec fn snap_rec(r: RecV) -> RecV {
    if snap_matches(r) {
        RecV { local: Transform3::spec_translation(r.position->0), ..r }
    } else {
        r
    }
}

/// One sync run over the whole table.
pub open spec fn snap_step(w: WorldV) -> WorldV {
    WorldV { entities: w.entities.map_values(|r: RecV| snap_rec(r)), ..w }
}

// ---------------------------------------------------------------------------
// The host's propagation pass and change-detection bookkeeping
// ---------------------------------------------------------------------------

/// Effect of the host's hierarchy-to-world propagation pass on one row.
/// Every modelled row is a hierarchy root, so its world transform becomes
/// its own local transform. (The pass also recomputes the child nodes' world
/// transforms; nothing here reads those, so they are not modelled.)
pub open spec fn propagate_rec(r: RecV) -> RecV {
    RecV { world: r.local, ..r }
}

/// The whole propagation pass.
pub open spec fn propagate_step(w: WorldV) -> WorldV {
    WorldV { entities: w.entities.map_values(|r: RecV| propagate_rec(r)), ..w }
}

/// End-of-tick change-detection bookkeeping on one row: a write is reported
/// only to routines that have not observed it, so once every routine has run
/// this tick's reports lapse. (A routine's own overwrite is never reported
/// back to it, and no routine here writes a component another one filters
/// on, so no write stays reported into the next tick.)
pub open spec fn clear_rec(r: RecV) -> RecV {
    RecV { position_changed: false, transform_changed: false, ..r }
}

/// The bookkeeping over the whole table.
pub open spec fn clear_step(w: WorldV) -> WorldV {
    WorldV { entities: w.entities.map_values(|r: RecV| clear_rec(r)), ..w }
}

// ---------------------------------------------------------------------------
// Logger
// ---------------------------------------------------------------------------

/// Whether the logger reports a row: it carries a position and its world
/// transform still equals the engine's default.
pub open spec fn log_keeps(r: RecV) -> bool {
    r.position is Some && r.world.is_default()
}

/// What the logger reports of a table: the identifiers of the kept rows, in
/// table order.
pub open spec fn log_of(s: Seq<RecV>) -> Seq<u64>
    decreases s.len(),
{
    if s.len() == 0 {
        Seq::empty()
    } else {
        log_of(s.drop_last()) + if log_keeps(s.last()) {
            seq![s.last().id]
        } else {
            Seq::empty()
        }
    }
}

// ---------------------------------------------------------------------------
// One whole tick
// ---------------------------------------------------------------------------

/// The state a tick's routines hand to the logger: spawn, rebuild and sync,
/// then the host's propagation pass if it ran before the logger this tick.
pub open spec fn observed_step(w: WorldV, propagated: bool) -> WorldV {
    let after = snap_step(children_step(spawn_step(w)));
    if propagated {
        propagate_step(after)
    } else {
        after
    }
}

/// The state a full tick leaves behind.
pub open spec fn tick_step(w: WorldV, propagated: bool) -> WorldV {
    clear_step(observed_step(w, propagated))
}

/// What the logger prints during a full tick.
pub open spec fn tick_log(w: WorldV, propagated: bool) -> Seq<u64> {
    log_of(observed_step(w, propagated).entities)
}

impl World {
    /// The spawner: while fewer than [`SPAWN_CAP`] entities have been
    /// created, create one — position (1, 1, 1), the rebuild marker and a
    /// cube mesh — and return its identifier; at the cap, create nothing.
    pub fn spawn_system(&mut self) -> (created: Option<u64>)
        requires
            old(self).spawned < SPAWN_CAP ==> old(self).next_id < u64::MAX,
        ensures
            final(self)@ == spawn_step(old(self)@),
            created == (if old(self).spawned < SPAWN_CAP {
                Some(old(self).next_id)
            } else {
                None::<u64>
            }),
    {
        if self.spawned < SPAWN_CAP {
            let id = self.next_id;
            let rec = EntityRec {
                id,
                position: Some(Vec3u { x: 1, y: 1, z: 1 }),
                needs_children: true,
                has_mesh: true,
                local: Transform3::identity(),
                world: Transform3::identity(),
                children: Vec::new(),
                position_changed: true,
                transform_changed: true,
            };
            self.entities.push(rec);
            self.spawned = self.spawned + 1;
            self.next_id = self.next_id + 1;
            proof {
                assert(self@.entities =~~= spawn_step(old(self)@).entities);
            }
            Some(id)
        } else {
            None
        }
    }

    /// The child rebuilder: every row carrying the marker tag whose position
    /// write was reported this tick has its whole child set discarded and
    /// [`CHILD_COUNT`] empty nodes created in its place.
    pub fn children_system(&mut self)
        ensures
            final(self)@ == children_step(old(self)@),
    {
        let n = self.entities.len();
        let mut i: usize = 0;
        while i < n
            invariant
                i <= n,
                n == self.entities.len(),
                n == old(self)@.entities.len(),
                self.spawned == old(self).spawned,
                self.next_id == old(self).next_id,
                forall|j: int| 0 <= j < i ==> #[trigger] self@.entities[j]
                    =~~= rebuild_rec(old(self)@.entities[j]),
                forall|j: int| i <= j < n ==> #[trigger] self@.entities[j]
                    =~~= old(self)@.entities[j],
            decreases n - i,
        {
            let ghost prev = self@;
            if self.entities[i].needs_children && self.entities[i].position.is_some()
                && self.entities[i].position_changed {
                let mut fresh: Vec<ChildNode> = Vec::new();
                let mut k: usize = 0;
                while k < CHILD_COUNT
                    invariant
                        k <= CHILD_COUNT,
                        fresh@ =~= fresh_children().take(k as int),
                    decreases CHILD_COUNT - k,
                {
                    fresh.push(ChildNode { local: Transform3::identity(), has_mesh: false });
                    proof {
                        assert(fresh@ =~= fresh_children().take(k + 1));
                    }
                    k = k + 1;
                }
                proof {
                    assert(fresh@ =~= fresh_children());
                }
                self.entities[i].children = fresh;
            }
            proof {
                assert(self@.entities.len() == prev.entities.len());
                assert(forall|j: int| 0 <= j < n && j != i ==> #[trigger] self@.entities[j]
                    =~~= prev.entities[j]);
                assert(self@.entities[i as int] =~~= rebuild_rec(prev.entities[i as int]));
            }
            i = i + 1;
        }
        proof {
            assert(self@.entities =~~= children_step(old(self)@).entities);
        }
    }

    /// The transform sync: every row that has a position and had a position
    /// or transform write reported this tick gets its transform overwritten
    /// with the translation-only transform at its position.
    pub fn snap_system(&mut self)
        ensures
            final(self)@ == snap_step(old(self)@),
    {
        let n = self.entities.len();
        let mut i: usize = 0;
        while i < n
            invariant
                i <= n,
                n == self.entities.len(),
                n == old(self)@.entities.len(),
                self.spawned == old(self).spawned,
                self.next_id == old(self).next_id,
                forall|j: int| 0 <= j < i ==> #[trigger] self@.entities[j]
                    =~~= snap_rec(old(self)@.entities[j]),
                forall|j: int| i <= j < n ==> #[trigger] self@.entities[j]
                    =~~= old(self)@.entities[j],
            decreases n - i,
        {
            let ghost prev = self@;
            if self.entities[i].position.is_some()
                && (self.entities[i].position_changed || self.entities[i].transform_changed) {
                let p = self.entities[i].position.unwrap();
                self.entities[i].local = Transform3::translation_at(p);
            }
            proof {
                assert(self@.entities.len() == prev.entities.len());
                assert(forall|j: int| 0 <= j < n && j != i ==> #[trigger] self@.entities[j]
                    =~~= prev.entities[j]);
                assert(self@.entities[i as int] =~~= snap_rec(prev.entities[i as int]));
            }
            i = i + 1;
        }
        proof {
            assert(self@.entities =~~= snap_step(old(self)@).entities);
        }
    }

    /// The host's propagation pass, as it acts on the modelled rows: each is
    /// a hierarchy root, so its world transform becomes its own local
    /// transform.
    pub fn propagation_pass(&mut self)
        ensures
            final(self)@ == propagate_step(old(self)@),
    {
        let n = self.entities.len();
        let mut i: usize = 0;
        while i < n
            invariant
                i <= n,
                n == self.entities.len(),
                n == old(self)@.entities.len(),
                self.spawned == old(self).spawned,
                self.next_id == old(self).next_id,
                forall|j: int| 0 <= j < i ==> #[trigger] self@.entities[j]
                    =~~= propagate_rec(old(self)@.entities[j]),
                forall|j: int| i <= j < n ==> #[trigger] self@.entities[j]
                    =~~= old(self)@.entities[j],
            decreases n - i,
        {
            let ghost prev = self@;
            let t = self.entities[i].local;
            self.entities[i].world = t;
            proof {
                assert(self@.entities.len() == prev.entities.len());
                assert(forall|j: int| 0 <= j < n && j != i ==> #[trigger] self@.entities[j]
                    =~~= prev.entities[j]);
                assert(self@.entities[i as int] =~~= propagate_rec(prev.entities[i as int]));
            }
            i = i + 1;
        }
        proof {
            assert(self@.entities =~~= propagate_step(old(self)@).entities);
        }
    }

    /// The host's change-detection bookkeeping at the end of a tick: this
    /// tick's reports lapse once every routine has observed them.
    pub fn end_of_tick(&mut self)
        ensures
            final(self)@ == clear_step(old(self)@),
    {
        let n = self.entities.len();
        let mut i: usize = 0;
        while i < n
            invariant
                i <= n,
                n == self.entities.len(),
                n == old(self)@.entities.len(),
                self.spawned == old(self).spawned,
                self.next_id == old(self).next_id,
                forall|j: int| 0 <= j < i ==> #[trigger] self@.entities[j]
                    =~~= clear_rec(old(self)@.entities[j]),
                forall|j: int| i <= j < n ==> #[trigger] self@.entities[j]
                    =~~= old(self)@.entities[j],
            decreases n - i,
        {
            let ghost prev = self@;
            self.entities[i].position_changed = false;
            self.entities[i].transform_changed = false;
            proof {
                assert(self@.entities.len() == prev.entities.len());
                assert(forall|j: int| 0 <= j < n && j != i ==> #[trigger] self@.entities[j]
                    =~~= prev.entities[j]);
                assert(self@.entities[i as int] =~~= clear_rec(prev.entities[i as int]));
            }
            i = i + 1;
        }
        proof {
            assert(self@.entities =~~= clear_step(old(self)@).entities);
        }
    }

    /// The logger's scan: the identifiers, in table order, of the rows that
    /// carry a position and whose world transform still equals the engine's
    /// default — exactly those, none omitted, none added.
    pub fn log_system(&self) -> (r: Vec<u64>)
        ensures
            r@ == log_of(self@.entities),
    {
        let n = self.entities.len();
        let mut out: Vec<u64> = Vec::new();
        let mut i: usize = 0;
        while i < n
            invariant
                i <= n,
                n == self.entities.len(),
                out@ =~= log_of(self@.entities.take(i as int)),
            decreases n - i,
        {
            proof {
                assert(self@.entities.take(i + 1).drop_last() =~= self@.entities.take(i as int));
                assert(self@.entities.take(i + 1).last() =~~= self@.entities[i as int]);
            }
            if self.entities[i].position.is_some()
                && self.entities[i].world == Transform3::identity() {
                out.push(self.entities[i].id);
            }
            i = i + 1;
        }
        proof {
            assert(self@.entities.take(n as int) =~= self@.entities);
        }
        out
    }

    /// One whole tick, in schedule order: spawner; child rebuilder and
    /// transform sync; the host's propagation pass, if it runs before the
    /// logger this tick; the logger; the end-of-tick bookkeeping. Returns
    /// what the logger reported.
    pub fn tick(&mut self, propagated: bool) -> (log: Vec<u64>)
        requires
            old(self).spawned < SPAWN_CAP ==> old(self).next_id < u64::MAX,
        ensures
            final(self)@ == tick_step(old(self)@, propagated),
            log@ == tick_log(old(self)@, propagated),
    {
        self.spawn_system();
        self.children_system();
        self.snap_system();
        if propagated {
            self.propagation_pass();
        }
        let log = self.log_system();
        self.end_of_tick();
        log
    }
}

/// The identifiers, in order, of the entries whose flag is set: the compute
/// half of the logger once the store has been read into (identifier,
/// still-default) pairs.
pub open spec fn flagged_of(s: Seq<(u64, bool)>) -> Seq<u64>
    decreases s.len(),
{
    if s.len() == 0 {
        Seq::empty()
    } else {
        flagged_of(s.drop_last()) + if s.last().1 {
            seq![s.last().0]
        } else {
            Seq::empty()
        }
    }
}

/// Select the identifiers whose flag is set, keeping their order.
pub fn select_flagged(entries: &Vec<(u64, bool)>) -> (r: Vec<u64>)
    ensures
        r@ == flagged_of(entries@),
{
    let n = entries.len();
    let mut out: Vec<u64> = Vec::new();
    let mut i: usize = 0;
    while i < n
        invariant
            i <= n,
            n == entries.len(),
            out@ =~= flagged_of(entries@.take(i as int)),
        decreases n - i,
    {
        proof {
            assert(entries@.take(i + 1).drop_last() =~= entries@.take(i as int));
        }
        if entries[i].1 {
            out.push(entries[i].0);
        }
        i = i + 1;
    }
    proof {
        assert(entries@.take(n as int) =~= entries@);
    }
    out
}

} // verus!
