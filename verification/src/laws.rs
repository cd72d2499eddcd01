//! What holds of the plugin as a whole: the spawn cap, the write-once
//! position, the exact effect of the rebuilder and the sync, the exactness
//! of the logger's report, and the shape of every state reachable by ticks.

use vstd::prelude::*;
use crate::transform::{Transform3, Vec3u};
use crate::world::{wf, RecV, WorldV, CHILD_COUNT, SPAWN_CAP};
use crate::systems::{
    children_step, clear_step, fresh_children, log_keeps, log_of, observed_step, propagate_step,
    rebuild_matches, rebuild_rec, snap_matches, snap_rec, snap_step, spawn_rec, spawn_step,
    tick_log, tick_step,
};

verus! {

/// The state before the first tick: nothing spawned, empty table.
pub open spec fn init_world() -> WorldV {
    WorldV { spawned: 0, next_id: 0, entities: Seq::empty() }
}

/// The state after `n` whole ticks from `w`, the host running its
/// propagation pass before the logger on every tick or on none.
pub open spec fn run_ticks(w: WorldV, n: nat, propagated: bool) -> WorldV
    decreases n,
{
    if n == 0 {
        w
    } else {
        tick_step(run_ticks(w, (n - 1) as nat, propagated), propagated)
    }
}

/// How row `i` looks at the end of any full tick since its creation:
/// position (1, 1, 1) — written at creation and never altered — the marker
/// tag, a mesh, the freshly built child set, the transform snapped to the
/// position, no write reported, and the world transform as the host's
/// propagation left it.
pub open spec fn settled_row(r: RecV, i: int, propagated: bool) -> bool {
    &&& r.id == i
    &&& r.position == Some(Vec3u { x: 1, y: 1, z: 1 })
    &&& r.needs_children
    &&& r.has_mesh
    &&& r.children =~= fresh_children()
    &&& r.local == Transform3::spec_translation(Vec3u { x: 1, y: 1, z: 1 })
    &&& r.world == (if propagated {
        Transform3::spec_translation(Vec3u { x: 1, y: 1, z: 1 })
    } else {
        Transform3::spec_identity()
    })
    &&& !r.position_changed
    &&& !r.transform_changed
}

/// One tick from a well-formed state whose rows are all settled: the result
/// is well-formed, its rows are all settled again, and the spawner created
/// one row below the cap and none at it.
pub proof fn lemma_tick_settles(w: WorldV, propagated: bool)
    requires
        wf(w),
        forall|i: int| 0 <= i < w.entities.len() ==> settled_row(
            #[trigger] w.entities[i],
            i,
            propagated,
        ),
    ensures
        wf(tick_step(w, propagated)),
        w.spawned < SPAWN_CAP ==> tick_step(w, propagated).spawned == w.spawned + 1,
        w.spawned >= SPAWN_CAP ==> tick_step(w, propagated).spawned == w.spawned,
        forall|i: int| 0 <= i < tick_step(w, propagated).entities.len() ==> settled_row(
            #[trigger] tick_step(w, propagated).entities[i],
            i,
            propagated,
        ),
{
    let ws = spawn_step(w);
    let wc = children_step(ws);
    let wn = snap_step(wc);
    let wo = observed_step(w, propagated);
    let w2 = tick_step(w, propagated);
    assert(wo == if propagated {
        propagate_step(wn)
    } else {
        wn
    });
    assert(w2 == clear_step(wo));
    assert forall|i: int| 0 <= i < w2.entities.len() implies settled_row(
        w2.entities[i],
        i,
        propagated,
    ) by {
        if i < w.entities.len() {
            assert(settled_row(w.entities[i], i, propagated));
            assert(ws.entities[i] == w.entities[i]);
            assert(!rebuild_matches(ws.entities[i]));
            assert(wc.entities[i] == ws.entities[i]);
            assert(!snap_matches(wc.entities[i]));
            assert(wn.entities[i] == wc.entities[i]);
            if propagated {
                assert(wo.entities[i] == RecV { world: wn.entities[i].local, ..wn.entities[i] });
                assert(wo.entities[i].world == w.entities[i].world);
                assert(wo.entities[i] == wn.entities[i]);
            }
            assert(w2.entities[i] == RecV {
                position_changed: false,
                transform_changed: false,
                ..wo.entities[i]
            });
            assert(w2.entities[i] == wo.entities[i]);
        } else {
            // the row the spawner created this tick
            assert(w.spawned < SPAWN_CAP);
            assert(i == w.entities.len());
            let fresh = spawn_rec(w.next_id);
            assert(ws.entities[i] == fresh);
            assert(rebuild_matches(fresh));
            assert(wc.entities[i] == RecV { children: fresh_children(), ..fresh });
            assert(snap_matches(wc.entities[i]));
            let one = Vec3u { x: 1, y: 1, z: 1 };
            assert(wn.entities[i] == RecV {
                local: Transform3::spec_translation(one),
                ..wc.entities[i]
            });
            if propagated {
                assert(wo.entities[i] == RecV { world: wn.entities[i].local, ..wn.entities[i] });
            }
            assert(w2.entities[i] == RecV {
                position_changed: false,
                transform_changed: false,
                ..wo.entities[i]
            });
        }
    }
}

/// The shape of every state this plugin can reach: after `n` ticks from the
/// initial state, exactly `min(n, SPAWN_CAP)` entities exist — so after the
/// cap's worth of ticks, exactly [`SPAWN_CAP`], with no further ones created
/// on later ticks — and every one of them is settled: it bears position
/// (1, 1, 1), the marker tag, a mesh, and the freshly built child set.
pub proof fn lemma_run_ticks_shape(n: nat, propagated: bool)
    ensures
        wf(run_ticks(init_world(), n, propagated)),
        n < SPAWN_CAP ==> run_ticks(init_world(), n, propagated).spawned == n,
        n >= SPAWN_CAP ==> run_ticks(init_world(), n, propagated).spawned == SPAWN_CAP,
        run_ticks(init_world(), n, propagated).entities.len() == run_ticks(
            init_world(),
            n,
            propagated,
        ).spawned,
        forall|i: int|
            0 <= i < run_ticks(init_world(), n, propagated).entities.len() ==> settled_row(
                #[trigger] run_ticks(init_world(), n, propagated).entities[i],
                i,
                propagated,
            ),
    decreases n,
{
    if n > 0 {
        lemma_run_ticks_shape((n - 1) as nat, propagated);
        lemma_tick_settles(run_ticks(init_world(), (n - 1) as nat, propagated), propagated);
    }
}

/// The spawn cap: once at least [`SPAWN_CAP`] ticks have run, exactly
/// [`SPAWN_CAP`] entities exist, each bearing a position and the marker
/// tag, and no later tick creates another.
pub proof fn lemma_spawn_cap(n: nat, propagated: bool)
    requires
        n >= SPAWN_CAP,
    ensures
        run_ticks(init_world(), n, propagated).entities.len() == SPAWN_CAP,
        forall|i: int|
            0 <= i < SPAWN_CAP ==> {
                let r = #[trigger] run_ticks(init_world(), n, propagated).entities[i];
                r.position is Some && r.needs_children
            },
{
    lemma_run_ticks_shape(n, propagated);
}

/// Positions are write-once: a tick leaves every existing row's position
/// exactly as it was — no routine alters one — and any row the tick creates
/// carries position (1, 1, 1).
pub proof fn lemma_position_write_once(w: WorldV, propagated: bool)
    ensures
        tick_step(w, propagated).entities.len() >= w.entities.len(),
        forall|i: int|
            0 <= i < w.entities.len() ==> #[trigger] tick_step(
                w,
                propagated,
            ).entities[i].position == w.entities[i].position,
        forall|i: int|
            w.entities.len() <= i < tick_step(w, propagated).entities.len()
                ==> #[trigger] tick_step(w, propagated).entities[i].position == Some(
                Vec3u { x: 1, y: 1, z: 1 },
            ),
{
}

/// The rebuilder, exactly: a row that carries the marker tag and whose
/// position write is reported this tick has its whole child set replaced by
/// [`CHILD_COUNT`] nodes, each with an identity local transform and no
/// mesh; every other row is untouched.
pub proof fn lemma_children_rebuilt(w: WorldV, i: int)
    requires
        0 <= i < w.entities.len(),
    ensures
        rebuild_matches(w.entities[i]) ==> {
            let c = children_step(w).entities[i].children;
            &&& c.len() == CHILD_COUNT
            &&& forall|j: int|
                0 <= j < c.len() ==> (#[trigger] c[j]).local == Transform3::spec_identity()
                    && !c[j].has_mesh
        },
        !rebuild_matches(w.entities[i]) ==> children_step(w).entities[i] == w.entities[i],
{
}

/// The sync, exactly: a row with a position and a reported position or
/// transform write gets a transform whose translation equals its position's
/// coordinates and whose rotation and scale are reset to the identity and
/// one; every other row is untouched, and no row's position, world
/// transform or children change.
pub proof fn lemma_snap_exact(w: WorldV, i: int)
    requires
        0 <= i < w.entities.len(),
    ensures
        snap_matches(w.entities[i]) ==> {
            let t = snap_step(w).entities[i].local;
            &&& t.translation == w.entities[i].position->0
            &&& t.rotation_is_identity
            &&& t.scale_is_unit
        },
        !snap_matches(w.entities[i]) ==> snap_step(w).entities[i] == w.entities[i],
        snap_step(w).entities[i].position == w.entities[i].position,
        snap_step(w).entities[i].world == w.entities[i].world,
        snap_step(w).entities[i].children == w.entities[i].children,
{
}

/// The logger, exactly: an identifier is reported on a tick if and only if
/// some row carries a position, still has the default world transform, and
/// bears that identifier — no row omitted, none spuriously included.
pub proof fn lemma_log_exact(s: Seq<RecV>)
    ensures
        forall|id: u64| #[trigger]
            log_of(s).contains(id) <==> exists|i: int|
                0 <= i < s.len() && log_keeps(#[trigger] s[i]) && s[i].id == id,
    decreases s.len(),
{
    if s.len() > 0 {
        let dl = s.drop_last();
        let last = s.last();
        lemma_log_exact(dl);
        let tail: Seq<u64> = if log_keeps(last) {
            seq![last.id]
        } else {
            Seq::empty()
        };
        assert(log_of(s) == log_of(dl) + tail);
        assert forall|id: u64| #[trigger] log_of(s).contains(id) implies exists|i: int|
            0 <= i < s.len() && log_keeps(#[trigger] s[i]) && s[i].id == id by {
            let k = choose|k: int| 0 <= k < log_of(s).len() && log_of(s)[k] == id;
            if k < log_of(dl).len() {
                assert(log_of(dl)[k] == id);
                assert(log_of(dl).contains(id));
                let i = choose|i: int| 0 <= i < dl.len() && log_keeps(#[trigger] dl[i]) && dl[i].id
                    == id;
                assert(s[i] == dl[i]);
                assert(log_keeps(s[i]) && s[i].id == id);
            } else {
                assert(log_keeps(last) && last.id == id);
                assert(s[s.len() - 1] == last);
                assert(log_keeps(s[s.len() - 1]) && s[s.len() - 1].id == id);
            }
        }
        assert forall|id: u64|
            (exists|i: int| 0 <= i < s.len() && log_keeps(#[trigger] s[i]) && s[i].id == id)
            implies #[trigger] log_of(s).contains(id) by {
            let i = choose|i: int| 0 <= i < s.len() && log_keeps(#[trigger] s[i]) && s[i].id == id;
            if i < s.len() - 1 {
                assert(dl[i] == s[i]);
                assert(log_keeps(dl[i]) && dl[i].id == id);
                assert(log_of(dl).contains(id));
                let k = choose|k: int| 0 <= k < log_of(dl).len() && log_of(dl)[k] == id;
                assert(log_of(s)[k] == id);
            } else {
                assert(s[i] == last);
                assert(log_keeps(last));
                assert(log_of(s)[log_of(dl).len() as int] == last.id);
            }
        }
    }
}

/// The logger over a whole tick, exactly: an identifier is printed during a
/// tick if and only if, in the state the logger observes that tick, some row
/// carries a position, still has the default world transform, and bears that
/// identifier.
pub proof fn lemma_tick_log_exact(w: WorldV, propagated: bool)
    ensures
        forall|id: u64| #[trigger]
            tick_log(w, propagated).contains(id) <==> exists|i: int|
                0 <= i < observed_step(w, propagated).entities.len() && log_keeps(
                    #[trigger] observed_step(w, propagated).entities[i],
                ) && observed_step(w, propagated).entities[i].id == id,
{
    lemma_log_exact(observed_step(w, propagated).entities);
}

/// Each entity appears at most once in the logger's report: as long as the
/// table's identifiers are distinct, the report holds no duplicates — so
/// together with [`lemma_log_exact`] the report is exactly the set of
/// position-bearing rows whose world transform is still the default.
pub proof fn lemma_log_no_duplicates(s: Seq<RecV>)
    requires
        forall|i: int, j: int| #![trigger s[i], s[j]]
            0 <= i < j < s.len() ==> s[i].id != s[j].id,
    ensures
        log_of(s).no_duplicates(),
    decreases s.len(),
{
    if s.len() > 0 {
        let dl = s.drop_last();
        let last = s.last();
        lemma_log_no_duplicates(dl);
        lemma_log_exact(dl);
        if log_keeps(last) && log_of(dl).contains(last.id) {
            let i = choose|i: int|
                0 <= i < dl.len() && log_keeps(#[trigger] dl[i]) && dl[i].id == last.id;
            assert(s[i].id == s[s.len() - 1].id);
            assert(false);
        }
        let whole = log_of(s);
        assert forall|p: int, q: int| 0 <= p < whole.len() && 0 <= q < whole.len() && p != q
            implies whole[p] != whole[q] by {
            let head = log_of(dl);
            if p < head.len() && q < head.len() {
                assert(whole[p] == head[p] && whole[q] == head[q]);
            } else if p < head.len() {
                assert(whole[q] == last.id && whole[p] == head[p]);
                assert(head.contains(head[p]));
            } else if q < head.len() {
                assert(whole[p] == last.id && whole[q] == head[q]);
                assert(head.contains(head[q]));
            }
        }
    }
}

/// A table none of whose rows the logger keeps yields an empty report.
pub proof fn lemma_log_of_none(s: Seq<RecV>)
    requires
        forall|i: int| 0 <= i < s.len() ==> !log_keeps(#[trigger] s[i]),
    ensures
        log_of(s) =~= Seq::<u64>::empty(),
    decreases s.len(),
{
    if s.len() > 0 {
        lemma_log_of_none(s.drop_last());
    }
}

/// A table all of whose rows the logger keeps is reported whole, in order.
pub proof fn lemma_log_of_all(s: Seq<RecV>)
    requires
        forall|i: int| 0 <= i < s.len() ==> log_keeps(#[trigger] s[i]),
    ensures
        log_of(s) =~= Seq::new(s.len(), |i: int| s[i].id),
    decreases s.len(),
{
    if s.len() > 0 {
        lemma_log_of_all(s.drop_last());
    }
}

/// What the diagnostic is for: on a tick whose rows were all settled, if the
/// host's propagation pass ran before the logger, every world transform has
/// been computed and the report is empty; if it did not run yet, every
/// entity — the one spawned this tick included — still has the default world
/// transform and is reported, in identifier order.
pub proof fn lemma_tick_log_settled(w: WorldV, propagated: bool)
    requires
        wf(w),
        forall|i: int| 0 <= i < w.entities.len() ==> settled_row(
            #[trigger] w.entities[i],
            i,
            propagated,
        ),
    ensures
        propagated ==> tick_log(w, propagated) =~= Seq::<u64>::empty(),
        !propagated ==> tick_log(w, propagated) =~= Seq::new(
            observed_step(w, propagated).entities.len(),
            |i: int| i as u64,
        ),
{
    let ws = spawn_step(w);
    let wc = children_step(ws);
    let wn = snap_step(wc);
    let wo = observed_step(w, propagated);
    let one = Vec3u { x: 1, y: 1, z: 1 };
    assert forall|i: int| 0 <= i < wo.entities.len() implies {
        &&& wo.entities[i].id == i
        &&& wo.entities[i].position is Some
        &&& wo.entities[i].world == (if propagated {
            Transform3::spec_translation(one)
        } else {
            Transform3::spec_identity()
        })
    } by {
        if i < w.entities.len() {
            assert(settled_row(w.entities[i], i, propagated));
            assert(ws.entities[i] == w.entities[i]);
            assert(wc.entities[i] == ws.entities[i]);
            assert(wn.entities[i] == wc.entities[i]);
        } else {
            assert(ws.entities[i] == spawn_rec(w.next_id));
            assert(wc.entities[i] == RecV { children: fresh_children(), ..ws.entities[i] });
            assert(wn.entities[i] == RecV {
                local: Transform3::spec_translation(one),
                ..wc.entities[i]
            });
        }
    }
    if propagated {
        assert forall|i: int| 0 <= i < wo.entities.len() implies !log_keeps(
            #[trigger] wo.entities[i],
        ) by {
            assert(wo.entities[i].world != Transform3::spec_identity());
        }
        lemma_log_of_none(wo.entities);
    } else {
        assert forall|i: int| 0 <= i < wo.entities.len() implies log_keeps(
            #[trigger] wo.entities[i],
        ) by {}
        lemma_log_of_all(wo.entities);
        assert(Seq::new(wo.entities.len(), |i: int| wo.entities[i].id) =~= Seq::new(
            wo.entities.len(),
            |i: int| i as u64,
        ));
    }
}

/// The rebuilder and the sync write disjoint components — the child set and
/// the transform — so the schedule may run them in either order: both
/// orders yield the same state.
pub proof fn lemma_rebuild_snap_commute(w: WorldV)
    ensures
        snap_step(children_step(w)) == children_step(snap_step(w)),
{
    let a = snap_step(children_step(w));
    let b = children_step(snap_step(w));
    assert forall|i: int| 0 <= i < w.entities.len() implies a.entities[i] == b.entities[i] by {
        let r = w.entities[i];
        assert(a.entities[i] == snap_rec(rebuild_rec(r)));
        assert(b.entities[i] == rebuild_rec(snap_rec(r)));
    }
    assert(a.entities =~= b.entities);
}

} // verus!
