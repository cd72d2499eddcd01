use cube_spawner::systems::select_flagged;
use cube_spawner::transform::{Transform3, Vec3u};
use cube_spawner::world::{ChildNode, EntityRec, World, CHILD_COUNT, SPAWN_CAP};

fn one() -> Vec3u {
    Vec3u { x: 1, y: 1, z: 1 }
}

fn row(id: u64, position: Option<Vec3u>, world: Transform3) -> EntityRec {
    EntityRec {
        id,
        position,
        needs_children: false,
        has_mesh: false,
        local: Transform3::identity(),
        world,
        children: Vec::new(),
        position_changed: false,
        transform_changed: false,
    }
}

#[test]
fn new_world_is_empty() {
    let w = World::new();
    assert_eq!(w.spawned, 0);
    assert_eq!(w.next_id, 0);
    assert!(w.entities.is_empty());
}

#[test]
fn spawner_caps_at_fifty() {
    let mut w = World::new();
    for _ in 0..SPAWN_CAP + 5 {
        w.tick(true);
    }
    assert_eq!(w.spawned, SPAWN_CAP);
    assert_eq!(w.entities.len(), SPAWN_CAP as usize);
    for (i, r) in w.entities.iter().enumerate() {
        assert_eq!(r.id, i as u64);
        assert!(r.position.is_some());
        assert!(r.needs_children);
    }
}

#[test]
fn spawner_returns_consecutive_ids_then_none() {
    let mut w = World::new();
    for i in 0..SPAWN_CAP {
        assert_eq!(w.spawn_system(), Some(i));
    }
    assert_eq!(w.spawn_system(), None);
    assert_eq!(w.entities.len(), SPAWN_CAP as usize);
}

#[test]
fn positions_are_one_one_one_and_never_altered() {
    let mut w = World::new();
    for _ in 0..10 {
        w.tick(false);
    }
    for r in &w.entities {
        assert_eq!(r.position, Some(one()));
    }
    // a hand-written position survives every later tick untouched
    let mut v = World::new();
    v.tick(true);
    v.entities[0].position = Some(Vec3u { x: 7, y: 8, z: 9 });
    for _ in 0..3 {
        v.tick(true);
    }
    assert_eq!(v.entities[0].position, Some(Vec3u { x: 7, y: 8, z: 9 }));
}

#[test]
fn changed_row_gets_five_empty_children() {
    let mut w = World::new();
    let mut r = row(3, Some(one()), Transform3::identity());
    r.needs_children = true;
    r.position_changed = true;
    r.children.push(ChildNode { local: Transform3::translation_at(one()), has_mesh: true });
    w.entities.push(r);
    w.children_system();
    let c = &w.entities[0].children;
    assert_eq!(c.len(), CHILD_COUNT);
    for node in c {
        assert_eq!(node.local, Transform3::identity());
        assert!(!node.has_mesh);
    }
}

#[test]
fn unchanged_row_keeps_its_children() {
    let mut w = World::new();
    let mut r = row(3, Some(one()), Transform3::identity());
    r.needs_children = true;
    r.position_changed = false;
    r.children.push(ChildNode { local: Transform3::identity(), has_mesh: true });
    w.entities.push(r);
    w.children_system();
    assert_eq!(w.entities[0].children.len(), 1);
    assert!(w.entities[0].children[0].has_mesh);
}

#[test]
fn snap_overwrites_rotation_and_scale() {
    let mut w = World::new();
    let mut r = row(0, Some(Vec3u { x: 2, y: 3, z: 4 }), Transform3::identity());
    r.local = Transform3 {
        translation: Vec3u { x: 9, y: 9, z: 9 },
        rotation_is_identity: false,
        scale_is_unit: false,
    };
    r.position_changed = true;
    w.entities.push(r);
    w.snap_system();
    let t = w.entities[0].local;
    assert_eq!(t.translation, Vec3u { x: 2, y: 3, z: 4 });
    assert!(t.rotation_is_identity);
    assert!(t.scale_is_unit);
}

#[test]
fn snap_skips_rows_without_a_reported_write() {
    let mut w = World::new();
    let mut r = row(0, Some(Vec3u { x: 2, y: 3, z: 4 }), Transform3::identity());
    r.local = Transform3 {
        translation: Vec3u { x: 9, y: 9, z: 9 },
        rotation_is_identity: false,
        scale_is_unit: false,
    };
    w.entities.push(r);
    w.snap_system();
    assert_eq!(w.entities[0].local.translation, Vec3u { x: 9, y: 9, z: 9 });
    assert!(!w.entities[0].local.rotation_is_identity);
}

#[test]
fn logger_reports_exactly_the_default_position_rows() {
    let mut w = World::new();
    w.entities.push(row(10, Some(one()), Transform3::identity()));
    w.entities.push(row(11, Some(one()), Transform3::translation_at(one())));
    w.entities.push(row(12, None, Transform3::identity()));
    w.entities.push(row(13, Some(one()), Transform3::identity()));
    assert_eq!(w.log_system(), vec![10, 13]);
}

#[test]
fn select_flagged_keeps_order() {
    let entries = vec![(7u64, true), (8u64, false), (9u64, true)];
    assert_eq!(select_flagged(&entries), vec![7, 9]);
    assert_eq!(select_flagged(&Vec::new()), Vec::<u64>::new());
}

#[test]
fn first_tick_scenario_without_propagation() {
    let mut w = World::new();
    let log1 = w.tick(false);
    // the entity spawned this tick got its children and its transform at once
    assert_eq!(w.entities.len(), 1);
    assert_eq!(w.entities[0].position, Some(one()));
    assert_eq!(w.entities[0].children.len(), CHILD_COUNT);
    assert_eq!(w.entities[0].local, Transform3::translation_at(one()));
    // propagation has not run, so its world transform is still the default
    assert_eq!(log1, vec![0]);
}

#[test]
fn first_tick_scenario_with_propagation() {
    let mut w = World::new();
    let log1 = w.tick(true);
    assert_eq!(w.entities[0].world, Transform3::translation_at(one()));
    assert_eq!(log1, Vec::<u64>::new());
}

#[test]
fn second_tick_does_not_rebuild_or_resnap() {
    let mut w = World::new();
    w.tick(false);
    // leave a mark on the first entity's state; a repeat rebuild or snap
    // would erase it
    w.entities[0].children.pop();
    w.entities[0].local.rotation_is_identity = false;
    let log2 = w.tick(false);
    assert_eq!(w.entities[0].children.len(), CHILD_COUNT - 1);
    assert!(!w.entities[0].local.rotation_is_identity);
    // both entities are still unpropagated, and the new one was rebuilt
    assert_eq!(log2, vec![0, 1]);
    assert_eq!(w.entities[1].children.len(), CHILD_COUNT);
}

#[test]
fn propagation_copies_local_to_world() {
    let mut w = World::new();
    let mut r = row(0, Some(one()), Transform3::identity());
    r.local = Transform3::translation_at(Vec3u { x: 4, y: 5, z: 6 });
    w.entities.push(r);
    w.propagation_pass();
    assert_eq!(w.entities[0].world, Transform3::translation_at(Vec3u { x: 4, y: 5, z: 6 }));
}

#[test]
fn end_of_tick_clears_reports() {
    let mut w = World::new();
    w.spawn_system();
    assert!(w.entities[0].position_changed);
    assert!(w.entities[0].transform_changed);
    w.end_of_tick();
    assert!(!w.entities[0].position_changed);
    assert!(!w.entities[0].transform_changed);
}

#[test]
fn transform_helpers() {
    let t = Transform3::identity();
    assert_eq!(t.translation, Vec3u::zero());
    assert!(t.rotation_is_identity);
    assert!(t.scale_is_unit);
    let s = Transform3::translation_at(Vec3u { x: 1, y: 2, z: 3 });
    assert_eq!(s.translation, Vec3u { x: 1, y: 2, z: 3 });
    assert!(s.rotation_is_identity);
    assert!(s.scale_is_unit);
}
