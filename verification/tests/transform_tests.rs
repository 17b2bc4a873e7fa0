use render_core::entity::{Entity, Transform, TransformSystem};
use render_core::fixed::FX_ONE;
use render_core::linalg::Vec3;

fn fx(v: i64) -> i64 {
    v * FX_ONE
}

fn at(x: i64, y: i64, z: i64) -> Transform {
    let mut t = Transform::new();
    t.set_position(&Vec3::new(x, y, z));
    t
}

#[test]
fn child_world_position_follows_parent() {
    // A is a root with the identity transform; B is its child at (1,0,0)
    let a = Entity::new(1);
    let b = Entity::new(2);
    let mut ts = TransformSystem::new();
    ts.add_transform(a, Transform::new());
    ts.add_transform(b, at(fx(1), 0, 0));
    assert!(ts.set_parent(a, b));

    ts.update();
    let wb = ts.get_world_matrix(b).unwrap();
    assert_eq!((wb.m03, wb.m13, wb.m23), (fx(1), 0, 0));

    // move A to (5,0,0): B's world position becomes (6,0,0)
    ts.set_local_transform(a, at(fx(5), 0, 0));
    ts.update();
    let wa = ts.get_world_matrix(a).unwrap();
    assert_eq!((wa.m03, wa.m13, wa.m23), (fx(5), 0, 0));
    let wb = ts.get_world_matrix(b).unwrap();
    assert_eq!((wb.m03, wb.m13, wb.m23), (fx(6), 0, 0));
}

#[test]
fn world_matrix_is_parent_times_local() {
    let a = Entity::new(1);
    let b = Entity::new(2);
    let c = Entity::new(3);
    let mut ts = TransformSystem::new();
    ts.add_transform(a, at(fx(1), fx(2), 0));
    ts.add_transform(b, at(0, fx(3), 0));
    ts.add_transform(c, at(fx(10), 0, 0));
    assert!(ts.set_parent(a, b));
    assert!(ts.set_parent(b, c));
    ts.update();

    let wa = ts.get_world_matrix(a).unwrap();
    let wb = ts.get_world_matrix(b).unwrap();
    let wc = ts.get_world_matrix(c).unwrap();
    // pure translations compose by adding offsets
    assert_eq!((wa.m03, wa.m13, wa.m23), (fx(1), fx(2), 0));
    assert_eq!((wb.m03, wb.m13, wb.m23), (fx(1), fx(5), 0));
    assert_eq!((wc.m03, wc.m13, wc.m23), (fx(11), fx(5), 0));
    // and B's world matrix is A's world matrix times B's local matrix
    let lb = ts.get_local_transform(b).unwrap().local_matrix();
    assert_eq!(wa.mul_mat(&lb), wb);
}

#[test]
fn removing_entity_removes_descendants() {
    let root = Entity::new(1);
    let child = Entity::new(2);
    let grandchild = Entity::new(3);
    let other = Entity::new(4);
    let mut ts = TransformSystem::new();
    ts.add_transform(root, Transform::new());
    ts.add_transform(child, Transform::new());
    ts.add_transform(grandchild, Transform::new());
    ts.add_transform(other, Transform::new());
    assert!(ts.set_parent(root, child));
    assert!(ts.set_parent(child, grandchild));
    ts.update();

    ts.remove_entity(child);
    assert!(ts.has_entity(root));
    assert!(!ts.has_entity(child));
    assert!(!ts.has_entity(grandchild));
    assert!(ts.has_entity(other));
    assert!(ts.get_world_matrix(child).is_none());
    assert!(ts.get_world_matrix(grandchild).is_none());
    assert!(ts.get_world_matrix(root).is_some());
}

#[test]
fn removing_root_removes_whole_tree() {
    let root = Entity::new(7);
    let child = Entity::new(8);
    let mut ts = TransformSystem::new();
    ts.add_transform(root, Transform::new());
    ts.add_transform(child, Transform::new());
    assert!(ts.set_parent(root, child));
    ts.remove_entity(root);
    assert!(!ts.has_entity(root));
    assert!(!ts.has_entity(child));
    assert_eq!(ts.get_all_entities().len(), 0);
}

#[test]
fn set_parent_refuses_backward_and_unknown_relations() {
    let a = Entity::new(1);
    let b = Entity::new(2);
    let ghost_e = Entity::new(99);
    let mut ts = TransformSystem::new();
    ts.add_transform(a, Transform::new());
    ts.add_transform(b, Transform::new());
    // a parent must have been registered before its child
    assert!(!ts.set_parent(b, a));
    assert!(!ts.set_parent(a, ghost_e));
    assert!(!ts.set_parent(ghost_e, b));
    assert!(!ts.set_parent(a, a));
    assert!(ts.set_parent(a, b));
    assert_eq!(ts.get_parent(b), Some(a));
    assert_eq!(ts.get_parent(a), None);
}

#[test]
fn children_and_roots_queries() {
    let a = Entity::new(1);
    let b = Entity::new(2);
    let c = Entity::new(3);
    let d = Entity::new(4);
    let mut ts = TransformSystem::new();
    ts.add_transform(a, Transform::new());
    ts.add_transform(b, Transform::new());
    ts.add_transform(c, Transform::new());
    ts.add_transform(d, Transform::new());
    assert!(ts.set_parent(a, b));
    assert!(ts.set_parent(a, c));

    assert_eq!(ts.get_children(a), vec![b, c]);
    assert_eq!(ts.get_children(b), Vec::<Entity>::new());
    assert_eq!(ts.get_root_entities(), vec![a, d]);
    assert_eq!(ts.get_all_entities(), vec![a, b, c, d]);

    ts.remove_parent(c);
    assert_eq!(ts.get_children(a), vec![b]);
    assert_eq!(ts.get_root_entities(), vec![a, c, d]);
}

#[test]
fn add_transform_is_a_noop_on_a_known_entity() {
    let a = Entity::new(1);
    let mut ts = TransformSystem::new();
    ts.add_transform(a, at(fx(2), 0, 0));
    ts.add_transform(a, at(fx(9), 0, 0));
    ts.update();
    let w = ts.get_world_matrix(a).unwrap();
    assert_eq!(w.m03, fx(2));
}

#[test]
fn set_position_flips_z() {
    let mut t = Transform::new();
    t.set_position(&Vec3::new(fx(1), fx(2), fx(3)));
    let p = t.position();
    assert_eq!((p.x, p.y, p.z), (fx(1), fx(2), fx(-3)));
}

#[test]
fn entity_id_round_trip() {
    let e = Entity::new(12345);
    assert_eq!(e.id(), 12345);
    assert_eq!(e, Entity::new(12345));
    assert_ne!(e, Entity::new(54321));
}
