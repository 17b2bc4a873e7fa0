use render_core::entity::{Entity, Transform};
use render_core::fixed::FX_ONE;
use render_core::frustum::Frustum;
use render_core::linalg::{Mat4, Vec3};
use render_core::mesh::AABB;
use render_core::resource::{Guid, MeshRecord, ResourceManager};
use render_core::scene::Scene;

fn unit_record() -> MeshRecord {
    MeshRecord {
        aabb: AABB::new(
            Vec3::new(-FX_ONE, -FX_ONE, -FX_ONE),
            Vec3::new(FX_ONE, FX_ONE, FX_ONE),
        ),
    }
}

fn identity_frustum() -> Frustum {
    Frustum::from_view_proj(&Mat4::identity())
}

#[test]
fn same_pair_lands_in_one_batch() {
    let mesh = Guid(0x11);
    let material = Guid(0x22);
    let mut scene = Scene::new();
    let mut rm = ResourceManager::new();
    let e1 = Entity::new(1);
    let e2 = Entity::new(2);
    scene.add_entity(e1, Transform::new());
    scene.add_entity(e2, Transform::new());
    rm.load_mesh(e1, mesh, unit_record());
    rm.load_material(e1, material);
    rm.load_mesh(e2, mesh, unit_record());
    rm.load_material(e2, material);

    scene.update(&identity_frustum(), &rm);
    let draws = scene.render();
    assert_eq!(draws.len(), 1);
    assert_eq!(draws[0].mesh_id, mesh);
    assert_eq!(draws[0].material_id, material);
    assert_eq!(draws[0].instance_count, 2);
}

#[test]
fn changing_material_moves_to_another_batch() {
    let mesh = Guid(0x11);
    let material_a = Guid(0x22);
    let material_b = Guid(0x33);
    let mut scene = Scene::new();
    let mut rm = ResourceManager::new();
    let e1 = Entity::new(1);
    let e2 = Entity::new(2);
    scene.add_entity(e1, Transform::new());
    scene.add_entity(e2, Transform::new());
    rm.load_mesh(e1, mesh, unit_record());
    rm.load_material(e1, material_a);
    rm.load_mesh(e2, mesh, unit_record());
    rm.load_material(e2, material_a);
    scene.update(&identity_frustum(), &rm);
    assert_eq!(scene.render().len(), 1);

    // reassign one entity's material and rebuild
    rm.load_material(e2, material_b);
    scene.render_batches.mark_dirty();
    scene.update(&identity_frustum(), &rm);
    let draws = scene.render();
    assert_eq!(draws.len(), 2);
    assert_eq!(draws[0].instance_count, 1);
    assert_eq!(draws[1].instance_count, 1);
    assert_ne!(draws[0].material_id, draws[1].material_id);
}

#[test]
fn entity_without_material_is_silently_skipped() {
    let mesh = Guid(0x11);
    let material = Guid(0x22);
    let mut scene = Scene::new();
    let mut rm = ResourceManager::new();
    let drawn = Entity::new(1);
    let bare = Entity::new(2);
    scene.add_entity(drawn, Transform::new());
    scene.add_entity(bare, Transform::new());
    rm.load_mesh(drawn, mesh, unit_record());
    rm.load_material(drawn, material);
    rm.load_mesh(bare, mesh, unit_record());
    // no material for `bare`: it is omitted, not an error
    scene.update(&identity_frustum(), &rm);
    let draws = scene.render();
    assert_eq!(draws.len(), 1);
    assert_eq!(draws[0].instance_count, 1);
}

#[test]
fn fifty_instances_one_draw_call_hiding_ten_leaves_forty() {
    let mesh = Guid(0xAB);
    let material = Guid(0xCD);
    let mut scene = Scene::new();
    let mut rm = ResourceManager::new();
    for id in 0..50u32 {
        let e = Entity::new(id);
        scene.add_entity(e, Transform::new());
        rm.load_mesh(e, mesh, unit_record());
        rm.load_material(e, material);
    }
    scene.update(&identity_frustum(), &rm);
    let draws = scene.render();
    assert_eq!(draws.len(), 1);
    assert_eq!(draws[0].instance_count, 50);

    for id in 0..10u32 {
        scene.hidden_entity(Entity::new(id));
    }
    // refresh only: batch membership was not marked dirty
    scene.update(&identity_frustum(), &rm);
    let draws = scene.render();
    assert_eq!(draws.len(), 1);
    assert_eq!(draws[0].instance_count, 40);
}

#[test]
fn culled_entities_leave_the_instance_buffer() {
    let mesh = Guid(0x11);
    let material = Guid(0x22);
    let mut scene = Scene::new();
    let mut rm = ResourceManager::new();
    let near = Entity::new(1);
    let far = Entity::new(2);
    scene.add_entity(near, Transform::new());
    let mut t = Transform::new();
    // far to the left, outside the identity frustum's left plane
    t.set_position(&Vec3::new(-100 * FX_ONE, 0, 0));
    scene.add_entity(far, t);
    rm.load_mesh(near, mesh, unit_record());
    rm.load_material(near, material);
    rm.load_mesh(far, mesh, unit_record());
    rm.load_material(far, material);

    scene.update(&identity_frustum(), &rm);
    let draws = scene.render();
    assert_eq!(draws.len(), 1);
    assert_eq!(draws[0].instance_count, 1);
}

#[test]
fn hiding_everything_clears_the_draw_list() {
    let mesh = Guid(0x11);
    let material = Guid(0x22);
    let mut scene = Scene::new();
    let mut rm = ResourceManager::new();
    let e = Entity::new(1);
    scene.add_entity(e, Transform::new());
    rm.load_mesh(e, mesh, unit_record());
    rm.load_material(e, material);
    scene.update(&identity_frustum(), &rm);
    assert_eq!(scene.render().len(), 1);

    scene.hidden_entity(e);
    scene.update(&identity_frustum(), &rm);
    assert_eq!(scene.render().len(), 0);
}

#[test]
fn display_queries() {
    let mut scene = Scene::new();
    let e = Entity::new(1);
    let f = Entity::new(2);
    scene.add_entity(e, Transform::new());
    scene.add_entity(f, Transform::new());
    assert!(scene.is_display(&e));
    assert_eq!(scene.total_show_entities(), 2);
    scene.hidden_entity(e);
    assert!(!scene.is_display(&e));
    assert!(scene.is_display(&f));
    assert_eq!(scene.total_show_entities(), 1);
}
