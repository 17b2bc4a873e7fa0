use render_core::entity::Entity;
use render_core::fixed::FX_ONE;
use render_core::linalg::Vec3;
use render_core::mesh::AABB;
use render_core::resource::{Guid, MeshRecord, ResourceManager, SWEEP_INTERVAL};

fn record() -> MeshRecord {
    MeshRecord {
        aabb: AABB::new(
            Vec3::new(-FX_ONE, -FX_ONE, -FX_ONE),
            Vec3::new(FX_ONE, FX_ONE, FX_ONE),
        ),
    }
}

#[test]
fn loading_one_guid_twice_shares_the_handle() {
    let g = Guid(0xABCDEF);
    let mut rm = ResourceManager::new();
    let h1 = rm.load_mesh(Entity::new(1), g, record());
    let h2 = rm.load_mesh(Entity::new(2), g, record());
    assert_eq!(h1, h2);
    assert_eq!(rm.has_mesh(g), Some(h1));

    let m = Guid(0x123);
    let m1 = rm.load_material(Entity::new(1), m);
    let m2 = rm.load_material(Entity::new(2), m);
    assert_eq!(m1, m2);
    assert_eq!(rm.has_material(m), Some(m1));

    let t = Guid(0x456);
    let t1 = rm.load_texture(t);
    let t2 = rm.load_texture(t);
    assert_eq!(t1, t2);
    assert_eq!(rm.has_texture(t), Some(t1));
}

#[test]
fn different_guids_get_different_handles() {
    let mut rm = ResourceManager::new();
    let h1 = rm.load_mesh(Entity::new(1), Guid(0x1), record());
    let h2 = rm.load_mesh(Entity::new(2), Guid(0x2), record());
    assert_ne!(h1, h2);
}

#[test]
fn unused_resource_is_evicted_after_the_interval() {
    let g = Guid(0x77);
    let mut rm = ResourceManager::new();
    rm.load_mesh(Entity::new(1), g, record());
    for _ in 0..(SWEEP_INTERVAL + 1) {
        rm.update_frame();
    }
    rm.unload_all_unused_resources();
    assert_eq!(rm.has_mesh(g), None);
}

#[test]
fn resource_at_the_interval_boundary_survives() {
    let g = Guid(0x77);
    let mut rm = ResourceManager::new();
    rm.load_mesh(Entity::new(1), g, record());
    for _ in 0..SWEEP_INTERVAL {
        rm.update_frame();
    }
    rm.unload_all_unused_resources();
    assert!(rm.has_mesh(g).is_some());
}

#[test]
fn resource_marked_every_frame_is_never_evicted() {
    let g = Guid(0x77);
    let m = Guid(0x88);
    let mut rm = ResourceManager::new();
    rm.load_mesh(Entity::new(1), g, record());
    rm.load_material(Entity::new(1), m);
    for _ in 0..(3 * SWEEP_INTERVAL) {
        rm.update_frame();
        rm.mark_mesh_used(g);
        rm.mark_material_used(m);
        rm.unload_all_unused_resources();
        assert!(rm.has_mesh(g).is_some());
        assert!(rm.has_material(m).is_some());
    }
}

#[test]
fn sweep_keeps_fresh_and_drops_stale_side_by_side() {
    let stale = Guid(0x1);
    let fresh = Guid(0x2);
    let mut rm = ResourceManager::new();
    rm.load_mesh(Entity::new(1), stale, record());
    for _ in 0..(SWEEP_INTERVAL + 5) {
        rm.update_frame();
    }
    rm.load_mesh(Entity::new(2), fresh, record());
    rm.unload_all_unused_resources();
    assert_eq!(rm.has_mesh(stale), None);
    assert!(rm.has_mesh(fresh).is_some());
}

#[test]
fn assignments_survive_a_sweep() {
    let g = Guid(0x9);
    let e = Entity::new(4);
    let mut rm = ResourceManager::new();
    rm.load_mesh(e, g, record());
    for _ in 0..(SWEEP_INTERVAL + 1) {
        rm.update_frame();
    }
    rm.unload_all_unused_resources();
    // the cache entry is gone, but the entity still names the GUID
    assert_eq!(rm.has_mesh(g), None);
    assert_eq!(rm.get_mesh(&e), Some(g));
}

#[test]
fn stats_count_loaded_and_referenced() {
    let mut rm = ResourceManager::new();
    rm.load_mesh(Entity::new(1), Guid(0x1), record());
    rm.load_mesh(Entity::new(2), Guid(0x2), record());
    rm.load_material(Entity::new(1), Guid(0x3));
    rm.load_texture(Guid(0x4));
    let stats = rm.get_resource_stats();
    assert_eq!(stats.meshes_loaded, 2);
    assert_eq!(stats.meshes_referenced, 2);
    assert_eq!(stats.materials_loaded, 1);
    assert_eq!(stats.materials_referenced, 1);
    assert_eq!(stats.textures_loaded, 1);

    // reassign entity 2 to the first mesh: one cached mesh loses its user
    rm.load_mesh(Entity::new(2), Guid(0x1), record());
    let stats = rm.get_resource_stats();
    assert_eq!(stats.meshes_loaded, 2);
    assert_eq!(stats.meshes_referenced, 1);
}

#[test]
fn mesh_aabb_is_cached_with_the_mesh() {
    let g = Guid(0x5);
    let mut rm = ResourceManager::new();
    rm.load_mesh(Entity::new(1), g, record());
    let a = rm.get_mesh_aabb(g).unwrap();
    assert_eq!(a.min.x, -FX_ONE);
    assert_eq!(a.max.z, FX_ONE);
    assert_eq!(rm.get_mesh_aabb(Guid(0x6)), None);
}
