//! Content-addressed caching of GPU-backed resources.
//!
//! Resources are keyed by content GUID. Loading the same GUID twice hands
//! back the same handle, so entities sharing content share one GPU object.
//! A frame counter and per-entry last-used bookkeeping drive eviction:
//! a sweep removes every entry that was not marked used within the sweep
//! interval, and never an entry that was marked recently.

use vstd::prelude::*;

use crate::entity::Entity;
use crate::kmap::KMap;
use crate::mesh::AABB;

verus! {

/// A 128-bit content identifier (32 hex digits in the asset files).
#[derive(Clone, Copy, PartialEq, Eq, Structural, Hash, Debug)]
pub struct Guid(pub u128);

/// How many frames an unused entry survives a sweep.
pub const SWEEP_INTERVAL: u64 = 60;

/// What the importer supplies for a mesh, as far as the core keeps it:
/// the local-space bounding box. Vertex and index buffers stay with the
/// GPU layer, addressed by the returned handle.
#[derive(Clone, Copy, Debug)]
pub struct MeshRecord {
    pub aabb: AABB,
}

/// A cached mesh: its handle, its bounding box, and when it was last used.
#[derive(Clone, Copy, Debug)]
pub struct MeshEntry {
    pub handle: u64,
    pub last_used: u64,
    pub aabb: AABB,
}

/// A cached material or texture: its handle and when it was last used.
#[derive(Clone, Copy, Debug)]
pub struct ResEntry {
    pub handle: u64,
    pub last_used: u64,
}

/// Loaded and referenced counts per resource kind.
#[derive(Clone, Copy, PartialEq, Eq, Structural, Debug)]
pub struct ResourceStats {
    pub meshes_loaded: usize,
    pub meshes_referenced: usize,
    pub materials_loaded: usize,
    pub materials_referenced: usize,
    pub textures_loaded: usize,
}

/// The GUID-keyed cache of mesh, material and texture handles, and the
/// per-entity resource assignment.
pub struct ResourceManager {
    meshes: KMap<MeshEntry>,
    materials: KMap<ResEntry>,
    textures: KMap<ResEntry>,
    mesh_assign: KMap<Guid>,
    material_assign: KMap<Guid>,
    frame: u64,
    next_handle: u64,
}

/// An entry is stale once it went unused for more than the sweep interval.
pub open spec fn mesh_recent(e: MeshEntry, frame: u64) -> bool {
    e.last_used + SWEEP_INTERVAL >= frame
}

/// An entry is stale once it went unused for more than the sweep interval.
pub open spec fn res_recent(e: ResEntry, frame: u64) -> bool {
    e.last_used + SWEEP_INTERVAL >= frame
}

impl ResourceManager {
    /// The mesh cache, GUID value to entry.
    pub closed spec fn mesh_map(self) -> Map<u128, MeshEntry> {
        self.meshes.as_map()
    }

    /// The material cache.
    pub closed spec fn material_map(self) -> Map<u128, ResEntry> {
        self.materials.as_map()
    }

    /// The texture cache.
    pub closed spec fn texture_map(self) -> Map<u128, ResEntry> {
        self.textures.as_map()
    }

    /// Entity id to assigned mesh GUID.
    pub closed spec fn mesh_assign_map(self) -> Map<u128, Guid> {
        self.mesh_assign.as_map()
    }

    /// Entity id to assigned material GUID.
    pub closed spec fn material_assign_map(self) -> Map<u128, Guid> {
        self.material_assign.as_map()
    }

    /// The current frame number.
    pub closed spec fn spec_frame(self) -> u64 {
        self.frame
    }

    pub closed spec fn spec_next_handle(self) -> u64 {
        self.next_handle
    }

    /// Well-formedness: sound inner maps, and no entry marked in the
    /// future.
    pub closed spec fn wf(self) -> bool {
        &&& self.meshes.wf()
        &&& self.materials.wf()
        &&& self.textures.wf()
        &&& self.mesh_assign.wf()
        &&& self.material_assign.wf()
        &&& forall|g: u128|
            #[trigger] self.meshes.as_map().dom().contains(g) ==> self.meshes.as_map()[
                g].last_used <= self.frame
        &&& forall|g: u128|
            #[trigger] self.materials.as_map().dom().contains(g) ==> self.materials.as_map()[
                g].last_used <= self.frame
        &&& forall|g: u128|
            #[trigger] self.textures.as_map().dom().contains(g) ==> self.textures.as_map()[
                g].last_used <= self.frame
    }

    pub fn new() -> (r: ResourceManager)
        ensures
            r.wf(),
            r.mesh_map() == Map::<u128, MeshEntry>::empty(),
            r.material_map() == Map::<u128, ResEntry>::empty(),
            r.texture_map() == Map::<u128, ResEntry>::empty(),
            r.mesh_assign_map() == Map::<u128, Guid>::empty(),
            r.material_assign_map() == Map::<u128, Guid>::empty(),
            r.spec_frame() == 0,
    {
        ResourceManager {
            meshes: KMap::new(),
            materials: KMap::new(),
            textures: KMap::new(),
            mesh_assign: KMap::new(),
            material_assign: KMap::new(),
            frame: 0,
            next_handle: 1,
        }
    }

    /// Advance the monotonic frame counter (it pins at the numeric limit).
    pub fn update_frame(&mut self)
        requires
            old(self).wf(),
        ensures
            final(self).wf(),
            old(self).spec_frame() < u64::MAX ==> final(self).spec_frame() == old(
                self,
            ).spec_frame() + 1,
            old(self).spec_frame() == u64::MAX ==> final(self).spec_frame() == u64::MAX,
            final(self).mesh_map() == old(self).mesh_map(),
            final(self).material_map() == old(self).material_map(),
            final(self).texture_map() == old(self).texture_map(),
            final(self).mesh_assign_map() == old(self).mesh_assign_map(),
            final(self).material_assign_map() == old(self).material_assign_map(),
    {
        if self.frame < u64::MAX {
            self.frame = self.frame + 1;
        }
    }

    /// The cached mesh handle under a GUID, if loaded.
    pub fn has_mesh(&self, guid: Guid) -> (r: Option<u64>)
        requires
            self.wf(),
        ensures
            match r {
                Some(h) => self.mesh_map().dom().contains(guid.0) && h == self.mesh_map()[
                    guid.0].handle,
                None => !self.mesh_map().dom().contains(guid.0),
            },
    {
        match self.meshes.get(guid.0) {
            Some(e) => Some(e.handle),
            None => None,
        }
    }

    /// The cached material handle under a GUID, if loaded.
    pub fn has_material(&self, guid: Guid) -> (r: Option<u64>)
        requires
            self.wf(),
        ensures
            match r {
                Some(h) => self.material_map().dom().contains(guid.0) && h == self.material_map()[
                    guid.0].handle,
                None => !self.material_map().dom().contains(guid.0),
            },
    {
        match self.materials.get(guid.0) {
            Some(e) => Some(e.handle),
            None => None,
        }
    }

    /// The cached texture handle under a GUID, if loaded.
    pub fn has_texture(&self, guid: Guid) -> (r: Option<u64>)
        requires
            self.wf(),
        ensures
            match r {
                Some(h) => self.texture_map().dom().contains(guid.0) && h == self.texture_map()[
                    guid.0].handle,
                None => !self.texture_map().dom().contains(guid.0),
            },
    {
        match self.textures.get(guid.0) {
            Some(e) => Some(e.handle),
            None => None,
        }
    }

    /// The local-space bounding box of a cached mesh.
    pub fn get_mesh_aabb(&self, guid: Guid) -> (r: Option<AABB>)
        requires
            self.wf(),
        ensures
            match r {
                Some(a) => self.mesh_map().dom().contains(guid.0) && a == self.mesh_map()[
                    guid.0].aabb,
                None => !self.mesh_map().dom().contains(guid.0),
            },
    {
        match self.meshes.get(guid.0) {
            Some(e) => Some(e.aabb),
            None => None,
        }
    }

    /// Load a mesh for an entity. A GUID already in the cache hands back
    /// the cached handle (the record is ignored); otherwise the record is
    /// cached under a fresh handle. Either way the entity is assigned the
    /// GUID.
    pub fn load_mesh(&mut self, entity: Entity, guid: Guid, record: MeshRecord) -> (h: u64)
        requires
            old(self).wf(),
        ensures
            final(self).wf(),
            Self::load_mesh_post(*old(self), *final(self), entity, guid, record, h),
    {
        let h: u64 = match self.meshes.get(guid.0) {
            Some(e) => e.handle,
            None => {
                let h = self.next_handle;
                self.meshes.insert(
                    guid.0,
                    MeshEntry { handle: h, last_used: self.frame, aabb: record.aabb },
                );
                if self.next_handle < u64::MAX {
                    self.next_handle = self.next_handle + 1;
                }
                h
            },
        };
        self.mesh_assign.insert(entity.0 as u128, guid);
        h
    }

    /// Everything `load_mesh` promises, relating the states before and
    /// after the call: a cache hit leaves the cache alone and returns the
    /// cached handle; a miss caches the record under the handle returned;
    /// the entity is assigned the GUID; nothing else moves.
    pub open spec fn load_mesh_post(
        pre: ResourceManager,
        post: ResourceManager,
        entity: Entity,
        guid: Guid,
        record: MeshRecord,
        h: u64,
    ) -> bool {
        &&& (if pre.mesh_map().dom().contains(guid.0) {
            &&& h == pre.mesh_map()[guid.0].handle
            &&& post.mesh_map() == pre.mesh_map()
        } else {
            &&& h == pre.spec_next_handle()
            &&& post.mesh_map() == pre.mesh_map().insert(
                guid.0,
                MeshEntry { handle: h, last_used: pre.spec_frame(), aabb: record.aabb },
            )
        })
        &&& post.mesh_assign_map() == pre.mesh_assign_map().insert(entity.0 as u128, guid)
        &&& post.material_map() == pre.material_map()
        &&& post.texture_map() == pre.texture_map()
        &&& post.material_assign_map() == pre.material_assign_map()
        &&& post.spec_frame() == pre.spec_frame()
    }

    /// Loading the same GUID twice in a row yields the same handle: the
    /// second call is a cache hit on what the first call cached, so both
    /// callers share one underlying GPU object.
    pub proof fn lemma_load_mesh_shares(
        s0: ResourceManager,
        s1: ResourceManager,
        s2: ResourceManager,
        e1: Entity,
        e2: Entity,
        guid: Guid,
        r1: MeshRecord,
        r2: MeshRecord,
        h1: u64,
        h2: u64,
    )
        requires
            Self::load_mesh_post(s0, s1, e1, guid, r1, h1),
            Self::load_mesh_post(s1, s2, e2, guid, r2, h2),
        ensures
            h2 == h1,
    {
    }

    /// Load a material for an entity; caching and assignment work as for
    /// `load_mesh`.
    pub fn load_material(&mut self, entity: Entity, guid: Guid) -> (h: u64)
        requires
            old(self).wf(),
        ensures
            final(self).wf(),
            Self::load_material_post(*old(self), *final(self), entity, guid, h),
    {
        let h: u64 = match self.materials.get(guid.0) {
            Some(e) => e.handle,
            None => {
                let h = self.next_handle;
                self.materials.insert(guid.0, ResEntry { handle: h, last_used: self.frame });
                if self.next_handle < u64::MAX {
                    self.next_handle = self.next_handle + 1;
                }
                h
            },
        };
        self.material_assign.insert(entity.0 as u128, guid);
        h
    }

    /// Everything `load_material` promises.
    pub open spec fn load_material_post(
        pre: ResourceManager,
        post: ResourceManager,
        entity: Entity,
        guid: Guid,
        h: u64,
    ) -> bool {
        &&& (if pre.material_map().dom().contains(guid.0) {
            &&& h == pre.material_map()[guid.0].handle
            &&& post.material_map() == pre.material_map()
        } else {
            &&& h == pre.spec_next_handle()
            &&& post.material_map() == pre.material_map().insert(
                guid.0,
                ResEntry { handle: h, last_used: pre.spec_frame() },
            )
        })
        &&& post.material_assign_map() == pre.material_assign_map().insert(entity.0 as u128, guid)
        &&& post.mesh_map() == pre.mesh_map()
        &&& post.texture_map() == pre.texture_map()
        &&& post.mesh_assign_map() == pre.mesh_assign_map()
        &&& post.spec_frame() == pre.spec_frame()
    }

    /// Loading the same material GUID twice yields the same handle.
    pub proof fn lemma_load_material_shares(
        s0: ResourceManager,
        s1: ResourceManager,
        s2: ResourceManager,
        e1: Entity,
        e2: Entity,
        guid: Guid,
        h1: u64,
        h2: u64,
    )
        requires
            Self::load_material_post(s0, s1, e1, guid, h1),
            Self::load_material_post(s1, s2, e2, guid, h2),
        ensures
            h2 == h1,
    {
    }

    /// Load a texture; textures are cached but not assigned per entity.
    pub fn load_texture(&mut self, guid: Guid) -> (h: u64)
        requires
            old(self).wf(),
        ensures
            final(self).wf(),
            (if old(self).texture_map().dom().contains(guid.0) {
                &&& h == old(self).texture_map()[guid.0].handle
                &&& final(self).texture_map() == old(self).texture_map()
            } else {
                &&& h == old(self).spec_next_handle()
                &&& final(self).texture_map() == old(self).texture_map().insert(
                    guid.0,
                    ResEntry { handle: h, last_used: old(self).spec_frame() },
                )
            }),
            final(self).mesh_map() == old(self).mesh_map(),
            final(self).material_map() == old(self).material_map(),
            final(self).mesh_assign_map() == old(self).mesh_assign_map(),
            final(self).material_assign_map() == old(self).material_assign_map(),
            final(self).spec_frame() == old(self).spec_frame(),
    {
        match self.textures.get(guid.0) {
            Some(e) => e.handle,
            None => {
                let h = self.next_handle;
                self.textures.insert(guid.0, ResEntry { handle: h, last_used: self.frame });
                if self.next_handle < u64::MAX {
                    self.next_handle = self.next_handle + 1;
                }
                h
            },
        }
    }

    /// The mesh GUID assigned to an entity.
    pub fn get_mesh(&self, entity: &Entity) -> (r: Option<Guid>)
        requires
            self.wf(),
        ensures
            match r {
                Some(g) => self.mesh_assign_map().dom().contains(entity.0 as u128) && g
                    == self.mesh_assign_map()[entity.0 as u128],
                None => !self.mesh_assign_map().dom().contains(entity.0 as u128),
            },
    {
        match self.mesh_assign.get(entity.0 as u128) {
            Some(g) => Some(*g),
            None => None,
        }
    }

    /// The material GUID assigned to an entity.
    pub fn get_material(&self, entity: &Entity) -> (r: Option<Guid>)
        requires
            self.wf(),
        ensures
            match r {
                Some(g) => self.material_assign_map().dom().contains(entity.0 as u128) && g
                    == self.material_assign_map()[entity.0 as u128],
                None => !self.material_assign_map().dom().contains(entity.0 as u128),
            },
    {
        match self.material_assign.get(entity.0 as u128) {
            Some(g) => Some(*g),
            None => None,
        }
    }

    /// Record that a cached mesh was drawn this frame (no-op for an
    /// unknown GUID).
    pub fn mark_mesh_used(&mut self, guid: Guid)
        requires
            old(self).wf(),
        ensures
            final(self).wf(),
            old(self).mesh_map().dom().contains(guid.0) ==> final(self).mesh_map() == old(
                self,
            ).mesh_map().insert(
                guid.0,
                MeshEntry { last_used: old(self).spec_frame(), ..old(self).mesh_map()[guid.0] },
            ),
            !old(self).mesh_map().dom().contains(guid.0) ==> final(self).mesh_map() == old(
                self,
            ).mesh_map(),
            final(self).material_map() == old(self).material_map(),
            final(self).texture_map() == old(self).texture_map(),
            final(self).mesh_assign_map() == old(self).mesh_assign_map(),
            final(self).material_assign_map() == old(self).material_assign_map(),
            final(self).spec_frame() == old(self).spec_frame(),
    {
        let e = match self.meshes.get(guid.0) {
            Some(e) => Some(*e),
            None => None,
        };
        match e {
            Some(mut entry) => {
                entry.last_used = self.frame;
                self.meshes.insert(guid.0, entry);
            },
            None => {},
        }
    }

    /// Remove every cache entry that was not marked used within the sweep
    /// interval. Assignments and the frame counter are untouched.
    pub fn unload_all_unused_resources(&mut self)
        requires
            old(self).wf(),
        ensures
            final(self).wf(),
            Self::sweep_post(*old(self), *final(self)),
    {
        let kept_meshes = sweep_meshes(&self.meshes, self.frame);
        let kept_materials = sweep_res(&self.materials, self.frame);
        let kept_textures = sweep_res(&self.textures, self.frame);
        self.meshes = kept_meshes;
        self.materials = kept_materials;
        self.textures = kept_textures;
    }

    /// Everything a sweep promises: an entry survives exactly when it was
    /// used within the sweep interval, surviving entries are unchanged,
    /// and assignments and the frame counter stay as they were.
    pub open spec fn sweep_post(pre: ResourceManager, post: ResourceManager) -> bool {
        &&& forall|g: u128|
            #[trigger] post.mesh_map().dom().contains(g) <==> (pre.mesh_map().dom().contains(g)
                && mesh_recent(pre.mesh_map()[g], pre.spec_frame()))
        &&& forall|g: u128|
            #[trigger] post.mesh_map().dom().contains(g) ==> post.mesh_map()[g]
                == pre.mesh_map()[g]
        &&& forall|g: u128|
            #[trigger] post.material_map().dom().contains(g) <==> (pre.material_map().dom(
            ).contains(g) && res_recent(pre.material_map()[g], pre.spec_frame()))
        &&& forall|g: u128|
            #[trigger] post.material_map().dom().contains(g) ==> post.material_map()[g]
                == pre.material_map()[g]
        &&& forall|g: u128|
            #[trigger] post.texture_map().dom().contains(g) <==> (pre.texture_map().dom().contains(
                g,
            ) && res_recent(pre.texture_map()[g], pre.spec_frame()))
        &&& forall|g: u128|
            #[trigger] post.texture_map().dom().contains(g) ==> post.texture_map()[g]
                == pre.texture_map()[g]
        &&& post.mesh_assign_map() == pre.mesh_assign_map()
        &&& post.material_assign_map() == pre.material_assign_map()
        &&& post.spec_frame() == pre.spec_frame()
    }

    /// A mesh that went unused for more than the sweep interval is gone
    /// after the sweep.
    pub proof fn lemma_sweep_evicts_stale(pre: ResourceManager, post: ResourceManager, g: Guid)
        requires
            Self::sweep_post(pre, post),
            pre.mesh_map().dom().contains(g.0),
            pre.mesh_map()[g.0].last_used + SWEEP_INTERVAL < pre.spec_frame(),
        ensures
            !post.mesh_map().dom().contains(g.0),
    {
    }

    /// A mesh marked used in the current frame always survives the sweep,
    /// unchanged.
    pub proof fn lemma_sweep_keeps_marked(pre: ResourceManager, post: ResourceManager, g: Guid)
        requires
            Self::sweep_post(pre, post),
            pre.mesh_map().dom().contains(g.0),
            pre.mesh_map()[g.0].last_used == pre.spec_frame(),
        ensures
            post.mesh_map().dom().contains(g.0),
            post.mesh_map()[g.0] == pre.mesh_map()[g.0],
    {
        assert(mesh_recent(pre.mesh_map()[g.0], pre.spec_frame()));
        assert(post.mesh_map().dom().contains(g.0));
    }

    /// Number of cached meshes.
    pub closed spec fn mesh_count(self) -> nat {
        self.meshes.keys_seq().len()
    }

    /// Number of cached materials.
    pub closed spec fn material_count(self) -> nat {
        self.materials.keys_seq().len()
    }

    /// Number of cached textures.
    pub closed spec fn texture_count(self) -> nat {
        self.textures.keys_seq().len()
    }

    /// Number of cached meshes that some entity currently references.
    pub closed spec fn mesh_refd_count(self) -> int {
        count_refd(self.meshes.keys_seq(), self.mesh_assign.as_map())
    }

    /// Number of cached materials that some entity currently references.
    pub closed spec fn material_refd_count(self) -> int {
        count_refd(self.materials.keys_seq(), self.material_assign.as_map())
    }

    /// Loaded and referenced counts per resource kind, for observability.
    pub fn get_resource_stats(&self) -> (r: ResourceStats)
        requires
            self.wf(),
        ensures
            r.meshes_loaded == self.mesh_count(),
            r.meshes_referenced == self.mesh_refd_count(),
            r.materials_loaded == self.material_count(),
            r.materials_referenced == self.material_refd_count(),
            r.textures_loaded == self.texture_count(),
    {
        let meshes_loaded = self.meshes.len();
        let materials_loaded = self.materials.len();
        let textures_loaded = self.textures.len();
        let meshes_referenced = count_referenced(&self.meshes.keys(), &self.mesh_assign);
        proof {
            assert(self.meshes.keys_seq().take(self.meshes.keys_seq().len() as int)
                =~= self.meshes.keys_seq());
        }
        let materials_referenced = count_referenced(&self.materials.keys(), &self.material_assign);
        proof {
            assert(self.materials.keys_seq().take(self.materials.keys_seq().len() as int)
                =~= self.materials.keys_seq());
        }
        ResourceStats {
            meshes_loaded,
            meshes_referenced,
            materials_loaded,
            materials_referenced,
            textures_loaded,
        }
    }

    /// Record that a cached material was drawn this frame.
    pub fn mark_material_used(&mut self, guid: Guid)
        requires
            old(self).wf(),
        ensures
            final(self).wf(),
            old(self).material_map().dom().contains(guid.0) ==> final(self).material_map() == old(
                self,
            ).material_map().insert(
                guid.0,
                ResEntry { last_used: old(self).spec_frame(), ..old(self).material_map()[guid.0] },
            ),
            !old(self).material_map().dom().contains(guid.0) ==> final(self).material_map() == old(
                self,
            ).material_map(),
            final(self).mesh_map() == old(self).mesh_map(),
            final(self).texture_map() == old(self).texture_map(),
            final(self).mesh_assign_map() == old(self).mesh_assign_map(),
            final(self).material_assign_map() == old(self).material_assign_map(),
            final(self).spec_frame() == old(self).spec_frame(),
    {
        let e = match self.materials.get(guid.0) {
            Some(e) => Some(*e),
            None => None,
        };
        match e {
            Some(mut entry) => {
                entry.last_used = self.frame;
                self.materials.insert(guid.0, entry);
            },
            None => {},
        }
    }
}

/// Some entity is assigned the GUID `g`.
spec fn refd(assign: Map<u128, Guid>, g: u128) -> bool {
    exists|k: u128| #[trigger] assign.dom().contains(k) && assign[k].0 == g
}

/// How many of the keys in `ks` some entity references.
spec fn count_refd(ks: Seq<u128>, assign: Map<u128, Guid>) -> int
    decreases ks.len(),
{
    if ks.len() == 0 {
        0
    } else {
        count_refd(ks.drop_last(), assign) + if refd(assign, ks.last()) {
            1int
        } else {
            0int
        }
    }
}

proof fn lemma_count_refd_bounds(ks: Seq<u128>, assign: Map<u128, Guid>)
    ensures
        0 <= count_refd(ks, assign) <= ks.len(),
    decreases ks.len(),
{
    if ks.len() > 0 {
        lemma_count_refd_bounds(ks.drop_last(), assign);
    }
}

/// Whether some entity is assigned the GUID `g`.
fn is_refd(assign: &KMap<Guid>, g: u128) -> (r: bool)
    requires
        assign.wf(),
    ensures
        r == refd(assign.as_map(), g),
{
    let ks = assign.keys();
    proof {
        assign.lemma_keys_dom();
    }
    let n = ks.len();
    let mut i: usize = 0;
    while i < n
        invariant
            assign.wf(),
            ks@ == assign.keys_seq(),
            forall|q: u128|
                #[trigger] assign.keys_seq().contains(q) == assign.as_map().dom().contains(q),
            n == ks@.len(),
            i <= n,
            forall|j: int|
                0 <= j < i ==> #[trigger] assign.as_map()[ks@[j]].0 != g,
        decreases n - i,
    {
        let k = ks[i];
        match assign.get(k) {
            Some(v) => {
                if v.0 == g {
                    proof {
                        assert(assign.keys_seq().contains(k)) by {
                            assert(assign.keys_seq()[i as int] == k);
                        }
                    }
                    return true;
                }
            },
            None => {
                proof {
                    assert(assign.keys_seq().contains(k)) by {
                        assert(assign.keys_seq()[i as int] == k);
                    }
                }
            },
        }
        i = i + 1;
    }
    proof {
        if refd(assign.as_map(), g) {
            let k = choose|k: u128|
                #[trigger] assign.as_map().dom().contains(k) && assign.as_map()[k].0 == g;
            assert(assign.keys_seq().contains(k));
            let j = choose|j: int| 0 <= j < ks@.len() && ks@[j] == k;
            assert(assign.as_map()[ks@[j]].0 != g);
        }
    }
    false
}

/// How many of the keys in `ks` some entity references.
fn count_referenced(ks: &Vec<u128>, assign: &KMap<Guid>) -> (r: usize)
    requires
        assign.wf(),
    ensures
        r as int == count_refd(ks@, assign.as_map()),
{
    let n = ks.len();
    let mut count: usize = 0;
    let mut i: usize = 0;
    while i < n
        invariant
            assign.wf(),
            n == ks@.len(),
            i <= n,
            count <= i,
            count as int == count_refd(ks@.take(i as int), assign.as_map()),
        decreases n - i,
    {
        let hit = is_refd(assign, ks[i]);
        proof {
            assert(ks@.take(i + 1).drop_last() =~= ks@.take(i as int));
            assert(ks@.take(i + 1).last() == ks@[i as int]);
        }
        if hit {
            count = count + 1;
        }
        i = i + 1;
    }
    proof {
        assert(ks@.take(n as int) =~= ks@);
    }
    count
}

/// The entries of `m` under the keys of `ks` that were used within the
/// sweep interval before `frame`.
spec fn keep_res(m: Map<u128, ResEntry>, ks: Seq<u128>, frame: u64) -> Map<u128, ResEntry>
    decreases ks.len(),
{
    if ks.len() == 0 {
        Map::empty()
    } else {
        let rest = keep_res(m, ks.drop_last(), frame);
        let g = ks.last();
        if m.dom().contains(g) && res_recent(m[g], frame) {
            rest.insert(g, m[g])
        } else {
            rest
        }
    }
}

proof fn lemma_keep_res(m: Map<u128, ResEntry>, ks: Seq<u128>, frame: u64, g: u128)
    ensures
        keep_res(m, ks, frame).dom().contains(g) <==> (ks.contains(g) && m.dom().contains(g)
            && res_recent(m[g], frame)),
        keep_res(m, ks, frame).dom().contains(g) ==> keep_res(m, ks, frame)[g] == m[g],
    decreases ks.len(),
{
    if ks.len() > 0 {
        lemma_keep_res(m, ks.drop_last(), frame, g);
        if ks.contains(g) && ks.last() != g {
            let j = choose|j: int| 0 <= j < ks.len() && ks[j] == g;
            assert(ks.drop_last()[j] == g);
            assert(ks.drop_last().contains(g));
        }
        if ks.drop_last().contains(g) {
            let j = choose|j: int| 0 <= j < ks.drop_last().len() && ks.drop_last()[j] == g;
            assert(ks[j] == g);
            assert(ks.contains(g));
        }
        if ks.last() == g {
            assert(ks.contains(g)) by {
                assert(ks[ks.len() - 1] == g);
            }
        }
    }
}

/// Rebuild a material/texture cache, keeping only recently used entries.
fn sweep_res(cache: &KMap<ResEntry>, frame: u64) -> (r: KMap<ResEntry>)
    requires
        cache.wf(),
        forall|g: u128|
            #[trigger] cache.as_map().dom().contains(g) ==> cache.as_map()[g].last_used <= frame,
    ensures
        r.wf(),
        forall|g: u128|
            #[trigger] r.as_map().dom().contains(g) <==> (cache.as_map().dom().contains(g)
                && res_recent(cache.as_map()[g], frame)),
        forall|g: u128|
            #[trigger] r.as_map().dom().contains(g) ==> r.as_map()[g] == cache.as_map()[g],
    {
    let ks = cache.keys();
    proof {
        cache.lemma_keys_dom();
    }
    let n = ks.len();
    let mut kept: KMap<ResEntry> = KMap::new();
    let mut i: usize = 0;
    while i < n
        invariant
            cache.wf(),
            ks@ == cache.keys_seq(),
            forall|q: u128|
                #[trigger] cache.keys_seq().contains(q) == cache.as_map().dom().contains(q),
            forall|g: u128|
                #[trigger] cache.as_map().dom().contains(g) ==> cache.as_map()[g].last_used
                    <= frame,
            n == ks@.len(),
            i <= n,
            kept.wf(),
            kept.as_map() == keep_res(cache.as_map(), ks@.take(i as int), frame),
        decreases n - i,
    {
        let g = ks[i];
        proof {
            assert(ks@.take(i + 1).drop_last() =~= ks@.take(i as int));
            assert(ks@.take(i + 1).last() == ks@[i as int]);
        }
        match cache.get(g) {
            Some(e) => {
                if frame - e.last_used <= SWEEP_INTERVAL {
                    kept.insert(g, *e);
                }
            },
            None => {},
        }
        i = i + 1;
    }
    proof {
        assert(ks@.take(n as int) =~= ks@);
        assert forall|g: u128|
            #[trigger] kept.as_map().dom().contains(g) <==> (cache.as_map().dom().contains(g)
                && res_recent(cache.as_map()[g], frame)) by {
            lemma_keep_res(cache.as_map(), ks@, frame, g);
        }
        assert forall|g: u128| #[trigger]
            kept.as_map().dom().contains(g) implies kept.as_map()[g] == cache.as_map()[g] by {
            lemma_keep_res(cache.as_map(), ks@, frame, g);
        }
    }
    kept
}

/// The mesh entries of `m` under the keys of `ks` that were used within
/// the sweep interval before `frame`.
spec fn keep_mesh(m: Map<u128, MeshEntry>, ks: Seq<u128>, frame: u64) -> Map<u128, MeshEntry>
    decreases ks.len(),
{
    if ks.len() == 0 {
        Map::empty()
    } else {
        let rest = keep_mesh(m, ks.drop_last(), frame);
        let g = ks.last();
        if m.dom().contains(g) && mesh_recent(m[g], frame) {
            rest.insert(g, m[g])
        } else {
            rest
        }
    }
}

proof fn lemma_keep_mesh(m: Map<u128, MeshEntry>, ks: Seq<u128>, frame: u64, g: u128)
    ensures
        keep_mesh(m, ks, frame).dom().contains(g) <==> (ks.contains(g) && m.dom().contains(g)
            && mesh_recent(m[g], frame)),
        keep_mesh(m, ks, frame).dom().contains(g) ==> keep_mesh(m, ks, frame)[g] == m[g],
    decreases ks.len(),
{
    if ks.len() > 0 {
        lemma_keep_mesh(m, ks.drop_last(), frame, g);
        if ks.contains(g) && ks.last() != g {
            let j = choose|j: int| 0 <= j < ks.len() && ks[j] == g;
            assert(ks.drop_last()[j] == g);
            assert(ks.drop_last().contains(g));
        }
        if ks.drop_last().contains(g) {
            let j = choose|j: int| 0 <= j < ks.drop_last().len() && ks.drop_last()[j] == g;
            assert(ks[j] == g);
            assert(ks.contains(g));
        }
        if ks.last() == g {
            assert(ks.contains(g)) by {
                assert(ks[ks.len() - 1] == g);
            }
        }
    }
}

/// Rebuild the mesh cache, keeping only recently used entries.
fn sweep_meshes(cache: &KMap<MeshEntry>, frame: u64) -> (r: KMap<MeshEntry>)
    requires
        cache.wf(),
        forall|g: u128|
            #[trigger] cache.as_map().dom().contains(g) ==> cache.as_map()[g].last_used <= frame,
    ensures
        r.wf(),
        forall|g: u128|
            #[trigger] r.as_map().dom().contains(g) <==> (cache.as_map().dom().contains(g)
                && mesh_recent(cache.as_map()[g], frame)),
        forall|g: u128|
            #[trigger] r.as_map().dom().contains(g) ==> r.as_map()[g] == cache.as_map()[g],
    {
    let ks = cache.keys();
    proof {
        cache.lemma_keys_dom();
    }
    let n = ks.len();
    let mut kept: KMap<MeshEntry> = KMap::new();
    let mut i: usize = 0;
    while i < n
        invariant
            cache.wf(),
            ks@ == cache.keys_seq(),
            forall|q: u128|
                #[trigger] cache.keys_seq().contains(q) == cache.as_map().dom().contains(q),
            forall|g: u128|
                #[trigger] cache.as_map().dom().contains(g) ==> cache.as_map()[g].last_used
                    <= frame,
            n == ks@.len(),
            i <= n,
            kept.wf(),
            kept.as_map() == keep_mesh(cache.as_map(), ks@.take(i as int), frame),
        decreases n - i,
    {
        let g = ks[i];
        proof {
            assert(ks@.take(i + 1).drop_last() =~= ks@.take(i as int));
            assert(ks@.take(i + 1).last() == ks@[i as int]);
        }
        match cache.get(g) {
            Some(e) => {
                if frame - e.last_used <= SWEEP_INTERVAL {
                    kept.insert(g, *e);
                }
            },
            None => {},
        }
        i = i + 1;
    }
    proof {
        assert(ks@.take(n as int) =~= ks@);
        assert forall|g: u128|
            #[trigger] kept.as_map().dom().contains(g) <==> (cache.as_map().dom().contains(g)
                && mesh_recent(cache.as_map()[g], frame)) by {
            lemma_keep_mesh(cache.as_map(), ks@, frame, g);
        }
        assert forall|g: u128| #[trigger]
            kept.as_map().dom().contains(g) implies kept.as_map()[g] == cache.as_map()[g] by {
            lemma_keep_mesh(cache.as_map(), ks@, frame, g);
        }
    }
    kept
}

} // verus!
