//! Render batches and per-frame scene orchestration.
//!
//! Visible entities sharing one (mesh, material) pair are grouped into a
//! batch and drawn with a single instanced draw call whose instance data
//! is the member entities' world matrices.

use vstd::prelude::*;

use crate::entity::{Entity, Transform, TransformSystem};
use crate::frustum::{classify_s, CullingResult, Frustum};
use crate::kmap::KMap;
use crate::linalg::Mat4;
use crate::mesh::aabb_transform_s;
use crate::resource::{Guid, ResourceManager};

verus! {

/// Whether a visibility map shows the entity (absent entries default to
/// shown).
pub open spec fn displayed_s(dm: Map<u128, bool>, e: Entity) -> bool {
    if dm.dom().contains(e.0 as u128) {
        dm[e.0 as u128]
    } else {
        true
    }
}

/// The entity is shown and has both a mesh and a material assigned, so it
/// belongs in a batch.
pub open spec fn eligible_s(dm: Map<u128, bool>, rm: ResourceManager, e: Entity) -> bool {
    &&& displayed_s(dm, e)
    &&& rm.mesh_assign_map().dom().contains(e.0 as u128)
    &&& rm.material_assign_map().dom().contains(e.0 as u128)
}

/// The entity's assigned resources are exactly this batch key.
pub open spec fn key_match_s(rm: ResourceManager, e: Entity, mesh_id: Guid, material_id: Guid) -> bool {
    &&& rm.mesh_assign_map()[e.0 as u128] == mesh_id
    &&& rm.material_assign_map()[e.0 as u128] == material_id
}

/// The members of the batch keyed (`mesh_id`, `material_id`): the eligible
/// entities of `input` with exactly those resources, in input order.
pub open spec fn batch_members_s(
    input: Seq<Entity>,
    dm: Map<u128, bool>,
    rm: ResourceManager,
    mesh_id: Guid,
    material_id: Guid,
) -> Seq<Entity>
    decreases input.len(),
{
    if input.len() == 0 {
        Seq::empty()
    } else {
        let rest = batch_members_s(input.drop_last(), dm, rm, mesh_id, material_id);
        let e = input.last();
        if eligible_s(dm, rm, e) && key_match_s(rm, e, mesh_id, material_id) {
            rest.push(e)
        } else {
            rest
        }
    }
}

/// The world matrices of the members a visibility map currently shows and
/// whose transform is registered, in member order: the instance data of
/// one batch.
pub open spec fn instances_s(members: Seq<Entity>, dm: Map<u128, bool>, ts: TransformSystem) -> Seq<
    Mat4,
>
    decreases members.len(),
{
    if members.len() == 0 {
        Seq::empty()
    } else {
        let rest = instances_s(members.drop_last(), dm, ts);
        let e = members.last();
        if displayed_s(dm, e) && ts.has_e(e) {
            rest.push(ts.world_of(e))
        } else {
            rest
        }
    }
}

proof fn lemma_members_nonempty(
    input: Seq<Entity>,
    dm: Map<u128, bool>,
    rm: ResourceManager,
    mg: Guid,
    tg: Guid,
)
    requires
        batch_members_s(input, dm, rm, mg, tg).len() > 0,
    ensures
        exists|e: Entity|
            #[trigger] input.contains(e) && eligible_s(dm, rm, e) && key_match_s(rm, e, mg, tg),
    decreases input.len(),
{
    if input.len() > 0 {
        let e = input.last();
        if eligible_s(dm, rm, e) && key_match_s(rm, e, mg, tg) {
            assert(input.contains(e)) by {
                assert(input[input.len() - 1] == e);
            }
        } else {
            lemma_members_nonempty(input.drop_last(), dm, rm, mg, tg);
            let w = choose|w: Entity|
                #[trigger] input.drop_last().contains(w) && eligible_s(dm, rm, w) && key_match_s(
                    rm,
                    w,
                    mg,
                    tg,
                );
            let j = choose|j: int|
                0 <= j < input.drop_last().len() && input.drop_last()[j] == w;
            assert(input[j] == w);
            assert(input.contains(w));
        }
    }
}

/// One render batch: its key, its member entities, and the instance data
/// last uploaded for it (`None` while no buffer is present).
pub struct RenderBatch {
    pub mesh_id: Guid,
    pub material_id: Guid,
    pub entities: Vec<Entity>,
    pub instances: Option<Vec<Mat4>>,
}

/// One draw submission: a batch key and how many instances to draw.
#[derive(Clone, Copy, PartialEq, Eq, Structural, Debug)]
pub struct DrawCall {
    pub mesh_id: Guid,
    pub material_id: Guid,
    pub instance_count: usize,
}

/// The draw calls of the batches that currently hold instance data.
pub open spec fn draw_calls_s(batches: Seq<RenderBatch>) -> Seq<DrawCall>
    decreases batches.len(),
{
    if batches.len() == 0 {
        Seq::empty()
    } else {
        let rest = draw_calls_s(batches.drop_last());
        let b = batches.last();
        match b.instances {
            Some(v) => rest.push(
                DrawCall {
                    mesh_id: b.mesh_id,
                    material_id: b.material_id,
                    instance_count: v.len() as usize,
                },
            ),
            None => rest,
        }
    }
}

/// Groups entities by (mesh, material) into instanced render batches.
pub struct RenderBatchSystem {
    batches: Vec<RenderBatch>,
    dirty: bool,
}

impl RenderBatchSystem {
    /// The current batches.
    pub closed spec fn batches_seq(self) -> Seq<RenderBatch> {
        self.batches@
    }

    /// Whether membership must be rebuilt before the next draw.
    pub closed spec fn spec_dirty(self) -> bool {
        self.dirty
    }

    /// No two batches share a key.
    pub closed spec fn wf(self) -> bool {
        forall|i: int, j: int|
            0 <= i < j < self.batches@.len() ==> !(self.batches@[i].mesh_id
                == self.batches@[j].mesh_id && self.batches@[i].material_id
                == self.batches@[j].material_id)
    }

    pub fn new() -> (r: RenderBatchSystem)
        ensures
            r.wf(),
            r.batches_seq() == Seq::<RenderBatch>::empty(),
            !r.spec_dirty(),
    {
        RenderBatchSystem { batches: Vec::new(), dirty: false }
    }

    /// Note that membership changed; the next scene update rebuilds.
    pub fn mark_dirty(&mut self)
        ensures
            final(self).spec_dirty(),
            final(self).batches_seq() == old(self).batches_seq(),
            final(self).wf() == old(self).wf(),
    {
        self.dirty = true;
    }

    /// Whether membership must be rebuilt before the next draw.
    pub fn is_dirty(&self) -> (r: bool)
        ensures
            r == self.spec_dirty(),
    {
        self.dirty
    }

    /// Index of the batch with this key.
    fn find_batch(&self, mesh_id: Guid, material_id: Guid) -> (r: Option<usize>)
        ensures
            match r {
                Some(i) => i < self.batches_seq().len() && self.batches_seq()[i as int].mesh_id
                    == mesh_id && self.batches_seq()[i as int].material_id == material_id,
                None => forall|i: int|
                    0 <= i < self.batches_seq().len() ==> !(self.batches_seq()[i].mesh_id
                        == mesh_id && self.batches_seq()[i].material_id == material_id),
            },
    {
        let n = self.batches.len();
        let mut i: usize = 0;
        while i < n
            invariant
                n == self.batches@.len(),
                i <= n,
                forall|j: int|
                    0 <= j < i ==> !(self.batches@[j].mesh_id == mesh_id && self.batches@[
                    j].material_id == material_id),
            decreases n - i,
        {
            if self.batches[i].mesh_id == mesh_id && self.batches[i].material_id == material_id {
                return Some(i);
            }
            i = i + 1;
        }
        None
    }

    /// Rebuild all batches from scratch: every shown entity with both a
    /// mesh and a material joins the batch of its (mesh, material) pair,
    /// created on first use. Buffers are dropped; the system comes out
    /// clean.
    pub fn rebuild_batches(
        &mut self,
        entities: &Vec<Entity>,
        entity_display_map: &KMap<bool>,
        resource_manager: &ResourceManager,
    )
        requires
            entity_display_map.wf(),
            resource_manager.wf(),
        ensures
            final(self).wf(),
            !final(self).spec_dirty(),
            batches_built(
                final(self).batches_seq(),
                entities@,
                entity_display_map.as_map(),
                *resource_manager,
            ),
            forall|bi: int|
                0 <= bi < final(self).batches_seq().len() ==> (#[trigger] final(self).batches_seq()[bi]).instances is None,
    {
        let ghost dm = entity_display_map.as_map();
        let ghost rm = *resource_manager;
        self.batches = Vec::new();
        self.dirty = false;
        let n = entities.len();
        let mut i: usize = 0;
        while i < n
            invariant
                entity_display_map.wf(),
                resource_manager.wf(),
                dm == entity_display_map.as_map(),
                rm == *resource_manager,
                n == entities@.len(),
                i <= n,
                !self.dirty,
                self.wf(),
                forall|bi: int|
                    0 <= bi < self.batches@.len() ==> {
                        let b = #[trigger] self.batches@[bi];
                        &&& b.entities@ == batch_members_s(
                            entities@.take(i as int),
                            dm,
                            rm,
                            b.mesh_id,
                            b.material_id,
                        )
                        &&& b.entities@.len() > 0
                        &&& b.instances is None
                    },
                forall|e: Entity|
                    #[trigger] entities@.take(i as int).contains(e) && eligible_s(dm, rm, e)
                        ==> exists|bi: int|
                        0 <= bi < self.batches@.len() && key_match_s(
                            rm,
                            e,
                            #[trigger] self.batches@[bi].mesh_id,
                            self.batches@[bi].material_id,
                        ),
            decreases n - i,
        {
            let e = entities[i];
            let ghost pre = self.batches@;
            proof {
                assert(entities@.take(i + 1).drop_last() =~= entities@.take(i as int));
                assert(entities@.take(i + 1).last() == entities@[i as int]);
            }
            let shown = match entity_display_map.get(e.0 as u128) {
                Some(b) => *b,
                None => true,
            };
            if shown {
                let mesh = resource_manager.get_mesh(&e);
                let material = resource_manager.get_material(&e);
                match (mesh, material) {
                    (Some(mesh_id), Some(material_id)) => {
                        match self.find_batch(mesh_id, material_id) {
                            Some(bi) => {
                                self.batches[bi].entities.push(e);
                                proof {
                                    assert forall|bj: int|
                                        0 <= bj < self.batches@.len() implies {
                                        let b = #[trigger] self.batches@[bj];
                                        &&& b.entities@ == batch_members_s(
                                            entities@.take(i + 1),
                                            dm,
                                            rm,
                                            b.mesh_id,
                                            b.material_id,
                                        )
                                        &&& b.entities@.len() > 0
                                        &&& b.instances is None
                                    } by {
                                        let b = self.batches@[bj];
                                        if bj == bi as int {
                                            assert(b.entities@ == pre[bj].entities@.push(e));
                                        } else {
                                            assert(b == pre[bj]);
                                            assert(!(b.mesh_id == mesh_id && b.material_id
                                                == material_id));
                                        }
                                    }
                                    assert(self.batches@[bi as int].mesh_id == mesh_id
                                        && self.batches@[bi as int].material_id == material_id);
                                }
                            },
                            None => {
                                let mut members: Vec<Entity> = Vec::new();
                                members.push(e);
                                self.batches.push(
                                    RenderBatch {
                                        mesh_id,
                                        material_id,
                                        entities: members,
                                        instances: None,
                                    },
                                );
                                proof {
                                    assert forall|bj: int|
                                        0 <= bj < self.batches@.len() implies {
                                        let b = #[trigger] self.batches@[bj];
                                        &&& b.entities@ == batch_members_s(
                                            entities@.take(i + 1),
                                            dm,
                                            rm,
                                            b.mesh_id,
                                            b.material_id,
                                        )
                                        &&& b.entities@.len() > 0
                                        &&& b.instances is None
                                    } by {
                                        let b = self.batches@[bj];
                                        if bj == pre.len() as int {
                                            if batch_members_s(
                                                entities@.take(i as int),
                                                dm,
                                                rm,
                                                mesh_id,
                                                material_id,
                                            ).len() > 0 {
                                                lemma_members_nonempty(
                                                    entities@.take(i as int),
                                                    dm,
                                                    rm,
                                                    mesh_id,
                                                    material_id,
                                                );
                                                let w = choose|w: Entity|
                                                    #[trigger] entities@.take(
                                                        i as int,
                                                    ).contains(w) && eligible_s(dm, rm, w)
                                                        && key_match_s(
                                                        rm,
                                                        w,
                                                        mesh_id,
                                                        material_id,
                                                    );
                                                let wb = choose|wb: int|
                                                    0 <= wb < pre.len() && key_match_s(
                                                        rm,
                                                        w,
                                                        (#[trigger] pre[wb]).mesh_id,
                                                        pre[wb].material_id,
                                                    );
                                                assert(pre[wb].mesh_id == mesh_id && pre[
                                                wb].material_id == material_id);
                                            }
                                            assert(batch_members_s(
                                                entities@.take(i as int),
                                                dm,
                                                rm,
                                                mesh_id,
                                                material_id,
                                            ) =~= Seq::<Entity>::empty());
                                            assert(b.entities@ =~= Seq::<Entity>::empty().push(e));
                                        } else {
                                            assert(b == pre[bj]);
                                            assert(!(b.mesh_id == mesh_id && b.material_id
                                                == material_id));
                                        }
                                    }
                                    assert(self.batches@[pre.len() as int].mesh_id == mesh_id
                                        && self.batches@[pre.len() as int].material_id
                                        == material_id);
                                }
                            },
                        }
                        proof {
                            assert(exists|b2: int|
                                0 <= b2 < self.batches@.len() && (#[trigger] self.batches@[
                                b2]).mesh_id == mesh_id && self.batches@[b2].material_id
                                == material_id);
                            assert(rm.mesh_assign_map()[e.0 as u128] == mesh_id);
                            assert(rm.material_assign_map()[e.0 as u128] == material_id);
                        }
                    },
                    _ => {
                        proof {
                            assert(!eligible_s(dm, rm, e));
                        }
                    },
                }
            } else {
                proof {
                    assert(!displayed_s(dm, e));
                }
            }
            proof {
                let cur = self.batches@;
                assert(cur.len() >= pre.len());
                assert(forall|bj: int|
                    0 <= bj < pre.len() ==> (#[trigger] cur[bj]).mesh_id == pre[bj].mesh_id && cur[
                    bj].material_id == pre[bj].material_id);
                assert forall|e2: Entity|
                    #[trigger] entities@.take(i + 1).contains(e2) && eligible_s(dm, rm, e2) implies
                    exists|b2: int|
                        0 <= b2 < cur.len() && key_match_s(
                            rm,
                            e2,
                            (#[trigger] cur[b2]).mesh_id,
                            cur[b2].material_id,
                        ) by {
                    if entities@.take(i as int).contains(e2) {
                        let b2 = choose|b2: int|
                            0 <= b2 < pre.len() && key_match_s(
                                rm,
                                e2,
                                (#[trigger] pre[b2]).mesh_id,
                                pre[b2].material_id,
                            );
                        assert(key_match_s(rm, e2, cur[b2].mesh_id, cur[b2].material_id));
                    } else {
                        let t1 = entities@.take(i + 1);
                        let j = choose|j: int| 0 <= j < t1.len() && #[trigger] t1[j] == e2;
                        if j < i {
                            assert(entities@.take(i as int)[j] == e2);
                            assert(entities@.take(i as int).contains(e2));
                        }
                        assert(e2 == t1[j]);
                        assert(e2 == entities@[i as int]);
                    }
                }
            }
            i = i + 1;
        }
        proof {
            assert(entities@.take(n as int) =~= entities@);
            assert forall|e: Entity|
                #[trigger] entities@.contains(e) && eligible_s(dm, rm, e) implies exists|b2: int|
                    0 <= b2 < self.batches@.len() && key_match_s(
                        rm,
                        e,
                        (#[trigger] self.batches@[b2]).mesh_id,
                        self.batches@[b2].material_id,
                    ) by {
                assert(entities@.take(n as int).contains(e));
            }
        }
    }

    /// Refresh every batch's instance data from the current visibility
    /// map and world matrices; a batch whose filtered member list is empty
    /// loses its buffer. Membership is untouched.
    pub fn update_instance_buffers(
        &mut self,
        transform_system: &TransformSystem,
        entity_display_map: &KMap<bool>,
    )
        requires
            old(self).wf(),
            transform_system.wf(),
            entity_display_map.wf(),
        ensures
            final(self).wf(),
            final(self).spec_dirty() == old(self).spec_dirty(),
            final(self).batches_seq().len() == old(self).batches_seq().len(),
            forall|bi: int|
                0 <= bi < final(self).batches_seq().len() ==> {
                    let b = #[trigger] final(self).batches_seq()[bi];
                    let b0 = old(self).batches_seq()[bi];
                    let m = instances_s(
                        b0.entities@,
                        entity_display_map.as_map(),
                        *transform_system,
                    );
                    &&& b.mesh_id == b0.mesh_id
                    &&& b.material_id == b0.material_id
                    &&& b.entities@ == b0.entities@
                    &&& (match b.instances {
                        Some(v) => v@ == m && m.len() > 0,
                        None => m.len() == 0,
                    })
                },
    {
        let ghost dm = entity_display_map.as_map();
        let ghost ts = *transform_system;
        let ghost pre = self.batches@;
        let n = self.batches.len();
        let mut bi: usize = 0;
        while bi < n
            invariant
                transform_system.wf(),
                entity_display_map.wf(),
                dm == entity_display_map.as_map(),
                ts == *transform_system,
                n == pre.len(),
                self.batches@.len() == pre.len(),
                bi <= n,
                self.dirty == old(self).dirty,
                forall|k: int|
                    0 <= k < pre.len() ==> {
                        let b = #[trigger] self.batches@[k];
                        &&& b.mesh_id == pre[k].mesh_id
                        &&& b.material_id == pre[k].material_id
                        &&& b.entities@ == pre[k].entities@
                    },
                forall|k: int|
                    bi <= k < pre.len() ==> (#[trigger] self.batches@[k]).instances
                        == pre[k].instances,
                forall|k: int|
                    0 <= k < bi ==> {
                        let b = #[trigger] self.batches@[k];
                        let m = instances_s(pre[k].entities@, dm, ts);
                        match b.instances {
                            Some(v) => v@ == m && m.len() > 0,
                            None => m.len() == 0,
                        }
                    },
            decreases n - bi,
        {
            let count = self.batches[bi].entities.len();
            let mut data: Vec<Mat4> = Vec::new();
            let mut j: usize = 0;
            while j < count
                invariant
                    transform_system.wf(),
                    entity_display_map.wf(),
                    dm == entity_display_map.as_map(),
                    ts == *transform_system,
                    bi < self.batches@.len(),
                    count == self.batches@[bi as int].entities@.len(),
                    j <= count,
                    data@ == instances_s(
                        self.batches@[bi as int].entities@.take(j as int),
                        dm,
                        ts,
                    ),
                decreases count - j,
            {
                let e = self.batches[bi].entities[j];
                proof {
                    let mem = self.batches@[bi as int].entities@;
                    assert(mem.take(j + 1).drop_last() =~= mem.take(j as int));
                    assert(mem.take(j + 1).last() == mem[j as int]);
                }
                let shown = match entity_display_map.get(e.0 as u128) {
                    Some(b) => *b,
                    None => true,
                };
                if shown {
                    match transform_system.get_world_matrix(e) {
                        Some(w) => {
                            data.push(w);
                        },
                        None => {},
                    }
                }
                j = j + 1;
            }
            proof {
                let mem = self.batches@[bi as int].entities@;
                assert(mem.take(count as int) =~= mem);
            }
            if data.len() == 0 {
                self.batches[bi].instances = None;
            } else {
                self.batches[bi].instances = Some(data);
            }
            bi = bi + 1;
        }
    }

    /// One draw call per batch that holds instance data, in batch order.
    pub fn draw_calls(&self) -> (r: Vec<DrawCall>)
        ensures
            r@ == draw_calls_s(self.batches_seq()),
    {
        let n = self.batches.len();
        let mut r: Vec<DrawCall> = Vec::new();
        let mut i: usize = 0;
        while i < n
            invariant
                n == self.batches@.len(),
                i <= n,
                r@ == draw_calls_s(self.batches@.take(i as int)),
            decreases n - i,
        {
            proof {
                assert(self.batches@.take(i + 1).drop_last() =~= self.batches@.take(i as int));
                assert(self.batches@.take(i + 1).last() == self.batches@[i as int]);
            }
            match &self.batches[i].instances {
                Some(v) => {
                    r.push(
                        DrawCall {
                            mesh_id: self.batches[i].mesh_id,
                            material_id: self.batches[i].material_id,
                            instance_count: v.len(),
                        },
                    );
                },
                None => {},
            }
            i = i + 1;
        }
        proof {
            assert(self.batches@.take(n as int) =~= self.batches@);
        }
        r
    }
}

impl Default for RenderBatchSystem {
    fn default() -> (r: RenderBatchSystem)
        ensures
            r.wf(),
            r.batches_seq() == Seq::<RenderBatch>::empty(),
            !r.spec_dirty(),
    {
        RenderBatchSystem::new()
    }
}


/// The per-frame visibility map the scene builds: every listed entity is
/// mapped to its drawn-visibility.
pub open spec fn vis_built(
    input: Seq<Entity>,
    dm: Map<u128, bool>,
    fr: Frustum,
    rm: ResourceManager,
    ts: TransformSystem,
) -> Map<u128, bool>
    decreases input.len(),
{
    if input.len() == 0 {
        Map::empty()
    } else {
        let rest = vis_built(input.drop_last(), dm, fr, rm, ts);
        let e = input.last();
        rest.insert(e.0 as u128, drawn_visible_s(dm, fr, rm, ts, e))
    }
}

/// Frustum-visibility of one entity: its mesh's box, taken to world
/// space, is not fully outside the frustum. An entity without a cached
/// mesh or world matrix is not culled.
pub open spec fn frustum_visible_s(
    fr: Frustum,
    rm: ResourceManager,
    ts: TransformSystem,
    e: Entity,
) -> bool {
    if rm.mesh_assign_map().dom().contains(e.0 as u128) {
        let g = rm.mesh_assign_map()[e.0 as u128];
        if rm.mesh_map().dom().contains(g.0) && ts.has_e(e) {
            classify_s(fr, aabb_transform_s(ts.world_of(e), rm.mesh_map()[g.0].aabb))
                != CullingResult::Outside
        } else {
            true
        }
    } else {
        true
    }
}

/// Final drawn-visibility: not logically hidden, and not frustum-culled.
pub open spec fn drawn_visible_s(
    dm: Map<u128, bool>,
    fr: Frustum,
    rm: ResourceManager,
    ts: TransformSystem,
    e: Entity,
) -> bool {
    displayed_s(dm, e) && frustum_visible_s(fr, rm, ts, e)
}

/// Every listed entity is in the built visibility map, under its
/// drawn-visibility.
pub proof fn lemma_vis_built_at(
    input: Seq<Entity>,
    dm: Map<u128, bool>,
    fr: Frustum,
    rm: ResourceManager,
    ts: TransformSystem,
    e: Entity,
)
    requires
        input.contains(e),
    ensures
        vis_built(input, dm, fr, rm, ts).dom().contains(e.0 as u128),
        vis_built(input, dm, fr, rm, ts)[e.0 as u128] == drawn_visible_s(dm, fr, rm, ts, e),
    decreases input.len(),
{
    let last = input.last();
    if last == e {
    } else {
        let j = choose|j: int| 0 <= j < input.len() && input[j] == e;
        assert(j < input.len() - 1);
        assert(input.drop_last()[j] == e);
        assert(input.drop_last().contains(e));
        lemma_vis_built_at(input.drop_last(), dm, fr, rm, ts, e);
        assert(e.0 as u128 != last.0 as u128);
    }
}

/// How many of the listed entities the display map currently shows.
pub open spec fn count_shown(input: Seq<Entity>, dm: Map<u128, bool>) -> int
    decreases input.len(),
{
    if input.len() == 0 {
        0
    } else {
        count_shown(input.drop_last(), dm) + if displayed_s(dm, input.last()) {
            1int
        } else {
            0int
        }
    }
}

proof fn lemma_count_shown_bounds(input: Seq<Entity>, dm: Map<u128, bool>)
    ensures
        0 <= count_shown(input, dm) <= input.len(),
    decreases input.len(),
{
    if input.len() > 0 {
        lemma_count_shown_bounds(input.drop_last(), dm);
    }
}

/// The scene: the entity list, the logical-hidden flags, the per-frame
/// visibility map, and the transform and batch systems it orchestrates.
pub struct Scene {
    pub transform_system: TransformSystem,
    pub render_batches: RenderBatchSystem,
    pub entities: Vec<Entity>,
    pub entity_display_map: KMap<bool>,
    pub visibility: KMap<bool>,
}

impl Scene {
    /// The logical-hidden flags (false = hidden; absent = shown).
    pub closed spec fn display_map(self) -> Map<u128, bool> {
        self.entity_display_map.as_map()
    }

    /// The visibility map of the last update.
    pub closed spec fn visibility_map(self) -> Map<u128, bool> {
        self.visibility.as_map()
    }

    pub closed spec fn wf(self) -> bool {
        &&& self.transform_system.wf()
        &&& self.render_batches.wf()
        &&& self.entity_display_map.wf()
        &&& self.visibility.wf()
    }

    pub fn new() -> (r: Scene)
        ensures
            r.wf(),
            r.entities@ == Seq::<Entity>::empty(),
            r.display_map() == Map::<u128, bool>::empty(),
            r.visibility_map() == Map::<u128, bool>::empty(),
            forall|e: Entity| !(#[trigger] r.transform_system.has_e(e)),
            r.render_batches.batches_seq() == Seq::<RenderBatch>::empty(),
            !r.render_batches.spec_dirty(),
    {
        Scene {
            transform_system: TransformSystem::new(),
            render_batches: RenderBatchSystem::new(),
            entities: Vec::new(),
            entity_display_map: KMap::new(),
            visibility: KMap::new(),
        }
    }

    /// Add an entity with its local transform, and mark the batches for
    /// a rebuild.
    pub fn add_entity(&mut self, entity: Entity, transform: Transform)
        requires
            old(self).wf(),
            transform.wf(),
        ensures
            final(self).wf(),
            final(self).entities@ == old(self).entities@.push(entity),
            final(self).display_map() == old(self).display_map(),
            final(self).render_batches.spec_dirty(),
            final(self).transform_system.has_e(entity),
            !old(self).transform_system.has_e(entity) ==> {
                &&& final(self).transform_system.parent_of(entity) == None::<Entity>
                &&& final(self).transform_system.transform_of(entity) == transform
            },
            forall|x: Entity|
                #[trigger] final(self).transform_system.has_e(x) == (old(
                    self,
                ).transform_system.has_e(x) || x == entity),
    {
        self.entities.push(entity);
        self.transform_system.add_transform(entity, transform);
        self.render_batches.mark_dirty();
    }

    /// Hide an entity until further notice.
    pub fn hidden_entity(&mut self, entity: Entity)
        requires
            old(self).wf(),
        ensures
            final(self).wf(),
            final(self).display_map() == old(self).display_map().insert(entity.0 as u128, false),
            final(self).entities@ == old(self).entities@,
            final(self).visibility_map() == old(self).visibility_map(),
            final(self).transform_system == old(self).transform_system,
            final(self).render_batches == old(self).render_batches,
    {
        self.entity_display_map.insert(entity.0 as u128, false);
    }

    /// Whether the entity is logically shown (unknown entities are).
    pub fn is_display(&self, entity: &Entity) -> (r: bool)
        requires
            self.wf(),
        ensures
            r == displayed_s(self.display_map(), *entity),
    {
        match self.entity_display_map.get(entity.0 as u128) {
            Some(b) => *b,
            None => true,
        }
    }

    /// How many listed entities are logically shown.
    pub fn total_show_entities(&self) -> (r: usize)
        requires
            self.wf(),
        ensures
            r == count_shown(self.entities@, self.display_map()),
    {
        let n = self.entities.len();
        let mut count: usize = 0;
        let mut i: usize = 0;
        while i < n
            invariant
                self.wf(),
                n == self.entities@.len(),
                i <= n,
                count <= i,
                count as int == count_shown(self.entities@.take(i as int), self.display_map()),
            decreases n - i,
        {
            let e = self.entities[i];
            proof {
                assert(self.entities@.take(i + 1).drop_last() =~= self.entities@.take(i as int));
                assert(self.entities@.take(i + 1).last() == self.entities@[i as int]);
            }
            let shown = match self.entity_display_map.get(e.0 as u128) {
                Some(b) => *b,
                None => true,
            };
            if shown {
                count = count + 1;
            }
            i = i + 1;
        }
        proof {
            assert(self.entities@.take(n as int) =~= self.entities@);
        }
        count
    }

    /// One frame's update: recompute all world matrices, reclassify every
    /// entity against the frustum, rebuild batch membership if it was
    /// marked dirty, and refresh the instance data of every batch.
    pub fn update(&mut self, frustum: &Frustum, resource_manager: &ResourceManager)
        requires
            old(self).wf(),
            resource_manager.wf(),
        ensures
            final(self).wf(),
            final(self).transform_system.world_current(),
            final(self).entities@ == old(self).entities@,
            final(self).display_map() == old(self).display_map(),
            final(self).visibility_map() == vis_built(
                old(self).entities@,
                old(self).display_map(),
                *frustum,
                *resource_manager,
                final(self).transform_system,
            ),
            !final(self).render_batches.spec_dirty(),
            old(self).render_batches.spec_dirty() ==> batches_built(
                final(self).render_batches.batches_seq(),
                old(self).entities@,
                final(self).visibility_map(),
                *resource_manager,
            ),
            !old(self).render_batches.spec_dirty() ==> {
                &&& final(self).render_batches.batches_seq().len() == old(
                    self,
                ).render_batches.batches_seq().len()
                &&& forall|bi: int|
                    0 <= bi < final(self).render_batches.batches_seq().len() ==> {
                        let b = #[trigger] final(self).render_batches.batches_seq()[bi];
                        let b0 = old(self).render_batches.batches_seq()[bi];
                        b.mesh_id == b0.mesh_id && b.material_id == b0.material_id && b.entities@
                            == b0.entities@
                    }
            },
            forall|bi: int|
                0 <= bi < final(self).render_batches.batches_seq().len() ==> {
                    let b = #[trigger] final(self).render_batches.batches_seq()[bi];
                    let m = instances_s(
                        b.entities@,
                        final(self).visibility_map(),
                        final(self).transform_system,
                    );
                    match b.instances {
                        Some(v) => v@ == m && m.len() > 0,
                        None => m.len() == 0,
                    }
                },
    {
        self.transform_system.update();
        let ghost dm = self.entity_display_map.as_map();
        let ghost ts = self.transform_system;
        let ghost rmg = *resource_manager;
        let n = self.entities.len();
        let mut vis: KMap<bool> = KMap::new();
        let mut i: usize = 0;
        while i < n
            invariant
                self.wf(),
                resource_manager.wf(),
                dm == self.entity_display_map.as_map(),
                ts == self.transform_system,
                rmg == *resource_manager,
                n == self.entities@.len(),
                i <= n,
                vis.wf(),
                vis.as_map() == vis_built(self.entities@.take(i as int), dm, *frustum, rmg, ts),
            decreases n - i,
        {
            let e = self.entities[i];
            proof {
                assert(self.entities@.take(i + 1).drop_last() =~= self.entities@.take(i as int));
                assert(self.entities@.take(i + 1).last() == self.entities@[i as int]);
            }
            let shown = match self.entity_display_map.get(e.0 as u128) {
                Some(b) => *b,
                None => true,
            };
            let fv = match resource_manager.get_mesh(&e) {
                Some(g) => match resource_manager.get_mesh_aabb(g) {
                    Some(aabb) => match self.transform_system.get_world_matrix(e) {
                        Some(w) => frustum.is_visible(&aabb.transform(&w)),
                        None => true,
                    },
                    None => true,
                },
                None => true,
            };
            vis.insert(e.0 as u128, shown && fv);
            i = i + 1;
        }
        proof {
            assert(self.entities@.take(n as int) =~= self.entities@);
        }
        self.visibility = vis;
        let rebuilt = self.render_batches.is_dirty();
        if rebuilt {
            self.render_batches.rebuild_batches(&self.entities, &self.visibility, resource_manager);
        }
        let ghost mid = self.render_batches.batches_seq();
        self.render_batches.update_instance_buffers(&self.transform_system, &self.visibility);
        proof {
            let bs = self.render_batches.batches_seq();
            let vm = self.visibility.as_map();
            if rebuilt {
                assert forall|bi: int|
                    0 <= bi < bs.len() implies {
                    let b = #[trigger] bs[bi];
                    &&& b.entities@ == batch_members_s(self.entities@, vm, rmg, b.mesh_id, b.material_id)
                    &&& b.entities@.len() > 0
                } by {
                    assert(mid[bi].entities@ == batch_members_s(
                        self.entities@,
                        vm,
                        rmg,
                        mid[bi].mesh_id,
                        mid[bi].material_id,
                    ));
                }
                assert forall|e: Entity|
                    #[trigger] self.entities@.contains(e) && eligible_s(vm, rmg, e) implies exists|b2: int|
                        0 <= b2 < bs.len() && key_match_s(
                            rmg,
                            e,
                            (#[trigger] bs[b2]).mesh_id,
                            bs[b2].material_id,
                        ) by {
                    let b2 = choose|b2: int|
                        0 <= b2 < mid.len() && key_match_s(
                            rmg,
                            e,
                            (#[trigger] mid[b2]).mesh_id,
                            mid[b2].material_id,
                        );
                    assert(key_match_s(rmg, e, bs[b2].mesh_id, bs[b2].material_id));
                }
                assert(batches_built(bs, self.entities@, vm, rmg));
                assert(self.entities@ == old(self).entities@);
                assert(vm == final(self).visibility_map());
                assert(bs == final(self).render_batches.batches_seq());
            }
        }
    }

    /// The draw calls of the current frame: one per non-empty batch. The
    /// caller binds the mesh, material and instance buffer under each key
    /// and feeds the keys back into the resource manager as used.
    pub fn render(&self) -> (r: Vec<DrawCall>)
        requires
            self.wf(),
        ensures
            r@ == draw_calls_s(self.render_batches.batches_seq()),
    {
        self.render_batches.draw_calls()
    }
}

/// Everything a batch rebuild guarantees: each batch holds exactly the
/// eligible entities of its key in input order and is non-empty with no
/// buffer yet; and every eligible entity has a batch for its key.
pub open spec fn batches_built(
    bs: Seq<RenderBatch>,
    input: Seq<Entity>,
    dm: Map<u128, bool>,
    rm: ResourceManager,
) -> bool {
    &&& forall|bi: int|
        0 <= bi < bs.len() ==> {
            let b = #[trigger] bs[bi];
            &&& b.entities@ == batch_members_s(input, dm, rm, b.mesh_id, b.material_id)
            &&& b.entities@.len() > 0
        }
    &&& forall|e: Entity|
        #[trigger] input.contains(e) && eligible_s(dm, rm, e) ==> exists|bi: int|
            0 <= bi < bs.len() && key_match_s(
                rm,
                e,
                (#[trigger] bs[bi]).mesh_id,
                bs[bi].material_id,
            )
}


/// No two batches share a key.
pub open spec fn keys_unique_s(bs: Seq<RenderBatch>) -> bool {
    forall|i: int, j: int|
        0 <= i < j < bs.len() ==> !((#[trigger] bs[i]).mesh_id == (#[trigger] bs[j]).mesh_id
            && bs[i].material_id == bs[j].material_id)
}

proof fn lemma_members_contains(
    input: Seq<Entity>,
    dm: Map<u128, bool>,
    rm: ResourceManager,
    mg: Guid,
    tg: Guid,
    e: Entity,
)
    requires
        input.contains(e),
        eligible_s(dm, rm, e),
        key_match_s(rm, e, mg, tg),
    ensures
        batch_members_s(input, dm, rm, mg, tg).contains(e),
    decreases input.len(),
{
    let last = input.last();
    let members = batch_members_s(input, dm, rm, mg, tg);
    if last == e {
        assert(members.last() == e);
        assert(members.contains(e)) by {
            assert(members[members.len() - 1] == e);
        }
    } else {
        let j = choose|j: int| 0 <= j < input.len() && input[j] == e;
        assert(j < input.len() - 1);
        assert(input.drop_last()[j] == e);
        assert(input.drop_last().contains(e));
        lemma_members_contains(input.drop_last(), dm, rm, mg, tg, e);
        let rest = batch_members_s(input.drop_last(), dm, rm, mg, tg);
        let q = choose|q: int| 0 <= q < rest.len() && rest[q] == e;
        if eligible_s(dm, rm, last) && key_match_s(rm, last, mg, tg) {
            assert(members[q] == e);
        } else {
            assert(members[q] == e);
        }
        assert(members.contains(e));
    }
}

proof fn lemma_members_key(
    input: Seq<Entity>,
    dm: Map<u128, bool>,
    rm: ResourceManager,
    mg: Guid,
    tg: Guid,
    e: Entity,
)
    requires
        batch_members_s(input, dm, rm, mg, tg).contains(e),
    ensures
        eligible_s(dm, rm, e),
        key_match_s(rm, e, mg, tg),
    decreases input.len(),
{
    if input.len() > 0 {
        let members = batch_members_s(input, dm, rm, mg, tg);
        let rest = batch_members_s(input.drop_last(), dm, rm, mg, tg);
        let last = input.last();
        if eligible_s(dm, rm, last) && key_match_s(rm, last, mg, tg) {
            if e == last {
            } else {
                let q = choose|q: int| 0 <= q < members.len() && members[q] == e;
                assert(q < rest.len());
                assert(rest[q] == e);
                assert(rest.contains(e));
                lemma_members_key(input.drop_last(), dm, rm, mg, tg, e);
            }
        } else {
            lemma_members_key(input.drop_last(), dm, rm, mg, tg, e);
        }
    }
}

/// After a rebuild, two listed, eligible entities with the same assigned
/// (mesh, material) pair sit together in exactly one batch: there is a
/// batch holding both, and no two different batches hold either of them.
pub proof fn lemma_same_pair_same_batch(
    bs: Seq<RenderBatch>,
    input: Seq<Entity>,
    dm: Map<u128, bool>,
    rm: ResourceManager,
    e1: Entity,
    e2: Entity,
)
    requires
        keys_unique_s(bs),
        batches_built(bs, input, dm, rm),
        input.contains(e1),
        input.contains(e2),
        eligible_s(dm, rm, e1),
        eligible_s(dm, rm, e2),
        rm.mesh_assign_map()[e1.0 as u128] == rm.mesh_assign_map()[e2.0 as u128],
        rm.material_assign_map()[e1.0 as u128] == rm.material_assign_map()[e2.0 as u128],
    ensures
        exists|bi: int|
            0 <= bi < bs.len() && (#[trigger] bs[bi]).entities@.contains(e1)
                && bs[bi].entities@.contains(e2),
        forall|bi: int, bj: int|
            0 <= bi < bs.len() && 0 <= bj < bs.len() && (#[trigger] bs[bi]).entities@.contains(e1)
                && (#[trigger] bs[bj]).entities@.contains(e2) ==> bi == bj,
{
    let mg = rm.mesh_assign_map()[e1.0 as u128];
    let tg = rm.material_assign_map()[e1.0 as u128];
    let bi = choose|bi: int|
        0 <= bi < bs.len() && key_match_s(rm, e1, (#[trigger] bs[bi]).mesh_id, bs[bi].material_id);
    assert(bs[bi].entities@ == batch_members_s(input, dm, rm, bs[bi].mesh_id, bs[bi].material_id));
    lemma_members_contains(input, dm, rm, bs[bi].mesh_id, bs[bi].material_id, e1);
    lemma_members_contains(input, dm, rm, bs[bi].mesh_id, bs[bi].material_id, e2);
    assert(bs[bi].entities@.contains(e1) && bs[bi].entities@.contains(e2));
    assert forall|ci: int, cj: int|
        0 <= ci < bs.len() && 0 <= cj < bs.len() && (#[trigger] bs[ci]).entities@.contains(e1) && (
        #[trigger] bs[cj]).entities@.contains(e2) implies ci == cj by {
        lemma_members_key(input, dm, rm, bs[ci].mesh_id, bs[ci].material_id, e1);
        lemma_members_key(input, dm, rm, bs[cj].mesh_id, bs[cj].material_id, e2);
        assert(bs[ci].mesh_id == mg && bs[ci].material_id == tg);
        assert(bs[cj].mesh_id == mg && bs[cj].material_id == tg);
        if ci != cj {
            if ci < cj {
                assert(!(bs[ci].mesh_id == bs[cj].mesh_id && bs[ci].material_id
                    == bs[cj].material_id));
            } else {
                assert(!(bs[cj].mesh_id == bs[ci].mesh_id && bs[cj].material_id
                    == bs[ci].material_id));
            }
        }
    }
}

} // verus!
