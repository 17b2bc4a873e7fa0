//! Entities, local transforms, and the transform hierarchy.
//!
//! `TransformSystem` owns every entity's local transform and cached world
//! matrix together with the parent relation. Entities are stored in
//! insertion order and a parent must always stand earlier in that order
//! than its children, so the relation is a forest by construction and a
//! single ascending pass recomputes all world matrices.

use vstd::prelude::*;

use crate::fixed::fx_neg;
use crate::fixed::fx_neg_s;
use crate::linalg::{
    mat_identity_s, mat_mul_s, mat_rotation_s, mat_scale_s, mat_translation_s, Mat4, Quat, Vec3,
};

verus! {

/// A stable, opaque handle for an object of the scene.
#[derive(Copy, Clone, Debug, Hash, Eq, PartialEq, Structural)]
pub struct Entity(pub u32);

impl Entity {
    pub fn new(id: u32) -> (r: Entity)
        ensures
            r.0 == id,
    {
        Entity(id)
    }

    pub fn id(&self) -> (r: u32)
        ensures
            r == self.0,
    {
        self.0
    }
}

/// The local matrix of a translation, rotation and scale, composed in the
/// order scale, then rotation, then translation.
#[verifier::opaque]
pub open spec fn trs_s(position: Vec3, rotation: Quat, scale: Vec3) -> Mat4 {
    mat_mul_s(
        mat_mul_s(mat_translation_s(position), mat_rotation_s(rotation)),
        mat_scale_s(scale),
    )
}

/// A local transform: position, rotation, scale, and a lazily cached
/// local matrix guarded by a dirty flag.
#[derive(Clone, Copy, Debug)]
pub struct Transform {
    position: Vec3,
    rotation: Quat,
    scale: Vec3,
    local_matrix: Mat4,
    is_dirty: bool,
}

impl Transform {
    pub closed spec fn spec_position(self) -> Vec3 {
        self.position
    }

    pub closed spec fn spec_rotation(self) -> Quat {
        self.rotation
    }

    pub closed spec fn spec_scale(self) -> Vec3 {
        self.scale
    }

    pub closed spec fn spec_dirty(self) -> bool {
        self.is_dirty
    }

    pub closed spec fn spec_local_matrix(self) -> Mat4 {
        self.local_matrix
    }

    /// The matrix the transform currently denotes.
    pub open spec fn local_trs(self) -> Mat4 {
        trs_s(self.spec_position(), self.spec_rotation(), self.spec_scale())
    }

    /// A clean cache always holds the matrix of the current components.
    pub closed spec fn wf(self) -> bool {
        !self.is_dirty ==> self.local_matrix == self.local_trs()
    }

    /// The identity transform, with its matrix still to be computed.
    pub fn new() -> (r: Transform)
        ensures
            r.spec_position() == (Vec3 { x: 0, y: 0, z: 0 }),
            r.spec_rotation() == (Quat { w: crate::fixed::FX_ONE, x: 0, y: 0, z: 0 }),
            r.spec_scale() == (Vec3 {
                x: crate::fixed::FX_ONE,
                y: crate::fixed::FX_ONE,
                z: crate::fixed::FX_ONE,
            }),
            r.spec_dirty(),
            r.wf(),
    {
        Transform {
            position: Vec3::zero(),
            rotation: Quat::identity(),
            scale: Vec3::one(),
            local_matrix: Mat4::identity(),
            is_dirty: true,
        }
    }

    /// Recompute the cached local matrix if the components changed.
    pub fn compute_local_matrix(&mut self)
        requires
            old(self).wf(),
        ensures
            final(self).spec_position() == old(self).spec_position(),
            final(self).spec_rotation() == old(self).spec_rotation(),
            final(self).spec_scale() == old(self).spec_scale(),
            !final(self).spec_dirty(),
            final(self).spec_local_matrix() == old(self).local_trs(),
            final(self).wf(),
    {
        proof {
            reveal(trs_s);
        }
        if self.is_dirty {
            let translation = Mat4::from_translation(self.position);
            let rotation = Mat4::from_quat(self.rotation);
            let scale = Mat4::from_nonuniform_scale(self.scale);
            self.local_matrix = translation.mul_mat(&rotation).mul_mat(&scale);
            self.is_dirty = false;
        }
    }

    /// Set the position, flipping the z axis from the importer's
    /// left-handed frame.
    pub fn set_position(&mut self, pos: &Vec3)
        ensures
            final(self).spec_position() == (Vec3 {
                x: pos.x,
                y: pos.y,
                z: fx_neg_s(pos.z as int) as i64,
            }),
            final(self).spec_rotation() == old(self).spec_rotation(),
            final(self).spec_scale() == old(self).spec_scale(),
            final(self).spec_dirty(),
            final(self).wf(),
    {
        self.position = Vec3 { x: pos.x, y: pos.y, z: fx_neg(pos.z) };
        self.is_dirty = true;
    }

    pub fn set_rotation(&mut self, rot: Quat)
        ensures
            final(self).spec_rotation() == rot,
            final(self).spec_position() == old(self).spec_position(),
            final(self).spec_scale() == old(self).spec_scale(),
            final(self).spec_dirty(),
            final(self).wf(),
    {
        self.rotation = rot;
        self.is_dirty = true;
    }

    pub fn set_scale(&mut self, scale: Vec3)
        ensures
            final(self).spec_scale() == scale,
            final(self).spec_position() == old(self).spec_position(),
            final(self).spec_rotation() == old(self).spec_rotation(),
            final(self).spec_dirty(),
            final(self).wf(),
    {
        self.scale = scale;
        self.is_dirty = true;
    }

    /// Current position.
    pub fn position(&self) -> (r: Vec3)
        ensures
            r == self.spec_position(),
    {
        self.position
    }

    /// Current rotation.
    pub fn rotation(&self) -> (r: Quat)
        ensures
            r == self.spec_rotation(),
    {
        self.rotation
    }

    /// Current scale.
    pub fn scale(&self) -> (r: Vec3)
        ensures
            r == self.spec_scale(),
    {
        self.scale
    }

    /// The cached local matrix.
    pub fn local_matrix(&self) -> (r: Mat4)
        ensures
            r == self.spec_local_matrix(),
    {
        self.local_matrix
    }
}

impl Default for Transform {
    fn default() -> (r: Transform)
        ensures
            r.spec_dirty(),
            r.wf(),
    {
        Transform::new()
    }
}

/// One vertex of a mesh; implementors flip their z components when moving
/// between the importer's frame and the renderer's.
pub trait IVertex {
    fn flip_z_axis(&mut self);
}

/// One stored entity: handle, parent index, local transform, cached world
/// matrix. Removed entries stay in place marked not alive, so parent
/// indices never shift.
#[derive(Clone, Copy, Debug)]
struct Node {
    ent: Entity,
    parent: Option<usize>,
    tr: Transform,
    world: Mat4,
    alive: bool,
}

/// Index of the live node carrying `e`, or -1.
spec fn find_e(s: Seq<Node>, e: Entity) -> int
    decreases s.len(),
{
    if s.len() == 0 {
        -1
    } else if s.last().alive && s.last().ent == e {
        s.len() - 1
    } else {
        find_e(s.drop_last(), e)
    }
}

/// No two live nodes carry the same entity.
spec fn nodup(s: Seq<Node>) -> bool {
    forall|i: int, j: int|
        0 <= i < j < s.len() && s[i].alive && s[j].alive ==> s[i].ent != s[j].ent
}

proof fn lemma_find_props(s: Seq<Node>, e: Entity)
    ensures
        find_e(s, e) == -1 || (0 <= find_e(s, e) < s.len() && s[find_e(s, e)].alive && s[find_e(
            s,
            e,
        )].ent == e),
    decreases s.len(),
{
    if s.len() > 0 && !(s.last().alive && s.last().ent == e) {
        lemma_find_props(s.drop_last(), e);
    }
}

proof fn lemma_find_unique(s: Seq<Node>, e: Entity, i: int)
    requires
        nodup(s),
        0 <= i < s.len(),
        s[i].alive,
        s[i].ent == e,
    ensures
        find_e(s, e) == i,
    decreases s.len(),
{
    if s.last().alive && s.last().ent == e {
        assert(i == s.len() - 1);
    } else {
        assert(i < s.len() - 1);
        assert(nodup(s.drop_last()));
        lemma_find_unique(s.drop_last(), e, i);
    }
}

proof fn lemma_find_congruent(s1: Seq<Node>, s2: Seq<Node>, e: Entity)
    requires
        s1.len() == s2.len(),
        forall|i: int|
            0 <= i < s1.len() ==> s1[i].ent == s2[i].ent && s1[i].alive == s2[i].alive,
    ensures
        find_e(s1, e) == find_e(s2, e),
    decreases s1.len(),
{
    if s1.len() > 0 {
        lemma_find_congruent(s1.drop_last(), s2.drop_last(), e);
    }
}

/// Whether index `i` lies in the subtree rooted at index `a`, following
/// parent links (which always point to strictly smaller indices).
spec fn desc_idx(s: Seq<Node>, i: int, a: int) -> bool
    decreases i,
{
    if i == a {
        true
    } else if i <= 0 {
        false
    } else {
        match s[i].parent {
            Some(p) => if 0 <= p < i {
                desc_idx(s, p as int, a)
            } else {
                false
            },
            None => false,
        }
    }
}

/// The hierarchical store of all local transforms and cached world
/// matrices, keyed by entity.
pub struct TransformSystem {
    nodes: Vec<Node>,
}

impl TransformSystem {
    /// Well-formedness: unique live entities, parents stand strictly
    /// earlier than their children and are live while the child is, and
    /// every cached local matrix is in step with its components.
    pub closed spec fn wf(self) -> bool {
        let s = self.nodes@;
        &&& nodup(s)
        &&& forall|i: int|
            0 <= i < s.len() ==> ((#[trigger] s[i].parent) matches Some(p) ==> 0 <= p < i)
        &&& forall|i: int|
            0 <= i < s.len() && s[i].alive ==> ((#[trigger] s[i].parent) matches Some(p)
                ==> s[p as int].alive)
        &&& forall|i: int| 0 <= i < s.len() ==> (#[trigger] s[i].tr).wf()
    }

    /// The entity is currently registered.
    pub closed spec fn has_e(self, e: Entity) -> bool {
        find_e(self.nodes@, e) >= 0
    }

    /// The recorded parent of `e`: `None` for roots and for entities that
    /// are not registered.
    pub closed spec fn parent_of(self, e: Entity) -> Option<Entity> {
        let s = self.nodes@;
        let i = find_e(s, e);
        if i >= 0 {
            match s[i].parent {
                Some(p) => Some(s[p as int].ent),
                None => None,
            }
        } else {
            None
        }
    }

    /// The cached world matrix of `e` (identity if not registered).
    pub closed spec fn world_of(self, e: Entity) -> Mat4 {
        let s = self.nodes@;
        let i = find_e(s, e);
        if i >= 0 {
            s[i].world
        } else {
            mat_identity_s()
        }
    }

    /// The stored local transform of `e`.
    pub closed spec fn transform_of(self, e: Entity) -> Transform {
        let s = self.nodes@;
        let i = find_e(s, e);
        if i >= 0 {
            s[i].tr
        } else {
            vstd::pervasive::arbitrary()
        }
    }

    /// The local matrix denoted by the current components of `e`.
    pub open spec fn local_trs_of(self, e: Entity) -> Mat4 {
        self.transform_of(e).local_trs()
    }

    /// `parent` was registered before `child` (the only shape of relation
    /// `set_parent` records; it keeps the graph a forest).
    pub closed spec fn registered_before(self, parent: Entity, child: Entity) -> bool {
        let s = self.nodes@;
        &&& find_e(s, parent) >= 0
        &&& find_e(s, child) >= 0
        &&& find_e(s, parent) < find_e(s, child)
    }

    /// `e` is `root` itself or one of its descendants.
    pub closed spec fn in_subtree(self, root: Entity, e: Entity) -> bool {
        let s = self.nodes@;
        &&& find_e(s, root) >= 0
        &&& find_e(s, e) >= 0
        &&& desc_idx(s, find_e(s, e), find_e(s, root))
    }

    /// Every cached world matrix satisfies the hierarchy equation:
    /// a child's world matrix is its parent's world matrix times its own
    /// local matrix, and a root's world matrix is its local matrix.
    pub open spec fn world_current(self) -> bool {
        forall|e: Entity|
            #[trigger] self.has_e(e) ==> match self.parent_of(e) {
                Some(p) => self.world_of(e) == mat_mul_s(self.world_of(p), self.local_trs_of(e)),
                None => self.world_of(e) == self.local_trs_of(e),
            }
    }

    pub fn new() -> (r: TransformSystem)
        ensures
            r.wf(),
            forall|e: Entity| !(#[trigger] r.has_e(e)),
    {
        let r = TransformSystem { nodes: Vec::new() };
        proof {
            assert forall|e: Entity| !(#[trigger] r.has_e(e)) by {
                assert(find_e(r.nodes@, e) == -1);
            }
        }
        r
    }

    /// Index of the live node carrying `e`.
    fn find(&self, e: Entity) -> (r: Option<usize>)
        requires
            self.wf(),
        ensures
            match r {
                Some(i) => find_e(self.nodes@, e) == i as int && i < self.nodes.len(),
                None => find_e(self.nodes@, e) == -1,
            },
    {
        let ghost s = self.nodes@;
        let n = self.nodes.len();
        let mut i: usize = 0;
        while i < n
            invariant
                n == s.len(),
                s == self.nodes@,
                self.wf(),
                i <= n,
                forall|k: int| 0 <= k < i ==> !(s[k].alive && s[k].ent == e),
            decreases n - i,
        {
            let node = &self.nodes[i];
            if node.alive && node.ent.0 == e.0 {
                proof {
                    lemma_find_unique(s, e, i as int);
                }
                return Some(i);
            }
            i = i + 1;
        }
        proof {
            lemma_find_props(s, e);
        }
        None
    }

    /// Registers a new entity's local transform as a root; if the entity
    /// is already present this is a silent no-op.
    pub fn add_transform(&mut self, entity: Entity, transform: Transform)
        requires
            old(self).wf(),
            transform.wf(),
        ensures
            final(self).wf(),
            old(self).has_e(entity) ==> *final(self) == *old(self),
            !old(self).has_e(entity) ==> {
                &&& forall|x: Entity|
                    #[trigger] final(self).has_e(x) == (old(self).has_e(x) || x == entity)
                &&& final(self).parent_of(entity) == None::<Entity>
                &&& final(self).transform_of(entity) == transform
                &&& forall|x: Entity|
                    x != entity ==> #[trigger] final(self).parent_of(x) == old(self).parent_of(x)
                &&& forall|x: Entity|
                    x != entity ==> #[trigger] final(self).transform_of(x) == old(
                        self,
                    ).transform_of(x)
                &&& forall|x: Entity|
                    x != entity ==> #[trigger] final(self).world_of(x) == old(self).world_of(x)
            },
    {
        let ghost s = self.nodes@;
        if self.find(entity).is_none() {
            let node = Node {
                ent: entity,
                parent: None,
                tr: transform,
                world: Mat4::identity(),
                alive: true,
            };
            self.nodes.push(node);
            proof {
                let s2 = self.nodes@;
                assert(s2.drop_last() =~= s);
                assert(find_e(s2, entity) == s.len());
                assert forall|k: int| 0 <= k < s.len() && s[k].alive implies s[k].ent != entity by {
                    if s[k].ent == entity {
                        lemma_find_unique(s, entity, k);
                    }
                }
                assert(nodup(s2));
                assert forall|x: Entity| x != entity implies find_e(s2, x) == find_e(s, x) by {
                    assert(s2.last().ent != x);
                }
                assert forall|x: Entity|
                    #[trigger] final(self).has_e(x) == (old(self).has_e(x) || x == entity) by {
                    if x != entity {
                        assert(find_e(s2, x) == find_e(s, x));
                    }
                }
                assert forall|x: Entity|
                    x != entity implies #[trigger] final(self).parent_of(x) == old(
                    self,
                ).parent_of(x) by {
                    lemma_find_props(s, x);
                }
                assert forall|x: Entity|
                    x != entity implies #[trigger] final(self).transform_of(x) == old(
                    self,
                ).transform_of(x) by {
                    lemma_find_props(s, x);
                }
                assert forall|x: Entity|
                    x != entity implies #[trigger] final(self).world_of(x) == old(
                    self,
                ).world_of(x) by {
                    lemma_find_props(s, x);
                }
            }
        }
    }

    /// Records `parent` as the single parent of `child`. The relation is
    /// only recorded when both entities exist and the parent was
    /// registered before the child; that ordering makes a cycle
    /// impossible. Returns whether the relation was recorded.
    pub fn set_parent(&mut self, parent: Entity, child: Entity) -> (ok: bool)
        requires
            old(self).wf(),
        ensures
            final(self).wf(),
            ok == old(self).registered_before(parent, child),
            !ok ==> *final(self) == *old(self),
            ok ==> {
                &&& final(self).parent_of(child) == Some(parent)
                &&& forall|x: Entity| #[trigger] final(self).has_e(x) == old(self).has_e(x)
                &&& forall|x: Entity|
                    x != child ==> #[trigger] final(self).parent_of(x) == old(self).parent_of(x)
                &&& forall|x: Entity|
                    #[trigger] final(self).transform_of(x) == old(self).transform_of(x)
                &&& forall|x: Entity| #[trigger] final(self).world_of(x) == old(self).world_of(x)
            },
    {
        let ghost s = self.nodes@;
        let pi_opt = self.find(parent);
        let ci_opt = self.find(child);
        match (pi_opt, ci_opt) {
            (Some(pi), Some(ci)) => {
                if pi < ci {
                    let mut node = self.nodes[ci];
                    node.parent = Some(pi);
                    self.nodes.set(ci, node);
                    proof {
                        let s2 = self.nodes@;
                        lemma_find_props(s, parent);
                        lemma_find_props(s, child);
                        assert forall|x: Entity| find_e(s2, x) == find_e(s, x) by {
                            lemma_find_congruent(s2, s, x);
                        }
                        assert forall|x: Entity|
                            x != child implies #[trigger] final(self).parent_of(x) == old(
                            self,
                        ).parent_of(x) by {
                            lemma_find_props(s, x);
                            if find_e(s, x) >= 0 {
                                assert(find_e(s, x) != ci as int);
                            }
                        }
                        assert(final(self).parent_of(child) == Some(parent));
                        assert forall|x: Entity|
                            #[trigger] final(self).transform_of(x) == old(
                            self,
                        ).transform_of(x) by {
                            lemma_find_props(s, x);
                        }
                        assert forall|x: Entity|
                            #[trigger] final(self).world_of(x) == old(self).world_of(x) by {
                            lemma_find_props(s, x);
                        }
                    }
                    true
                } else {
                    false
                }
            },
            _ => false,
        }
    }

    /// Recomputes every live entity's world matrix in one ascending pass:
    /// parents always stand before their children, so each parent's world
    /// matrix is final when a child reads it.
    pub fn update(&mut self)
        requires
            old(self).wf(),
        ensures
            final(self).wf(),
            final(self).world_current(),
            forall|x: Entity| #[trigger] final(self).has_e(x) == old(self).has_e(x),
            forall|x: Entity| #[trigger] final(self).parent_of(x) == old(self).parent_of(x),
            forall|x: Entity| #[trigger] final(self).local_trs_of(x) == old(self).local_trs_of(x),
    {
        let ghost s = self.nodes@;
        let n = self.nodes.len();
        let mut i: usize = 0;
        while i < n
            invariant
                n == s.len(),
                self.nodes@.len() == s.len(),
                self.wf(),
                i <= n,
                forall|k: int|
                    0 <= k < s.len() ==> {
                        let c = #[trigger] self.nodes@[k];
                        &&& c.ent == s[k].ent
                        &&& c.alive == s[k].alive
                        &&& c.parent == s[k].parent
                        &&& c.tr.spec_position() == s[k].tr.spec_position()
                        &&& c.tr.spec_rotation() == s[k].tr.spec_rotation()
                        &&& c.tr.spec_scale() == s[k].tr.spec_scale()
                    },
                forall|k: int|
                    0 <= k < i && self.nodes@[k].alive ==> {
                        let c = #[trigger] self.nodes@[k];
                        &&& c.world == match c.parent {
                            Some(p) => mat_mul_s(self.nodes@[p as int].world, c.tr.local_trs()),
                            None => c.tr.local_trs(),
                        }
                    },
            decreases n - i,
        {
            if self.nodes[i].alive {
                let mut node = self.nodes[i];
                node.tr.compute_local_matrix();
                let local = node.tr.local_matrix();
                let world = match node.parent {
                    Some(p) => self.nodes[p].world.mul_mat(&local),
                    None => local,
                };
                node.world = world;
                self.nodes.set(i, node);
            }
            i = i + 1;
        }
        proof {
            let s2 = self.nodes@;
            assert forall|x: Entity| find_e(s2, x) == find_e(s, x) by {
                lemma_find_congruent(s2, s, x);
            }
            assert forall|x: Entity|
                #[trigger] final(self).parent_of(x) == old(self).parent_of(x) by {
                lemma_find_props(s, x);
            }
            assert forall|x: Entity|
                #[trigger] final(self).local_trs_of(x) == old(self).local_trs_of(x) by {
                lemma_find_props(s, x);
            }
            assert forall|e: Entity| #[trigger] final(self).has_e(e) implies (match final(self).parent_of(e) {
                Some(p) => final(self).world_of(e) == mat_mul_s(
                    final(self).world_of(p),
                    final(self).local_trs_of(e),
                ),
                None => final(self).world_of(e) == final(self).local_trs_of(e),
            }) by {
                lemma_find_props(s2, e);
                let ie = find_e(s2, e);
                match s2[ie].parent {
                    Some(p) => {
                        lemma_find_unique(s2, s2[p as int].ent, p as int);
                    },
                    None => {},
                }
            }
        }
    }

    /// The stored local transform of an entity.
    pub fn get_local_transform(&self, entity: Entity) -> (r: Option<&Transform>)
        requires
            self.wf(),
        ensures
            match r {
                Some(t) => self.has_e(entity) && *t == self.transform_of(entity),
                None => !self.has_e(entity),
            },
    {
        match self.find(entity) {
            Some(i) => Some(&self.nodes[i].tr),
            None => None,
        }
    }

    /// Replace the stored local transform of a registered entity (no-op
    /// for an unknown one). The cached world matrix goes stale until the
    /// next `update`.
    pub fn set_local_transform(&mut self, entity: Entity, transform: Transform)
        requires
            old(self).wf(),
            transform.wf(),
        ensures
            final(self).wf(),
            forall|x: Entity| #[trigger] final(self).has_e(x) == old(self).has_e(x),
            forall|x: Entity| #[trigger] final(self).parent_of(x) == old(self).parent_of(x),
            forall|x: Entity| #[trigger] final(self).world_of(x) == old(self).world_of(x),
            old(self).has_e(entity) ==> final(self).transform_of(entity) == transform,
            forall|x: Entity|
                x != entity ==> #[trigger] final(self).transform_of(x) == old(self).transform_of(
                    x,
                ),
    {
        let ghost s = self.nodes@;
        match self.find(entity) {
            Some(ci) => {
                let mut node = self.nodes[ci];
                node.tr = transform;
                self.nodes.set(ci, node);
                proof {
                    let s2 = self.nodes@;
                    lemma_find_props(s, entity);
                    assert forall|x: Entity| find_e(s2, x) == find_e(s, x) by {
                        lemma_find_congruent(s2, s, x);
                    }
                    assert forall|x: Entity|
                        x != entity implies #[trigger] final(self).transform_of(x) == old(
                        self,
                    ).transform_of(x) by {
                        lemma_find_props(s, x);
                        if find_e(s, x) >= 0 {
                            assert(find_e(s, x) != ci as int);
                        }
                    }
                    assert forall|x: Entity|
                        #[trigger] final(self).parent_of(x) == old(self).parent_of(x) by {
                        lemma_find_props(s, x);
                    }
                    assert forall|x: Entity|
                        #[trigger] final(self).world_of(x) == old(self).world_of(x) by {
                        lemma_find_props(s, x);
                    }
                }
            },
            None => {},
        }
    }

    /// The cached world matrix of an entity, by value.
    pub fn get_world_matrix(&self, entity: Entity) -> (r: Option<Mat4>)
        requires
            self.wf(),
        ensures
            match r {
                Some(m) => self.has_e(entity) && m == self.world_of(entity),
                None => !self.has_e(entity),
            },
    {
        match self.find(entity) {
            Some(i) => Some(self.nodes[i].world),
            None => None,
        }
    }

    /// The cached world matrix of an entity, by reference.
    pub fn get_world_matrix_ref(&self, entity: Entity) -> (r: Option<&Mat4>)
        requires
            self.wf(),
        ensures
            match r {
                Some(m) => self.has_e(entity) && *m == self.world_of(entity),
                None => !self.has_e(entity),
            },
    {
        match self.find(entity) {
            Some(i) => Some(&self.nodes[i].world),
            None => None,
        }
    }

    /// The recorded parent of an entity.
    pub fn get_parent(&self, entity: Entity) -> (r: Option<Entity>)
        requires
            self.wf(),
        ensures
            r == self.parent_of(entity),
    {
        match self.find(entity) {
            Some(i) => match self.nodes[i].parent {
                Some(p) => Some(self.nodes[p].ent),
                None => None,
            },
            None => None,
        }
    }

    /// Everything `remove_entity` promises: exactly the subtree of the
    /// removed entity is gone, and every survivor keeps its parent,
    /// transform and world matrix.
    pub open spec fn remove_post(pre: TransformSystem, post: TransformSystem, entity: Entity) -> bool {
        &&& forall|x: Entity|
            #[trigger] post.has_e(x) == (pre.has_e(x) && !pre.in_subtree(entity, x))
        &&& forall|x: Entity| #[trigger] post.has_e(x) ==> post.parent_of(x) == pre.parent_of(x)
        &&& forall|x: Entity|
            #[trigger] post.has_e(x) ==> post.transform_of(x) == pre.transform_of(x)
        &&& forall|x: Entity| #[trigger] post.has_e(x) ==> post.world_of(x) == pre.world_of(x)
    }

    /// Removing an entity removes every one of its descendants: afterwards
    /// no former member of the subtree is registered, so a world-matrix
    /// lookup on any of them comes back absent.
    pub proof fn lemma_remove_erases_subtree(
        pre: TransformSystem,
        post: TransformSystem,
        entity: Entity,
        descendant: Entity,
    )
        requires
            Self::remove_post(pre, post, entity),
            pre.in_subtree(entity, descendant),
        ensures
            !post.has_e(descendant),
    {
    }

    /// Removes an entity together with its entire subtree. Everything
    /// outside the subtree keeps its parent, transform and world matrix.
    pub fn remove_entity(&mut self, entity: Entity)
        requires
            old(self).wf(),
        ensures
            final(self).wf(),
            Self::remove_post(*old(self), *final(self), entity),
    {
        let ghost s = self.nodes@;
        let root_opt = self.find(entity);
        match root_opt {
            None => {
                proof {
                    assert(s == self.nodes@);
                    assert forall|x: Entity| !old(self).in_subtree(entity, x) by {}
                }
            },
            Some(root) => {
                let ghost ri = root as int;
                let n = self.nodes.len();
                let mut removed: Vec<bool> = Vec::new();
                let mut i: usize = 0;
                while i < n
                    invariant
                        self.wf(),
                        s == self.nodes@,
                        n == s.len(),
                        i <= n,
                        removed@.len() == i as int,
                        ri == root as int,
                        0 <= ri < s.len(),
                        forall|k: int| 0 <= k < i ==> removed@[k] == desc_idx(s, k, ri),
                    decreases n - i,
                {
                    let is_r: bool = if i == root {
                        true
                    } else {
                        match self.nodes[i].parent {
                            Some(p) => removed[p],
                            None => false,
                        }
                    };
                    proof {
                        assert(is_r == desc_idx(s, i as int, ri));
                    }
                    removed.push(is_r);
                    i = i + 1;
                }
                let mut j: usize = 0;
                while j < n
                    invariant
                        n == s.len(),
                        self.nodes@.len() == s.len(),
                        j <= n,
                        removed@.len() == n as int,
                        ri == root as int,
                        0 <= ri < s.len(),
                        nodup(s),
                        forall|k: int|
                            0 <= k < s.len() ==> ((#[trigger] s[k].parent) matches Some(p) ==> 0
                                <= p < k),
                        forall|k: int|
                            0 <= k < s.len() && s[k].alive ==> ((#[trigger] s[k].parent) matches
                            Some(p) ==> s[p as int].alive),
                        forall|k: int| 0 <= k < s.len() ==> (#[trigger] s[k].tr).wf(),
                        forall|k: int| 0 <= k < s.len() ==> removed@[k] == desc_idx(s, k, ri),
                        forall|k: int|
                            0 <= k < s.len() ==> {
                                let c = #[trigger] self.nodes@[k];
                                &&& c.ent == s[k].ent
                                &&& c.parent == s[k].parent
                                &&& c.tr == s[k].tr
                                &&& c.world == s[k].world
                            },
                        forall|k: int|
                            0 <= k < j ==> {
                                let c = #[trigger] self.nodes@[k];
                                c.alive == (s[k].alive && !removed@[k])
                            },
                        forall|k: int|
                            j <= k < s.len() ==> {
                                let c = #[trigger] self.nodes@[k];
                                c.alive == s[k].alive
                            },
                    decreases n - j,
                {
                    if removed[j] {
                        let mut node = self.nodes[j];
                        node.alive = false;
                        self.nodes.set(j, node);
                    }
                    j = j + 1;
                }
                proof {
                    let s2 = self.nodes@;
                    assert forall|k: int|
                        0 <= k < s.len() implies s2[k].alive == (s[k].alive && !desc_idx(
                        s,
                        k,
                        ri,
                    )) by {
                        assert(removed@[k] == desc_idx(s, k, ri));
                    }
                    assert(nodup(s2));
                    assert(final(self).wf());
                    assert forall|x: Entity|
                        #[trigger] final(self).has_e(x) == (old(self).has_e(x) && !old(
                            self,
                        ).in_subtree(entity, x)) by {
                        lemma_find_props(s2, x);
                        lemma_find_props(s, x);
                        if find_e(s2, x) >= 0 {
                            let i2 = find_e(s2, x);
                            lemma_find_unique(s, x, i2);
                        } else if find_e(s, x) >= 0 && !desc_idx(s, find_e(s, x), ri) {
                            lemma_find_unique(s2, x, find_e(s, x));
                        }
                    }
                    assert forall|x: Entity| #[trigger] final(self).has_e(x) implies {
                        &&& final(self).parent_of(x) == old(self).parent_of(x)
                        &&& final(self).transform_of(x) == old(self).transform_of(x)
                        &&& final(self).world_of(x) == old(self).world_of(x)
                    } by {
                        lemma_find_props(s2, x);
                        let i2 = find_e(s2, x);
                        lemma_find_unique(s, x, i2);
                    }
                }
            },
        }
    }

    /// Detaches an entity from its parent, making it a root. Registration,
    /// transforms and world matrices are untouched.
    pub fn remove_parent(&mut self, child: Entity)
        requires
            old(self).wf(),
        ensures
            final(self).wf(),
            final(self).parent_of(child) == None::<Entity>,
            forall|x: Entity| #[trigger] final(self).has_e(x) == old(self).has_e(x),
            forall|x: Entity|
                x != child ==> #[trigger] final(self).parent_of(x) == old(self).parent_of(x),
            forall|x: Entity| #[trigger] final(self).transform_of(x) == old(self).transform_of(x),
            forall|x: Entity| #[trigger] final(self).world_of(x) == old(self).world_of(x),
    {
        let ghost s = self.nodes@;
        match self.find(child) {
            Some(ci) => {
                let mut node = self.nodes[ci];
                node.parent = None;
                self.nodes.set(ci, node);
                proof {
                    let s2 = self.nodes@;
                    lemma_find_props(s, child);
                    assert forall|x: Entity| find_e(s2, x) == find_e(s, x) by {
                        lemma_find_congruent(s2, s, x);
                    }
                    assert forall|x: Entity|
                        x != child implies #[trigger] final(self).parent_of(x) == old(
                        self,
                    ).parent_of(x) by {
                        lemma_find_props(s, x);
                        if find_e(s, x) >= 0 {
                            assert(find_e(s, x) != ci as int);
                        }
                    }
                    assert forall|x: Entity|
                        #[trigger] final(self).transform_of(x) == old(self).transform_of(x) by {
                        lemma_find_props(s, x);
                    }
                    assert forall|x: Entity|
                        #[trigger] final(self).world_of(x) == old(self).world_of(x) by {
                        lemma_find_props(s, x);
                    }
                }
            },
            None => {},
        }
    }

    /// Whether the entity is registered.
    pub fn has_entity(&self, entity: Entity) -> (r: bool)
        requires
            self.wf(),
        ensures
            r == self.has_e(entity),
    {
        self.find(entity).is_some()
    }
}



/// The live entities among the first `k` stored nodes, in insertion order.
spec fn ents_upto(s: Seq<Node>, k: int) -> Seq<Entity>
    decreases k,
{
    if k <= 0 {
        Seq::empty()
    } else {
        let rest = ents_upto(s, k - 1);
        if s[k - 1].alive {
            rest.push(s[k - 1].ent)
        } else {
            rest
        }
    }
}

/// The live roots among the first `k` stored nodes, in insertion order.
spec fn roots_upto(s: Seq<Node>, k: int) -> Seq<Entity>
    decreases k,
{
    if k <= 0 {
        Seq::empty()
    } else {
        let rest = roots_upto(s, k - 1);
        if s[k - 1].alive && (s[k - 1].parent is None) {
            rest.push(s[k - 1].ent)
        } else {
            rest
        }
    }
}

/// The live children of `e` among the first `k` stored nodes, in
/// insertion order.
spec fn children_upto(s: Seq<Node>, e: Entity, k: int) -> Seq<Entity>
    decreases k,
{
    if k <= 0 {
        Seq::empty()
    } else {
        let rest = children_upto(s, e, k - 1);
        let is_child = s[k - 1].alive && match s[k - 1].parent {
            Some(p) => 0 <= p < s.len() && s[p as int].ent == e,
            None => false,
        };
        if is_child {
            rest.push(s[k - 1].ent)
        } else {
            rest
        }
    }
}

impl TransformSystem {
    /// All registered entities, in insertion order.
    pub closed spec fn all_entities(self) -> Seq<Entity> {
        ents_upto(self.nodes@, self.nodes@.len() as int)
    }

    /// All registered root entities, in insertion order.
    pub closed spec fn root_entities(self) -> Seq<Entity> {
        roots_upto(self.nodes@, self.nodes@.len() as int)
    }

    /// The registered children of `e`, in insertion order.
    pub closed spec fn children_of(self, e: Entity) -> Seq<Entity> {
        children_upto(self.nodes@, e, self.nodes@.len() as int)
    }

    /// All registered entities.
    pub fn get_all_entities(&self) -> (r: Vec<Entity>)
        requires
            self.wf(),
        ensures
            r@ == self.all_entities(),
    {
        let ghost s = self.nodes@;
        let n = self.nodes.len();
        let mut r: Vec<Entity> = Vec::new();
        let mut i: usize = 0;
        while i < n
            invariant
                s == self.nodes@,
                n == s.len(),
                i <= n,
                r@ == ents_upto(s, i as int),
            decreases n - i,
        {
            if self.nodes[i].alive {
                r.push(self.nodes[i].ent);
            }
            i = i + 1;
        }
        r
    }

    /// The entities without a recorded parent.
    pub fn get_root_entities(&self) -> (r: Vec<Entity>)
        requires
            self.wf(),
        ensures
            r@ == self.root_entities(),
    {
        let ghost s = self.nodes@;
        let n = self.nodes.len();
        let mut r: Vec<Entity> = Vec::new();
        let mut i: usize = 0;
        while i < n
            invariant
                s == self.nodes@,
                n == s.len(),
                i <= n,
                r@ == roots_upto(s, i as int),
            decreases n - i,
        {
            if self.nodes[i].alive && self.nodes[i].parent.is_none() {
                r.push(self.nodes[i].ent);
            }
            i = i + 1;
        }
        r
    }

    /// The recorded children of an entity, in insertion order (empty when
    /// the entity has none or is not registered).
    pub fn get_children(&self, entity: Entity) -> (r: Vec<Entity>)
        requires
            self.wf(),
        ensures
            r@ == self.children_of(entity),
    {
        let ghost s = self.nodes@;
        let n = self.nodes.len();
        let mut r: Vec<Entity> = Vec::new();
        let mut i: usize = 0;
        while i < n
            invariant
                s == self.nodes@,
                n == s.len(),
                i <= n,
                self.wf(),
                r@ == children_upto(s, entity, i as int),
            decreases n - i,
        {
            let is_child = if self.nodes[i].alive {
                match self.nodes[i].parent {
                    Some(p) => self.nodes[p].ent.0 == entity.0,
                    None => false,
                }
            } else {
                false
            };
            if is_child {
                r.push(self.nodes[i].ent);
            }
            i = i + 1;
        }
        r
    }
}

impl Default for TransformSystem {
    fn default() -> (r: TransformSystem)
        ensures
            r.wf(),
            forall|e: Entity| !(#[trigger] r.has_e(e)),
    {
        TransformSystem::new()
    }
}


} // verus!
