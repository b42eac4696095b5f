//! The retained scene graph: cameras, nodes, meshes, primitives, materials
//! and textures, each kind stored in its own arena and cross-referenced only
//! by handle. A traversal flattens the node hierarchy into (node handle,
//! world transform) pairs, root to leaf, with a depth bound that keeps it
//! terminating even on a malformed cyclic graph.

use vstd::prelude::*;
use crate::arena::{Arena, Handle};
use crate::math::{
    Transform, Vec3, Quat, spec_compose, spec_transform_identity, spec_vscale, spec_rotated,
    spec_normalized, tdiv, FP_ONE,
};

verus! {

/// Deeper nodes than this are not visited: the bound keeps traversal
/// terminating even if the graph has been corrupted into a cycle.
pub const MAX_TRAVERSAL_DEPTH: u32 = 64;

/// Projection parameters; a pure value type that owns no resources.
#[allow(inconsistent_fields)]
#[derive(Clone, Copy, PartialEq, Eq, Structural, Debug)]
pub enum Camera {
    /// Perspective projection; `far` is absent for the infinite variant.
    Perspective { aspect: i64, yfov: i64, near: i64, far: Option<i64> },
    /// Orthographic projection.
    Orthographic { width: i64, height: i64, near: i64, far: i64 },
}

impl Camera {
    /// A perspective camera with a finite far plane.
    pub fn finite_perspective(aspect: i64, yfov: i64, near: i64, far: i64) -> (c: Camera)
        ensures
            c == (Camera::Perspective { aspect, yfov, near, far: Some(far) }),
    {
        Camera::Perspective { aspect, yfov, near, far: Some(far) }
    }

    /// A perspective camera with an infinite far plane.
    pub fn infinite_perspective(aspect: i64, yfov: i64, near: i64) -> (c: Camera)
        ensures
            c == (Camera::Perspective { aspect, yfov, near, far: None }),
    {
        Camera::Perspective { aspect, yfov, near, far: None }
    }

    /// An orthographic camera.
    pub fn orthographic(width: i64, height: i64, near: i64, far: i64) -> (c: Camera)
        ensures
            c == (Camera::Orthographic { width, height, near, far }),
    {
        Camera::Orthographic { width, height, near, far }
    }
}

/// The width of one index element, recorded explicitly.
#[derive(Clone, Copy, PartialEq, Eq, Structural, Debug)]
pub enum IndexType {
    U8,
    U16,
    U32,
}

/// How a primitive's vertices are assembled.
#[derive(Clone, Copy, PartialEq, Eq, Structural, Debug)]
pub enum Topology {
    TriangleList,
    LineList,
}

/// Which pipeline variant renders a material.
#[derive(Clone, Copy, PartialEq, Eq, Structural, Debug)]
pub enum ShaderKind {
    Opaque,
    Line,
}

/// An RGBA color with fixed-point channels in `[0, FP_ONE]`.
#[derive(Clone, Copy, PartialEq, Eq, Structural, Debug)]
pub struct Color {
    pub r: i64,
    pub g: i64,
    pub b: i64,
    pub a: i64,
}

/// One vertex of a primitive.
#[derive(Clone, Copy, PartialEq, Eq, Structural, Debug)]
pub struct Vertex {
    pub position: Vec3,
    pub color: Color,
    pub u: i64,
    pub v: i64,
}

/// An index buffer: the element width the GPU will read, plus the indices
/// (stored widened to 32 bits).
pub struct IndexBuffer {
    pub element: IndexType,
    pub indices: Vec<u32>,
}

/// Vertex data plus topology and the material that renders it.
pub struct Primitive {
    pub vertices: Vec<Vertex>,
    pub index_buffer: Option<IndexBuffer>,
    pub topology: Topology,
    pub material: Handle<Material>,
}

impl Primitive {
    /// How many elements one draw of this primitive consumes: the index
    /// count when indexed, the vertex count otherwise.
    pub open spec fn spec_draw_count(self) -> int {
        match self.index_buffer {
            Some(ib) => ib.indices@.len() as int,
            None => self.vertices@.len() as int,
        }
    }
}

/// A base color, an optional texture (sentinel handle when absent) and the
/// pipeline variant that renders this material.
#[derive(Clone, Copy)]
pub struct Material {
    pub base_color: Color,
    pub texture: Handle<Texture>,
    pub shader: ShaderKind,
}

/// An image paired with the sampler that reads it.
#[derive(Clone, Copy)]
pub struct Texture {
    pub image: Handle<Image>,
    pub sampler: Handle<Sampler>,
}

/// A GPU image's presentation metadata.
#[derive(Clone, Copy, PartialEq, Eq, Structural, Debug)]
pub struct Image {
    pub width: u32,
    pub height: u32,
}

/// How a texture is filtered when sampled.
#[derive(Clone, Copy, PartialEq, Eq, Structural, Debug)]
pub struct Sampler {
    pub linear_filter: bool,
}

/// A node of the hierarchy: a local transform, an optional camera and mesh
/// (sentinel handles when absent), and an ordered sequence of children.
pub struct Node {
    pub trs: Transform,
    pub camera: Handle<Camera>,
    pub mesh: Handle<Mesh>,
    pub children: Vec<Handle<Node>>,
}

impl Node {
    /// A node with the identity transform and nothing attached.
    pub fn new() -> (n: Node)
        ensures
            n.trs == spec_transform_identity(),
            n.camera.idx == crate::arena::SENTINEL_INDEX,
            n.mesh.idx == crate::arena::SENTINEL_INDEX,
            n.children@.len() == 0,
    {
        Node {
            trs: Transform::identity(),
            camera: Handle::sentinel(),
            mesh: Handle::sentinel(),
            children: Vec::new(),
        }
    }
}

/// An ordered sequence of primitives.
pub struct Mesh {
    pub primitives: Vec<Handle<Primitive>>,
}

/// The renderable world: one arena per entity kind plus the ordered roots of
/// the node hierarchy.
pub struct Scene {
    pub cameras: Arena<Camera>,
    pub nodes: Arena<Node>,
    pub meshes: Arena<Mesh>,
    pub primitives: Arena<Primitive>,
    pub materials: Arena<Material>,
    pub textures: Arena<Texture>,
    pub images: Arena<Image>,
    pub samplers: Arena<Sampler>,
    pub roots: Vec<Handle<Node>>,
    pub default_camera: Handle<Camera>,
    pub default_camera_node: Handle<Node>,
}

/// The flattened traversal of one node: the node itself (when present and
/// within the depth budget) followed by its children, each paired with its
/// world transform, in root-to-leaf order.
pub open spec fn spec_visit(
    a: Arena<Node>,
    h: Handle<Node>,
    world: Transform,
    depth: nat,
) -> Seq<(Handle<Node>, Transform)>
    decreases depth, 0nat,
{
    if depth == 0 {
        Seq::empty()
    } else {
        match a.spec_get(h) {
            None => Seq::empty(),
            Some(node) => {
                let w = spec_compose(world, node.trs);
                seq![(h, w)] + spec_visit_list(a, node.children@, w, (depth - 1) as nat)
            },
        }
    }
}

/// The flattened traversal of a sequence of sibling nodes, in order.
pub open spec fn spec_visit_list(
    a: Arena<Node>,
    hs: Seq<Handle<Node>>,
    world: Transform,
    depth: nat,
) -> Seq<(Handle<Node>, Transform)>
    decreases depth, hs.len() + 1,
{
    if hs.len() == 0 {
        Seq::empty()
    } else {
        spec_visit(a, hs[0], world, depth) + spec_visit_list(a, hs.drop_first(), world, depth)
    }
}

/// The full traversal of a scene: its roots under the identity transform.
pub open spec fn spec_traverse(s: Scene) -> Seq<(Handle<Node>, Transform)> {
    spec_visit_list(s.nodes, s.roots@, spec_transform_identity(), MAX_TRAVERSAL_DEPTH as nat)
}

/// Splitting a sibling sequence at `i`: the traversal of the suffix from `i`
/// is the traversal of element `i` followed by the suffix from `i + 1`.
proof fn lemma_visit_list_step(
    a: Arena<Node>,
    hs: Seq<Handle<Node>>,
    world: Transform,
    depth: nat,
    i: int,
)
    requires
        0 <= i < hs.len(),
    ensures
        spec_visit_list(a, hs.skip(i), world, depth) == spec_visit(a, hs[i], world, depth)
            + spec_visit_list(a, hs.skip(i + 1), world, depth),
{
    assert(hs.skip(i)[0] == hs[i]);
    assert(hs.skip(i).drop_first() =~= hs.skip(i + 1));
}

fn visit(
    nodes: &Arena<Node>,
    h: Handle<Node>,
    world: Transform,
    depth: u32,
    out: &mut Vec<(Handle<Node>, Transform)>,
)
    ensures
        final(out)@ == old(out)@ + spec_visit(*nodes, h, world, depth as nat),
    decreases depth,
{
    if depth == 0 {
        assert(out@ =~= old(out)@ + spec_visit(*nodes, h, world, depth as nat));
        return ;
    }
    match nodes.get(h) {
        None => {
            assert(out@ =~= old(out)@ + spec_visit(*nodes, h, world, depth as nat));
        },
        Some(node) => {
            let w = world.compose(&node.trs);
            out.push((h, w));
            proof {
                assert(out@ =~= old(out)@ + seq![(h, w)]);
                assert(node.children@.skip(0) =~= node.children@);
            }
            let n = node.children.len();
            let mut i: usize = 0;
            while i < n
                invariant
                    depth >= 1,
                    n == node.children@.len(),
                    i <= n,
                    old(out)@ + spec_visit(*nodes, h, world, depth as nat) == out@
                        + spec_visit_list(
                        *nodes,
                        node.children@.skip(i as int),
                        w,
                        (depth - 1) as nat,
                    ),
                decreases n - i,
            {
                proof {
                    lemma_visit_list_step(
                        *nodes,
                        node.children@,
                        w,
                        (depth - 1) as nat,
                        i as int,
                    );
                }
                let child = node.children[i];
                visit(nodes, child, w, depth - 1, out);
                i += 1;
            }
            proof {
                assert(node.children@.skip(n as int) =~= Seq::<Handle<Node>>::empty());
            }
        },
    }
}

impl Scene {
    /// All arenas are well formed.
    pub open spec fn wf(self) -> bool {
        &&& self.cameras.wf()
        &&& self.nodes.wf()
        &&& self.meshes.wf()
        &&& self.primitives.wf()
        &&& self.materials.wf()
        &&& self.textures.wf()
        &&& self.images.wf()
        &&& self.samplers.wf()
    }

    /// An empty world with a default camera on a root node, so a renderer
    /// always has a viewpoint to bind.
    pub fn new() -> (s: Scene)
        ensures
            s.wf(),
            s.cameras.valid(s.default_camera),
            s.nodes.valid(s.default_camera_node),
            s.cameras.spec_get(s.default_camera) == Some(
                Camera::Orthographic { width: FP_ONE, height: FP_ONE, near: 0i64, far: FP_ONE },
            ),
            s.nodes.spec_get(s.default_camera_node) matches Some(n) && n.camera
                == s.default_camera && n.mesh.idx == crate::arena::SENTINEL_INDEX && n.trs
                == spec_transform_identity() && n.children@.len() == 0,
            s.roots@.len() == 1 && s.roots@[0] == s.default_camera_node,
            s.meshes.slots@.len() == 0,
            s.primitives.slots@.len() == 0,
            s.materials.slots@.len() == 0,
            s.textures.slots@.len() == 0,
            s.images.slots@.len() == 0,
            s.samplers.slots@.len() == 0,
            s.cameras.slots@.len() == 1,
            s.nodes.slots@.len() == 1,
    {
        let mut cameras: Arena<Camera> = Arena::new();
        let mut nodes: Arena<Node> = Arena::new();
        let default_camera = cameras.insert(
            Camera::orthographic(FP_ONE, FP_ONE, 0, FP_ONE),
        );
        let mut camera_node = Node::new();
        camera_node.camera = default_camera;
        let default_camera_node = nodes.insert(camera_node);
        let mut roots: Vec<Handle<Node>> = Vec::new();
        roots.push(default_camera_node);
        Scene {
            cameras,
            nodes,
            meshes: Arena::new(),
            primitives: Arena::new(),
            materials: Arena::new(),
            textures: Arena::new(),
            images: Arena::new(),
            samplers: Arena::new(),
            roots,
            default_camera,
            default_camera_node,
        }
    }

    /// The default camera's parameters, if the camera still exists.
    pub fn get_default_camera(&self) -> (c: Option<&Camera>)
        ensures
            match c {
                Some(v) => self.cameras.valid(self.default_camera) && Some(*v)
                    == self.cameras.spec_get(self.default_camera),
                None => !self.cameras.valid(self.default_camera),
            },
    {
        self.cameras.get(self.default_camera)
    }

    /// Mutable access to the default camera, if it still exists.
    pub fn get_default_camera_mut(&mut self) -> (c: Option<&mut Camera>)
        ensures
            c is Some <==> old(self).cameras.valid(old(self).default_camera),
            c is Some ==> {
                &&& Some(*c.unwrap()) == old(self).cameras.spec_get(old(self).default_camera)
                &&& final(self).cameras.slots@ == old(self).cameras.slots@.update(
                    old(self).default_camera.idx as int,
                    crate::arena::Slot {
                        generation: old(self).default_camera.generation,
                        value: Some(*final(c.unwrap())),
                    },
                )
                &&& final(self).nodes == old(self).nodes
                &&& final(self).roots@ == old(self).roots@
                &&& final(self).default_camera == old(self).default_camera
                &&& final(self).default_camera_node == old(self).default_camera_node
            },
            c is None ==> final(self).cameras.slots@ == old(self).cameras.slots@,
    {
        let h = self.default_camera;
        self.cameras.get_mut(h)
    }

    /// Mutable access to the default camera's node, if it still exists.
    pub fn get_default_camera_node_mut(&mut self) -> (n: Option<&mut Node>)
        ensures
            n is Some <==> old(self).nodes.valid(old(self).default_camera_node),
            n is Some ==> {
                &&& Some(*n.unwrap()) == old(self).nodes.spec_get(old(self).default_camera_node)
                &&& final(self).nodes.slots@ == old(self).nodes.slots@.update(
                    old(self).default_camera_node.idx as int,
                    crate::arena::Slot {
                        generation: old(self).default_camera_node.generation,
                        value: Some(*final(n.unwrap())),
                    },
                )
                &&& final(self).cameras == old(self).cameras
            },
            n is None ==> final(self).nodes.slots@ == old(self).nodes.slots@,
    {
        let h = self.default_camera_node;
        self.nodes.get_mut(h)
    }

    /// Append a root to the ordered root list.
    pub fn push_root(&mut self, h: Handle<Node>)
        ensures
            final(self).roots@ == old(self).roots@.push(h),
            final(self).nodes == old(self).nodes,
            final(self).cameras == old(self).cameras,
    {
        self.roots.push(h);
    }

    /// Remove the first occurrence of `h` from the root list; reports
    /// whether anything was removed.
    pub fn remove_root(&mut self, h: Handle<Node>) -> (removed: bool)
        ensures
            removed == (exists|k: int| 0 <= k < old(self).roots@.len() && old(self).roots@[k] == h),
            removed ==> {
                let k = choose|k: int|
                    0 <= k < old(self).roots@.len() && old(self).roots@[k] == h
                        && (forall|j: int| 0 <= j < k ==> old(self).roots@[j] != h);
                final(self).roots@ == old(self).roots@.remove(k)
            },
            !removed ==> final(self).roots@ == old(self).roots@,
            final(self).nodes == old(self).nodes,
    {
        let n = self.roots.len();
        let mut i: usize = 0;
        while i < n
            invariant
                n == self.roots@.len(),
                i <= n,
                self.roots@ == old(self).roots@,
                self.nodes == old(self).nodes,
                forall|j: int| 0 <= j < i as int ==> old(self).roots@[j] != h,
            decreases n - i,
        {
            let r = self.roots[i];
            if r.idx == h.idx && r.generation == h.generation {
                proof {
                    assert(old(self).roots@[i as int] == h);
                    let k = choose|k: int|
                        0 <= k < old(self).roots@.len() && old(self).roots@[k] == h
                            && (forall|j: int| 0 <= j < k ==> old(self).roots@[j] != h);
                    assert((i as int) < old(self).roots@.len() && old(self).roots@[i as int] == h
                        && (forall|j: int| 0 <= j < i as int ==> old(self).roots@[j] != h));
                    if k < i as int {
                        assert(old(self).roots@[k] != h);
                    }
                    if k > i as int {
                        assert(old(self).roots@[i as int] != h);
                    }
                    assert(k == i as int);
                }
                self.roots.remove(i);
                return true;
            }
            i += 1;
        }
        false
    }

    /// Flatten the node hierarchy: for every reachable node within the depth
    /// bound, its handle paired with its world transform, the composition of
    /// its ancestors' local transforms with its own, in root-to-leaf order.
    /// Calling this twice on an unmodified scene yields identical output.
    pub fn traverse(&self) -> (out: Vec<(Handle<Node>, Transform)>)
        ensures
            out@ == spec_traverse(*self),
    {
        let mut out: Vec<(Handle<Node>, Transform)> = Vec::new();
        let identity = Transform::identity();
        proof {
            assert(self.roots@.skip(0) =~= self.roots@);
        }
        let n = self.roots.len();
        let mut i: usize = 0;
        while i < n
            invariant
                n == self.roots@.len(),
                i <= n,
                spec_traverse(*self) == out@ + spec_visit_list(
                    self.nodes,
                    self.roots@.skip(i as int),
                    spec_transform_identity(),
                    MAX_TRAVERSAL_DEPTH as nat,
                ),
                identity == spec_transform_identity(),
            decreases n - i,
        {
            proof {
                lemma_visit_list_step(
                    self.nodes,
                    self.roots@,
                    spec_transform_identity(),
                    MAX_TRAVERSAL_DEPTH as nat,
                    i as int,
                );
            }
            let root = self.roots[i];
            visit(&self.nodes, root, identity, MAX_TRAVERSAL_DEPTH, &mut out);
            i += 1;
        }
        proof {
            assert(self.roots@.skip(n as int) =~= Seq::<Handle<Node>>::empty());
        }
        out
    }
}

/// Every entry the traversal of one node yields refers to a node that
/// exists: deleted nodes are skipped, never surfaced.
pub proof fn lemma_visit_entries_valid(a: Arena<Node>, h: Handle<Node>, world: Transform, depth: nat)
    ensures
        forall|k: int|
            0 <= k < spec_visit(a, h, world, depth).len() ==> a.valid(
                #[trigger] spec_visit(a, h, world, depth)[k].0,
            ),
    decreases depth, 0nat,
{
    if depth > 0 {
        match a.spec_get(h) {
            None => {},
            Some(node) => {
                let w = spec_compose(world, node.trs);
                lemma_visit_list_entries_valid(a, node.children@, w, (depth - 1) as nat);
                assert(a.valid(h));
                assert forall|k: int|
                    0 <= k < spec_visit(a, h, world, depth).len() implies a.valid(
                    #[trigger] spec_visit(a, h, world, depth)[k].0,
                ) by {
                    let rest = spec_visit_list(a, node.children@, w, (depth - 1) as nat);
                    if k > 0 {
                        assert(spec_visit(a, h, world, depth)[k] == rest[k - 1]);
                    }
                }
            },
        }
    }
}

/// Every entry the traversal of a sibling list yields refers to a node that
/// exists.
pub proof fn lemma_visit_list_entries_valid(
    a: Arena<Node>,
    hs: Seq<Handle<Node>>,
    world: Transform,
    depth: nat,
)
    ensures
        forall|k: int|
            0 <= k < spec_visit_list(a, hs, world, depth).len() ==> a.valid(
                #[trigger] spec_visit_list(a, hs, world, depth)[k].0,
            ),
    decreases depth, hs.len() + 1,
{
    if hs.len() > 0 {
        lemma_visit_entries_valid(a, hs[0], world, depth);
        lemma_visit_list_entries_valid(a, hs.drop_first(), world, depth);
        assert forall|k: int|
            0 <= k < spec_visit_list(a, hs, world, depth).len() implies a.valid(
            #[trigger] spec_visit_list(a, hs, world, depth)[k].0,
        ) by {
            let head = spec_visit(a, hs[0], world, depth);
            let rest = spec_visit_list(a, hs.drop_first(), world, depth);
            if k < head.len() {
                assert(spec_visit_list(a, hs, world, depth)[k] == head[k]);
            } else {
                assert(spec_visit_list(a, hs, world, depth)[k] == rest[k - head.len()]);
            }
        }
    }
}

/// Law: a scene's flattened traversal only ever names live nodes, so a
/// renderer consuming it needs no further existence checks to stay safe
/// against mid-frame deletions of cameras or meshes it references through
/// those nodes.
pub proof fn lemma_traverse_entries_valid(s: Scene)
    ensures
        forall|k: int|
            0 <= k < spec_traverse(s).len() ==> s.nodes.valid(#[trigger] spec_traverse(s)[k].0),
{
    lemma_visit_list_entries_valid(
        s.nodes,
        s.roots@,
        spec_transform_identity(),
        MAX_TRAVERSAL_DEPTH as nat,
    );
}

/// Law: traversal is side-effect-free and a pure function of the scene, so
/// two traversals of an unmodified scene graph produce identical (node,
/// world-transform) sequences in the same order.
pub proof fn lemma_traverse_idempotent(s1: Scene, s2: Scene)
    requires
        s1.nodes == s2.nodes,
        s1.roots@ == s2.roots@,
    ensures
        spec_traverse(s1) == spec_traverse(s2),
{
}

/// The camera translation for one input step: the input direction
/// normalized, rotated into the camera's frame, and scaled by the speed.
pub fn camera_move_delta(dir: Vec3, rotation: Quat, speed: i64) -> (r: Vec3)
    ensures
        r == spec_vscale(spec_rotated(spec_normalized(dir), rotation), speed as int),
{
    dir.normalized().rotated(rotation).scaled(speed)
}

/// The fixed-point aspect ratio of a surface, `width / height`.
pub fn aspect_ratio(width: u32, height: u32) -> (r: i64)
    requires
        height > 0,
    ensures
        r as int == tdiv((width as int) * (FP_ONE as int), height as int),
{
    proof {
        assert((width as int) * (FP_ONE as int) <= 0xffff_ffffint * 1_000_000int)
            by (nonlinear_arith)
            requires
                0 <= width as int <= 0xffff_ffffint,
        ;
        assert((width as int) * (FP_ONE as int) >= 0) by (nonlinear_arith)
            requires
                width as int >= 0,
        ;
    }
    let w: u64 = (width as u64) * (FP_ONE as u64);
    let q: u64 = w / (height as u64);
    proof {
        assert(q as int == tdiv((width as int) * (FP_ONE as int), height as int));
        assert(q <= 0xffff_ffffu64 * 1_000_000u64) by (nonlinear_arith)
            requires
                w <= 0xffff_ffffu64 * 1_000_000u64,
                height as u64 >= 1,
                q == w / (height as u64),
        ;
    }
    q as i64
}

} // verus!
