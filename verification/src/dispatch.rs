//! The render dispatcher: turns the scene graph plus the active frame's
//! flattened node list into an ordered list of draw commands. For each
//! pipeline variant the pass-global state is bound once, then for each
//! camera in the scene the camera state is bound once and the matching
//! primitives are drawn grouped by material: the texture is re-bound only
//! when the material changes from the previous draw, and an untextured
//! material binds no texture at all.

use vstd::prelude::*;
use crate::arena::Handle;
use crate::math::Transform;
use crate::scene::{Camera, Material, Node, Primitive, Scene, ShaderKind, Texture, Topology};

verus! {

/// Which framebuffer attachment the post-process pass visualizes; exactly
/// one is active at a time.
#[derive(Clone, Copy, PartialEq, Eq, Structural, Debug)]
pub enum PostProcessKind {
    Present,
    Normal,
    Depth,
}

/// A concrete rendering strategy.
#[derive(Clone, Copy, PartialEq, Eq, Structural, Debug)]
pub enum PipelineVariant {
    /// Opaque surfaces: triangle-list primitives, one texture per material.
    Opaque,
    /// Debug lines: line-list primitives with per-vertex color, no texture.
    Line,
    /// A fullscreen attachment-visualizing pass.
    PostProcess(PostProcessKind),
}

/// One recorded draw command, in submission order.
#[derive(Clone, Copy)]
pub enum DrawCommand {
    /// Bind a pipeline's pass-global state.
    BindPipeline { variant: PipelineVariant },
    /// Bind one camera's view/projection state.
    BindCamera { node: Handle<Node>, camera: Handle<Camera> },
    /// Bind one node's model-matrix state.
    BindModel { node: Handle<Node> },
    /// Bind a material's texture before the draws that sample it.
    BindTexture { material: Handle<Material>, texture: Handle<Texture> },
    /// Draw one primitive.
    Draw { primitive: Handle<Primitive>, indexed: bool, element_count: usize },
    /// Draw the fullscreen post-process triangle.
    DrawFullscreen,
}

/// The vertex topology a scene-pass variant consumes.
pub open spec fn spec_variant_topology(v: PipelineVariant) -> Topology
    recommends
        v is Opaque || v is Line,
{
    if v is Line {
        Topology::LineList
    } else {
        Topology::TriangleList
    }
}

/// The material shader selector a scene-pass variant renders.
pub open spec fn spec_variant_shader(v: PipelineVariant) -> ShaderKind
    recommends
        v is Opaque || v is Line,
{
    if v is Line {
        ShaderKind::Line
    } else {
        ShaderKind::Opaque
    }
}

/// The texture bind a material needs: one command when the material has a
/// texture that still exists, nothing otherwise.
pub open spec fn spec_texture_cmds(s: Scene, mh: Handle<Material>, m: Material) -> Seq<
    DrawCommand,
> {
    if s.textures.valid(m.texture) {
        seq![DrawCommand::BindTexture { material: mh, texture: m.texture }]
    } else {
        Seq::empty()
    }
}

/// The commands for one primitive under variant `v`, given which material
/// was bound last: nothing if the primitive or its material is gone or does
/// not match the variant; otherwise a texture bind when the material
/// changed, then the draw. Returns the commands and the new last-bound
/// material.
pub open spec fn spec_prim_cmds(
    s: Scene,
    ph: Handle<Primitive>,
    v: PipelineVariant,
    last: Option<Handle<Material>>,
) -> (Seq<DrawCommand>, Option<Handle<Material>>) {
    match s.primitives.spec_get(ph) {
        None => (Seq::empty(), last),
        Some(p) => match s.materials.spec_get(p.material) {
            None => (Seq::empty(), last),
            Some(m) => {
                if (v is Opaque || v is Line) && p.topology == spec_variant_topology(v)
                    && m.shader == spec_variant_shader(v) {
                    let tex = if last == Some(p.material) {
                        Seq::<DrawCommand>::empty()
                    } else {
                        spec_texture_cmds(s, p.material, m)
                    };
                    (
                        tex + seq![
                            DrawCommand::Draw {
                                primitive: ph,
                                indexed: p.index_buffer is Some,
                                element_count: p.spec_draw_count() as usize,
                            },
                        ],
                        Some(p.material),
                    )
                } else {
                    (Seq::empty(), last)
                }
            },
        },
    }
}

/// The commands for a sequence of primitives, threading the last-bound
/// material through in order.
pub open spec fn spec_prim_list_cmds(
    s: Scene,
    phs: Seq<Handle<Primitive>>,
    v: PipelineVariant,
    last: Option<Handle<Material>>,
) -> (Seq<DrawCommand>, Option<Handle<Material>>)
    decreases phs.len(),
{
    if phs.len() == 0 {
        (Seq::empty(), last)
    } else {
        let head = spec_prim_cmds(s, phs[0], v, last);
        let rest = spec_prim_list_cmds(s, phs.drop_first(), v, head.1);
        (head.0 + rest.0, rest.1)
    }
}

/// The commands for one visible node: bind its model state and draw its
/// mesh's matching primitives. A node whose mesh handle is absent or stale
/// contributes nothing and is skipped gracefully.
pub open spec fn spec_node_cmds(
    s: Scene,
    nh: Handle<Node>,
    v: PipelineVariant,
    last: Option<Handle<Material>>,
) -> (Seq<DrawCommand>, Option<Handle<Material>>) {
    match s.nodes.spec_get(nh) {
        None => (Seq::empty(), last),
        Some(node) => match s.meshes.spec_get(node.mesh) {
            None => (Seq::empty(), last),
            Some(mesh) => {
                let body = spec_prim_list_cmds(s, mesh.primitives@, v, last);
                (seq![DrawCommand::BindModel { node: nh }] + body.0, body.1)
            },
        },
    }
}

/// The commands for all visible nodes in traversal order, threading the
/// last-bound material across nodes.
pub open spec fn spec_node_list_cmds(
    s: Scene,
    entries: Seq<(Handle<Node>, Transform)>,
    v: PipelineVariant,
    last: Option<Handle<Material>>,
) -> (Seq<DrawCommand>, Option<Handle<Material>>)
    decreases entries.len(),
{
    if entries.len() == 0 {
        (Seq::empty(), last)
    } else {
        let head = spec_node_cmds(s, entries[0].0, v, last);
        let rest = spec_node_list_cmds(s, entries.drop_first(), v, head.1);
        (head.0 + rest.0, rest.1)
    }
}

/// Whether a visible entry carries a live camera.
pub open spec fn spec_is_camera_entry(s: Scene, entry: (Handle<Node>, Transform)) -> bool {
    match s.nodes.spec_get(entry.0) {
        None => false,
        Some(node) => s.cameras.valid(node.camera),
    }
}

/// The scene pass for every camera among the visible entries, in order:
/// each camera's state is bound once, then all visible nodes are drawn with
/// a fresh material-grouping state.
pub open spec fn spec_camera_list_cmds(
    s: Scene,
    cams: Seq<(Handle<Node>, Transform)>,
    entries: Seq<(Handle<Node>, Transform)>,
    v: PipelineVariant,
) -> Seq<DrawCommand>
    decreases cams.len(),
{
    if cams.len() == 0 {
        Seq::empty()
    } else {
        let head = if spec_is_camera_entry(s, cams[0]) {
            seq![
                DrawCommand::BindCamera {
                    node: cams[0].0,
                    camera: s.nodes.spec_get(cams[0].0)->Some_0.camera,
                },
            ] + spec_node_list_cmds(s, entries, v, None).0
        } else {
            Seq::<DrawCommand>::empty()
        };
        head + spec_camera_list_cmds(s, cams.drop_first(), entries, v)
    }
}

/// Everything one pipeline variant records for one frame: its pass-global
/// bind, then for a scene pass the per-camera passes over the visible
/// nodes, or for a post-process pass the fullscreen draw.
pub open spec fn spec_render(
    s: Scene,
    visible: Seq<(Handle<Node>, Transform)>,
    v: PipelineVariant,
) -> Seq<DrawCommand> {
    match v {
        PipelineVariant::PostProcess(_) => seq![
            DrawCommand::BindPipeline { variant: v },
            DrawCommand::DrawFullscreen,
        ],
        _ => seq![DrawCommand::BindPipeline { variant: v }] + spec_camera_list_cmds(
            s,
            visible,
            visible,
            v,
        ),
    }
}

/// The commands of a whole frame: each variant in order.
pub open spec fn spec_render_all(
    s: Scene,
    visible: Seq<(Handle<Node>, Transform)>,
    vs: Seq<PipelineVariant>,
) -> Seq<DrawCommand>
    decreases vs.len(),
{
    if vs.len() == 0 {
        Seq::empty()
    } else {
        spec_render(s, visible, vs[0]) + spec_render_all(s, visible, vs.drop_first())
    }
}

/// Whether `a` holds exactly the material `b`.
fn is_same_material(a: Option<Handle<Material>>, b: Handle<Material>) -> (r: bool)
    ensures
        r == (a == Some(b)),
{
    match a {
        Some(h) => {
            let same = h.idx == b.idx && h.generation == b.generation;
            proof {
                if same {
                    assert(h == b);
                }
            }
            same
        },
        None => false,
    }
}

fn emit_prim_cmds(
    s: &Scene,
    ph: Handle<Primitive>,
    v: PipelineVariant,
    last: Option<Handle<Material>>,
    out: &mut Vec<DrawCommand>,
) -> (new_last: Option<Handle<Material>>)
    ensures
        final(out)@ == old(out)@ + spec_prim_cmds(*s, ph, v, last).0,
        new_last == spec_prim_cmds(*s, ph, v, last).1,
{
    let p = match s.primitives.get(ph) {
        Some(p) => p,
        None => {
            assert(out@ =~= old(out)@ + spec_prim_cmds(*s, ph, v, last).0);
            return last;
        },
    };
    let m = match s.materials.get(p.material) {
        Some(m) => m,
        None => {
            assert(out@ =~= old(out)@ + spec_prim_cmds(*s, ph, v, last).0);
            return last;
        },
    };
    let topo_matches = match (p.topology, v) {
        (Topology::TriangleList, PipelineVariant::Opaque) => true,
        (Topology::LineList, PipelineVariant::Line) => true,
        _ => false,
    };
    let shader_matches = match (m.shader, v) {
        (ShaderKind::Opaque, PipelineVariant::Opaque) => true,
        (ShaderKind::Line, PipelineVariant::Line) => true,
        _ => false,
    };
    if !(topo_matches && shader_matches) {
        assert(out@ =~= old(out)@ + spec_prim_cmds(*s, ph, v, last).0);
        return last;
    }
    if !is_same_material(last, p.material) {
        if s.textures.contains(m.texture) {
            out.push(DrawCommand::BindTexture { material: p.material, texture: m.texture });
        }
    }
    let element_count = match &p.index_buffer {
        Some(ib) => ib.indices.len(),
        None => p.vertices.len(),
    };
    let indexed = p.index_buffer.is_some();
    out.push(DrawCommand::Draw { primitive: ph, indexed, element_count });
    proof {
        assert(out@ =~= old(out)@ + spec_prim_cmds(*s, ph, v, last).0);
    }
    Some(p.material)
}

/// Splitting a primitive sequence at `i`.
proof fn lemma_prim_list_step(
    s: Scene,
    phs: Seq<Handle<Primitive>>,
    v: PipelineVariant,
    last: Option<Handle<Material>>,
    i: int,
)
    requires
        0 <= i < phs.len(),
    ensures
        ({
            let head = spec_prim_cmds(s, phs[i], v, last);
            let rest = spec_prim_list_cmds(s, phs.skip(i + 1), v, head.1);
            spec_prim_list_cmds(s, phs.skip(i), v, last) == (head.0 + rest.0, rest.1)
        }),
{
    assert(phs.skip(i)[0] == phs[i]);
    assert(phs.skip(i).drop_first() =~= phs.skip(i + 1));
}

fn emit_node_cmds(
    s: &Scene,
    nh: Handle<Node>,
    v: PipelineVariant,
    last: Option<Handle<Material>>,
    out: &mut Vec<DrawCommand>,
) -> (new_last: Option<Handle<Material>>)
    ensures
        final(out)@ == old(out)@ + spec_node_cmds(*s, nh, v, last).0,
        new_last == spec_node_cmds(*s, nh, v, last).1,
{
    let node = match s.nodes.get(nh) {
        Some(n) => n,
        None => {
            assert(out@ =~= old(out)@ + spec_node_cmds(*s, nh, v, last).0);
            return last;
        },
    };
    let mesh = match s.meshes.get(node.mesh) {
        Some(m) => m,
        None => {
            assert(out@ =~= old(out)@ + spec_node_cmds(*s, nh, v, last).0);
            return last;
        },
    };
    out.push(DrawCommand::BindModel { node: nh });
    let ghost mid = out@;
    proof {
        assert(mid =~= old(out)@ + seq![DrawCommand::BindModel { node: nh }]);
        assert(mesh.primitives@.skip(0) =~= mesh.primitives@);
    }
    let n = mesh.primitives.len();
    let mut cur: Option<Handle<Material>> = last;
    let mut i: usize = 0;
    while i < n
        invariant
            n == mesh.primitives@.len(),
            i <= n,
            ({
                let rest = spec_prim_list_cmds(*s, mesh.primitives@.skip(i as int), v, cur);
                &&& mid + spec_prim_list_cmds(*s, mesh.primitives@, v, last).0 == out@ + rest.0
                &&& spec_prim_list_cmds(*s, mesh.primitives@, v, last).1 == rest.1
            }),
        decreases n - i,
    {
        proof {
            lemma_prim_list_step(*s, mesh.primitives@, v, cur, i as int);
        }
        cur = emit_prim_cmds(s, mesh.primitives[i], v, cur, out);
        i += 1;
    }
    proof {
        assert(mesh.primitives@.skip(n as int) =~= Seq::<Handle<Primitive>>::empty());
        assert(out@ =~= old(out)@ + spec_node_cmds(*s, nh, v, last).0);
    }
    cur
}

/// Splitting a visible-entry sequence at `i` for the node pass.
proof fn lemma_node_list_step(
    s: Scene,
    entries: Seq<(Handle<Node>, Transform)>,
    v: PipelineVariant,
    last: Option<Handle<Material>>,
    i: int,
)
    requires
        0 <= i < entries.len(),
    ensures
        ({
            let head = spec_node_cmds(s, entries[i].0, v, last);
            let rest = spec_node_list_cmds(s, entries.skip(i + 1), v, head.1);
            spec_node_list_cmds(s, entries.skip(i), v, last) == (head.0 + rest.0, rest.1)
        }),
{
    assert(entries.skip(i)[0] == entries[i]);
    assert(entries.skip(i).drop_first() =~= entries.skip(i + 1));
}

fn emit_node_list_cmds(
    s: &Scene,
    entries: &Vec<(Handle<Node>, Transform)>,
    v: PipelineVariant,
    out: &mut Vec<DrawCommand>,
)
    ensures
        final(out)@ == old(out)@ + spec_node_list_cmds(*s, entries@, v, None).0,
{
    proof {
        assert(entries@.skip(0) =~= entries@);
    }
    let n = entries.len();
    let mut cur: Option<Handle<Material>> = None;
    let mut i: usize = 0;
    while i < n
        invariant
            n == entries@.len(),
            i <= n,
            ({
                let rest = spec_node_list_cmds(*s, entries@.skip(i as int), v, cur);
                old(out)@ + spec_node_list_cmds(*s, entries@, v, None).0 == out@ + rest.0
            }),
        decreases n - i,
    {
        proof {
            lemma_node_list_step(*s, entries@, v, cur, i as int);
        }
        let entry = entries[i];
        cur = emit_node_cmds(s, entry.0, v, cur, out);
        i += 1;
    }
    proof {
        assert(entries@.skip(n as int) =~= Seq::<(Handle<Node>, Transform)>::empty());
    }
}

/// Splitting the camera sequence at `i`.
proof fn lemma_camera_list_step(
    s: Scene,
    cams: Seq<(Handle<Node>, Transform)>,
    entries: Seq<(Handle<Node>, Transform)>,
    v: PipelineVariant,
    i: int,
)
    requires
        0 <= i < cams.len(),
    ensures
        ({
            let head = if spec_is_camera_entry(s, cams[i]) {
                seq![
                    DrawCommand::BindCamera {
                        node: cams[i].0,
                        camera: s.nodes.spec_get(cams[i].0)->Some_0.camera,
                    },
                ] + spec_node_list_cmds(s, entries, v, None).0
            } else {
                Seq::<DrawCommand>::empty()
            };
            spec_camera_list_cmds(s, cams.skip(i), entries, v) == head + spec_camera_list_cmds(
                s,
                cams.skip(i + 1),
                entries,
                v,
            )
        }),
{
    assert(cams.skip(i)[0] == cams[i]);
    assert(cams.skip(i).drop_first() =~= cams.skip(i + 1));
}

/// Record everything one pipeline variant draws for this frame, appending
/// to `out` in submission order.
pub fn render_variant(
    s: &Scene,
    visible: &Vec<(Handle<Node>, Transform)>,
    v: PipelineVariant,
    out: &mut Vec<DrawCommand>,
)
    ensures
        final(out)@ == old(out)@ + spec_render(*s, visible@, v),
{
    out.push(DrawCommand::BindPipeline { variant: v });
    let is_post = match v {
        PipelineVariant::PostProcess(_) => true,
        _ => false,
    };
    if is_post {
        out.push(DrawCommand::DrawFullscreen);
        proof {
            assert(out@ =~= old(out)@ + spec_render(*s, visible@, v));
        }
        return ;
    }
    proof {
        assert(out@ =~= old(out)@ + seq![DrawCommand::BindPipeline { variant: v }]);
        assert(visible@.skip(0) =~= visible@);
    }
    let n = visible.len();
    let mut i: usize = 0;
    while i < n
        invariant
            n == visible@.len(),
            i <= n,
            old(out)@ + spec_render(*s, visible@, v) == out@ + spec_camera_list_cmds(
                *s,
                visible@.skip(i as int),
                visible@,
                v,
            ),
            !(v is PostProcess),
        decreases n - i,
    {
        proof {
            lemma_camera_list_step(*s, visible@, visible@, v, i as int);
        }
        let entry = visible[i];
        match s.nodes.get(entry.0) {
            Some(node) => {
                if s.cameras.contains(node.camera) {
                    out.push(DrawCommand::BindCamera { node: entry.0, camera: node.camera });
                    emit_node_list_cmds(s, visible, v, out);
                }
            },
            None => {},
        }
        i += 1;
    }
    proof {
        assert(visible@.skip(n as int) =~= Seq::<(Handle<Node>, Transform)>::empty());
    }
}

/// Record one frame's scene passes: every variant in order, sharing the
/// frame's flattened visible-node list.
pub fn record_frame(
    s: &Scene,
    visible: &Vec<(Handle<Node>, Transform)>,
    variants: &Vec<PipelineVariant>,
) -> (out: Vec<DrawCommand>)
    ensures
        out@ == spec_render_all(*s, visible@, variants@),
{
    let mut out: Vec<DrawCommand> = Vec::new();
    proof {
        assert(variants@.skip(0) =~= variants@);
    }
    let n = variants.len();
    let mut i: usize = 0;
    while i < n
        invariant
            n == variants@.len(),
            i <= n,
            spec_render_all(*s, visible@, variants@) == out@ + spec_render_all(
                *s,
                visible@,
                variants@.skip(i as int),
            ),
        decreases n - i,
    {
        proof {
            assert(variants@.skip(i as int)[0] == variants@[i as int]);
            assert(variants@.skip(i as int).drop_first() =~= variants@.skip(i as int + 1));
        }
        render_variant(s, visible, variants[i], &mut out);
        i += 1;
    }
    proof {
        assert(variants@.skip(n as int) =~= Seq::<PipelineVariant>::empty());
    }
    out
}

} // verus!
