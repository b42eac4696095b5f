use render_core::arena::Handle;
use render_core::dispatch::{
    record_frame, render_variant, DrawCommand, PipelineVariant, PostProcessKind,
};
use render_core::math::{Transform, Vec3, FP_ONE};
use render_core::scene::{
    Camera, Color, IndexBuffer, IndexType, Material, Mesh, Node, Primitive, Scene, ShaderKind,
    Texture, Topology, Vertex,
};
use render_core::ui::Panel;

fn white() -> Color {
    Color { r: FP_ONE, g: FP_ONE, b: FP_ONE, a: FP_ONE }
}

fn quad_vertices() -> Vec<Vertex> {
    let corner = |x: i64, y: i64| Vertex {
        position: Vec3::new(x, y, 0),
        color: white(),
        u: 0,
        v: 0,
    };
    vec![
        corner(0, 0),
        corner(FP_ONE, 0),
        corner(FP_ONE, FP_ONE),
        corner(0, FP_ONE),
    ]
}

/// One camera at (0,0,3) with a finite perspective projection, one mesh
/// node carrying an untextured quad.
fn quad_scene() -> Scene {
    let mut scene = Scene::new();
    if let Some(c) = scene.get_default_camera_mut() {
        *c = Camera::finite_perspective(FP_ONE, 785_398, 100_000, 100 * FP_ONE);
    }
    if let Some(n) = scene.get_default_camera_node_mut() {
        n.trs = Transform::from_translation(Vec3::new(0, 0, 3 * FP_ONE));
    }
    let material = scene.materials.insert(Material {
        base_color: white(),
        texture: Handle::sentinel(),
        shader: ShaderKind::Opaque,
    });
    let primitive = scene.primitives.insert(Primitive {
        vertices: quad_vertices(),
        index_buffer: Some(IndexBuffer {
            element: IndexType::U16,
            indices: vec![0, 1, 2, 2, 3, 0],
        }),
        topology: Topology::TriangleList,
        material,
    });
    let mesh = scene.meshes.insert(Mesh { primitives: vec![primitive] });
    let mut node = Node::new();
    node.mesh = mesh;
    let node_h = scene.nodes.insert(node);
    scene.push_root(node_h);
    scene
}

fn count_matching(cmds: &[DrawCommand], pred: impl Fn(&DrawCommand) -> bool) -> usize {
    cmds.iter().filter(|c| pred(c)).count()
}

#[test]
fn one_camera_one_draw_zero_texture_binds() {
    let scene = quad_scene();
    let visible = scene.traverse();
    let mut cmds: Vec<DrawCommand> = Vec::new();
    render_variant(&scene, &visible, PipelineVariant::Opaque, &mut cmds);

    assert_eq!(
        count_matching(&cmds, |c| matches!(c, DrawCommand::BindCamera { .. })),
        1
    );
    assert_eq!(count_matching(&cmds, |c| matches!(c, DrawCommand::Draw { .. })), 1);
    assert_eq!(
        count_matching(&cmds, |c| matches!(c, DrawCommand::BindTexture { .. })),
        0
    );
    // The full recording, in submission order: the pass-global bind, the
    // camera bind, the model bind, the one indexed draw.
    assert_eq!(cmds.len(), 4);
    assert!(matches!(cmds[0], DrawCommand::BindPipeline { variant: PipelineVariant::Opaque }));
    assert!(matches!(cmds[1], DrawCommand::BindCamera { .. }));
    assert!(matches!(cmds[2], DrawCommand::BindModel { .. }));
    assert!(matches!(cmds[3], DrawCommand::Draw { indexed: true, element_count: 6, .. }));
}

#[test]
fn line_pass_skips_opaque_primitives() {
    let scene = quad_scene();
    let visible = scene.traverse();
    let mut cmds: Vec<DrawCommand> = Vec::new();
    render_variant(&scene, &visible, PipelineVariant::Line, &mut cmds);
    // The quad is a triangle-list opaque primitive: the line pass binds its
    // pipeline and the camera and the mesh node's model state, but draws
    // nothing.
    assert_eq!(count_matching(&cmds, |c| matches!(c, DrawCommand::Draw { .. })), 0);
    assert_eq!(count_matching(&cmds, |c| matches!(c, DrawCommand::BindCamera { .. })), 1);
}

#[test]
fn material_change_rebinds_texture() {
    let mut scene = quad_scene();
    let image = scene.images.insert(render_core::scene::Image { width: 2, height: 2 });
    let sampler = scene.samplers.insert(render_core::scene::Sampler { linear_filter: true });
    let texture = scene.textures.insert(Texture { image, sampler });
    let mat_a = scene.materials.insert(Material {
        base_color: white(),
        texture,
        shader: ShaderKind::Opaque,
    });
    let mat_b = scene.materials.insert(Material {
        base_color: white(),
        texture,
        shader: ShaderKind::Opaque,
    });
    let tri = |mat| Primitive {
        vertices: quad_vertices(),
        index_buffer: None,
        topology: Topology::TriangleList,
        material: mat,
    };
    let p1 = scene.primitives.insert(tri(mat_a));
    let p2 = scene.primitives.insert(tri(mat_a));
    let p3 = scene.primitives.insert(tri(mat_b));
    let p4 = scene.primitives.insert(tri(mat_a));
    let mesh = scene.meshes.insert(Mesh { primitives: vec![p1, p2, p3, p4] });
    let mut node = Node::new();
    node.mesh = mesh;
    let node_h = scene.nodes.insert(node);
    scene.push_root(node_h);

    let visible = scene.traverse();
    let mut cmds: Vec<DrawCommand> = Vec::new();
    render_variant(&scene, &visible, PipelineVariant::Opaque, &mut cmds);
    // Material A is bound once for the contiguous pair, then B, then A
    // again after the change mid-batch: three texture binds, five draws
    // (the untextured quad plus these four).
    assert_eq!(
        count_matching(&cmds, |c| matches!(c, DrawCommand::BindTexture { .. })),
        3
    );
    assert_eq!(count_matching(&cmds, |c| matches!(c, DrawCommand::Draw { .. })), 5);
}

#[test]
fn post_process_pass_is_one_fullscreen_draw() {
    let scene = quad_scene();
    let visible = scene.traverse();
    let mut cmds: Vec<DrawCommand> = Vec::new();
    render_variant(
        &scene,
        &visible,
        PipelineVariant::PostProcess(PostProcessKind::Depth),
        &mut cmds,
    );
    assert_eq!(cmds.len(), 2);
    assert!(matches!(
        cmds[0],
        DrawCommand::BindPipeline { variant: PipelineVariant::PostProcess(PostProcessKind::Depth) }
    ));
    assert!(matches!(cmds[1], DrawCommand::DrawFullscreen));
}

#[test]
fn frame_records_each_variant_in_order() {
    let scene = quad_scene();
    let visible = scene.traverse();
    let variants = vec![PipelineVariant::Opaque, PipelineVariant::Line];
    let cmds = record_frame(&scene, &visible, &variants);
    assert!(matches!(cmds[0], DrawCommand::BindPipeline { variant: PipelineVariant::Opaque }));
    let line_bind = cmds
        .iter()
        .position(|c| matches!(c, DrawCommand::BindPipeline { variant: PipelineVariant::Line }))
        .unwrap();
    assert!(line_bind > 0);
    assert_eq!(
        count_matching(&cmds, |c| matches!(c, DrawCommand::BindPipeline { .. })),
        2
    );
}

#[test]
fn panel_selects_exactly_one_final_pass() {
    let mut panel = Panel::default();
    assert!(matches!(
        panel.final_pass(),
        PipelineVariant::PostProcess(PostProcessKind::Present)
    ));
    panel.current_pipeline = 1;
    assert!(matches!(
        panel.final_pass(),
        PipelineVariant::PostProcess(PostProcessKind::Normal)
    ));
    panel.current_pipeline = 2;
    assert!(matches!(
        panel.final_pass(),
        PipelineVariant::PostProcess(PostProcessKind::Depth)
    ));
    assert!(panel.selected_post_process() == Some(PostProcessKind::Depth));
    panel.current_pipeline = 9;
    assert!(panel.selected_post_process().is_none());
}
