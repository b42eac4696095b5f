use render_core::math::{Quat, Transform, Vec3, FP_ONE};
use render_core::scene::{aspect_ratio, camera_move_delta, Camera, Node, Scene};

#[test]
fn traversal_is_idempotent() {
    let mut scene = Scene::new();
    let mut child = Node::new();
    child.trs = Transform::from_translation(Vec3::new(FP_ONE, 0, 0));
    let child_h = scene.nodes.insert(child);
    let mut parent = Node::new();
    parent.trs = Transform::from_translation(Vec3::new(0, FP_ONE, 0));
    parent.children.push(child_h);
    let parent_h = scene.nodes.insert(parent);
    scene.push_root(parent_h);

    let first = scene.traverse();
    let second = scene.traverse();
    assert!(first == second);
    assert!(first.len() == 3); // default camera node, parent, child
}

#[test]
fn world_transform_composes_translations() {
    let mut scene = Scene::new();
    let mut child = Node::new();
    child.trs = Transform::from_translation(Vec3::new(FP_ONE, 0, 0));
    let child_h = scene.nodes.insert(child);
    let mut parent = Node::new();
    parent.trs = Transform::from_translation(Vec3::new(0, FP_ONE, 0));
    parent.children.push(child_h);
    let parent_h = scene.nodes.insert(parent);
    scene.push_root(parent_h);

    let flat = scene.traverse();
    let child_entry = flat.iter().find(|(h, _)| *h == child_h).unwrap();
    assert_eq!(child_entry.1.translation, Vec3::new(FP_ONE, FP_ONE, 0));
    let parent_entry = flat.iter().find(|(h, _)| *h == parent_h).unwrap();
    assert_eq!(parent_entry.1.translation, Vec3::new(0, FP_ONE, 0));
}

#[test]
fn traversal_terminates_on_a_cycle() {
    let mut scene = Scene::new();
    let a = scene.nodes.insert(Node::new());
    let b = scene.nodes.insert(Node::new());
    // Corrupt the graph into a two-cycle; traversal must still terminate.
    if let Some(na) = scene.nodes.get_mut(a) {
        na.children.push(b);
    }
    if let Some(nb) = scene.nodes.get_mut(b) {
        nb.children.push(a);
    }
    scene.push_root(a);
    let flat = scene.traverse();
    // The depth bound cuts the cycle: one entry per level plus the default
    // camera node.
    assert!(flat.len() == 64 + 1);
}

#[test]
fn deleted_node_degrades_gracefully() {
    let mut scene = Scene::new();
    let child = scene.nodes.insert(Node::new());
    let mut parent = Node::new();
    parent.children.push(child);
    let parent_h = scene.nodes.insert(parent);
    scene.push_root(parent_h);
    assert!(scene.traverse().len() == 3);
    // A node removed mid-frame simply stops appearing; nothing panics.
    scene.nodes.remove(child);
    assert!(scene.traverse().len() == 2);
}

#[test]
fn default_camera_can_be_replaced() {
    let mut scene = Scene::new();
    let cam = Camera::finite_perspective(1_777_777, 785_398, 100_000, 100 * FP_ONE);
    if let Some(c) = scene.get_default_camera_mut() {
        *c = cam;
    }
    assert!(scene.get_default_camera() == Some(&cam));
}

#[test]
fn camera_constructors_record_parameters() {
    let finite = Camera::finite_perspective(FP_ONE, 785_398, 100_000, 100 * FP_ONE);
    assert!(
        finite
            == Camera::Perspective {
                aspect: FP_ONE,
                yfov: 785_398,
                near: 100_000,
                far: Some(100 * FP_ONE),
            }
    );
    let infinite = Camera::infinite_perspective(FP_ONE, 785_398, 100_000);
    assert!(
        infinite
            == Camera::Perspective { aspect: FP_ONE, yfov: 785_398, near: 100_000, far: None }
    );
    let ortho = Camera::orthographic(FP_ONE, FP_ONE, 0, FP_ONE);
    assert!(
        ortho == Camera::Orthographic { width: FP_ONE, height: FP_ONE, near: 0, far: FP_ONE }
    );
}

#[test]
fn roots_can_be_pushed_and_removed() {
    let mut scene = Scene::new();
    let a = scene.nodes.insert(Node::new());
    let b = scene.nodes.insert(Node::new());
    scene.push_root(a);
    scene.push_root(b);
    assert!(scene.roots.len() == 3);
    assert!(scene.remove_root(a));
    assert!(scene.roots.len() == 2);
    assert!(!scene.remove_root(a));
}

#[test]
fn aspect_ratio_is_fixed_point_quotient() {
    assert_eq!(aspect_ratio(1920, 1080), 1_777_777);
    assert_eq!(aspect_ratio(1920, 1024), 1_875_000);
    assert_eq!(aspect_ratio(800, 800), FP_ONE);
}

#[test]
fn camera_move_follows_facing() {
    // Pushing forward with no rotation moves along -Z at the given speed.
    let delta = camera_move_delta(Vec3::new(0, 0, -FP_ONE), Quat::identity(), 5 * FP_ONE);
    assert_eq!(delta, Vec3::new(0, 0, -5 * FP_ONE));
    // A diagonal input is normalized before scaling.
    let diag = camera_move_delta(Vec3::new(FP_ONE, 0, -FP_ONE), Quat::identity(), FP_ONE);
    assert!((diag.x - 707_106).abs() <= 1);
    assert!((diag.z + 707_106).abs() <= 1);
}
