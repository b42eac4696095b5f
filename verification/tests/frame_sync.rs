use render_core::arena::Arena;
use render_core::cache::{BindingKind, DescriptorKey};
use render_core::frame::{DeferredDeletes, FrameStep, FrameSync, Phase};
use render_core::scene::Scene;

/// Drive one successful frame and return the slot it used.
fn one_frame(sync: &mut FrameSync) -> usize {
    let step = sync.begin_frame();
    let slot = match step {
        FrameStep::WaitFence { slot } => slot,
        FrameStep::RebuildNeeded => panic!("unexpected rebuild"),
    };
    sync.fence_waited();
    sync.acquired(slot as u32);
    sync.submitted();
    sync.presenting();
    sync.present_result(false);
    slot
}

#[test]
fn round_robin_cycles_slots() {
    // With an image count of 3, successive frames use slots 0,1,2,0,1,2.
    let mut sync = FrameSync::new(800, 600, 1, 3);
    let slots: Vec<usize> = (0..6).map(|_| one_frame(&mut sync)).collect();
    assert_eq!(slots, vec![0, 1, 2, 0, 1, 2]);
}

#[test]
fn resize_forces_drain_rebuild_and_resumption() {
    let mut sync = FrameSync::new(800, 600, 1, 3);
    let mut arena: Arena<u32> = Arena::new();
    let h = arena.insert(7);
    one_frame(&mut sync);

    // A resize arrives mid-loop.
    sync.request_resize(1024, 768);
    let step = sync.begin_frame();
    assert!(matches!(step, FrameStep::RebuildNeeded));
    assert!(sync.phase == Phase::NeedsRebuild);

    // Full GPU drain, then recreation with the new dimensions.
    sync.drained();
    assert!(sync.all_idle());
    let old_epoch = sync.epoch;
    sync.rebuild(1024, 768);
    assert_eq!(sync.info.width, 1024);
    assert_eq!(sync.info.height, 768);
    assert_eq!(sync.info.image_count, 3);
    assert_eq!(sync.epoch, old_epoch + 1);
    assert_eq!(sync.slot, 0);
    assert!(sync.all_idle());
    for f in sync.frames.iter() {
        assert_eq!(f.epoch, sync.epoch);
        assert!(!f.in_flight);
        assert_eq!(f.cache.entries.len(), 0);
    }

    // Frame acquisition resumes at slot 0, and no handle went stale.
    assert_eq!(one_frame(&mut sync), 0);
    assert_eq!(one_frame(&mut sync), 1);
    assert!(arena.get(h) == Some(&7));
}

#[test]
fn stale_acquisition_routes_through_rebuild() {
    let mut sync = FrameSync::new(640, 480, 1, 2);
    let step = sync.begin_frame();
    assert!(matches!(step, FrameStep::WaitFence { slot: 0 }));
    sync.fence_waited();
    sync.acquire_stale();
    assert!(sync.phase == Phase::NeedsRebuild);
    sync.drained();
    sync.rebuild(640, 480);
    assert!(sync.phase == Phase::Idle);
    assert_eq!(one_frame(&mut sync), 0);
}

#[test]
fn stale_present_routes_through_rebuild() {
    let mut sync = FrameSync::new(640, 480, 1, 2);
    sync.begin_frame();
    sync.fence_waited();
    sync.acquired(0);
    sync.submitted();
    sync.presenting();
    sync.present_result(true);
    assert!(sync.phase == Phase::NeedsRebuild);
    // The round-robin still advanced.
    assert_eq!(sync.slot, 1);
}

#[test]
fn uniforms_refresh_every_frame() {
    let mut sync = FrameSync::new(800, 600, 1, 2);
    let scene = Scene::new();
    sync.begin_frame();
    sync.fence_waited();
    sync.acquired(0);
    sync.refresh_uniforms(&scene);
    assert_eq!(sync.frames[0].uniforms.len(), 1); // the default camera node
    assert_eq!(sync.frame_extent(), (800, 600));
}

#[test]
fn frame_cache_survives_frames_until_rebuild() {
    let mut sync = FrameSync::new(800, 600, 1, 1);
    let key = DescriptorKey {
        kind: BindingKind::Global,
        pipeline: 3,
        node: render_core::arena::Handle::sentinel(),
        material: render_core::arena::Handle::sentinel(),
        camera: render_core::arena::Handle::sentinel(),
    };
    sync.begin_frame();
    sync.fence_waited();
    sync.acquired(0);
    let mut calls = 0u32;
    let b = sync.frame_cache_mut().get_or_create(key, || {
        calls += 1;
        11
    });
    assert_eq!(b, 11);
    sync.submitted();
    sync.presenting();
    sync.present_result(false);

    // The same slot comes round again: the binding is still cached.
    sync.begin_frame();
    sync.fence_waited();
    sync.acquired(0);
    let again = sync.frame_cache_mut().get_or_create(key, || {
        calls += 1;
        22
    });
    assert_eq!(again, 11);
    assert_eq!(calls, 1);
}

#[test]
fn deferred_deletions_wait_for_their_slot() {
    let mut q = DeferredDeletes::new();
    q.push(0, 10);
    q.push(1, 11);
    q.push(0, 12);
    let freed = q.collect(0);
    assert_eq!(freed, vec![10, 12]);
    assert_eq!(q.entries.len(), 1);
    let later = q.collect(1);
    assert_eq!(later, vec![11]);
    assert_eq!(q.collect(0), Vec::<u64>::new());
}
