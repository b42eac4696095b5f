//! Per-frame GPU synchronization: the swapchain's metadata, the per-image
//! frames with their sync state and descriptor caches, and the round-robin
//! state machine that cycles them. The machine decides; the blocking calls
//! themselves (fence waits, image acquisition, presentation, the wait-idle
//! drain) are performed by the caller, which reports each outcome back as an
//! event.
//!
//! The recreation invariant is enforced by contract: the swapchain can only
//! be rebuilt once every slot's in-flight work has been drained, and a
//! rebuild resets the round-robin slot to zero and replaces every frame's
//! sync objects and cached bindings.

use vstd::prelude::*;
use vstd::arithmetic::div_mod::{lemma_add_mod_noop, lemma_mod_self_0, lemma_small_mod};
use crate::arena::Handle;
use crate::cache::DescriptorCache;
use crate::math::Transform;
use crate::scene::{spec_traverse, Node, Scene};

verus! {

/// The swapchain's presentation metadata. The image count is fixed at
/// creation; a rebuild keeps it and replaces the images.
#[derive(Clone, Copy, PartialEq, Eq, Structural, Debug)]
pub struct SwapchainInfo {
    pub width: u32,
    pub height: u32,
    pub format: u32,
    pub image_count: usize,
}

/// Where the synchronizer stands in the per-frame cycle.
#[derive(Clone, Copy, PartialEq, Eq, Structural, Debug)]
pub enum Phase {
    /// Between frames.
    Idle,
    /// Blocking on the current slot's CPU fence.
    Waiting,
    /// Asking the swapchain for the next presentable image index.
    Acquiring,
    /// Commands are being recorded into the current frame.
    Recording,
    /// The frame's commands were handed to the GPU queue.
    Submitted,
    /// The produced image was handed to presentation.
    Presenting,
    /// The swapchain is stale: it must be drained and rebuilt before any
    /// further acquisition.
    NeedsRebuild,
}

/// What the caller must do next after asking for a frame.
#[derive(Clone, Copy, PartialEq, Eq, Structural, Debug)]
pub enum FrameStep {
    /// Drain the GPU and rebuild the swapchain before acquiring.
    RebuildNeeded,
    /// Wait on the given slot's fence, then acquire an image.
    WaitFence { slot: usize },
}

/// One frame in flight: the state tied to a single swapchain image.
pub struct Frame {
    /// Which swapchain image the current cycle of this slot renders into.
    pub image_index: u32,
    /// Whether GPU work submitted for this slot has not yet been waited on.
    pub in_flight: bool,
    /// The swapchain generation whose images this frame's sync objects are
    /// tied to; stale generations are never reused.
    pub epoch: u64,
    /// Descriptor bindings cached across reuses of this frame.
    pub cache: DescriptorCache,
    /// Per-node world transforms for the current frame only; refreshed on
    /// every frame even when cached bindings are reused.
    pub uniforms: Vec<(Handle<Node>, Transform)>,
}

/// The slot that follows `slot` in the round-robin cycle.
pub open spec fn spec_next_slot(slot: int, count: int) -> int
    recommends
        count > 0,
{
    (slot + 1) % count
}

/// The slot reached after `k` round-robin steps.
pub open spec fn spec_advance_k(slot: int, count: int, k: nat) -> int
    recommends
        count > 0,
    decreases k,
{
    if k == 0 {
        slot
    } else {
        spec_next_slot(spec_advance_k(slot, count, (k - 1) as nat), count)
    }
}

/// After `k` steps from `slot` the round-robin sits at `(slot + k) % count`.
pub proof fn lemma_advance_k_mod(slot: int, count: int, k: nat)
    requires
        0 <= slot < count,
    ensures
        spec_advance_k(slot, count, k) == (slot + k) % count,
    decreases k,
{
    if k == 0 {
        lemma_small_mod(slot as nat, count as nat);
    } else {
        lemma_advance_k_mod(slot, count, (k - 1) as nat);
        let prev = (slot + k - 1) % count;
        lemma_add_mod_noop(slot + k - 1, 1, count);
        if count == 1 {
            lemma_mod_self_0(count);
            assert(slot == 0);
            assert((1int) % (1int) == 0);
            assert(((prev + (1int) % (1int)) % (1int)) == (slot + k) % count);
            assert((prev + 1) % count == ((prev + (1int) % (1int)) % (1int))) by {
                lemma_add_mod_noop(prev, 1, 1);
                lemma_mod_self_0(1);
            }
        } else {
            lemma_small_mod(1nat, count as nat);
        }
    }
}

/// Law: the round-robin cycles. Starting anywhere, `count` successive
/// frame advances return to the starting slot, and no earlier advance does,
/// so with an image count of 3 the slots cycle 0, 1, 2, 0, 1, 2, ...
pub proof fn lemma_round_robin_cycle(slot: int, count: int, k: nat)
    requires
        0 <= slot < count,
    ensures
        spec_advance_k(slot, count, count as nat) == slot,
        0 < k < count ==> spec_advance_k(slot, count, k) != slot,
        spec_advance_k(slot, count, k) == (slot + k) % count,
{
    lemma_advance_k_mod(slot, count, count as nat);
    lemma_advance_k_mod(slot, count, k);
    lemma_add_mod_noop(slot, count, count);
    lemma_mod_self_0(count);
    lemma_small_mod(slot as nat, count as nat);
    if 0 < k < count {
        if slot + k < count {
            lemma_small_mod((slot + k) as nat, count as nat);
        } else {
            lemma_add_mod_noop(slot + k - count, count, count);
            lemma_small_mod((slot + k - count) as nat, count as nat);
        }
    }
}

/// The per-frame synchronization state machine.
pub struct FrameSync {
    /// The current swapchain's metadata.
    pub info: SwapchainInfo,
    /// The swapchain generation; bumped on every rebuild.
    pub epoch: u64,
    /// The current round-robin slot.
    pub slot: usize,
    /// Where the machine stands in the frame cycle.
    pub phase: Phase,
    /// One frame per swapchain image.
    pub frames: Vec<Frame>,
    /// The surface size a resize event asked for, if one is pending.
    pub pending_resize: Option<(u32, u32)>,
}

impl FrameSync {
    /// Structural health: one frame per image, the slot in range, every
    /// frame tied to the current swapchain generation, caches well formed.
    pub open spec fn wf(self) -> bool {
        &&& self.info.image_count >= 1
        &&& self.frames@.len() == self.info.image_count
        &&& self.slot < self.info.image_count
        &&& forall|i: int|
            0 <= i < self.frames@.len() ==> (#[trigger] self.frames@[i]).epoch == self.epoch
        &&& forall|i: int| 0 <= i < self.frames@.len() ==> (#[trigger] self.frames@[i]).cache.wf()
    }

    /// No slot has GPU work outstanding.
    pub open spec fn spec_all_idle(self) -> bool {
        forall|i: int| 0 <= i < self.frames@.len() ==> !(#[trigger] self.frames@[i]).in_flight
    }

    /// A fresh synchronizer: slot 0, generation 0, every frame idle with an
    /// empty cache.
    pub fn new(width: u32, height: u32, format: u32, image_count: usize) -> (s: FrameSync)
        requires
            image_count >= 1,
        ensures
            s.wf(),
            s.spec_all_idle(),
            s.phase == Phase::Idle,
            s.slot == 0,
            s.epoch == 0,
            s.info == (SwapchainInfo { width, height, format, image_count }),
            s.pending_resize is None,
            forall|i: int|
                0 <= i < s.frames@.len() ==> (#[trigger] s.frames@[i]).cache.entries@.len() == 0
                    && s.frames@[i].uniforms@.len() == 0 && s.frames@[i].image_index == 0,
    {
        let mut frames: Vec<Frame> = Vec::new();
        let mut i: usize = 0;
        while i < image_count
            invariant
                i <= image_count,
                frames@.len() == i,
                forall|j: int|
                    0 <= j < i as int ==> !(#[trigger] frames@[j]).in_flight && frames@[j].epoch
                        == 0 && frames@[j].cache.wf() && frames@[j].cache.entries@.len() == 0
                        && frames@[j].uniforms@.len() == 0 && frames@[j].image_index == 0,
            decreases image_count - i,
        {
            frames.push(
                Frame {
                    image_index: 0,
                    in_flight: false,
                    epoch: 0,
                    cache: DescriptorCache::new(),
                    uniforms: Vec::new(),
                },
            );
            i += 1;
        }
        FrameSync {
            info: SwapchainInfo { width, height, format, image_count },
            epoch: 0,
            slot: 0,
            phase: Phase::Idle,
            frames,
            pending_resize: None,
        }
    }

    /// Record a resize observed by the windowing layer. It is handled
    /// proactively at the next `begin_frame`, before any acquisition.
    pub fn request_resize(&mut self, width: u32, height: u32)
        ensures
            *final(self) == (FrameSync {
                pending_resize: Some((width, height)),
                ..*old(self)
            }),
    {
        self.pending_resize = Some((width, height));
    }

    /// Start the next frame. With a resize pending the machine refuses to
    /// acquire and demands a rebuild; otherwise the caller must wait on the
    /// current slot's fence (the frame that last used this slot may still be
    /// executing) and then acquire.
    pub fn begin_frame(&mut self) -> (step: FrameStep)
        requires
            old(self).wf(),
            old(self).phase == Phase::Idle,
        ensures
            final(self).wf(),
            old(self).pending_resize is Some ==> step == FrameStep::RebuildNeeded && *final(self)
                == (FrameSync { phase: Phase::NeedsRebuild, ..*old(self) }),
            old(self).pending_resize is None ==> step == (FrameStep::WaitFence {
                slot: old(self).slot,
            }) && *final(self) == (FrameSync { phase: Phase::Waiting, ..*old(self) }),
    {
        if self.pending_resize.is_some() {
            self.phase = Phase::NeedsRebuild;
            FrameStep::RebuildNeeded
        } else {
            self.phase = Phase::Waiting;
            FrameStep::WaitFence { slot: self.slot }
        }
    }

    /// The current slot's fence wait returned: whatever the GPU was doing
    /// with this slot's resources has completed, so the CPU may reuse them.
    pub fn fence_waited(&mut self)
        requires
            old(self).wf(),
            old(self).phase == Phase::Waiting,
        ensures
            final(self).wf(),
            final(self).frames@ == old(self).frames@.update(
                old(self).slot as int,
                Frame { in_flight: false, ..old(self).frames@[old(self).slot as int] },
            ),
            *final(self) == (FrameSync {
                phase: Phase::Acquiring,
                frames: final(self).frames,
                ..*old(self)
            }),
    {
        let slot = self.slot;
        let f = &mut self.frames[slot];
        f.in_flight = false;
        self.phase = Phase::Acquiring;
        proof {
            assert(final(f).epoch == old(self).frames@[slot as int].epoch);
        }
    }

    /// The swapchain handed out `image_index` for this frame.
    pub fn acquired(&mut self, image_index: u32)
        requires
            old(self).wf(),
            old(self).phase == Phase::Acquiring,
            (image_index as int) < old(self).info.image_count as int,
        ensures
            final(self).wf(),
            final(self).frames@ == old(self).frames@.update(
                old(self).slot as int,
                Frame { image_index, ..old(self).frames@[old(self).slot as int] },
            ),
            *final(self) == (FrameSync {
                phase: Phase::Recording,
                frames: final(self).frames,
                ..*old(self)
            }),
    {
        let slot = self.slot;
        let f = &mut self.frames[slot];
        f.image_index = image_index;
        self.phase = Phase::Recording;
    }

    /// The swapchain reported itself stale (out of date or suboptimal): do
    /// not proceed; drain and rebuild, then retry.
    pub fn acquire_stale(&mut self)
        requires
            old(self).wf(),
            old(self).phase == Phase::Acquiring,
        ensures
            final(self).wf(),
            *final(self) == (FrameSync { phase: Phase::NeedsRebuild, ..*old(self) }),
    {
        self.phase = Phase::NeedsRebuild;
    }

    /// Refresh the current frame's transient per-node uniforms from the
    /// scene. This happens every frame, cache hit or not: only binding
    /// objects are cached, never the data they point at.
    pub fn refresh_uniforms(&mut self, scene: &Scene)
        requires
            old(self).wf(),
            old(self).phase == Phase::Recording,
        ensures
            final(self).wf(),
            final(self).frames@ == old(self).frames@.update(
                old(self).slot as int,
                Frame {
                    uniforms: final(self).frames@[old(self).slot as int].uniforms,
                    ..old(self).frames@[old(self).slot as int]
                },
            ),
            final(self).frames@[old(self).slot as int].uniforms@ == spec_traverse(*scene),
            *final(self) == (FrameSync { frames: final(self).frames, ..*old(self) }),
    {
        let uniforms = scene.traverse();
        let slot = self.slot;
        let f = &mut self.frames[slot];
        f.uniforms = uniforms;
    }

    /// Mutable access to the current frame's descriptor cache, for
    /// `get_or_create` during recording.
    pub fn frame_cache_mut(&mut self) -> (c: &mut DescriptorCache)
        requires
            old(self).wf(),
            old(self).phase == Phase::Recording,
        ensures
            c.wf(),
            *c == old(self).frames@[old(self).slot as int].cache,
            final(self).frames@ == old(self).frames@.update(
                old(self).slot as int,
                Frame { cache: *final(c), ..old(self).frames@[old(self).slot as int] },
            ),
            *final(self) == (FrameSync { frames: final(self).frames, ..*old(self) }),
    {
        let slot = self.slot;
        let f = &mut self.frames[slot];
        &mut f.cache
    }

    /// The recorded commands were submitted, with the slot's fence armed:
    /// this slot's resources are now referenced by in-flight GPU work and
    /// must not be reused until the fence is waited again.
    pub fn submitted(&mut self)
        requires
            old(self).wf(),
            old(self).phase == Phase::Recording,
        ensures
            final(self).wf(),
            final(self).frames@ == old(self).frames@.update(
                old(self).slot as int,
                Frame { in_flight: true, ..old(self).frames@[old(self).slot as int] },
            ),
            *final(self) == (FrameSync {
                phase: Phase::Submitted,
                frames: final(self).frames,
                ..*old(self)
            }),
    {
        let slot = self.slot;
        let f = &mut self.frames[slot];
        f.in_flight = true;
        self.phase = Phase::Submitted;
    }

    /// The produced image was handed to presentation.
    pub fn presenting(&mut self)
        requires
            old(self).wf(),
            old(self).phase == Phase::Submitted,
        ensures
            final(self).wf(),
            *final(self) == (FrameSync { phase: Phase::Presenting, ..*old(self) }),
    {
        self.phase = Phase::Presenting;
    }

    /// Presentation reported back. Either way the round-robin advances to
    /// the next slot; a stale report routes through the same rebuild path as
    /// a stale acquisition.
    pub fn present_result(&mut self, stale: bool)
        requires
            old(self).wf(),
            old(self).phase == Phase::Presenting,
        ensures
            final(self).wf(),
            final(self).slot as int == spec_next_slot(
                old(self).slot as int,
                old(self).info.image_count as int,
            ),
            !stale ==> *final(self) == (FrameSync {
                phase: Phase::Idle,
                slot: final(self).slot,
                ..*old(self)
            }),
            stale ==> *final(self) == (FrameSync {
                phase: Phase::NeedsRebuild,
                slot: final(self).slot,
                ..*old(self)
            }),
    {
        let next = self.slot + 1;
        self.slot = if next == self.info.image_count {
            0
        } else {
            next
        };
        proof {
            if old(self).slot + 1 < old(self).info.image_count {
                lemma_small_mod((old(self).slot + 1) as nat, old(self).info.image_count as nat);
            } else {
                lemma_mod_self_0(old(self).info.image_count as int);
            }
        }
        self.phase = if stale {
            Phase::NeedsRebuild
        } else {
            Phase::Idle
        };
    }

    /// A device wait-idle completed: every slot's outstanding GPU work has
    /// drained. Required before a rebuild and before shutdown teardown, so
    /// no resource is destroyed while referenced by in-flight work.
    pub fn drained(&mut self)
        requires
            old(self).wf(),
        ensures
            final(self).wf(),
            final(self).spec_all_idle(),
            final(self).frames@.len() == old(self).frames@.len(),
            forall|i: int|
                0 <= i < old(self).frames@.len() ==> final(self).frames@[i] == (Frame {
                    in_flight: false,
                    ..old(self).frames@[i]
                }),
            *final(self) == (FrameSync { frames: final(self).frames, ..*old(self) }),
    {
        let n = self.frames.len();
        let mut i: usize = 0;
        while i < n
            invariant
                old(self).wf(),
                n == self.frames@.len(),
                n == old(self).frames@.len(),
                i <= n,
                forall|j: int|
                    0 <= j < i as int ==> self.frames@[j] == (Frame {
                        in_flight: false,
                        ..old(self).frames@[j]
                    }),
                forall|j: int| i as int <= j < n as int ==> self.frames@[j] == old(self).frames@[j],
                *self == (FrameSync { frames: self.frames, ..*old(self) }),
            decreases n - i,
        {
            let f = &mut self.frames[i];
            f.in_flight = false;
            i += 1;
        }
    }

    /// Rebuild the swapchain at the new size. Only legal once every slot
    /// has drained — no command buffer may still reference a framebuffer
    /// about to be destroyed. The generation is bumped, every frame's sync
    /// objects and cached bindings are replaced (bindings may reference
    /// per-image resources), and the round-robin restarts at slot 0 so no
    /// slot's old-generation signals are ever consulted again.
    pub fn rebuild(&mut self, width: u32, height: u32)
        requires
            old(self).wf(),
            old(self).phase == Phase::NeedsRebuild,
            old(self).spec_all_idle(),
            old(self).epoch < u64::MAX,
        ensures
            final(self).wf(),
            final(self).spec_all_idle(),
            final(self).epoch == old(self).epoch + 1,
            final(self).slot == 0,
            final(self).phase == Phase::Idle,
            final(self).pending_resize is None,
            final(self).info == (SwapchainInfo {
                width,
                height,
                format: old(self).info.format,
                image_count: old(self).info.image_count,
            }),
            final(self).frames@.len() == old(self).frames@.len(),
            forall|i: int|
                0 <= i < final(self).frames@.len() ==> {
                    &&& (#[trigger] final(self).frames@[i]).epoch == old(self).epoch + 1
                    &&& final(self).frames@[i].cache.entries@.len() == 0
                    &&& final(self).frames@[i].uniforms@.len() == 0
                    &&& !final(self).frames@[i].in_flight
                },
    {
        let image_count = self.info.image_count;
        let epoch = self.epoch + 1;
        let mut frames: Vec<Frame> = Vec::new();
        let mut i: usize = 0;
        while i < image_count
            invariant
                i <= image_count,
                frames@.len() == i,
                forall|j: int|
                    0 <= j < i as int ==> !(#[trigger] frames@[j]).in_flight && frames@[j].epoch
                        == epoch && frames@[j].cache.wf() && frames@[j].cache.entries@.len() == 0
                        && frames@[j].uniforms@.len() == 0,
            decreases image_count - i,
        {
            frames.push(
                Frame {
                    image_index: 0,
                    in_flight: false,
                    epoch,
                    cache: DescriptorCache::new(),
                    uniforms: Vec::new(),
                },
            );
            i += 1;
        }
        self.info = SwapchainInfo {
            width,
            height,
            format: self.info.format,
            image_count: self.info.image_count,
        };
        self.epoch = epoch;
        self.slot = 0;
        self.phase = Phase::Idle;
        self.frames = frames;
        self.pending_resize = None;
    }

    /// Whether every slot is idle; true exactly when teardown is safe.
    pub fn all_idle(&self) -> (b: bool)
        ensures
            b == self.spec_all_idle(),
    {
        let n = self.frames.len();
        let mut i: usize = 0;
        while i < n
            invariant
                n == self.frames@.len(),
                i <= n,
                forall|j: int| 0 <= j < i as int ==> !(#[trigger] self.frames@[j]).in_flight,
            decreases n - i,
        {
            if self.frames[i].in_flight {
                return false;
            }
            i += 1;
        }
        true
    }

    /// The target size overlay passes draw after the main scene pass.
    pub fn frame_extent(&self) -> (extent: (u32, u32))
        ensures
            extent == (self.info.width, self.info.height),
    {
        (self.info.width, self.info.height)
    }
}

/// How many deferred deletions belong to `slot` within `s`.
pub open spec fn spec_deferred_for(s: Seq<(usize, u64)>, slot: usize) -> Seq<u64>
    decreases s.len(),
{
    if s.len() == 0 {
        Seq::empty()
    } else {
        spec_deferred_for(s.drop_last(), slot) + if s.last().0 == slot {
            seq![s.last().1]
        } else {
            Seq::empty()
        }
    }
}

/// The deferred deletions that do not belong to `slot`, in order.
pub open spec fn spec_deferred_kept(s: Seq<(usize, u64)>, slot: usize) -> Seq<(usize, u64)>
    decreases s.len(),
{
    if s.len() == 0 {
        Seq::empty()
    } else {
        spec_deferred_kept(s.drop_last(), slot) + if s.last().0 == slot {
            Seq::empty()
        } else {
            seq![s.last()]
        }
    }
}

/// The deferred-deletion queue: resources whose destruction must wait until
/// the fence of the frame slot that last referenced them has signaled.
/// Destructor timing is never trusted to respect GPU completion; resources
/// are freed only through `collect`, keyed by the slot whose fence was
/// waited.
pub struct DeferredDeletes {
    pub entries: Vec<(usize, u64)>,
}

impl DeferredDeletes {
    pub fn new() -> (q: DeferredDeletes)
        ensures
            q.entries@.len() == 0,
    {
        DeferredDeletes { entries: Vec::new() }
    }

    /// Defer the deletion of `resource` until `slot`'s fence next signals.
    pub fn push(&mut self, slot: usize, resource: u64)
        ensures
            final(self).entries@ == old(self).entries@.push((slot, resource)),
    {
        self.entries.push((slot, resource));
    }

    /// `slot`'s fence has signaled: hand back exactly the resources that
    /// were waiting on it, in the order they were deferred, and keep all
    /// others queued.
    pub fn collect(&mut self, slot: usize) -> (freed: Vec<u64>)
        ensures
            freed@ == spec_deferred_for(old(self).entries@, slot),
            final(self).entries@ == spec_deferred_kept(old(self).entries@, slot),
    {
        let mut freed: Vec<u64> = Vec::new();
        let mut kept: Vec<(usize, u64)> = Vec::new();
        let n = self.entries.len();
        let mut i: usize = 0;
        while i < n
            invariant
                n == self.entries@.len(),
                self.entries@ == old(self).entries@,
                i <= n,
                freed@ == spec_deferred_for(self.entries@.take(i as int), slot),
                kept@ == spec_deferred_kept(self.entries@.take(i as int), slot),
            decreases n - i,
        {
            proof {
                assert(self.entries@.take(i + 1).drop_last() =~= self.entries@.take(i as int));
                assert(self.entries@.take(i + 1).last() == self.entries@[i as int]);
            }
            let entry = self.entries[i];
            if entry.0 == slot {
                freed.push(entry.1);
            } else {
                kept.push(entry);
            }
            i += 1;
        }
        proof {
            assert(self.entries@.take(n as int) =~= self.entries@);
        }
        self.entries = kept;
        freed
    }
}

} // verus!
