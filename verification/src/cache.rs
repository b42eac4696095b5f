//! The descriptor cache: a memo from a composite draw-context key to a
//! previously built GPU-side binding, so that recurring (pipeline, node,
//! material, camera) combinations do not rebuild descriptor state every
//! draw. The key carries a mandatory discriminant for what kind of binding
//! it names, so a model binding and a material binding that share a numeric
//! set index can never collide.

use vstd::prelude::*;
use crate::arena::Handle;
use crate::scene::{Camera, Material, Node};

verus! {

/// What kind of binding a descriptor key names. Two keys with different
/// kinds are different keys, whatever their other components.
#[derive(Clone, Copy, PartialEq, Eq, Structural, Debug)]
pub enum BindingKind {
    /// Pass-global state, bound once per pipeline.
    Global,
    /// Per-node model state.
    Model,
    /// Per-material texture state.
    Material,
    /// Per-camera view/projection state.
    Camera,
}

/// The composite lookup key of the descriptor cache: the binding kind, the
/// pipeline layout identity and the entity handles of the draw context
/// (sentinel handles where a component is absent). Two keys are equal iff
/// all components are equal.
#[derive(Clone, Copy)]
pub struct DescriptorKey {
    pub kind: BindingKind,
    pub pipeline: u64,
    pub node: Handle<Node>,
    pub material: Handle<Material>,
    pub camera: Handle<Camera>,
}

impl PartialEq for DescriptorKey {
    fn eq(&self, other: &Self) -> (b: bool) {
        self.kind == other.kind && self.pipeline == other.pipeline && self.node == other.node
            && self.material == other.material && self.camera == other.camera
    }
}

impl Eq for DescriptorKey {}

impl vstd::std_specs::cmp::PartialEqSpecImpl for DescriptorKey {
    open spec fn obeys_eq_spec() -> bool {
        true
    }

    open spec fn eq_spec(&self, other: &Self) -> bool {
        *self == *other
    }
}

/// An identifier of a GPU-side resource binding that was built once and is
/// reused on later lookups.
pub type Binding = u64;

/// The cache itself: an association list from keys to bindings, with every
/// key held at most once. It lives inside one frame and is torn down with
/// that frame's image resources.
pub struct DescriptorCache {
    pub entries: Vec<(DescriptorKey, Binding)>,
}

impl DescriptorCache {
    /// Each key occurs at most once.
    pub open spec fn wf(self) -> bool {
        forall|i: int, j: int|
            0 <= i < j < self.entries@.len() ==> (#[trigger] self.entries@[i]).0 != (
            #[trigger] self.entries@[j]).0
    }

    /// Whether `key` has a cached binding.
    pub open spec fn spec_contains(self, key: DescriptorKey) -> bool {
        exists|i: int| 0 <= i < self.entries@.len() && (#[trigger] self.entries@[i]).0 == key
    }

    /// The position of `key` in the cache.
    pub open spec fn spec_index_of(self, key: DescriptorKey) -> int {
        choose|i: int| 0 <= i < self.entries@.len() && (#[trigger] self.entries@[i]).0 == key
    }

    /// The cached binding of `key`.
    pub open spec fn spec_lookup(self, key: DescriptorKey) -> Binding
        recommends
            self.spec_contains(key),
    {
        self.entries@[self.spec_index_of(key)].1
    }

    /// In a well-formed cache a key's position is unique.
    pub proof fn lemma_index_unique(self, key: DescriptorKey, i: int)
        requires
            self.wf(),
            0 <= i < self.entries@.len(),
            self.entries@[i].0 == key,
        ensures
            self.spec_contains(key),
            self.spec_index_of(key) == i,
            self.spec_lookup(key) == self.entries@[i].1,
    {
        let j = self.spec_index_of(key);
        if j < i {
            assert(self.entries@[j].0 != self.entries@[i].0);
        }
        if j > i {
            assert(self.entries@[i].0 != self.entries@[j].0);
        }
    }

    /// An empty cache.
    pub fn new() -> (c: DescriptorCache)
        ensures
            c.wf(),
            c.entries@.len() == 0,
    {
        DescriptorCache { entries: Vec::new() }
    }

    /// How many bindings the cache holds.
    pub fn binding_count(&self) -> (n: usize)
        ensures
            n == self.entries@.len(),
    {
        self.entries.len()
    }

    /// Tear every binding down; done when the owning frame's image resources
    /// are recreated, since bindings may reference per-image resources.
    pub fn clear(&mut self)
        ensures
            final(self).wf(),
            final(self).entries@.len() == 0,
    {
        self.entries.clear();
    }

    /// The memoized lookup. On a hit the cached binding is returned and the
    /// cache (and the unused builder) are left untouched; on a miss the
    /// builder is invoked exactly once and its binding is cached under `key`.
    /// Either way, every other key's binding is unaffected.
    pub fn get_or_create<F: FnOnce() -> Binding>(&mut self, key: DescriptorKey, builder: F) -> (binding:
        Binding)
        requires
            old(self).wf(),
            call_requires(builder, ()),
        ensures
            final(self).wf(),
            final(self).spec_contains(key),
            binding == final(self).spec_lookup(key),
            old(self).spec_contains(key) ==> {
                &&& binding == old(self).spec_lookup(key)
                &&& final(self).entries@ == old(self).entries@
            },
            !old(self).spec_contains(key) ==> {
                &&& call_ensures(builder, (), binding)
                &&& final(self).entries@ == old(self).entries@.push((key, binding))
            },
            forall|k2: DescriptorKey|
                k2 != key && old(self).spec_contains(k2) ==> #[trigger] final(self).spec_contains(
                    k2,
                ) && final(self).spec_lookup(k2) == old(self).spec_lookup(k2),
    {
        let n = self.entries.len();
        let mut i: usize = 0;
        while i < n
            invariant
                old(self).wf(),
                self.entries@ == old(self).entries@,
                n == self.entries@.len(),
                i <= n,
                forall|j: int| 0 <= j < i as int ==> (#[trigger] self.entries@[j]).0 != key,
            decreases n - i,
        {
            if self.entries[i].0 == key {
                let binding = self.entries[i].1;
                proof {
                    self.lemma_index_unique(key, i as int);
                    assert forall|k2: DescriptorKey|
                        k2 != key && old(self).spec_contains(k2) implies #[trigger] self
                        .spec_contains(k2) && self.spec_lookup(k2) == old(self).spec_lookup(
                        k2,
                    ) by {}
                }
                return binding;
            }
            i += 1;
        }
        let binding = builder();
        let ghost prev = self.entries@;
        self.entries.push((key, binding));
        proof {
            assert(!(exists|j: int| 0 <= j < prev.len() && (#[trigger] prev[j]).0 == key));
            assert(self.entries@ == prev.push((key, binding)));
            assert(self.entries@[prev.len() as int].0 == key);
            assert forall|a: int, b: int|
                0 <= a < b < self.entries@.len() implies (#[trigger] self.entries@[a]).0 != (
            #[trigger] self.entries@[b]).0 by {
                if b < prev.len() {
                    assert(self.entries@[a] == prev[a] && self.entries@[b] == prev[b]);
                } else {
                    assert(self.entries@[b] == (key, binding));
                    assert(self.entries@[a] == prev[a]);
                    assert(prev[a].0 != key);
                }
            }
            self.lemma_index_unique(key, prev.len() as int);
            assert forall|k2: DescriptorKey|
                k2 != key && old(self).spec_contains(k2) implies #[trigger] self.spec_contains(k2)
                && self.spec_lookup(k2) == old(self).spec_lookup(k2) by {
                let j = choose|j: int| 0 <= j < prev.len() && (#[trigger] prev[j]).0 == k2;
                assert(self.entries@[j].0 == k2);
                self.lemma_index_unique(k2, j);
                old(self).lemma_index_unique(k2, j);
            }
        }
        binding
    }
}

/// Law: a model-binding key and a material-binding key can never collide in
/// the cache, whatever their other components: keys that differ in their
/// binding-kind discriminant are distinct keys, and a well-formed cache
/// holds them at distinct positions.
pub proof fn lemma_kind_distinguishes(c: DescriptorCache, k1: DescriptorKey, k2: DescriptorKey)
    requires
        c.wf(),
        k1.kind != k2.kind,
        c.spec_contains(k1),
        c.spec_contains(k2),
    ensures
        k1 != k2,
        c.spec_index_of(k1) != c.spec_index_of(k2),
{
    let i1 = c.spec_index_of(k1);
    let i2 = c.spec_index_of(k2);
    assert(c.entries@[i1].0 == k1);
    assert(c.entries@[i2].0 == k2);
    if i1 == i2 {
        assert(k1 == k2);
    }
}

} // verus!
