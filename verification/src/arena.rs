//! Slot-based storage with stable, generation-checked handles.
//!
//! An [`Arena<T>`] owns its values and hands out typed [`Handle<T>`]
//! references. A handle stays valid until the value it refers to is removed;
//! after removal the slot's generation is advanced, so a stale handle is
//! detected and rejected instead of silently aliasing a later occupant of the
//! same slot. Lookups with a foreign, stale, or sentinel handle yield a
//! normal "absent" result and never panic.

use vstd::prelude::*;
use core::marker::PhantomData;

verus! {

/// Slot index reserved for the sentinel handle; never used by a real slot.
pub const SENTINEL_INDEX: u32 = 0xffff_ffff;

/// An opaque, generation-checked reference to a slot of an [`Arena<T>`].
pub struct Handle<T> {
    pub idx: u32,
    pub generation: u64,
    pub _marker: PhantomData<T>,
}

impl<T> Handle<T> {
    /// The sentinel "refers to nothing" handle; insertion never returns it.
    pub fn sentinel() -> (h: Handle<T>)
        ensures
            h.idx == SENTINEL_INDEX,
            h.generation == 0,
    {
        Handle { idx: SENTINEL_INDEX, generation: 0, _marker: PhantomData }
    }

    /// Whether this handle is the sentinel (or shares its reserved index).
    pub fn is_sentinel(&self) -> (b: bool)
        ensures
            b == (self.idx == SENTINEL_INDEX),
    {
        self.idx == SENTINEL_INDEX
    }
}

impl<T> Clone for Handle<T> {
    fn clone(&self) -> (h: Self)
        ensures
            h == *self,
    {
        Handle { idx: self.idx, generation: self.generation, _marker: PhantomData }
    }
}

impl<T> Copy for Handle<T> {}

impl<T> PartialEq for Handle<T> {
    fn eq(&self, other: &Self) -> (b: bool) {
        self.idx == other.idx && self.generation == other.generation
    }
}

impl<T> Eq for Handle<T> {}

impl<T> vstd::std_specs::cmp::PartialEqSpecImpl for Handle<T> {
    open spec fn obeys_eq_spec() -> bool {
        true
    }

    open spec fn eq_spec(&self, other: &Self) -> bool {
        self.idx == other.idx && self.generation == other.generation
    }
}

/// One storage cell of an arena: the current generation and the occupant,
/// if any.
pub struct Slot<T> {
    pub generation: u64,
    pub value: Option<T>,
}

/// Owning container that maps generation-checked handles to values of `T`.
pub struct Arena<T> {
    pub slots: Vec<Slot<T>>,
}

impl<T> Arena<T> {
    /// Every occupied slot still has room to advance its generation on
    /// removal (slots whose generation is exhausted are empty and retired),
    /// and the slot count leaves the sentinel index unused.
    pub open spec fn wf(self) -> bool {
        &&& forall|i: int|
            0 <= i < self.slots@.len() ==> ((#[trigger] self.slots@[i]).value is Some
                ==> self.slots@[i].generation < u64::MAX)
        &&& self.slots@.len() <= SENTINEL_INDEX as int
    }

    /// A handle is valid when it points inside the arena at a slot whose
    /// generation matches and which currently holds a value.
    pub open spec fn valid(self, h: Handle<T>) -> bool {
        &&& (h.idx as int) < self.slots@.len()
        &&& self.slots@[h.idx as int].generation == h.generation
        &&& self.slots@[h.idx as int].value is Some
    }

    /// The value a handle refers to, or `None` for a sentinel, foreign or
    /// stale handle.
    pub open spec fn spec_get(self, h: Handle<T>) -> Option<T> {
        if self.valid(h) {
            self.slots@[h.idx as int].value
        } else {
            None
        }
    }

    /// Slot `i` can be reused by an insertion.
    pub open spec fn free_at(self, i: int) -> bool {
        self.slots@[i].value is None && self.slots@[i].generation < u64::MAX
    }

    pub fn new() -> (a: Arena<T>)
        ensures
            a.wf(),
            a.slots@.len() == 0,
    {
        Arena { slots: Vec::new() }
    }

    /// Store `value`, reusing the lowest-index free slot if one exists and
    /// appending a fresh slot otherwise. The returned handle is fresh: it was
    /// not valid before the call, is valid after it, and is not the sentinel.
    pub fn insert(&mut self, value: T) -> (h: Handle<T>)
        requires
            old(self).wf(),
            old(self).slots@.len() < SENTINEL_INDEX as int,
        ensures
            final(self).wf(),
            final(self).valid(h),
            final(self).spec_get(h) == Some(value),
            !old(self).valid(h),
            h.idx != SENTINEL_INDEX,
            forall|h2: Handle<T>|
                (h2.idx != h.idx || h2.generation != h.generation)
                    ==> #[trigger] final(self).spec_get(h2) == old(self).spec_get(h2),
            forall|j: int| 0 <= j < h.idx as int ==> !old(self).free_at(j),
            final(self).slots@[h.idx as int] == (Slot {
                generation: h.generation,
                value: Some(value),
            }),
            forall|j: int|
                0 <= j < old(self).slots@.len() && j != h.idx as int ==> final(self).slots@[j]
                    == old(self).slots@[j],
            (h.idx as int) <= old(self).slots@.len(),
            (h.idx as int) == old(self).slots@.len() ==> {
                &&& final(self).slots@.len() == old(self).slots@.len() + 1
                &&& h.generation == 0
            },
            (h.idx as int) < old(self).slots@.len() ==> {
                &&& final(self).slots@.len() == old(self).slots@.len()
                &&& h.generation == old(self).slots@[h.idx as int].generation
            },
    {
        let n = self.slots.len();
        let mut i: usize = 0;
        while i < n
            invariant
                old(self).wf(),
                self.slots@ == old(self).slots@,
                n == self.slots@.len(),
                n < SENTINEL_INDEX as usize,
                i <= n,
                forall|j: int| 0 <= j < i as int ==> !old(self).free_at(j),
            decreases n - i,
        {
            if self.slots[i].value.is_none() && self.slots[i].generation < u64::MAX {
                let g = self.slots[i].generation;
                let slot = &mut self.slots[i];
                slot.value = Some(value);
                let h = Handle { idx: i as u32, generation: g, _marker: PhantomData };
                proof {
                    assert(self.slots@ =~= old(self).slots@.update(
                        i as int,
                        Slot { generation: g, value: Some(value) },
                    ));
                }
                return h;
            }
            i += 1;
        }
        self.slots.push(Slot { generation: 0, value: Some(value) });
        Handle { idx: n as u32, generation: 0, _marker: PhantomData }
    }

    /// Look a handle up; absent for a sentinel, foreign or stale handle.
    pub fn get(&self, h: Handle<T>) -> (r: Option<&T>)
        ensures
            match r {
                Some(v) => self.valid(h) && Some(*v) == self.spec_get(h),
                None => !self.valid(h),
            },
    {
        let i = h.idx as usize;
        if i < self.slots.len() {
            let slot = &self.slots[i];
            if slot.generation == h.generation {
                match &slot.value {
                    Some(v) => Some(v),
                    None => None,
                }
            } else {
                None
            }
        } else {
            None
        }
    }

    /// Whether `h` currently refers to a value.
    pub fn contains(&self, h: Handle<T>) -> (b: bool)
        ensures
            b == self.valid(h),
    {
        let i = h.idx as usize;
        i < self.slots.len() && self.slots[i].generation == h.generation
            && self.slots[i].value.is_some()
    }

    /// Mutable lookup; absent for a sentinel, foreign or stale handle.
    pub fn get_mut(&mut self, h: Handle<T>) -> (r: Option<&mut T>)
        ensures
            r is Some <==> old(self).valid(h),
            r is Some ==> {
                &&& Some(*r.unwrap()) == old(self).spec_get(h)
                &&& final(self).slots@ == old(self).slots@.update(
                    h.idx as int,
                    Slot { generation: h.generation, value: Some(*final(r.unwrap())) },
                )
            },
            r is None ==> final(self).slots@ == old(self).slots@,
    {
        let i = h.idx as usize;
        if i < self.slots.len() && self.slots[i].generation == h.generation
            && self.slots[i].value.is_some() {
            let slot = &mut self.slots[i];
            match &mut slot.value {
                Some(v) => Some(v),
                None => None,
            }
        } else {
            proof {
                assert(self.slots@ =~= old(self).slots@);
            }
            None
        }
    }

    /// Remove the value `h` refers to, if any. On success the slot's
    /// generation is advanced, so `h` (and any copy of it) is stale from now
    /// on; the freed slot can be reused by later insertions. Lookups through
    /// other handles are unaffected.
    pub fn remove(&mut self, h: Handle<T>) -> (r: Option<T>)
        requires
            old(self).wf(),
        ensures
            final(self).wf(),
            r == old(self).spec_get(h),
            final(self).spec_get(h) == None::<T>,
            !final(self).valid(h),
            forall|h2: Handle<T>|
                (h2.idx != h.idx || h2.generation != h.generation)
                    ==> #[trigger] final(self).spec_get(h2) == old(self).spec_get(h2),
            final(self).slots@.len() == old(self).slots@.len(),
            forall|j: int|
                0 <= j < old(self).slots@.len() && j != h.idx as int ==> final(self).slots@[j]
                    == old(self).slots@[j],
            old(self).valid(h) ==> final(self).slots@[h.idx as int] == (Slot {
                generation: (h.generation + 1) as u64,
                value: None::<T>,
            }),
            !old(self).valid(h) ==> final(self).slots@ == old(self).slots@,
    {
        let i = h.idx as usize;
        if i < self.slots.len() && self.slots[i].generation == h.generation
            && self.slots[i].value.is_some() {
            let slot = &mut self.slots[i];
            let taken = slot.value.take();
            slot.generation = slot.generation + 1;
            proof {
                assert(self.slots@ =~= old(self).slots@.update(
                    i as int,
                    Slot { generation: (h.generation + 1) as u64, value: None::<T> },
                ));
            }
            taken
        } else {
            proof {
                assert(self.slots@ =~= old(self).slots@);
            }
            None
        }
    }

    /// The handles of all occupied slots, in ascending slot order.
    pub fn handles(&self) -> (out: Vec<Handle<T>>)
        requires
            self.wf(),
        ensures
            forall|k: int| 0 <= k < out@.len() ==> self.valid(#[trigger] out@[k]),
            forall|k1: int, k2: int|
                0 <= k1 < k2 < out@.len() ==> out@[k1].idx < out@[k2].idx,
            forall|h: Handle<T>| self.valid(h) ==> out@.contains(h),
    {
        let mut out: Vec<Handle<T>> = Vec::new();
        let n = self.slots.len();
        let mut i: usize = 0;
        while i < n
            invariant
                self.wf(),
                n == self.slots@.len(),
                i <= n,
                forall|k: int| 0 <= k < out@.len() ==> self.valid(#[trigger] out@[k]),
                forall|k: int| 0 <= k < out@.len() ==> (#[trigger] out@[k]).idx < i,
                forall|k1: int, k2: int|
                    0 <= k1 < k2 < out@.len() ==> out@[k1].idx < out@[k2].idx,
                forall|h: Handle<T>|
                    self.valid(h) && (h.idx as int) < i as int ==> out@.contains(h),
            decreases n - i,
        {
            if self.slots[i].value.is_some() {
                let ghost prev = out@;
                let g = self.slots[i].generation;
                let h = Handle { idx: i as u32, generation: g, _marker: PhantomData };
                out.push(h);
                proof {
                    assert(out@ == prev.push(h));
                    assert(out@[out@.len() - 1] == h);
                    assert(self.valid(h));
                    assert forall|k: int| 0 <= k < out@.len() implies self.valid(
                        #[trigger] out@[k],
                    ) && out@[k].idx < i + 1 by {
                        if k < prev.len() {
                            assert(out@[k] == prev[k]);
                        } else {
                            assert(out@[k] == h);
                        }
                    }
                    assert forall|k1: int, k2: int|
                        0 <= k1 < k2 < out@.len() implies out@[k1].idx < out@[k2].idx by {
                        if k2 < prev.len() {
                            assert(out@[k1] == prev[k1] && out@[k2] == prev[k2]);
                        } else {
                            assert(out@[k2] == h);
                            assert(out@[k1] == prev[k1]);
                        }
                    }
                    assert forall|hh: Handle<T>|
                        self.valid(hh) && (hh.idx as int) < i + 1 implies out@.contains(hh) by {
                        if (hh.idx as int) < i as int {
                            let k = choose|k: int| 0 <= k < prev.len() && prev[k] == hh;
                            assert(out@[k] == hh);
                        } else {
                            assert(hh.idx == h.idx && hh.generation == h.generation);
                            assert(hh == h);
                        }
                    }
                }
            }
            i += 1;
        }
        out
    }

    /// Law: a value just inserted is found again by looking up the handle the
    /// insertion returned. The premises are the slot-level guarantee that
    /// [`Arena::insert`] gives for its post-state.
    pub proof fn lemma_insert_then_get(post: Arena<T>, value: T, h: Handle<T>)
        requires
            (h.idx as int) < post.slots@.len(),
            post.slots@[h.idx as int] == (Slot { generation: h.generation, value: Some(value) }),
        ensures
            post.valid(h),
            post.spec_get(h) == Some(value),
    {
    }

    /// Law: once a handle has been removed, looking it up yields an absent
    /// result. The premises are the slot-level guarantee that
    /// [`Arena::remove`] gives for a handle that was valid.
    pub proof fn lemma_removed_handle_absent(post: Arena<T>, h: Handle<T>)
        requires
            h.generation < u64::MAX,
            (h.idx as int) < post.slots@.len(),
            post.slots@[h.idx as int] == (Slot {
                generation: (h.generation + 1) as u64,
                value: None::<T>,
            }),
        ensures
            !post.valid(h),
            post.spec_get(h) == None::<T>,
    {
    }

    /// Law: a removed handle can never alias a later occupant of its slot.
    /// `a` is the arena before `remove(h)`, `b` the arena it leaves behind,
    /// and `c` with `h2` the outcome of a subsequent `insert(w)`; the
    /// premises restate what those two calls ensure. Even when the insertion
    /// reuses the freed slot, the generation check keeps the removed handle
    /// distinct from the fresh one and its lookup absent.
    pub proof fn lemma_no_alias_after_reuse(
        a: Arena<T>,
        h: Handle<T>,
        b: Arena<T>,
        w: T,
        c: Arena<T>,
        h2: Handle<T>,
    )
        requires
            a.wf(),
            a.valid(h),
            // effect of `remove(h)` on `a`, yielding `b`
            b.slots@.len() == a.slots@.len(),
            b.slots@[h.idx as int] == (Slot {
                generation: (h.generation + 1) as u64,
                value: None::<T>,
            }),
            // effect of `insert(w)` on `b`, yielding `c` and the fresh `h2`
            (h2.idx as int) <= b.slots@.len(),
            (h2.idx as int) < b.slots@.len() ==> h2.generation == b.slots@[h2.idx as int].generation,
            c.slots@[h2.idx as int] == (Slot { generation: h2.generation, value: Some(w) }),
            forall|hx: Handle<T>|
                (hx.idx != h2.idx || hx.generation != h2.generation)
                    ==> #[trigger] c.spec_get(hx) == b.spec_get(hx),
        ensures
            h2.idx != h.idx || h2.generation != h.generation,
            c.spec_get(h) == None::<T>,
            !c.valid(h),
    {
        assert((h.idx as int) < a.slots@.len());
        assert(h.generation < u64::MAX);
        if h2.idx == h.idx {
            assert(h2.generation == h.generation + 1);
        }
        assert(b.spec_get(h) == None::<T>);
        assert(c.spec_get(h) == None::<T>);
    }

    /// How many of the first `n` slots are occupied.
    pub open spec fn count_occupied(s: Seq<Slot<T>>) -> int
        decreases s.len(),
    {
        if s.len() == 0 {
            0
        } else {
            Self::count_occupied(s.drop_last()) + if s.last().value is Some {
                1int
            } else {
                0int
            }
        }
    }

    proof fn lemma_count_occupied_bound(s: Seq<Slot<T>>)
        ensures
            0 <= Self::count_occupied(s) <= s.len(),
        decreases s.len(),
    {
        if s.len() > 0 {
            Self::lemma_count_occupied_bound(s.drop_last());
        }
    }

    /// How many values the arena currently holds.
    pub fn len(&self) -> (n: usize)
        ensures
            n as int == Self::count_occupied(self.slots@),
    {
        let mut count: usize = 0;
        let n = self.slots.len();
        let mut i: usize = 0;
        while i < n
            invariant
                n == self.slots@.len(),
                i <= n,
                count as int == Self::count_occupied(self.slots@.take(i as int)),
            decreases n - i,
        {
            proof {
                Self::lemma_count_occupied_bound(self.slots@.take(i as int));
                assert(self.slots@.take(i + 1).drop_last() =~= self.slots@.take(i as int));
            }
            if self.slots[i].value.is_some() {
                count += 1;
            }
            i += 1;
        }
        proof {
            assert(self.slots@.take(n as int) =~= self.slots@);
        }
        count
    }
}

} // verus!
