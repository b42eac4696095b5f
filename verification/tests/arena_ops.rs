use render_core::arena::Arena;

#[test]
fn insert_then_get_returns_value() {
    let mut arena: Arena<u32> = Arena::new();
    let h = arena.insert(41);
    assert!(arena.get(h) == Some(&41));
    let h2 = arena.insert(99);
    assert!(arena.get(h2) == Some(&99));
    assert!(arena.get(h) == Some(&41));
}

#[test]
fn removed_handle_is_absent() {
    let mut arena: Arena<String> = Arena::new();
    let h = arena.insert(String::from("mesh"));
    assert!(arena.remove(h) == Some(String::from("mesh")));
    assert!(arena.get(h).is_none());
    assert!(arena.get_mut(h).is_none());
    assert!(arena.remove(h).is_none());
}

#[test]
fn stale_handle_does_not_alias_reused_slot() {
    let mut arena: Arena<u32> = Arena::new();
    let first = arena.insert(1);
    let stale = arena.insert(2);
    arena.remove(stale);
    // The freed slot is reused, but under a new generation.
    let fresh = arena.insert(3);
    assert!(fresh.idx == stale.idx);
    assert!(fresh.generation != stale.generation);
    assert!(arena.get(stale).is_none());
    assert!(arena.get_mut(stale).is_none());
    assert!(arena.get(fresh) == Some(&3));
    assert!(arena.get(first) == Some(&1));
}

#[test]
fn insertion_reuses_lowest_free_slot() {
    let mut arena: Arena<u32> = Arena::new();
    let h0 = arena.insert(10);
    let h1 = arena.insert(11);
    let h2 = arena.insert(12);
    arena.remove(h2);
    arena.remove(h0);
    let reused = arena.insert(20);
    assert!(reused.idx == h0.idx);
    let reused2 = arena.insert(21);
    assert!(reused2.idx == h2.idx);
    let appended = arena.insert(22);
    assert!(appended.idx == 3);
    assert!(arena.get(h1) == Some(&11));
}

#[test]
fn sentinel_lookup_is_absent() {
    let mut arena: Arena<u32> = Arena::new();
    arena.insert(7);
    let sentinel = render_core::arena::Handle::<u32>::sentinel();
    assert!(sentinel.is_sentinel());
    assert!(arena.get(sentinel).is_none());
    assert!(arena.remove(sentinel).is_none());
}

#[test]
fn foreign_handle_is_absent_not_fatal() {
    let mut a: Arena<u32> = Arena::new();
    let mut b: Arena<u32> = Arena::new();
    let ha = a.insert(5);
    let _hb = b.insert(6);
    let hb2 = b.insert(7);
    b.remove(hb2);
    // `hb2` is foreign to `a` in generation history and stale in `b`.
    assert!(b.get(hb2).is_none());
    assert!(a.get(ha) == Some(&5));
}

#[test]
fn get_mut_updates_in_place() {
    let mut arena: Arena<u32> = Arena::new();
    let h = arena.insert(1);
    if let Some(v) = arena.get_mut(h) {
        *v = 100;
    }
    assert!(arena.get(h) == Some(&100));
}

#[test]
fn handles_lists_occupied_slots_in_order() {
    let mut arena: Arena<u32> = Arena::new();
    let h0 = arena.insert(0);
    let h1 = arena.insert(1);
    let h2 = arena.insert(2);
    arena.remove(h1);
    let hs = arena.handles();
    assert!(hs.len() == 2);
    assert!(hs[0] == h0);
    assert!(hs[1] == h2);
    assert!(arena.len() == 2);
}
