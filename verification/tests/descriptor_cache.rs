use render_core::arena::Handle;
use render_core::cache::{BindingKind, DescriptorCache, DescriptorKey};

fn key(kind: BindingKind, pipeline: u64) -> DescriptorKey {
    DescriptorKey {
        kind,
        pipeline,
        node: Handle::sentinel(),
        material: Handle::sentinel(),
        camera: Handle::sentinel(),
    }
}

#[test]
fn builder_runs_exactly_once_per_key() {
    let mut cache = DescriptorCache::new();
    let k = key(BindingKind::Model, 1);
    let mut calls = 0u32;
    let first = cache.get_or_create(k, || {
        calls += 1;
        42
    });
    let second = cache.get_or_create(k, || {
        calls += 1;
        77
    });
    assert_eq!(first, 42);
    assert_eq!(second, 42);
    assert_eq!(calls, 1);
    assert_eq!(cache.binding_count(), 1);
}

#[test]
fn kind_discriminant_prevents_collisions() {
    // Two keys identical in every component but the binding kind must not
    // share a cache slot: a model binding never overwrites a material one.
    let mut cache = DescriptorCache::new();
    let model_key = key(BindingKind::Model, 7);
    let material_key = key(BindingKind::Material, 7);
    let model = cache.get_or_create(model_key, || 1);
    let material = cache.get_or_create(material_key, || 2);
    assert_ne!(model, material);
    assert_eq!(cache.get_or_create(model_key, || 99), 1);
    assert_eq!(cache.get_or_create(material_key, || 99), 2);
    assert_eq!(cache.binding_count(), 2);
}

#[test]
fn distinct_pipelines_get_distinct_entries() {
    let mut cache = DescriptorCache::new();
    let a = cache.get_or_create(key(BindingKind::Global, 1), || 10);
    let b = cache.get_or_create(key(BindingKind::Global, 2), || 20);
    assert_eq!(a, 10);
    assert_eq!(b, 20);
    assert_eq!(cache.get_or_create(key(BindingKind::Global, 1), || 30), 10);
}

#[test]
fn clear_tears_every_binding_down() {
    let mut cache = DescriptorCache::new();
    cache.get_or_create(key(BindingKind::Camera, 1), || 5);
    cache.get_or_create(key(BindingKind::Model, 1), || 6);
    assert_eq!(cache.binding_count(), 2);
    cache.clear();
    assert_eq!(cache.binding_count(), 0);
    // After invalidation the builder runs again.
    let mut calls = 0u32;
    let again = cache.get_or_create(key(BindingKind::Camera, 1), || {
        calls += 1;
        8
    });
    assert_eq!(again, 8);
    assert_eq!(calls, 1);
}
