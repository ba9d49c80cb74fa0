use mesh_viewer::cache::VertexCache;
use mesh_viewer::source::VertexKey;

#[test]
fn a_cache_gives_back_what_was_recorded() {
    let a = VertexKey { position: 7, texture: None, normal: Some(1) };
    let b = VertexKey { position: 7, texture: Some(0), normal: Some(1) };
    let c = VertexKey { position: 8, texture: None, normal: Some(1) };
    let d = VertexKey { position: 7, texture: None, normal: None };
    let mut cache = VertexCache::new();
    assert_eq!(cache.get(&a), None);
    cache.insert(a, 0);
    cache.insert(b, 1);
    cache.insert(c, 2);
    assert_eq!(cache.get(&a), Some(0));
    assert_eq!(cache.get(&b), Some(1));
    assert_eq!(cache.get(&c), Some(2));
    assert_eq!(cache.get(&d), None);
    cache.insert(d, 4_000_000_000);
    assert_eq!(cache.get(&d), Some(4_000_000_000));
    assert_eq!(cache.get(&a), Some(0));
}
