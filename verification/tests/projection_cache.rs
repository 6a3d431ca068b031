use dendrite::projection_cache::{ProjectionCache, PROJECTION_CACHE_CAPACITY};

#[test]
fn cached_projections_read_back() {
    let mut cache: ProjectionCache<String> = ProjectionCache::new();
    assert_eq!(cache.get("a"), None);
    cache.put("a".to_string(), (3, "three".to_string()));
    cache.put("b".to_string(), (5, "five".to_string()));
    assert_eq!(cache.get("a"), Some((3, "three".to_string())));
    cache.put("a".to_string(), (4, "four".to_string()));
    assert_eq!(cache.get("a"), Some((4, "four".to_string())));
    assert_eq!(cache.get("b"), Some((5, "five".to_string())));
}

#[test]
fn the_least_recently_used_projection_is_evicted() {
    let mut cache: ProjectionCache<usize> = ProjectionCache::new();
    for i in 0..PROJECTION_CACHE_CAPACITY {
        cache.put(format!("agg-{}", i), (i as i64, i));
    }
    // Reading the first one makes the second the least recently used.
    assert_eq!(cache.get("agg-0"), Some((0, 0)));
    cache.put("new".to_string(), (-1, 99));
    assert_eq!(cache.get("agg-1"), None);
    assert_eq!(cache.get("agg-0"), Some((0, 0)));
    assert_eq!(cache.get("new"), Some((-1, 99)));
    for i in 2..PROJECTION_CACHE_CAPACITY {
        assert_eq!(cache.get(&format!("agg-{}", i)), Some((i as i64, i)));
    }
}

#[test]
fn nothing_is_evicted_before_the_cache_is_full() {
    let mut cache: ProjectionCache<usize> = ProjectionCache::new();
    for i in 0..PROJECTION_CACHE_CAPACITY {
        cache.put(format!("agg-{}", i), (i as i64, i));
    }
    for i in 0..PROJECTION_CACHE_CAPACITY {
        assert_eq!(cache.get(&format!("agg-{}", i)), Some((i as i64, i)));
    }
    // Storing a cached aggregate again evicts nothing either.
    cache.put("agg-5".to_string(), (50, 50));
    assert_eq!(cache.get("agg-0"), Some((0, 0)));
    assert_eq!(cache.get("agg-5"), Some((50, 50)));
}
