use stage2d::{start_frame, BlendMode, CacheKey, FrameCache, Stage};

fn key(hash: u64) -> CacheKey {
    CacheKey { key_type: 1, value_type: 2, content_hash: hash }
}

#[test]
fn retain_creates_once() {
    let mut cache: FrameCache<String> = FrameCache::new();
    let mut made = 0;
    assert_eq!(
        cache.retain(key(1), || {
            made += 1;
            "first".to_string()
        }),
        "first"
    );
    assert_eq!(
        cache.retain(key(1), || {
            made += 1;
            "second".to_string()
        }),
        "first"
    );
    assert_eq!(made, 1);
}

#[test]
fn retained_value_can_be_changed() {
    let mut cache: FrameCache<u32> = FrameCache::new();
    *cache.retain(key(1), || 10) += 5;
    *cache.retain(key(2), || 100) += 1;
    assert_eq!(cache.get(key(1)), Some(&15));
    assert_eq!(*cache.retain(key(1), || 0), 15);
    assert_eq!(cache.get(key(2)), Some(&101));
    assert_eq!(cache.get(key(3)), None);
}

#[test]
fn entry_lives_one_frame_past_its_last_retain() {
    let mut cache: FrameCache<u32> = FrameCache::new();
    cache.sweep();
    cache.retain(key(1), || 7);
    cache.sweep();
    assert!(cache.contains(key(1)));
    assert_eq!(cache.get(key(1)), Some(&7));
    cache.sweep();
    assert!(!cache.contains(key(1)));
    assert_eq!(cache.get(key(1)), None);
}

#[test]
fn entry_retained_every_frame_stays() {
    let mut cache: FrameCache<u32> = FrameCache::new();
    for frame in 0..5 {
        cache.sweep();
        *cache.retain(key(1), || 0) += 1;
        assert_eq!(cache.get(key(1)), Some(&(frame + 1)));
    }
    cache.sweep();
    cache.sweep();
    assert_eq!(*cache.retain(key(1), || 0), 0);
}

#[test]
fn sweep_drops_only_the_unmarked() {
    let mut cache: FrameCache<&str> = FrameCache::new();
    cache.retain(key(1), || "a");
    cache.retain(key(2), || "b");
    cache.retain(key(3), || "c");
    cache.sweep();
    cache.retain(key(2), || "x");
    cache.sweep();
    assert!(!cache.contains(key(1)));
    assert_eq!(cache.get(key(2)), Some(&"b"));
    assert!(!cache.contains(key(3)));
    cache.retain(key(1), || "again");
    assert_eq!(cache.get(key(1)), Some(&"again"));
}

#[test]
fn looking_does_not_retain() {
    let mut cache: FrameCache<u32> = FrameCache::new();
    cache.retain(key(1), || 7);
    cache.sweep();
    assert!(cache.contains(key(1)));
    assert_eq!(cache.get(key(1)), Some(&7));
    cache.sweep();
    assert!(!cache.contains(key(1)));
}

#[test]
fn keys_differ_in_any_part() {
    let mut cache: FrameCache<u32> = FrameCache::new();
    cache.retain(CacheKey { key_type: 1, value_type: 2, content_hash: 3 }, || 1);
    cache.retain(CacheKey { key_type: 9, value_type: 2, content_hash: 3 }, || 2);
    cache.retain(CacheKey { key_type: 1, value_type: 9, content_hash: 3 }, || 3);
    cache.retain(CacheKey { key_type: 1, value_type: 2, content_hash: 9 }, || 4);
    assert_eq!(cache.get(CacheKey { key_type: 1, value_type: 2, content_hash: 3 }), Some(&1));
    assert_eq!(cache.get(CacheKey { key_type: 9, value_type: 2, content_hash: 3 }), Some(&2));
    assert_eq!(cache.get(CacheKey { key_type: 1, value_type: 9, content_hash: 3 }), Some(&3));
    assert_eq!(cache.get(CacheKey { key_type: 1, value_type: 2, content_hash: 9 }), Some(&4));
}

#[test]
fn equal_keys_share_a_value() {
    let mut cache: FrameCache<u32> = FrameCache::new();
    *cache.retain(key(4), || 1) = 50;
    assert_eq!(*cache.retain(key(4), || 2), 50);
}

#[test]
fn empty_cache_sweeps_to_empty() {
    let mut cache: FrameCache<u32> = FrameCache::new();
    cache.sweep();
    assert!(!cache.contains(key(0)));
}

#[test]
fn frame_start_sweeps_both_caches() {
    let mut stage: Stage<u32, (i32, i32), ()> = Stage::new((0, 0));
    let mut buffers: FrameCache<String> = FrameCache::new();
    let mut temps: FrameCache<u32> = FrameCache::new();
    let never = |_: &stage2d::SenseShape<()>| false;

    buffers.retain(key(1), || "kept".to_string());
    buffers.retain(key(2), || "dropped".to_string());
    temps.retain(key(1), || 1);
    stage.tri(7);
    stage.set_blend_mode(BlendMode::Additive);

    start_frame(&mut stage, &mut buffers, &mut temps, (0, 0), &never);
    assert_eq!(stage.instance_count(), 0);
    assert_eq!(stage.get_blend_mode(), BlendMode::Normal);
    assert!(buffers.contains(key(1)));
    assert!(buffers.contains(key(2)));
    assert!(temps.contains(key(1)));
    buffers.retain(key(1), || "new".to_string());

    start_frame(&mut stage, &mut buffers, &mut temps, (0, 0), &never);
    assert_eq!(buffers.get(key(1)), Some(&"kept".to_string()));
    assert!(!buffers.contains(key(2)));
    assert!(!temps.contains(key(1)));

    start_frame(&mut stage, &mut buffers, &mut temps, (0, 0), &never);
    assert!(!buffers.contains(key(1)));
}
