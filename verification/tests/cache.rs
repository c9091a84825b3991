use bevy_hanabi::cache::CacheError;
use bevy_hanabi::cache::Region;
use bevy_hanabi::EffectCache;
use bevy_hanabi::EffectCacheId;

#[test]
fn a_new_cache_is_empty() {
    let cache = EffectCache::new(1000);
    assert_eq!(cache.budget(), 1000);
    assert_eq!(cache.used(), 0);
}

#[test]
fn the_invalid_id_names_no_region() {
    let mut cache = EffectCache::new(1000);
    let invalid = EffectCacheId::invalid();
    assert!(!invalid.is_valid());
    assert_eq!(cache.lookup(invalid), Err(CacheError::NotFound));
    assert_eq!(cache.release(invalid), Err(CacheError::NotFound));
    let id = cache.allocate(10).unwrap();
    assert!(id.is_valid());
    assert_ne!(id, invalid);
    assert_eq!(cache.lookup(invalid), Err(CacheError::NotFound));
    assert_eq!(cache.release(invalid), Err(CacheError::NotFound));
    assert_eq!(cache.lookup(id), Ok(Region { offset: 0, size: 10 }));
}

#[test]
fn regions_lie_one_after_the_other() {
    let mut cache = EffectCache::new(1000);
    let a = cache.allocate(100).unwrap();
    let b = cache.allocate(50).unwrap();
    let c = cache.allocate(200).unwrap();
    assert_eq!(cache.lookup(a), Ok(Region { offset: 0, size: 100 }));
    assert_eq!(cache.lookup(b), Ok(Region { offset: 100, size: 50 }));
    assert_eq!(cache.lookup(c), Ok(Region { offset: 150, size: 200 }));
    assert_eq!(cache.used(), 350);
    assert!(a != b && b != c && a != c);
}

#[test]
fn a_released_region_is_used_again() {
    let mut cache = EffectCache::new(1000);
    let first = cache.allocate(100).unwrap();
    let region = cache.lookup(first).unwrap();
    assert_eq!(cache.used(), 100);
    assert_eq!(cache.release(first), Ok(()));
    assert_eq!(cache.used(), 100);
    let second = cache.allocate(100).unwrap();
    assert_eq!(cache.lookup(second), Ok(region));
    assert_eq!(cache.used(), 100);
    assert_ne!(first, second);
}

#[test]
fn allocating_and_releasing_again_and_again_does_not_grow_the_store() {
    let mut cache = EffectCache::new(100);
    for _ in 0..10_000 {
        let id = cache.allocate(100).unwrap();
        assert_eq!(cache.lookup(id), Ok(Region { offset: 0, size: 100 }));
        assert_eq!(cache.release(id), Ok(()));
        assert_eq!(cache.used(), 100);
    }
}

#[test]
fn beyond_the_budget_the_cache_refuses() {
    let mut cache = EffectCache::new(250);
    let a = cache.allocate(100).unwrap();
    let b = cache.allocate(100).unwrap();
    assert_eq!(cache.allocate(51), Err(CacheError::OutOfStorage));
    assert_eq!(cache.allocate(u32::MAX), Err(CacheError::OutOfStorage));
    assert_eq!(cache.used(), 200);
    assert_eq!(cache.lookup(a), Ok(Region { offset: 0, size: 100 }));
    assert_eq!(cache.lookup(b), Ok(Region { offset: 100, size: 100 }));
    let c = cache.allocate(50).unwrap();
    assert_eq!(cache.lookup(c), Ok(Region { offset: 200, size: 50 }));
    assert_eq!(cache.allocate(1), Err(CacheError::OutOfStorage));
    // after a release the same request succeeds
    assert_eq!(cache.release(a), Ok(()));
    let d = cache.allocate(1).unwrap();
    assert_eq!(cache.lookup(d), Ok(Region { offset: 0, size: 100 }));
    assert_eq!(cache.used(), 250);
}

#[test]
fn a_cache_without_budget_refuses_everything() {
    let mut cache = EffectCache::new(0);
    assert_eq!(cache.allocate(1), Err(CacheError::OutOfStorage));
    assert_eq!(cache.allocate(0), Err(CacheError::ZeroCapacity));
    assert_eq!(cache.used(), 0);
}

#[test]
fn the_whole_budget_can_be_one_region() {
    let mut cache = EffectCache::new(u32::MAX);
    let id = cache.allocate(u32::MAX).unwrap();
    assert_eq!(cache.lookup(id), Ok(Region { offset: 0, size: u32::MAX }));
    assert_eq!(cache.used(), u32::MAX);
    assert_eq!(cache.allocate(1), Err(CacheError::OutOfStorage));
}

#[test]
fn a_region_for_no_particle_is_refused() {
    let mut cache = EffectCache::new(1000);
    assert_eq!(cache.allocate(0), Err(CacheError::ZeroCapacity));
    assert_eq!(cache.used(), 0);
}

#[test]
fn a_released_id_is_not_found_again() {
    let mut cache = EffectCache::new(1000);
    let first = cache.allocate(100).unwrap();
    assert_eq!(cache.release(first), Ok(()));
    assert_eq!(cache.lookup(first), Err(CacheError::NotFound));
    assert_eq!(cache.release(first), Err(CacheError::NotFound));
    let second = cache.allocate(100).unwrap();
    assert_eq!(second.index, first.index);
    assert_eq!(second.generation, first.generation + 1);
    assert_eq!(cache.lookup(first), Err(CacheError::NotFound));
    assert_eq!(cache.release(first), Err(CacheError::NotFound));
    assert_eq!(cache.lookup(second), Ok(Region { offset: 0, size: 100 }));
    assert_eq!(cache.release(second), Ok(()));
    assert_eq!(cache.lookup(second), Err(CacheError::NotFound));
}

#[test]
fn an_id_that_was_never_given_is_not_found() {
    let mut cache = EffectCache::new(1000);
    let id = cache.allocate(100).unwrap();
    let other_index = EffectCacheId { index: id.index + 1, generation: id.generation };
    let other_generation = EffectCacheId { index: id.index, generation: id.generation + 1 };
    assert_eq!(cache.lookup(other_index), Err(CacheError::NotFound));
    assert_eq!(cache.lookup(other_generation), Err(CacheError::NotFound));
    assert_eq!(cache.release(other_index), Err(CacheError::NotFound));
    assert_eq!(cache.release(other_generation), Err(CacheError::NotFound));
    assert_eq!(cache.lookup(id), Ok(Region { offset: 0, size: 100 }));
}

#[test]
fn the_smallest_free_region_that_fits_is_taken() {
    let mut cache = EffectCache::new(1000);
    let a = cache.allocate(100).unwrap();
    let b = cache.allocate(50).unwrap();
    let c = cache.allocate(200).unwrap();
    let d = cache.allocate(60).unwrap();
    for id in [a, b, c, d] {
        cache.release(id).unwrap();
    }
    let x = cache.allocate(55).unwrap();
    assert_eq!(cache.lookup(x), Ok(Region { offset: 350, size: 60 }));
    let y = cache.allocate(55).unwrap();
    assert_eq!(cache.lookup(y), Ok(Region { offset: 0, size: 100 }));
    let z = cache.allocate(50).unwrap();
    assert_eq!(cache.lookup(z), Ok(Region { offset: 100, size: 50 }));
    let w = cache.allocate(1).unwrap();
    assert_eq!(cache.lookup(w), Ok(Region { offset: 150, size: 200 }));
    assert_eq!(cache.used(), 410);
    let v = cache.allocate(1).unwrap();
    assert_eq!(cache.lookup(v), Ok(Region { offset: 410, size: 1 }));
}

#[test]
fn of_equally_small_regions_the_first_is_taken() {
    let mut cache = EffectCache::new(1000);
    let a = cache.allocate(80).unwrap();
    let b = cache.allocate(80).unwrap();
    let c = cache.allocate(80).unwrap();
    cache.release(c).unwrap();
    cache.release(b).unwrap();
    cache.release(a).unwrap();
    let x = cache.allocate(80).unwrap();
    assert_eq!(cache.lookup(x), Ok(Region { offset: 0, size: 80 }));
    let y = cache.allocate(10).unwrap();
    assert_eq!(cache.lookup(y), Ok(Region { offset: 80, size: 80 }));
    let z = cache.allocate(80).unwrap();
    assert_eq!(cache.lookup(z), Ok(Region { offset: 160, size: 80 }));
}

#[test]
fn a_free_region_that_is_too_small_is_passed_over() {
    let mut cache = EffectCache::new(300);
    let a = cache.allocate(100).unwrap();
    cache.release(a).unwrap();
    let b = cache.allocate(101).unwrap();
    assert_eq!(cache.lookup(b), Ok(Region { offset: 100, size: 101 }));
    assert_eq!(cache.used(), 201);
    assert_eq!(cache.allocate(101), Err(CacheError::OutOfStorage));
    let c = cache.allocate(99).unwrap();
    assert_eq!(cache.lookup(c), Ok(Region { offset: 0, size: 100 }));
}

#[test]
fn live_regions_share_no_particle() {
    let mut cache = EffectCache::new(10_000);
    let mut live: Vec<EffectCacheId> = Vec::new();
    let mut seed: u32 = 12345;
    for round in 0..400 {
        seed = seed.wrapping_mul(1664525).wrapping_add(1013904223);
        if round % 3 == 2 && !live.is_empty() {
            let id = live.remove((seed >> 8) as usize % live.len());
            assert_eq!(cache.release(id), Ok(()));
        } else if let Ok(id) = cache.allocate(1 + (seed >> 8) % 300) {
            live.push(id);
        }
        let mut regions: Vec<Region> = live.iter().map(|id| cache.lookup(*id).unwrap()).collect();
        regions.sort_by_key(|r| r.offset);
        for pair in regions.windows(2) {
            assert!(pair[0].offset + pair[0].size <= pair[1].offset);
        }
        if let Some(last) = regions.last() {
            assert!(last.offset + last.size <= cache.used());
        }
        assert!(cache.used() <= cache.budget());
    }
}
