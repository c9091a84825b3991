use bevy::asset::HandleId;
use bevy::asset::HandleUntyped;
use bevy_hanabi::cache::CacheError;
use bevy_hanabi::cache::Region;
use bevy_hanabi::EffectAsset;
use bevy_hanabi::EffectCache;
use bevy_hanabi::EffectCacheId;
use bevy_hanabi::Fixed;
use bevy_hanabi::Gradient;
use bevy_hanabi::ParticleEffect;
use bevy_hanabi::RandomSource;
use bevy_hanabi::SpawnMode;
use bevy_hanabi::Spawner;
use bevy_hanabi::Value;
use bevy_hanabi::Vector4;

fn handle(path: &str) -> HandleUntyped {
    HandleUntyped::weak(HandleId::from(path))
}

fn whole(n: i32) -> Fixed {
    Fixed::from_int(n)
}

fn rate(per_second: i32) -> Spawner {
    Spawner::new(SpawnMode::rate(Value::single(whole(per_second)))).unwrap()
}

#[test]
fn a_new_instance_has_no_storage_and_no_spawner() {
    let effect = ParticleEffect::new(handle("effects/sparks"));
    assert_eq!(*effect.handle(), handle("effects/sparks"));
    assert_ne!(*effect.handle(), handle("effects/smoke"));
    assert_eq!(effect.effect(), EffectCacheId::invalid());
    assert!(!effect.effect().is_valid());
    assert!(!effect.has_spawner());
}

#[test]
fn the_first_access_copies_the_spawner_of_the_asset() {
    let asset = EffectAsset::new("Sparks".to_string(), 64, rate(5));
    let mut effect = ParticleEffect::new(handle("effects/sparks"));
    assert_eq!(*effect.spawner(&asset.spawner), asset.spawner);
    assert!(effect.has_spawner());
}

#[test]
fn the_spawner_of_the_instance_is_its_own() {
    let mut rng = RandomSource::new(1);
    let asset = EffectAsset::new("Sparks".to_string(), 64, rate(5));
    let untouched = asset.spawner;
    let mut effect = ParticleEffect::new(handle("effects/sparks"));
    assert_eq!(effect.spawner(&asset.spawner).tick(Fixed::from_micros(150_000), &mut rng), 0);
    assert_eq!(asset.spawner, untouched);
    assert_ne!(*effect.spawner(&asset.spawner), asset.spawner);
    // the leftover of the first tick is still there at the second access
    assert_eq!(effect.spawner(&asset.spawner).tick(Fixed::from_micros(50_000), &mut rng), 1);
    assert_eq!(asset.spawner, untouched);
}

#[test]
fn later_accesses_ignore_the_spawner_given() {
    let mut rng = RandomSource::new(1);
    let mut effect = ParticleEffect::new(handle("effects/sparks"));
    let first = Spawner::new(SpawnMode::once(Value::single(whole(3)))).unwrap();
    let second = rate(1000);
    assert_eq!(*effect.spawner(&first), first);
    assert_eq!(*effect.spawner(&second), first);
    assert_eq!(effect.spawner(&second).tick(whole(1), &mut rng), 3);
    assert_eq!(effect.spawner(&second).tick(whole(1), &mut rng), 0);
}

#[test]
fn the_spawner_of_the_instance_can_be_replaced() {
    let mut effect = ParticleEffect::new(handle("effects/sparks"));
    *effect.spawner(&rate(5)) = rate(7);
    assert_eq!(*effect.spawner(&rate(5)), rate(7));
}

#[test]
fn a_copy_of_an_instance_takes_the_handle_given() {
    let mut rng = RandomSource::new(1);
    let mut cache = EffectCache::new(100);
    let mut effect = ParticleEffect::new(handle("effects/sparks"));
    let copy = effect.with_handle(handle("effects/sparks"));
    assert_eq!(copy.handle(), effect.handle());
    assert_eq!(copy.effect(), effect.effect());
    assert!(!copy.has_spawner());
    let once = Spawner::new(SpawnMode::once(Value::single(whole(3)))).unwrap();
    assert_eq!(effect.spawner(&once).tick(whole(1), &mut rng), 3);
    let id = effect.allocate(&mut cache, 10).unwrap();
    let mut late = effect.with_handle(handle("effects/smoke"));
    assert_eq!(*late.handle(), handle("effects/smoke"));
    assert_eq!(*effect.handle(), handle("effects/sparks"));
    assert_eq!(late.effect(), id);
    assert!(late.has_spawner());
    assert_eq!(late.spawner(&once).tick(whole(1), &mut rng), 0);
}

#[test]
fn an_instance_hands_its_handle_back() {
    let strong_or_weak = handle("effects/sparks");
    let effect = ParticleEffect::new(strong_or_weak.clone_weak());
    assert_eq!(effect.into_handle(), strong_or_weak);
}

#[test]
fn an_instance_without_a_compiled_asset_spawns_nothing() {
    let mut rng = RandomSource::new(1);
    let mut cache = EffectCache::new(100);
    let asset = EffectAsset::new("Sparks".to_string(), 64, rate(10));
    let mut effect = ParticleEffect::new(handle("effects/sparks"));
    assert_eq!(effect.advance(None, true, &mut cache, whole(1), &mut rng), 0);
    assert_eq!(effect.advance(None, false, &mut cache, whole(1), &mut rng), 0);
    assert_eq!(effect.advance(Some(&asset), false, &mut cache, whole(1), &mut rng), 0);
    assert_eq!(effect.effect(), EffectCacheId::invalid());
    assert!(!effect.has_spawner());
    assert_eq!(cache.used(), 0);
    assert_eq!(rng.state(), 1);
}

#[test]
fn an_instance_with_storage_ticks_its_spawner() {
    let mut rng = RandomSource::new(1);
    let mut cache = EffectCache::new(200);
    let asset = EffectAsset::new("Sparks".to_string(), 64, rate(10));
    let mut effect = ParticleEffect::new(handle("effects/sparks"));
    let dt = Fixed::from_micros(150_000);
    assert_eq!(effect.advance(Some(&asset), true, &mut cache, dt, &mut rng), 1);
    assert_eq!(cache.lookup(effect.effect()), Ok(Region { offset: 0, size: 64 }));
    assert!(effect.has_spawner());
    // the half particle that was left is carried to the next call
    let half = Fixed::from_micros(50_000);
    assert_eq!(effect.advance(Some(&asset), true, &mut cache, half, &mut rng), 1);
    assert_eq!(cache.used(), 64);
    assert_eq!(asset.spawner, rate(10));
    // a spawner of its own is used where the instance has one
    let mut tuned = ParticleEffect::new(handle("effects/sparks"));
    *tuned.spawner(&asset.spawner) = rate(20);
    assert_eq!(tuned.advance(Some(&asset), true, &mut cache, dt, &mut rng), 3);
    assert_eq!(cache.lookup(tuned.effect()), Ok(Region { offset: 64, size: 64 }));
    assert_eq!(cache.used(), 128);
}

#[test]
fn an_instance_that_is_refused_spawns_nothing_and_tries_again() {
    let mut rng = RandomSource::new(1);
    let mut cache = EffectCache::new(100);
    let asset = EffectAsset::new("Sparks".to_string(), 64, rate(10));
    let mut first = ParticleEffect::new(handle("effects/sparks"));
    let mut second = ParticleEffect::new(handle("effects/sparks"));
    assert_eq!(first.advance(Some(&asset), true, &mut cache, whole(1), &mut rng), 10);
    assert_eq!(second.advance(Some(&asset), true, &mut cache, whole(1), &mut rng), 0);
    assert_eq!(second.effect(), EffectCacheId::invalid());
    assert!(!second.has_spawner());
    // the first goes on while the second waits
    assert_eq!(first.advance(Some(&asset), true, &mut cache, whole(1), &mut rng), 10);
    first.release(&mut cache);
    assert_eq!(second.advance(Some(&asset), true, &mut cache, whole(1), &mut rng), 10);
    assert_eq!(cache.lookup(second.effect()), Ok(Region { offset: 0, size: 64 }));
    // an effect without capacity gets no storage either
    let nothing = EffectAsset::new("Nothing".to_string(), 0, rate(10));
    let mut third = ParticleEffect::new(handle("effects/nothing"));
    assert_eq!(third.advance(Some(&nothing), true, &mut cache, whole(1), &mut rng), 0);
    assert_eq!(third.effect(), EffectCacheId::invalid());
}

#[test]
fn two_instances_of_one_asset_do_not_share_a_spawner() {
    let mut rng = RandomSource::new(1);
    let asset = EffectAsset::new("Sparks".to_string(), 64, rate(10));
    let mut a = ParticleEffect::new(handle("effects/sparks"));
    let mut b = ParticleEffect::new(handle("effects/sparks"));
    assert_eq!(a.spawner(&asset.spawner).tick(Fixed::from_micros(50_000), &mut rng), 0);
    assert_eq!(b.spawner(&asset.spawner).tick(Fixed::from_micros(50_000), &mut rng), 0);
    assert_eq!(a.spawner(&asset.spawner).tick(Fixed::from_micros(50_000), &mut rng), 1);
    assert_eq!(b.spawner(&asset.spawner).tick(Fixed::from_micros(50_000), &mut rng), 1);
}

#[test]
fn an_instance_gets_its_storage_from_the_cache() {
    let mut cache = EffectCache::new(100);
    let mut effect = ParticleEffect::new(handle("effects/sparks"));
    let id = effect.allocate(&mut cache, 64).unwrap();
    assert_eq!(effect.effect(), id);
    assert_eq!(cache.lookup(id), Ok(Region { offset: 0, size: 64 }));
    // a second call keeps what the instance has
    assert_eq!(effect.allocate(&mut cache, 10), Ok(id));
    assert_eq!(cache.used(), 64);
    effect.release(&mut cache);
    assert_eq!(effect.effect(), EffectCacheId::invalid());
    assert_eq!(cache.lookup(id), Err(CacheError::NotFound));
    effect.release(&mut cache);
    assert_eq!(effect.effect(), EffectCacheId::invalid());
}

#[test]
fn an_instance_that_is_refused_can_try_again() {
    let mut cache = EffectCache::new(100);
    let mut first = ParticleEffect::new(handle("effects/sparks"));
    let mut second = ParticleEffect::new(handle("effects/smoke"));
    first.allocate(&mut cache, 64).unwrap();
    assert_eq!(second.allocate(&mut cache, 64), Err(CacheError::OutOfStorage));
    assert_eq!(second.effect(), EffectCacheId::invalid());
    assert_eq!(cache.lookup(second.effect()), Err(CacheError::NotFound));
    assert!(cache.lookup(first.effect()).is_ok());
    first.release(&mut cache);
    let id = second.allocate(&mut cache, 64).unwrap();
    assert_eq!(second.effect(), id);
    assert_eq!(cache.lookup(id), Ok(Region { offset: 0, size: 64 }));
    assert_eq!(cache.used(), 64);
}

#[test]
fn five_per_second_and_a_gradient_from_red_to_nothing() {
    let mut rng = RandomSource::new(1);
    let mut gradient = Gradient::new();
    gradient.add_key(whole(0), Vector4::new(whole(1), whole(0), whole(0), whole(1))).unwrap();
    gradient.add_key(whole(1), Vector4::splat(whole(0))).unwrap();
    let mut spawner = rate(5);
    let mut total = 0;
    for _ in 0..10 {
        total += spawner.tick(Fixed::from_micros(100_000), &mut rng);
    }
    assert_eq!(total, 5);
    let half = Fixed::from_micros(500_000);
    assert_eq!(gradient.sample(half), Ok(Vector4::new(half, whole(0), whole(0), half)));
}
