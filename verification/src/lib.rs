//! Compilation and scheduling core of a GPU particle system.
//!
//! An effect is described once, as an [`EffectAsset`]: a capacity, a spawner
//! and three ordered lists of modifiers. From that description the library
//! computes
//!
//! - how many particles to emit at each tick ([`Spawner`]),
//! - the shader source of each stage ([`EffectAsset::compile`]), and
//! - where the particles of each live instance lie in the shared store
//!   ([`EffectCache`]).
//!
//! Every number is an exact decimal ([`Fixed`]), so that a schedule and a
//! shader can be reproduced bit for bit.

use vstd::prelude::*;
use bevy::asset::HandleUntyped;

pub mod asset;
pub mod blocks;
pub mod cache;
pub mod format;
pub mod gradient;
pub mod modifiers;
pub mod number;
pub mod random;
pub mod spawn;

pub use asset::EffectAsset;
pub use cache::EffectCache;
pub use cache::EffectCacheId;
pub use gradient::Gradient;
pub use gradient::GradientKey;
pub use modifiers::AccelModifier;
pub use modifiers::ColorOverLifetimeModifier;
pub use modifiers::InitModifier;
pub use modifiers::ParticleTextureModifier;
pub use modifiers::PositionCircleModifier;
pub use modifiers::PositionSphereModifier;
pub use modifiers::RenderModifier;
pub use modifiers::ShapeDimension;
pub use modifiers::SizeOverLifetimeModifier;
pub use modifiers::UpdateModifier;
pub use number::Fixed;
pub use number::Vector3;
pub use number::Vector4;
pub use random::RandomSource;
pub use spawn::SpawnMode;
pub use spawn::Spawner;
pub use spawn::Value;

use cache::CacheError;
use cache::INVALID_INDEX;
use cache::allocate_spec;
use cache::is_live;
use cache::release_spec;
use spawn::SpawnerState;
use spawn::Tick;
use spawn::tick_spec;

verus! {

/// `bevy::asset::HandleUntyped`, the engine's handle to an asset of any
/// type. The library holds the handle of an instance and hands it back; it
/// never looks inside, and nothing is claimed of it.
#[verifier::external_type_specification]
#[verifier::external_body]
pub struct ExHandleUntyped(bevy::asset::HandleUntyped);

/// What an instance of an effect holds.
pub struct EffectInstance {
    /// The effect that is instantiated.
    pub handle: HandleUntyped,
    /// The region of the store that holds the particles of the instance.
    pub effect: EffectCacheId,
    /// The spawner of the instance, once it has one of its own.
    pub spawner: Option<SpawnerState>,
}

/// Visual effect made of particles.
///
/// The particle effect represents a single instance of a visual effect. The
/// effect itself is described by an asset, which the instance names by its
/// handle. The instance has no storage until the cache gives it some, and
/// shares the spawner of its asset until it asks for one of its own.
///
/// An instance is copied with [`ParticleEffect::with_handle`]: the copy
/// needs a handle of its own, which only the engine can make.
#[derive(Debug)]
pub struct ParticleEffect {
    /// Handle of the effect to instantiate.
    handle: HandleUntyped,
    /// Cache id of the effect once allocated.
    effect: EffectCacheId,
    /// Particle spawning descriptor.
    spawner: Option<Spawner>,
}

impl View for ParticleEffect {
    type V = EffectInstance;

    closed spec fn view(&self) -> EffectInstance {
        EffectInstance {
            handle: self.handle,
            effect: self.effect,
            spawner: match self.spawner {
                Some(s) => Some(s@),
                None => None,
            },
        }
    }
}

/// The spawner that ticks for an instance: its own where it has one, else
/// the one of its asset.
pub open spec fn spawner_of(instance: EffectInstance, asset: SpawnerState) -> SpawnerState {
    match instance.spawner {
        Some(own) => own,
        None => asset,
    }
}

impl ParticleEffect {
    /// Create a new particle effect without storage and without a spawner
    /// of its own.
    pub fn new(handle: HandleUntyped) -> (e: ParticleEffect)
        ensures
            e@ == (EffectInstance {
                handle,
                effect: EffectCacheId { index: INVALID_INDEX, generation: 0 },
                spawner: None,
            }),
    {
        ParticleEffect { handle, effect: EffectCacheId::invalid(), spawner: None }
    }

    /// A copy of the instance that names its asset by `handle`: the same
    /// cache id and the same spawner, with the handle given.
    pub fn with_handle(&self, handle: HandleUntyped) -> (c: ParticleEffect)
        ensures
            c@ == (EffectInstance { handle, ..self@ }),
    {
        ParticleEffect { handle, effect: self.effect, spawner: self.spawner }
    }

    /// Gives up the instance and hands its handle back.
    pub fn into_handle(self) -> (h: HandleUntyped)
        ensures
            h == self@.handle,
    {
        self.handle
    }

    /// The handle of the effect that is instantiated.
    pub fn handle(&self) -> (h: &HandleUntyped)
        ensures
            *h == self@.handle,
    {
        &self.handle
    }

    /// The cache id of the instance; invalid until storage is allocated.
    pub fn effect(&self) -> (id: EffectCacheId)
        ensures
            id == self@.effect,
    {
        self.effect
    }

    /// Whether the instance has a spawner of its own.
    pub fn has_spawner(&self) -> (b: bool)
        ensures
            b == self@.spawner is Some,
    {
        self.spawner.is_some()
    }

    /// The spawner of the instance.
    ///
    /// The first call gives the instance a copy of `spawner`, which is the
    /// spawner of its asset; every call returns the spawner of the instance.
    /// What is done to it stays with the instance: the spawner of the asset
    /// is never changed.
    pub fn spawner(&mut self, spawner: &Spawner) -> (own: &mut Spawner)
        ensures
            own@ == (match old(self)@.spawner {
                Some(s) => s,
                None => spawner@,
            }),
            final(self)@ == (EffectInstance { spawner: Some(final(own)@), ..old(self)@ }),
    {
        if self.spawner.is_none() {
            self.spawner = Some(*spawner);
        }
        self.spawner.as_mut().unwrap()
    }

    /// Claims storage for `capacity` particles from `cache`, unless the
    /// instance has some already. Where the cache refuses, the instance
    /// stays without storage and the call can be tried again later.
    pub fn allocate(&mut self, cache: &mut EffectCache, capacity: u32) -> (r: Result<
        EffectCacheId,
        CacheError,
    >)
        ensures
            final(self)@.handle == old(self)@.handle,
            final(self)@.spawner == old(self)@.spawner,
            is_live(old(cache)@, old(self)@.effect) ==> r == Ok::<EffectCacheId, CacheError>(
                old(self)@.effect,
            ) && final(cache)@ == old(cache)@ && final(self)@ == old(self)@,
            !is_live(old(cache)@, old(self)@.effect) ==> allocate_spec(
                old(cache)@,
                capacity as nat,
            ) == (cache::Allocation { state: final(cache)@, result: r }),
            !is_live(old(cache)@, old(self)@.effect) ==> final(self)@.effect == (match r {
                Ok(id) => id,
                Err(_) => EffectCacheId { index: INVALID_INDEX, generation: 0 },
            }),
    {
        if cache.lookup(self.effect).is_ok() {
            return Ok(self.effect);
        }
        match cache.allocate(capacity) {
            Ok(id) => {
                self.effect = id;
                Ok(id)
            },
            Err(e) => {
                self.effect = EffectCacheId::invalid();
                Err(e)
            },
        }
    }

    /// Gives the storage of the instance back to `cache`. The instance is
    /// without storage afterwards, whether it had some or not.
    pub fn release(&mut self, cache: &mut EffectCache)
        ensures
            final(cache)@ == release_spec(old(cache)@, old(self)@.effect),
            final(self)@ == (EffectInstance {
                effect: EffectCacheId { index: INVALID_INDEX, generation: 0 },
                ..old(self)@
            }),
    {
        let _ = cache.release(self.effect);
        self.effect = EffectCacheId::invalid();
    }

    /// Advances the instance by `dt` seconds and returns the number of
    /// particles to spawn now.
    ///
    /// An instance whose asset is not there, or did not compile, spawns
    /// nothing and is left as it was. Else the instance claims its storage
    /// from `cache` where it has none: an instance that is refused spawns
    /// nothing, stays without storage and tries again at the next call. An
    /// instance with storage ticks its spawner, which is a copy of the one
    /// of its asset until it has one of its own.
    pub fn advance(
        &mut self,
        asset: Option<&EffectAsset>,
        compiled: bool,
        cache: &mut EffectCache,
        dt: Fixed,
        rng: &mut RandomSource,
    ) -> (count: u32)
        ensures
            final(self)@.handle == old(self)@.handle,
            asset is None || !compiled ==> {
                &&& count == 0
                &&& final(self)@ == old(self)@
                &&& final(cache)@ == old(cache)@
                &&& final(rng)@ == old(rng)@
            },
            asset is Some && compiled && is_live(old(cache)@, old(self)@.effect) ==> {
                let a = asset->Some_0;
                &&& final(cache)@ == old(cache)@
                &&& final(self)@.effect == old(self)@.effect
                &&& final(self)@.spawner is Some
                &&& tick_spec(spawner_of(old(self)@, a@.spawner), dt@, old(rng)@) == (Tick {
                    state: final(self)@.spawner->Some_0,
                    count: count as nat,
                    rng: final(rng)@,
                })
            },
            asset is Some && compiled && !is_live(old(cache)@, old(self)@.effect) ==> {
                let a = asset->Some_0;
                let allocation = allocate_spec(old(cache)@, a@.capacity as nat);
                &&& final(cache)@ == allocation.state
                &&& allocation.result is Err ==> {
                    &&& count == 0
                    &&& final(self)@.effect == (EffectCacheId {
                        index: INVALID_INDEX,
                        generation: 0,
                    })
                    &&& final(self)@.spawner == old(self)@.spawner
                    &&& final(rng)@ == old(rng)@
                }
                &&& allocation.result matches Ok(id) ==> {
                    &&& final(self)@.effect == id
                    &&& final(self)@.spawner is Some
                    &&& tick_spec(spawner_of(old(self)@, a@.spawner), dt@, old(rng)@) == (Tick {
                        state: final(self)@.spawner->Some_0,
                        count: count as nat,
                        rng: final(rng)@,
                    })
                }
            },
    {
        let description = match asset {
            Some(a) => a,
            None => {
                return 0;
            },
        };
        if !compiled {
            return 0;
        }
        if self.allocate(cache, description.capacity).is_err() {
            return 0;
        }
        let own = self.spawner(&description.spawner);
        own.tick(dt, rng)
    }
}

} // verus!
