//! Shared particle storage, handed out in regions.
//!
//! The cache lays regions out one after the other in a store of a fixed
//! budget, counted in particles. A region that is released keeps its place
//! and can be handed out again; of the free regions that are large enough the
//! smallest is taken, and the first of those where several are equally small.
//! Only when none fits does the store grow.
//!
//! An id names a region together with the generation it was handed out in,
//! so that an id that was released is never taken for a later one.

use vstd::prelude::*;

verus! {

/// Names an allocated region. The id that [`EffectCacheId::invalid`] gives
/// names none.
#[derive(Clone, Copy, Debug, PartialEq, Eq, Hash, Structural)]
pub struct EffectCacheId {
    pub index: u32,
    pub generation: u32,
}

/// What a region of the store is used for.
#[derive(Clone, Copy, Debug, PartialEq, Eq, Structural)]
pub enum SlotState {
    /// Handed out.
    Live,
    /// Released, and ready to be handed out again.
    Free,
    /// Released for the last time: its generations are used up.
    Retired,
}

/// One region of the store and its bookkeeping.
#[derive(Clone, Copy, Debug, PartialEq, Eq, Structural)]
pub struct Slot {
    /// Index of the first particle of the region.
    pub offset: u32,
    /// Number of particles the region holds.
    pub size: u32,
    /// How often the region was released.
    pub generation: u32,
    pub state: SlotState,
}

/// Where a region lies in the store.
#[derive(Clone, Copy, Debug, PartialEq, Eq, Structural)]
pub struct Region {
    /// Index of the first particle of the region.
    pub offset: u32,
    /// Number of particles the region holds.
    pub size: u32,
}

/// Why the cache could not do what was asked.
#[derive(Clone, Copy, Debug, PartialEq, Eq, Structural)]
pub enum CacheError {
    /// A region for no particle was asked for.
    ZeroCapacity,
    /// No free region is large enough, and the budget does not allow a new one.
    OutOfStorage,
    /// The id names no region that is handed out now.
    NotFound,
}

/// The regions of a cache and the budget they share.
pub struct CacheState {
    pub budget: nat,
    pub slots: Seq<Slot>,
}

/// What an allocation leaves behind.
pub struct Allocation {
    pub state: CacheState,
    pub result: Result<EffectCacheId, CacheError>,
}

/// The index that no region has.
pub const INVALID_INDEX: u32 = 0xffff_ffff;

/// The particles of the store that belong to a region, live or not.
pub open spec fn used(slots: Seq<Slot>) -> nat {
    if slots.len() == 0 {
        0
    } else {
        (slots.last().offset + slots.last().size) as nat
    }
}

/// The regions are not empty and lie one after the other from the start of
/// the store.
pub open spec fn slots_valid(slots: Seq<Slot>) -> bool {
    &&& forall|i: int|
        0 <= i < slots.len() ==> (#[trigger] slots[i]).size > 0 && i <= slots[i].offset
    &&& slots.len() > 0 ==> slots[0].offset == 0
    &&& forall|i: int, j: int|
        0 <= i && j == i + 1 && j < slots.len() ==> (#[trigger] slots[j]).offset == (
        #[trigger] slots[i]).offset + slots[i].size
}

/// The states a cache can be in.
pub open spec fn state_valid(c: CacheState) -> bool {
    slots_valid(c.slots) && used(c.slots) <= c.budget <= u32::MAX
}

/// The id names a region that is handed out, in the generation of the id.
pub open spec fn is_live(c: CacheState, id: EffectCacheId) -> bool {
    &&& id.index < c.slots.len()
    &&& c.slots[id.index as int].state is Live
    &&& c.slots[id.index as int].generation == id.generation
}

/// The id was released: its region is in a later generation, or retired.
pub open spec fn is_stale(c: CacheState, id: EffectCacheId) -> bool {
    &&& id.index < c.slots.len()
    &&& (id.generation < c.slots[id.index as int].generation || c.slots[id.index as int].state
        is Retired)
}

/// The region of a slot.
pub open spec fn region_of(slot: Slot) -> Region {
    Region { offset: slot.offset, size: slot.size }
}

/// The slot is free and holds `capacity` particles.
pub open spec fn fits(slot: Slot, capacity: nat) -> bool {
    slot.state is Free && slot.size >= capacity
}

/// Some free region holds `capacity` particles.
pub open spec fn has_fit(slots: Seq<Slot>, capacity: nat) -> bool {
    exists|i: int| 0 <= i < slots.len() && fits(#[trigger] slots[i], capacity)
}

/// Slot `i` is the smallest free region that holds `capacity` particles, and
/// the first of the smallest.
pub open spec fn is_best_fit(slots: Seq<Slot>, capacity: nat, i: int) -> bool {
    &&& 0 <= i < slots.len()
    &&& fits(slots[i], capacity)
    &&& forall|j: int|
        0 <= j < slots.len() && fits(#[trigger] slots[j], capacity) ==> slots[i].size
            < slots[j].size || (slots[i].size == slots[j].size && i <= j)
}

/// The slot that an allocation of `capacity` particles takes, where one fits.
pub open spec fn best_fit(slots: Seq<Slot>, capacity: nat) -> int {
    choose|i: int| is_best_fit(slots, capacity, i)
}

/// An allocation of `capacity` particles: the best free region where one
/// fits, else a new region behind the others where the budget allows it.
pub open spec fn allocate_spec(c: CacheState, capacity: nat) -> Allocation {
    if capacity == 0 {
        Allocation { state: c, result: Err(CacheError::ZeroCapacity) }
    } else if has_fit(c.slots, capacity) {
        let i = best_fit(c.slots, capacity);
        Allocation {
            state: CacheState {
                slots: c.slots.update(i, Slot { state: SlotState::Live, ..c.slots[i] }),
                ..c
            },
            result: Ok(EffectCacheId { index: i as u32, generation: c.slots[i].generation }),
        }
    } else if used(c.slots) + capacity <= c.budget {
        Allocation {
            state: CacheState {
                slots: c.slots.push(
                    Slot {
                        offset: used(c.slots) as u32,
                        size: capacity as u32,
                        generation: 0,
                        state: SlotState::Live,
                    },
                ),
                ..c
            },
            result: Ok(EffectCacheId { index: c.slots.len() as u32, generation: 0 }),
        }
    } else {
        Allocation { state: c, result: Err(CacheError::OutOfStorage) }
    }
}

/// The slot after its release: free in the next generation, or retired when
/// there is no next generation.
pub open spec fn released(slot: Slot) -> Slot {
    if slot.generation == u32::MAX {
        Slot { state: SlotState::Retired, ..slot }
    } else {
        Slot { state: SlotState::Free, generation: (slot.generation + 1) as u32, ..slot }
    }
}

/// The release of `id`; nothing changes where the id is not live.
pub open spec fn release_spec(c: CacheState, id: EffectCacheId) -> CacheState {
    if is_live(c, id) {
        CacheState {
            slots: c.slots.update(id.index as int, released(c.slots[id.index as int])),
            ..c
        }
    } else {
        c
    }
}

impl EffectCacheId {
    /// The id that names no region.
    pub fn invalid() -> (id: EffectCacheId)
        ensures
            id.index == INVALID_INDEX,
            id.generation == 0,
    {
        EffectCacheId { index: INVALID_INDEX, generation: 0 }
    }

    /// Whether the id can name a region at all.
    pub fn is_valid(&self) -> (b: bool)
        ensures
            b == (self.index != INVALID_INDEX),
    {
        self.index != INVALID_INDEX
    }
}

/// The store of particle regions.
#[derive(Debug, PartialEq, Eq)]
pub struct EffectCache {
    budget: u32,
    slots: Vec<Slot>,
}

impl View for EffectCache {
    type V = CacheState;

    closed spec fn view(&self) -> CacheState {
        CacheState { budget: self.budget as nat, slots: self.slots@ }
    }
}

impl EffectCache {
    /// The cache is in one of its states.
    #[verifier::type_invariant]
    spec fn checked(self) -> bool {
        state_valid(self@)
    }

    /// The cache without regions, for a store of `budget` particles.
    pub fn new(budget: u32) -> (c: EffectCache)
        ensures
            state_valid(c@),
            c@.budget == budget,
            c@.slots.len() == 0,
    {
        EffectCache { budget, slots: Vec::new() }
    }

    /// Takes the regions out of the cache, which is left without any.
    fn take_slots(&mut self) -> (slots: Vec<Slot>)
        ensures
            slots@ == old(self)@.slots,
            state_valid(old(self)@),
            final(self)@ == (CacheState { budget: old(self)@.budget, slots: Seq::empty() }),
    {
        proof {
            use_type_invariant(&*self);
        }
        let mut taken = EffectCache { budget: self.budget, slots: Vec::new() };
        core::mem::swap(self, &mut taken);
        let EffectCache { budget: _, slots } = taken;
        slots
    }

    /// The number of particles the store may hold.
    pub fn budget(&self) -> (b: u32)
        ensures
            b == self@.budget,
    {
        self.budget
    }

    /// The number of particles that belong to a region, live or not.
    pub fn used(&self) -> (n: u32)
        ensures
            n == used(self@.slots),
            state_valid(self@),
    {
        proof {
            use_type_invariant(self);
        }
        let len = self.slots.len();
        if len == 0 {
            0
        } else {
            self.slots[len - 1].offset + self.slots[len - 1].size
        }
    }

    /// The free region that an allocation of `capacity` particles takes.
    fn find_fit(&self, capacity: u32) -> (found: Option<usize>)
        ensures
            found is None ==> !has_fit(self@.slots, capacity as nat),
            found matches Some(i) ==> is_best_fit(self@.slots, capacity as nat, i as int),
    {
        let mut found: Option<usize> = None;
        let mut i: usize = 0;
        while i < self.slots.len()
            invariant
                i <= self.slots@.len(),
                found is None ==> forall|j: int|
                    0 <= j < i ==> !fits(#[trigger] self.slots@[j], capacity as nat),
                found matches Some(b) ==> b < i && is_best_fit(
                    self.slots@.take(i as int),
                    capacity as nat,
                    b as int,
                ),
            decreases self.slots@.len() - i,
        {
            let slot = self.slots[i];
            let ghost head = self.slots@.take(i as int);
            let ghost next = self.slots@.take(i + 1);
            let mut better = false;
            if slot.state == SlotState::Free && slot.size >= capacity {
                better = match found {
                    None => true,
                    Some(b) => slot.size < self.slots[b].size,
                };
            }
            proof {
                assert forall|j: int| 0 <= j < i implies next[j] == head[j] by {}
                assert(next[i as int] == self.slots@[i as int]);
            }
            if better {
                proof {
                    assert forall|j: int|
                        0 <= j < next.len() && fits(
                            #[trigger] next[j],
                            capacity as nat,
                        ) implies next[i as int].size < next[j].size || (next[i as int].size
                        == next[j].size && i <= j) by {
                        if j < i {
                            assert(fits(head[j], capacity as nat));
                            if found is None {
                                assert(!fits(self.slots@[j], capacity as nat));
                            }
                        }
                    }
                }
                found = Some(i);
            } else {
                proof {
                    if let Some(b) = found {
                        assert forall|j: int|
                            0 <= j < next.len() && fits(
                                #[trigger] next[j],
                                capacity as nat,
                            ) implies next[b as int].size < next[j].size || (next[b as int].size
                            == next[j].size && b <= j) by {
                            if j < i {
                                assert(fits(head[j], capacity as nat));
                            }
                        }
                    }
                }
            }
            i = i + 1;
        }
        proof {
            assert(self.slots@.take(i as int) =~= self.slots@);
        }
        found
    }

    /// Claims a region for `capacity` particles and returns its id.
    ///
    /// The smallest free region that is large enough is taken, the first of
    /// them where several are equally small. Where none fits, a new region is
    /// laid behind the others. Where the budget does not allow that, nothing
    /// changes and the answer is `OutOfStorage`.
    pub fn allocate(&mut self, capacity: u32) -> (r: Result<EffectCacheId, CacheError>)
        ensures
            state_valid(old(self)@),
            state_valid(final(self)@),
            allocate_spec(old(self)@, capacity as nat) == (Allocation {
                state: final(self)@,
                result: r,
            }),
    {
        proof {
            use_type_invariant(&*self);
        }
        if capacity == 0 {
            return Err(CacheError::ZeroCapacity);
        }
        let ghost before = self@;
        let budget = self.budget;
        match self.find_fit(capacity) {
            Some(i) => {
                proof {
                    lemma_best_fit_is_one(before.slots, capacity as nat, i as int);
                }
                let slot = self.slots[i];
                let taken = Slot { state: SlotState::Live, ..slot };
                let mut slots = self.take_slots();
                slots.set(i, taken);
                proof {
                    lemma_update_keeps_layout(before.slots, i as int, taken);
                }
                *self = EffectCache { budget, slots };
                Ok(EffectCacheId { index: i as u32, generation: slot.generation })
            },
            None => {
                let start = self.used();
                if capacity > budget - start {
                    return Err(CacheError::OutOfStorage);
                }
                let index = self.slots.len();
                let slot = Slot {
                    offset: start,
                    size: capacity,
                    generation: 0,
                    state: SlotState::Live,
                };
                proof {
                    lemma_push_keeps_layout(before.slots, slot);
                }
                let mut slots = self.take_slots();
                slots.push(slot);
                *self = EffectCache { budget, slots };
                Ok(EffectCacheId { index: index as u32, generation: 0 })
            },
        }
    }

    /// Gives the region of `id` back. The region keeps its place and can be
    /// handed out again; the id is stale from now on.
    pub fn release(&mut self, id: EffectCacheId) -> (r: Result<(), CacheError>)
        ensures
            state_valid(old(self)@),
            state_valid(final(self)@),
            final(self)@ == release_spec(old(self)@, id),
            is_live(old(self)@, id) ==> r == Ok::<(), CacheError>(()) && is_stale(final(self)@, id),
            !is_live(old(self)@, id) ==> r == Err::<(), CacheError>(CacheError::NotFound),
    {
        proof {
            use_type_invariant(&*self);
        }
        let ghost before = self@;
        if (id.index as usize) >= self.slots.len() {
            return Err(CacheError::NotFound);
        }
        let i = id.index as usize;
        let slot = self.slots[i];
        if slot.state != SlotState::Live || slot.generation != id.generation {
            return Err(CacheError::NotFound);
        }
        let after = if slot.generation == 0xffff_ffff {
            Slot { state: SlotState::Retired, ..slot }
        } else {
            Slot { state: SlotState::Free, generation: slot.generation + 1, ..slot }
        };
        let budget = self.budget;
        let mut slots = self.take_slots();
        slots.set(i, after);
        proof {
            lemma_update_keeps_layout(before.slots, i as int, after);
        }
        *self = EffectCache { budget, slots };
        Ok(())
    }

    /// The region of `id`, where the id is live.
    pub fn lookup(&self, id: EffectCacheId) -> (r: Result<Region, CacheError>)
        ensures
            is_live(self@, id) ==> r == Ok::<Region, CacheError>(
                region_of(self@.slots[id.index as int]),
            ),
            !is_live(self@, id) ==> r == Err::<Region, CacheError>(CacheError::NotFound),
    {
        if (id.index as usize) >= self.slots.len() {
            return Err(CacheError::NotFound);
        }
        let slot = self.slots[id.index as usize];
        if slot.state != SlotState::Live || slot.generation != id.generation {
            return Err(CacheError::NotFound);
        }
        Ok(Region { offset: slot.offset, size: slot.size })
    }
}

/// There is one best fit at most.
pub proof fn lemma_best_fit_is_one(slots: Seq<Slot>, capacity: nat, i: int)
    requires
        is_best_fit(slots, capacity, i),
    ensures
        has_fit(slots, capacity),
        best_fit(slots, capacity) == i,
{
    let b = best_fit(slots, capacity);
    assert(is_best_fit(slots, capacity, b));
    assert(fits(slots[i], capacity));
    assert(fits(slots[b], capacity));
}

/// A slot that changes only its state and its generation leaves the layout
/// as it was.
proof fn lemma_update_keeps_layout(slots: Seq<Slot>, i: int, slot: Slot)
    requires
        slots_valid(slots),
        0 <= i < slots.len(),
        slot.offset == slots[i].offset,
        slot.size == slots[i].size,
    ensures
        slots_valid(slots.update(i, slot)),
        used(slots.update(i, slot)) == used(slots),
{
    let after = slots.update(i, slot);
    assert forall|j: int| 0 <= j < after.len() implies (#[trigger] after[j]).size > 0 && j
        <= after[j].offset by {
        assert(slots[j].size > 0);
    }
    assert forall|j: int, k: int| 0 <= j && k == j + 1 && k < after.len() implies (
    #[trigger] after[k]).offset == (#[trigger] after[j]).offset + after[j].size by {
        assert(slots[k].offset == slots[j].offset + slots[j].size);
    }
}

/// A slot laid behind the others keeps the layout.
proof fn lemma_push_keeps_layout(slots: Seq<Slot>, slot: Slot)
    requires
        slots_valid(slots),
        slot.offset == used(slots),
        slot.size > 0,
    ensures
        slots_valid(slots.push(slot)),
        used(slots.push(slot)) == slot.offset + slot.size,
        slots.len() <= slot.offset,
{
    let after = slots.push(slot);
    let n = slots.len() as int;
    if n > 0 {
        assert(slots[n - 1].size > 0);
    }
    assert forall|j: int| 0 <= j < after.len() implies (#[trigger] after[j]).size > 0 && j
        <= after[j].offset by {
        if j < n {
            assert(slots[j].size > 0);
        }
    }
    assert forall|j: int, k: int| 0 <= j && k == j + 1 && k < after.len() implies (
    #[trigger] after[k]).offset == (#[trigger] after[j]).offset + after[j].size by {
        if k < n {
            assert(slots[k].offset == slots[j].offset + slots[j].size);
        }
    }
}

/// The best among the first `n` slots, where one of them fits.
proof fn lemma_best_in_prefix(slots: Seq<Slot>, capacity: nat, n: int) -> (b: int)
    requires
        0 <= n <= slots.len(),
        exists|j: int| 0 <= j < n && fits(#[trigger] slots[j], capacity),
    ensures
        0 <= b < n,
        fits(slots[b], capacity),
        forall|j: int|
            0 <= j < n && fits(#[trigger] slots[j], capacity) ==> slots[b].size < slots[j].size
                || (slots[b].size == slots[j].size && b <= j),
    decreases n,
{
    if exists|j: int| 0 <= j < n - 1 && fits(#[trigger] slots[j], capacity) {
        let p = lemma_best_in_prefix(slots, capacity, n - 1);
        if fits(slots[n - 1], capacity) && slots[n - 1].size < slots[p].size {
            n - 1
        } else {
            p
        }
    } else {
        n - 1
    }
}

/// Where a free region fits, one of them is the best fit.
pub proof fn lemma_best_fit_exists(slots: Seq<Slot>, capacity: nat)
    requires
        has_fit(slots, capacity),
    ensures
        is_best_fit(slots, capacity, best_fit(slots, capacity)),
{
    let b = lemma_best_in_prefix(slots, capacity, slots.len() as int);
    assert(is_best_fit(slots, capacity, b));
}

/// A region lies wholly before every region that comes after it.
pub proof fn lemma_layout_ordered(slots: Seq<Slot>, i: int, j: int)
    requires
        slots_valid(slots),
        0 <= i < j < slots.len(),
    ensures
        slots[i].offset + slots[i].size <= slots[j].offset,
    decreases j - i,
{
    assert(slots[i + 1].offset == slots[i].offset + slots[i].size);
    if i + 1 < j {
        lemma_layout_ordered(slots, i + 1, j);
        assert(slots[i + 1].size > 0);
    }
}

/// Every region lies within the part of the store that is in use.
pub proof fn lemma_region_within_used(slots: Seq<Slot>, i: int)
    requires
        slots_valid(slots),
        0 <= i < slots.len(),
    ensures
        slots[i].offset + slots[i].size <= used(slots),
{
    if i < slots.len() - 1 {
        lemma_layout_ordered(slots, i, slots.len() - 1);
    }
}

/// Two regions that are handed out at the same time share no particle, and
/// both lie within the budget.
pub proof fn lemma_live_regions_disjoint(c: CacheState, a: EffectCacheId, b: EffectCacheId)
    requires
        state_valid(c),
        is_live(c, a),
        is_live(c, b),
        a != b,
    ensures
        ({
            let ra = region_of(c.slots[a.index as int]);
            let rb = region_of(c.slots[b.index as int]);
            &&& ra.offset + ra.size <= rb.offset || rb.offset + rb.size <= ra.offset
            &&& ra.offset + ra.size <= c.budget
            &&& rb.offset + rb.size <= c.budget
        }),
{
    let i = a.index as int;
    let j = b.index as int;
    if i < j {
        lemma_layout_ordered(c.slots, i, j);
    } else {
        lemma_layout_ordered(c.slots, j, i);
    }
    lemma_region_within_used(c.slots, i);
    lemma_region_within_used(c.slots, j);
}

/// An allocation leaves the cache in one of its states. The id it returns
/// is live afterwards and was neither live nor stale before; its region
/// holds the capacity asked for; no other id changes.
pub proof fn lemma_allocate_gives_fresh_id(c: CacheState, capacity: nat)
    requires
        state_valid(c),
        capacity <= u32::MAX,
    ensures
        state_valid(allocate_spec(c, capacity).state),
        allocate_spec(c, capacity).state.budget == c.budget,
        allocate_spec(c, capacity).result matches Ok(id) ==> {
            let after = allocate_spec(c, capacity).state;
            &&& is_live(after, id)
            &&& !is_live(c, id)
            &&& !is_stale(c, id)
            &&& id.index != INVALID_INDEX
            &&& after.slots[id.index as int].size >= capacity
            &&& forall|other: EffectCacheId|
                other != id ==> is_live(after, other) == is_live(c, other)
        },
        allocate_spec(c, capacity).result is Err ==> allocate_spec(c, capacity).state == c,
{
    if capacity == 0 {
    } else if has_fit(c.slots, capacity) {
        lemma_best_fit_exists(c.slots, capacity);
        let i = best_fit(c.slots, capacity);
        lemma_update_keeps_layout(c.slots, i, Slot { state: SlotState::Live, ..c.slots[i] });
    } else if used(c.slots) + capacity <= c.budget {
        let slot = Slot {
            offset: used(c.slots) as u32,
            size: capacity as u32,
            generation: 0,
            state: SlotState::Live,
        };
        lemma_push_keeps_layout(c.slots, slot);
    }
}

/// An id that was released stays released: it is not live, and neither an
/// allocation nor a release brings it back.
pub proof fn lemma_stale_stays_stale(
    c: CacheState,
    id: EffectCacheId,
    capacity: nat,
    other: EffectCacheId,
)
    requires
        state_valid(c),
        is_stale(c, id),
    ensures
        !is_live(c, id),
        is_stale(allocate_spec(c, capacity).state, id),
        is_stale(release_spec(c, other), id),
{
    if capacity > 0 && has_fit(c.slots, capacity) {
        lemma_best_fit_exists(c.slots, capacity);
    }
}

/// A release leaves the cache in one of its states, with the same regions in
/// the same places; the id released is stale afterwards.
pub proof fn lemma_release_keeps_layout(c: CacheState, id: EffectCacheId)
    requires
        state_valid(c),
    ensures
        state_valid(release_spec(c, id)),
        used(release_spec(c, id).slots) == used(c.slots),
        release_spec(c, id).slots.len() == c.slots.len(),
        is_live(c, id) ==> is_stale(release_spec(c, id), id),
{
    if is_live(c, id) {
        lemma_update_keeps_layout(c.slots, id.index as int, released(c.slots[id.index as int]));
    }
}

/// A region that is released is there for the next allocation that it can
/// hold: the allocation succeeds and the store does not grow. The one
/// exception is a region whose generations are used up.
pub proof fn lemma_release_then_allocate_reuses(c: CacheState, id: EffectCacheId, capacity: nat)
    requires
        state_valid(c),
        is_live(c, id),
        0 < capacity <= c.slots[id.index as int].size,
        id.generation < u32::MAX,
    ensures
        ({
            let again = allocate_spec(release_spec(c, id), capacity);
            &&& again.result matches Ok(next)
            &&& again.state.slots.len() == c.slots.len()
            &&& used(again.state.slots) == used(c.slots)
            &&& capacity <= again.state.slots[next.index as int].size <= c.slots[id.index as int].size
            &&& next != id
        }),
{
    let freed = release_spec(c, id);
    lemma_release_keeps_layout(c, id);
    assert(fits(freed.slots[id.index as int], capacity));
    lemma_best_fit_exists(freed.slots, capacity);
    let i = best_fit(freed.slots, capacity);
    lemma_update_keeps_layout(freed.slots, i, Slot { state: SlotState::Live, ..freed.slots[i] });
}

} // verus!
