//! Value distributions and the spawner that turns elapsed time into counts.

use vstd::prelude::*;
use vstd::arithmetic::div_mod::lemma_fundamental_div_mod;
use vstd::arithmetic::div_mod::lemma_fundamental_div_mod_converse;
use vstd::arithmetic::div_mod::lemma_hoist_over_denominator;
use vstd::arithmetic::div_mod::lemma_mod_multiples_vanish;
use crate::number::Fixed;
use crate::number::SCALE;
use crate::random::RandomSource;
use crate::random::next_state;
use crate::random::draw_of;

verus! {

/// What a distribution is: one number, or the range a number is drawn from.
#[derive(Clone, Copy, Debug, PartialEq, Eq, Structural)]
pub enum ValueKind {
    /// Always this number.
    Single(Fixed),
    /// A number from the first bound up to the second, which it never reaches
    /// unless the two are equal.
    Uniform(Fixed, Fixed),
}

/// Why a distribution or a spawner could not be made.
#[derive(Clone, Copy, Debug, PartialEq, Eq, Structural)]
pub enum SpawnError {
    /// The lower bound of a range lies above its upper bound.
    InvertedRange,
    /// A burst period can be zero or negative.
    NonPositivePeriod,
}

impl ValueKind {
    /// A range is valid when its lower bound is not above its upper bound.
    pub open spec fn valid(self) -> bool {
        match self {
            ValueKind::Single(_) => true,
            ValueKind::Uniform(low, high) => low@ <= high@,
        }
    }

    /// The least number the distribution gives.
    pub open spec fn low(self) -> int {
        match self {
            ValueKind::Single(x) => x@,
            ValueKind::Uniform(low, _) => low@,
        }
    }

    /// The number drawn, and the state the source is left in, when the source
    /// is in `state`. A single number leaves the source untouched.
    pub open spec fn sample(self, state: nat) -> (int, nat) {
        match self {
            ValueKind::Single(x) => (x@, state),
            ValueKind::Uniform(low, high) => (
                low@ + ((high@ - low@) * draw_of(state)) / 0x1_0000_0000,
                next_state(state),
            ),
        }
    }
}

/// A distribution that was checked when it was made.
#[derive(Clone, Copy, Debug, PartialEq, Eq)]
pub struct Value {
    kind: ValueKind,
}

impl View for Value {
    type V = ValueKind;

    closed spec fn view(&self) -> ValueKind {
        self.kind
    }
}

/// A drawn number lies in its range, and is the one number of a range of one.
pub proof fn lemma_sample_in_range(kind: ValueKind, state: nat)
    requires
        kind.valid(),
    ensures
        kind matches ValueKind::Single(x) ==> kind.sample(state).0 == x@,
        kind matches ValueKind::Uniform(low, high) ==> low@ <= kind.sample(state).0 <= high@,
        kind matches ValueKind::Uniform(low, high) ==> low@ < high@ ==> kind.sample(state).0 < high@,
        kind.low() <= kind.sample(state).0,
{
    match kind {
        ValueKind::Single(_) => {},
        ValueKind::Uniform(low, high) => {
            let span = high@ - low@;
            let draw = draw_of(state) as int;
            assert(0 <= span * draw <= span * 0xffff_ffff) by (nonlinear_arith)
                requires
                    0 <= span,
                    0 <= draw <= 0xffff_ffff,
            ;
        },
    }
}

impl Value {
    /// The range is not inverted.
    #[verifier::type_invariant]
    spec fn checked(self) -> bool {
        self.kind.valid()
    }

    /// The distribution that always gives `x`.
    pub fn single(x: Fixed) -> (v: Value)
        ensures
            v@ == ValueKind::Single(x),
    {
        Value { kind: ValueKind::Single(x) }
    }

    /// The range from `low` to `high`; an inverted range is refused.
    pub fn uniform(low: Fixed, high: Fixed) -> (r: Result<Value, SpawnError>)
        ensures
            low@ <= high@ ==> (r matches Ok(v) && v@ == ValueKind::Uniform(low, high)),
            low@ > high@ ==> r == Err::<Value, SpawnError>(SpawnError::InvertedRange),
    {
        if low.micros <= high.micros {
            Ok(Value { kind: ValueKind::Uniform(low, high) })
        } else {
            Err(SpawnError::InvertedRange)
        }
    }

    /// What the distribution is.
    pub fn kind(&self) -> (k: ValueKind)
        ensures
            k == self@,
            k.valid(),
    {
        proof {
            use_type_invariant(self);
        }
        self.kind
    }

    /// Draws a number from the distribution, with `rng` as the source.
    pub fn sample(&self, rng: &mut RandomSource) -> (x: Fixed)
        ensures
            self@.valid(),
            x@ == self@.sample(old(rng)@).0,
            final(rng)@ == self@.sample(old(rng)@).1,
    {
        proof {
            use_type_invariant(self);
            lemma_sample_in_range(self.kind, rng@);
        }
        match self.kind {
            ValueKind::Single(x) => x,
            ValueKind::Uniform(low, high) => {
                let span: u128 = ((high.micros as i128) - (low.micros as i128)) as u128;
                let draw: u128 = rng.next_u32() as u128;
                assert(0 <= span * draw <= span * 0xffff_ffff) by (nonlinear_arith)
                    requires
                        0 <= span,
                        0 <= draw <= 0xffff_ffff,
                ;
                let offset: u128 = (span * draw) / 0x1_0000_0000;
                let x: i128 = (low.micros as i128) + (offset as i128);
                Fixed { micros: x as i64 }
            },
        }
    }
}

/// Units of the leftover count in one particle: the leftover is a product of
/// a rate and a time, each in millionths.
pub const PARTICLE: u64 = 1_000_000_000_000;

/// How a spawner emits.
#[derive(Clone, Copy, Debug, PartialEq, Eq)]
pub enum SpawnMode {
    /// A count, drawn and emitted at the first tick and never again.
    Once(Value),
    /// A rate in particles per second, drawn anew at every tick.
    Rate(Value),
    /// A count, emitted each time a period in seconds has passed; both are
    /// drawn anew for every burst.
    Burst(Value, Value),
}

impl SpawnMode {
    /// Emits `count` particles once.
    pub fn once(count: Value) -> (m: SpawnMode)
        ensures
            m == SpawnMode::Once(count),
    {
        SpawnMode::Once(count)
    }

    /// Emits `rate` particles per second.
    pub fn rate(rate: Value) -> (m: SpawnMode)
        ensures
            m == SpawnMode::Rate(rate),
    {
        SpawnMode::Rate(rate)
    }

    /// Emits `count` particles every `period` seconds.
    pub fn burst(count: Value, period: Value) -> (m: SpawnMode)
        ensures
            m == SpawnMode::Burst(count, period),
    {
        SpawnMode::Burst(count, period)
    }

    /// A mode is valid when its distributions are, and a burst period is
    /// always positive.
    pub open spec fn valid(self) -> bool {
        match self {
            SpawnMode::Once(count) => count@.valid(),
            SpawnMode::Rate(rate) => rate@.valid(),
            SpawnMode::Burst(count, period) => count@.valid() && period@.valid() && period@.low() > 0,
        }
    }
}

/// What a spawner remembers from one tick to the next.
pub struct SpawnerState {
    pub mode: SpawnMode,
    /// The fraction of a particle that was not emitted yet, in units of
    /// `1 / PARTICLE`.
    pub carry: nat,
    /// Millionths of a second since the last burst.
    pub timer: nat,
    /// Millionths of a second from the last burst to the next; 0 until the
    /// first tick draws it.
    pub period: nat,
    /// Whether the one count of a `Once` spawner was emitted.
    pub fired: bool,
}

/// What one tick, or a run of ticks, leaves behind.
pub struct Tick {
    pub state: SpawnerState,
    /// Particles to emit.
    pub count: nat,
    /// State of the random source afterwards.
    pub rng: nat,
}

/// The bursts of one tick, while they are counted.
pub struct Bursts {
    pub timer: nat,
    pub period: nat,
    pub rng: nat,
    pub count: nat,
}

/// `x`, or zero where `x` is negative.
pub open spec fn non_negative(x: int) -> nat {
    if x < 0 {
        0
    } else {
        x as nat
    }
}

/// The particles in a drawn count: its whole part, never negative and never
/// above what 32 bits hold.
pub open spec fn whole_particles(v: int) -> nat {
    if v <= 0 {
        0
    } else if v / (SCALE as int) > u32::MAX {
        u32::MAX as nat
    } else {
        (v / (SCALE as int)) as nat
    }
}

/// The sum of two counts, held at what 32 bits hold.
pub open spec fn saturating_count(a: nat, b: nat) -> nat {
    if a + b > u32::MAX {
        u32::MAX as nat
    } else {
        a + b
    }
}

/// The state of a spawner that has not ticked yet.
pub open spec fn initial_state(mode: SpawnMode) -> SpawnerState {
    SpawnerState { mode, carry: 0, timer: 0, period: 0, fired: false }
}

/// The states a spawner can be in.
pub open spec fn state_valid(s: SpawnerState) -> bool {
    &&& s.mode.valid()
    &&& s.carry < PARTICLE
    &&& s.period <= i64::MAX
    &&& s.period == 0 ==> s.timer == 0
    &&& s.period > 0 ==> s.timer < s.period
}

/// Emits a burst for each period that the timer holds: the burst's count is
/// drawn first, the period is taken off the timer, and the next period is
/// drawn.
pub open spec fn run_bursts(count: ValueKind, period: ValueKind, b: Bursts) -> Bursts
    decreases b.timer,
{
    if b.period == 0 || b.timer < b.period {
        b
    } else {
        let (c, r1) = count.sample(b.rng);
        let (p, r2) = period.sample(r1);
        run_bursts(
            count,
            period,
            Bursts {
                timer: (b.timer - b.period) as nat,
                period: non_negative(p),
                rng: r2,
                count: saturating_count(b.count, whole_particles(c)),
            },
        )
    }
}

/// One tick of `dt` millionths of a second, with the random source in state `rng`.
pub open spec fn tick_spec(s: SpawnerState, dt: int, rng: nat) -> Tick {
    let elapsed = non_negative(dt);
    match s.mode {
        SpawnMode::Once(count) => {
            if s.fired {
                Tick { state: s, count: 0, rng }
            } else {
                let (c, r) = count@.sample(rng);
                Tick { state: SpawnerState { fired: true, ..s }, count: whole_particles(c), rng: r }
            }
        },
        SpawnMode::Rate(rate) => {
            let (v, r) = rate@.sample(rng);
            let total = s.carry + non_negative(v) * elapsed;
            Tick {
                state: SpawnerState { carry: total % (PARTICLE as nat), ..s },
                count: if total / (PARTICLE as nat) > u32::MAX {
                    u32::MAX as nat
                } else {
                    total / (PARTICLE as nat)
                },
                rng: r,
            }
        },
        SpawnMode::Burst(count, period) => {
            let (first, r) = if s.period == 0 {
                (non_negative(period@.sample(rng).0), period@.sample(rng).1)
            } else {
                (s.period, rng)
            };
            let end = run_bursts(
                count@,
                period@,
                Bursts { timer: s.timer + elapsed, period: first, rng: r, count: 0 },
            );
            Tick {
                state: SpawnerState { timer: end.timer, period: end.period, ..s },
                count: end.count,
                rng: end.rng,
            }
        },
    }
}

/// The ticks `steps`, one after the other; the counts add up.
pub open spec fn run_ticks(s: SpawnerState, steps: Seq<int>, rng: nat) -> Tick
    decreases steps.len(),
{
    if steps.len() == 0 {
        Tick { state: s, count: 0, rng }
    } else {
        let before = run_ticks(s, steps.drop_last(), rng);
        let last = tick_spec(before.state, steps.last(), before.rng);
        Tick { state: last.state, count: before.count + last.count, rng: last.rng }
    }
}

/// The time that `steps` cover; a negative step covers none.
pub open spec fn total_time(steps: Seq<int>) -> nat
    decreases steps.len(),
{
    if steps.len() == 0 {
        0
    } else {
        total_time(steps.drop_last()) + non_negative(steps.last())
    }
}

/// A scheduler of particle counts.
#[derive(Clone, Copy, Debug, PartialEq, Eq)]
pub struct Spawner {
    mode: SpawnMode,
    carry: u64,
    timer: u64,
    period: u64,
    fired: bool,
}

impl View for Spawner {
    type V = SpawnerState;

    closed spec fn view(&self) -> SpawnerState {
        SpawnerState {
            mode: self.mode,
            carry: self.carry as nat,
            timer: self.timer as nat,
            period: self.period as nat,
            fired: self.fired,
        }
    }
}

/// The whole particles in a drawn count.
fn particles_of(v: Fixed) -> (n: u32)
    ensures
        n == whole_particles(v@),
{
    if v.micros <= 0 {
        0
    } else {
        let n: i64 = v.micros / SCALE;
        if n > 0xffff_ffff {
            0xffff_ffff
        } else {
            n as u32
        }
    }
}

impl Spawner {
    /// The spawner is in one of its states.
    #[verifier::type_invariant]
    spec fn checked(self) -> bool {
        state_valid(self@)
    }

    /// A spawner in its initial state. A mode whose burst period can be zero
    /// or negative is refused: its bursts would never end.
    pub fn new(mode: SpawnMode) -> (r: Result<Spawner, SpawnError>)
        ensures
            mode.valid() ==> (r matches Ok(s) && s@ == initial_state(mode)),
            !mode.valid() ==> r == Err::<Spawner, SpawnError>(SpawnError::NonPositivePeriod),
    {
        let accepted = match mode {
            SpawnMode::Once(count) => {
                let _ = count.kind();
                true
            },
            SpawnMode::Rate(rate) => {
                let _ = rate.kind();
                true
            },
            SpawnMode::Burst(count, period) => {
                let _ = count.kind();
                match period.kind() {
                    ValueKind::Single(x) => x.micros > 0,
                    ValueKind::Uniform(low, _) => low.micros > 0,
                }
            },
        };
        if accepted {
            Ok(Spawner { mode, carry: 0, timer: 0, period: 0, fired: false })
        } else {
            Err(SpawnError::NonPositivePeriod)
        }
    }

    /// The mode the spawner was made with.
    pub fn mode(&self) -> (m: SpawnMode)
        ensures
            m == self@.mode,
    {
        self.mode
    }

    /// Whether the one count of a `Once` spawner was emitted.
    pub fn has_fired(&self) -> (b: bool)
        ensures
            b == self@.fired,
    {
        self.fired
    }

    /// Puts the spawner back into its initial state.
    pub fn reset(&mut self)
        ensures
            final(self)@ == initial_state(old(self)@.mode),
    {
        proof {
            use_type_invariant(&*self);
        }
        *self = Spawner { mode: self.mode, carry: 0, timer: 0, period: 0, fired: false };
    }

    /// Advances the spawner by `dt` seconds and returns the number of
    /// particles to emit now. A negative `dt` counts as zero.
    pub fn tick(&mut self, dt: Fixed, rng: &mut RandomSource) -> (count: u32)
        ensures
            state_valid(old(self)@),
            state_valid(final(self)@),
            tick_spec(old(self)@, dt@, old(rng)@) == (Tick {
                state: final(self)@,
                count: count as nat,
                rng: final(rng)@,
            }),
    {
        proof {
            use_type_invariant(&*self);
        }
        let elapsed: u64 = if dt.micros < 0 {
            0
        } else {
            dt.micros as u64
        };
        match self.mode {
            SpawnMode::Once(count) => {
                if self.fired {
                    0
                } else {
                    let c = count.sample(rng);
                    self.fired = true;
                    particles_of(c)
                }
            },
            SpawnMode::Rate(rate) => {
                let v = rate.sample(rng);
                let per_second: u128 = if v.micros < 0 {
                    0
                } else {
                    v.micros as u128
                };
                assert(per_second * elapsed <= 0x7fff_ffff_ffff_ffff * 0x7fff_ffff_ffff_ffff)
                    by (nonlinear_arith)
                    requires
                        0 <= per_second <= 0x7fff_ffff_ffff_ffff,
                        0 <= elapsed <= 0x7fff_ffff_ffff_ffff,
                ;
                let total: u128 = (self.carry as u128) + per_second * (elapsed as u128);
                let whole: u128 = total / (PARTICLE as u128);
                self.carry = (total % (PARTICLE as u128)) as u64;
                if whole > 0xffff_ffff {
                    0xffff_ffff
                } else {
                    whole as u32
                }
            },
            SpawnMode::Burst(count, period) => {
                let mut next: u64 = self.period;
                if next == 0 {
                    proof {
                        lemma_sample_in_range(period@, rng@);
                    }
                    let p = period.sample(rng);
                    next = p.micros as u64;
                }
                let mut timer: u64 = self.timer + elapsed;
                let mut emitted: u32 = 0;
                let ghost start = Bursts {
                    timer: timer as nat,
                    period: next as nat,
                    rng: rng@,
                    count: 0,
                };
                while timer >= next
                    invariant
                        count@.valid(),
                        period@.valid(),
                        period@.low() > 0,
                        0 < next <= i64::MAX,
                        run_bursts(
                            count@,
                            period@,
                            Bursts {
                                timer: timer as nat,
                                period: next as nat,
                                rng: rng@,
                                count: emitted as nat,
                            },
                        ) == run_bursts(count@, period@, start),
                    decreases timer,
                {
                    let c = count.sample(rng);
                    proof {
                        lemma_sample_in_range(period@, rng@);
                    }
                    let p = period.sample(rng);
                    emitted = emitted.saturating_add(particles_of(c));
                    timer = timer - next;
                    next = p.micros as u64;
                }
                *self = Spawner {
                    mode: self.mode,
                    carry: self.carry,
                    timer,
                    period: next,
                    fired: self.fired,
                };
                emitted
            },
        }
    }
}

/// A valid spawner stays valid through a tick.
pub proof fn lemma_tick_keeps_valid(s: SpawnerState, dt: int, rng: nat)
    requires
        state_valid(s),
    ensures
        state_valid(tick_spec(s, dt, rng).state),
        tick_spec(s, dt, rng).state.mode == s.mode,
        tick_spec(s, dt, rng).count <= u32::MAX,
{
    match s.mode {
        SpawnMode::Once(_) => {},
        SpawnMode::Rate(_) => {},
        SpawnMode::Burst(count, period) => {
            lemma_sample_in_range(period@, rng);
            let (first, r) = if s.period == 0 {
                (non_negative(period@.sample(rng).0), period@.sample(rng).1)
            } else {
                (s.period, rng)
            };
            lemma_bursts_end(
                count@,
                period@,
                Bursts { timer: s.timer + non_negative(dt), period: first, rng: r, count: 0 },
            );
        },
    }
}

/// When the bursts of a tick are over, the timer is below the next period.
proof fn lemma_bursts_end(count: ValueKind, period: ValueKind, b: Bursts)
    requires
        period.valid(),
        period.low() > 0,
        0 < b.period <= i64::MAX,
        b.count <= u32::MAX,
    ensures
        run_bursts(count, period, b).timer < run_bursts(count, period, b).period <= i64::MAX,
        run_bursts(count, period, b).count <= u32::MAX,
    decreases b.timer,
{
    if b.timer >= b.period {
        let (c, r1) = count.sample(b.rng);
        let (p, r2) = period.sample(r1);
        lemma_sample_in_range(period, r1);
        lemma_bursts_end(
            count,
            period,
            Bursts {
                timer: (b.timer - b.period) as nat,
                period: non_negative(p),
                rng: r2,
                count: saturating_count(b.count, whole_particles(c)),
            },
        );
    }
}

/// What a spawner with the leftover `carry` and the fixed rate `rate` has to
/// emit over `time`, in units of `1 / PARTICLE`.
pub open spec fn due(carry: nat, rate: int, time: nat) -> int {
    (carry + non_negative(rate) * time) as int
}

/// A spawner with a fixed rate emits, over any run of ticks, the whole
/// particles of its leftover and of the rate times the time covered: what one
/// tick cuts off, the next one gets. The ticks may cut the time up in any way.
pub proof fn lemma_rate_carries_fractions(s: SpawnerState, rate: Fixed, steps: Seq<int>, rng: nat)
    requires
        s.mode matches SpawnMode::Rate(v) && v@ == ValueKind::Single(rate),
        s.carry < PARTICLE,
        due(s.carry, rate@, total_time(steps)) / (PARTICLE as int) <= u32::MAX,
    ensures
        run_ticks(s, steps, rng).count == due(s.carry, rate@, total_time(steps)) / (PARTICLE as int),
        run_ticks(s, steps, rng).state.carry == due(s.carry, rate@, total_time(steps)) % (
        PARTICLE as int),
        run_ticks(s, steps, rng).state.mode == s.mode,
        run_ticks(s, steps, rng).rng == rng,
    decreases steps.len(),
{
    if steps.len() == 0 {
        assert(non_negative(rate@) * 0 == 0);
    } else {
        let head = steps.drop_last();
        let a = due(s.carry, rate@, total_time(head));
        let x = (non_negative(rate@) * non_negative(steps.last())) as int;
        lemma_due_grows(s.carry, rate@, total_time(head), non_negative(steps.last()));
        lemma_carry_step(a, x, PARTICLE as int);
        lemma_rate_carries_fractions(s, rate, head, rng);
    }
}

/// What is due grows with the time by the rate times the time added.
proof fn lemma_due_grows(carry: nat, rate: int, time: nat, more: nat)
    ensures
        due(carry, rate, time + more) == due(carry, rate, time) + non_negative(rate) * more,
        due(carry, rate, time) >= 0,
        non_negative(rate) * more >= 0,
{
    let r = non_negative(rate) as int;
    assert(r * (time + more) == r * time + r * more && r * time >= 0 && r * more >= 0)
        by (nonlinear_arith)
        requires
            r >= 0,
            time >= 0,
            more >= 0,
    ;
}

/// Dividing a sum in two steps, with the remainder of the first carried into
/// the second, gives the quotient and the remainder of the sum.
proof fn lemma_carry_step(a: int, x: int, unit: int)
    requires
        a >= 0,
        x >= 0,
        unit > 0,
    ensures
        (a + x) / unit == a / unit + (a % unit + x) / unit,
        (a + x) % unit == (a % unit + x) % unit,
        a / unit >= 0,
        (a % unit + x) / unit >= 0,
        0 <= a % unit < unit,
{
    let t = a % unit + x;
    lemma_fundamental_div_mod(a, unit);
    lemma_hoist_over_denominator(t, a / unit, unit as nat);
    lemma_mod_multiples_vanish(a / unit, t, unit);
    assert(unit * (a / unit) == (a / unit) * unit) by (nonlinear_arith);
    assert(a / unit >= 0 && t / unit >= 0) by (nonlinear_arith)
        requires
            a >= 0,
            t >= 0,
            unit > 0,
    ;
}

/// A spawner with a fixed rate that starts without a leftover emits the
/// rate times the time covered, short by less than one particle.
pub proof fn lemma_rate_within_one_particle(s: SpawnerState, rate: Fixed, steps: Seq<int>, rng: nat)
    requires
        s.mode matches SpawnMode::Rate(v) && v@ == ValueKind::Single(rate),
        s.carry == 0,
        due(0, rate@, total_time(steps)) / (PARTICLE as int) <= u32::MAX,
    ensures
        run_ticks(s, steps, rng).count * PARTICLE <= due(0, rate@, total_time(steps)),
        due(0, rate@, total_time(steps)) < (run_ticks(s, steps, rng).count + 1) * PARTICLE,
{
    lemma_rate_carries_fractions(s, rate, steps, rng);
    let x = due(0, rate@, total_time(steps));
    let unit = PARTICLE as int;
    lemma_fundamental_div_mod(x, unit);
    assert(unit * (x / unit) == (x / unit) * unit) by (nonlinear_arith);
    assert((x / unit + 1) * unit == (x / unit) * unit + unit) by (nonlinear_arith);
}

/// However the time is cut into ticks, a spawner with a fixed rate emits
/// the same: two runs that cover the same time emit the same and are left
/// with the same leftover.
pub proof fn lemma_rate_ignores_partition(
    s: SpawnerState,
    rate: Fixed,
    one: Seq<int>,
    other: Seq<int>,
    rng: nat,
)
    requires
        s.mode matches SpawnMode::Rate(v) && v@ == ValueKind::Single(rate),
        s.carry < PARTICLE,
        total_time(one) == total_time(other),
        due(s.carry, rate@, total_time(one)) / (PARTICLE as int) <= u32::MAX,
    ensures
        run_ticks(s, one, rng).count == run_ticks(s, other, rng).count,
        run_ticks(s, one, rng).state.carry == run_ticks(s, other, rng).state.carry,
{
    lemma_rate_carries_fractions(s, rate, one, rng);
    lemma_rate_carries_fractions(s, rate, other, rng);
}

/// With a fixed count and a fixed period, the bursts that a timer holds are
/// as many as the periods in it, and what is left of the timer is less than
/// a period.
proof fn lemma_fixed_bursts(count: Fixed, period: Fixed, b: Bursts)
    requires
        period@ > 0,
        b.period == period@,
        b.count <= u32::MAX,
    ensures
        run_bursts(ValueKind::Single(count), ValueKind::Single(period), b) == (Bursts {
            timer: (b.timer % b.period) as nat,
            period: b.period,
            rng: b.rng,
            count: saturating_count(
                b.count,
                ((b.timer / b.period) * whole_particles(count@)) as nat,
            ),
        }),
    decreases b.timer,
{
    let p = b.period as int;
    let t = b.timer as int;
    let n = whole_particles(count@) as int;
    if t < p {
        lemma_fundamental_div_mod_converse(t, p, 0, t);
        assert(0 * n == 0);
    } else {
        let next = Bursts {
            timer: (t - p) as nat,
            period: b.period,
            rng: b.rng,
            count: saturating_count(b.count, whole_particles(count@)),
        };
        lemma_fixed_bursts(count, period, next);
        lemma_fundamental_div_mod(t - p, p);
        assert(p * ((t - p) / p) == ((t - p) / p) * p) by (nonlinear_arith);
        assert(((t - p) / p + 1) * p == ((t - p) / p) * p + p) by (nonlinear_arith);
        lemma_fundamental_div_mod_converse(t, p, (t - p) / p + 1, (t - p) % p);
        let k = (t - p) / p;
        assert(k >= 0) by (nonlinear_arith)
            requires
                t - p >= 0,
                p > 0,
                k == (t - p) / p,
        ;
        assert((k + 1) * n == k * n + n && k * n >= 0) by (nonlinear_arith)
            requires
                k >= 0,
                n >= 0,
        ;
    }
}

/// One tick of a spawner with a fixed count and a fixed period: a burst for
/// each period that has passed since the last one, whenever the ticks fall.
pub proof fn lemma_burst_tick_counts_periods(
    s: SpawnerState,
    count: Fixed,
    period: Fixed,
    dt: int,
    rng: nat,
)
    requires
        s.mode matches SpawnMode::Burst(c, p) && c@ == ValueKind::Single(count) && p@
            == ValueKind::Single(period),
        period@ > 0,
        s.period == 0 || s.period == period@,
    ensures
        tick_spec(s, dt, rng) == (Tick {
            state: SpawnerState {
                timer: ((s.timer + non_negative(dt)) % (period@ as nat)) as nat,
                period: period@ as nat,
                ..s
            },
            count: saturating_count(
                0,
                (((s.timer + non_negative(dt)) / (period@ as nat)) * whole_particles(
                    count@,
                )) as nat,
            ),
            rng,
        }),
{
    lemma_fixed_bursts(
        count,
        period,
        Bursts { timer: s.timer + non_negative(dt), period: period@ as nat, rng, count: 0 },
    );
}

/// The bursts of a fixed period do not drift: over any run of ticks the
/// spawner emits one burst for each period in the time covered, counted
/// from its last burst, and keeps what is left of the time.
pub proof fn lemma_bursts_do_not_drift(
    s: SpawnerState,
    count: Fixed,
    period: Fixed,
    steps: Seq<int>,
    rng: nat,
)
    requires
        s.mode matches SpawnMode::Burst(c, p) && c@ == ValueKind::Single(count) && p@
            == ValueKind::Single(period),
        period@ > 0,
        s.period == 0 || s.period == period@,
        s.timer < period@,
        ((s.timer + total_time(steps)) / (period@ as nat)) * whole_particles(count@) <= u32::MAX,
    ensures
        run_ticks(s, steps, rng).count == ((s.timer + total_time(steps)) / (period@ as nat))
            * whole_particles(count@),
        run_ticks(s, steps, rng).state.timer == (s.timer + total_time(steps)) % (period@ as nat),
        run_ticks(s, steps, rng).state.mode == s.mode,
        run_ticks(s, steps, rng).state.period == 0 || run_ticks(s, steps, rng).state.period
            == period@,
        run_ticks(s, steps, rng).rng == rng,
    decreases steps.len(),
{
    let p = period@ as int;
    let n = whole_particles(count@) as int;
    if steps.len() == 0 {
        lemma_fundamental_div_mod_converse(s.timer as int, p, 0, s.timer as int);
        assert(0 * n == 0);
    } else {
        let head = steps.drop_last();
        let a = (s.timer + total_time(head)) as int;
        let e = non_negative(steps.last()) as int;
        lemma_carry_step(a, e, p);
        let ka = a / p;
        let kt = (a % p + e) / p;
        assert((ka + kt) * n == ka * n + kt * n && ka * n >= 0 && kt * n >= 0) by (nonlinear_arith)
            requires
                ka >= 0,
                kt >= 0,
                n >= 0,
        ;
        lemma_bursts_do_not_drift(s, count, period, head, rng);
        let before = run_ticks(s, head, rng);
        lemma_burst_tick_counts_periods(before.state, count, period, steps.last(), before.rng);
    }
}

/// A `Once` spawner emits the count it draws at its first tick, and nothing
/// at any tick after that.
pub proof fn lemma_once_fires_once(s: SpawnerState, steps: Seq<int>, rng: nat)
    requires
        s.mode is Once,
    ensures
        s.fired ==> run_ticks(s, steps, rng) == (Tick { state: s, count: 0, rng }),
        !s.fired && steps.len() > 0 ==> run_ticks(s, steps, rng) == tick_spec(s, steps[0], rng),
        !s.fired && steps.len() > 0 ==> run_ticks(s, steps, rng).count == whole_particles(
            s.mode->Once_0@.sample(rng).0,
        ),
        !s.fired && steps.len() > 0 ==> run_ticks(s, steps, rng).state.fired,
    decreases steps.len(),
{
    if steps.len() > 0 {
        lemma_once_fires_once(s, steps.drop_last(), rng);
        if steps.len() > 1 {
            assert(steps.drop_last()[0] == steps[0]);
        }
    }
}

} // verus!
