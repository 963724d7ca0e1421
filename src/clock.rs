use vstd::prelude::*;
use vstd::arithmetic::div_mod::{lemma_add_mod_noop, lemma_mod_twice, lemma_mod_bound};
use crate::duration::{Duration, MICROS_PER_SEC, NANOS_PER_MICRO};

verus! {

/// Ticks in one second: one tick is one microsecond.
pub const TICKS_PER_SEC: u64 = 1_000_000;

/// Number of distinct tick values; tick arithmetic wraps modulo this.
pub open spec fn tick_range() -> int {
    0x1_0000_0000_0000_0000
}

/// The shared free-running tick counter. Its value never decreases.
#[derive(Debug)]
pub struct TickCounter {
    tick: u64,
}

impl TickCounter {
    pub closed spec fn spec_tick(&self) -> u64 {
        self.tick
    }

    /// A counter that starts at tick zero.
    pub fn new() -> (r: TickCounter)
        ensures
            r.spec_tick() == 0,
    {
        TickCounter { tick: 0 }
    }

    pub fn tick(&self) -> (r: u64)
        ensures
            r == self.spec_tick(),
    {
        self.tick
    }

    /// The counter's value once moved towards `tick`.
    pub open spec fn advanced_tick(&self, tick: u64) -> u64 {
        if tick > self.spec_tick() {
            tick
        } else {
            self.spec_tick()
        }
    }

    /// Moves the counter to `tick`, or leaves it where it is if it is already
    /// past that value.
    pub fn advance_to(&mut self, tick: u64)
        ensures
            final(self).spec_tick() == old(self).advanced_tick(tick),
    {
        if tick > self.tick {
            self.tick = tick;
        }
    }
}

/// A point in time, read off a [`TickCounter`].
#[derive(Clone, Copy, Debug, PartialEq, Eq, Structural)]
pub struct Instant {
    tick: u64,
}

/// The tick reached from `tick` after `d`, wrapping past the largest tick.
pub open spec fn tick_after(tick: u64, d: Duration) -> u64 {
    ((tick + d.total_micros()) % tick_range()) as u64
}

impl Instant {
    pub closed spec fn spec_tick(&self) -> u64 {
        self.tick
    }

    /// What `now` reads off `counter`.
    pub open spec fn spec_now(counter: &TickCounter) -> u64 {
        counter.spec_tick()
    }

    /// The current time of `counter`.
    pub fn now(counter: &TickCounter) -> (r: Instant)
        ensures
            r.spec_tick() == Self::spec_now(counter),
    {
        Instant { tick: counter.tick() }
    }

    pub fn tick(&self) -> (r: u64)
        ensures
            r == self.spec_tick(),
    {
        self.tick
    }

    /// The span from `self` to now; `self` must not lie after now.
    pub fn elapsed(&self, counter: &TickCounter) -> (r: Duration)
        requires
            self.spec_tick() <= counter.spec_tick(),
        ensures
            r.wf(),
            r.spec_secs() == (counter.spec_tick() - self.spec_tick()) / (MICROS_PER_SEC as int),
            r.spec_nanos() == ((counter.spec_tick() - self.spec_tick()) % (MICROS_PER_SEC as int))
                * NANOS_PER_MICRO,
            r.total_micros() == counter.spec_tick() - self.spec_tick(),
    {
        let now = Instant::now(counter);
        now.sub(*self)
    }

    /// The span from `earlier` to `self`; `earlier` must not lie after `self`.
    pub fn sub(self, earlier: Instant) -> (r: Duration)
        requires
            earlier.spec_tick() <= self.spec_tick(),
        ensures
            r.wf(),
            r.spec_secs() == (self.spec_tick() - earlier.spec_tick()) / (MICROS_PER_SEC as int),
            r.spec_nanos() == ((self.spec_tick() - earlier.spec_tick()) % (MICROS_PER_SEC as int))
                * NANOS_PER_MICRO,
            r.total_micros() == self.spec_tick() - earlier.spec_tick(),
    {
        let delta: u64 = self.tick - earlier.tick;
        Duration::from_micros(delta)
    }

    /// `self` moved on by `d`, counted in whole microseconds; wraps past the
    /// largest tick.
    pub fn add(self, d: Duration) -> (r: Instant)
        ensures
            r.spec_tick() == tick_after(self.spec_tick(), d),
    {
        let secs_ticks: u64 = d.as_secs().wrapping_mul(TICKS_PER_SEC);
        let sub_ticks: u64 = d.subsec_micros() as u64;
        let span: u64 = secs_ticks.wrapping_add(sub_ticks);
        let tick: u64 = self.tick.wrapping_add(span);
        proof {
            lemma_wrapped_sum(self.tick, d.spec_secs(), (d.spec_nanos() / NANOS_PER_MICRO) as u64,
                secs_ticks, span, tick);
        }
        Instant { tick }
    }
}

/// A read of the time after the counter has been advanced, to any tick, is
/// never earlier than a read before it; with no advance the reads agree.
pub proof fn lemma_now_non_decreasing(before: TickCounter, after: TickCounter, tick: u64)
    requires
        after.spec_tick() == before.advanced_tick(tick),
    ensures
        Instant::spec_now(&before) <= Instant::spec_now(&after),
        tick <= before.spec_tick() ==> Instant::spec_now(&before) == Instant::spec_now(&after),
{
}

/// Adding a span to an instant and then subtracting the instant gives back
/// the span truncated to whole microseconds, where the sum does not wrap:
/// the same seconds, and the nanoseconds rounded down to a microsecond.
pub proof fn lemma_add_then_sub(start: u64, d: Duration)
    requires
        d.wf(),
        start + d.total_micros() <= u64::MAX,
    ensures
        start <= tick_after(start, d),
        tick_after(start, d) - start == d.total_micros(),
        (tick_after(start, d) - start) / (MICROS_PER_SEC as int) == d.spec_secs(),
        ((tick_after(start, d) - start) % (MICROS_PER_SEC as int)) * NANOS_PER_MICRO
            == (d.spec_nanos() / NANOS_PER_MICRO) * NANOS_PER_MICRO,
{
    let m = (d.spec_nanos() / NANOS_PER_MICRO) as int;
    assert(0 <= m < MICROS_PER_SEC);
    vstd::arithmetic::div_mod::lemma_fundamental_div_mod_converse(
        d.total_micros(),
        MICROS_PER_SEC as int,
        d.spec_secs() as int,
        m,
    );
    assert(0 <= d.total_micros()) by (nonlinear_arith)
        requires
            d.total_micros() == d.spec_secs() * 1_000_000 + (d.spec_nanos() / 1000) as int,
    ;
    vstd::arithmetic::div_mod::lemma_small_mod((start + d.total_micros()) as nat, tick_range() as nat);
}

proof fn lemma_wrapped_sum(t: u64, s: u64, m: u64, st: u64, span: u64, r: u64)
    requires
        st == (s * MICROS_PER_SEC) % tick_range(),
        span == (st + m) % tick_range(),
        r == (t + span) % tick_range(),
    ensures
        r == (t + (s * MICROS_PER_SEC + m)) % tick_range(),
{
    let n = tick_range();
    let big = s * MICROS_PER_SEC;
    lemma_add_mod_noop(big, m as int, n);
    lemma_mod_twice(m as int, n);
    assert((st + m) % n == (big + m) % n) by {
        lemma_add_mod_noop(st as int, m as int, n);
        lemma_mod_twice(big, n);
    }
    lemma_add_mod_noop(t as int, big + m, n);
    lemma_add_mod_noop(t as int, span as int, n);
    lemma_mod_twice(big + m, n);
    lemma_mod_bound(big + m, n);
    assert(t as int % n == t as int) by {
        vstd::arithmetic::div_mod::lemma_small_mod(t as nat, n as nat);
    }
}

} // verus!
