use vstd::prelude::*;
use crate::chronos::{Chronos, Entry, CAPACITY, due, pending, with_entry};
use crate::clock::{Instant, TickCounter, tick_after};
use crate::duration::Duration;

verus! {

/// A deadline: the tick at which it expires.
#[derive(Clone, Copy, Debug, PartialEq, Eq, Structural)]
pub struct Alarm {
    tick: u64,
}

/// The outcome of polling an alarm.
#[derive(Clone, Copy, Debug, PartialEq, Eq, Structural)]
pub enum AlarmPoll {
    /// The alarm has expired.
    Ready,
    /// The alarm has not expired; its waker is registered.
    Pending,
}

impl Alarm {
    pub closed spec fn spec_tick(&self) -> u64 {
        self.tick
    }

    /// Whether the alarm has expired once the counter reads `now`.
    pub open spec fn expired_at(&self, now: u64) -> bool {
        now >= self.spec_tick()
    }

    /// An alarm that expires `d` after the counter's current tick.
    pub fn after(counter: &TickCounter, d: Duration) -> (r: Alarm)
        ensures
            r.spec_tick() == tick_after(counter.spec_tick(), d),
    {
        Alarm { tick: Instant::now(counter).add(d).tick() }
    }

    /// Whether the alarm has expired at the counter's current tick.
    pub fn is_expired(&self, counter: &TickCounter) -> (r: bool)
        ensures
            r == self.expired_at(counter.spec_tick()),
    {
        Instant::now(counter).tick() >= self.tick
    }

    /// The alarm at the largest tick.
    pub closed spec fn never_spec() -> Alarm {
        Alarm { tick: u64::MAX }
    }

    /// An alarm at the largest tick, which stands for no deadline at all.
    pub fn never() -> (r: Alarm)
        ensures
            r == Self::never_spec(),
            r.spec_tick() == u64::MAX,
    {
        Alarm { tick: u64::MAX }
    }

    /// The tick at which the alarm expires.
    pub fn tick(&self) -> (r: u64)
        ensures
            r == self.spec_tick(),
    {
        self.tick
    }

    /// `Ready` if the alarm has expired, without touching the registry.
    /// Otherwise registers the waker whose key is `key` with `chronos` and
    /// returns `Pending`; the registry must then have room, since a full
    /// registry is a fatal condition for the runtime.
    pub fn poll(&self, counter: &TickCounter, chronos: &mut Chronos, key: u64) -> (r: AlarmPoll)
        requires
            old(chronos).wf(),
            self.expired_at(counter.spec_tick()) || old(chronos).entries().len() < CAPACITY,
        ensures
            final(chronos).wf(),
            self.expired_at(counter.spec_tick()) ==> r == AlarmPoll::Ready
                && final(chronos).entries() == old(chronos).entries(),
            !self.expired_at(counter.spec_tick()) ==> r == AlarmPoll::Pending
                && final(chronos).entries() == with_entry(old(chronos).entries(), (self.spec_tick(), key)),
    {
        if self.is_expired(counter) {
            AlarmPoll::Ready
        } else {
            chronos.register(self, key);
            AlarmPoll::Pending
        }
    }
}

/// An alarm made with a span of at least one microsecond has not expired at
/// the tick it was made, and one made with a shorter span has, provided the
/// target does not wrap past the largest tick.
pub proof fn lemma_after_not_expired_at_once(alarm: Alarm, now: u64, d: Duration)
    requires
        d.wf(),
        now + d.total_micros() <= u64::MAX,
        alarm.spec_tick() == tick_after(now, d),
    ensures
        d.total_micros() >= 1 ==> !alarm.expired_at(now),
        d.total_micros() == 0 ==> alarm.expired_at(now),
{
    assert(0 <= d.total_micros()) by (nonlinear_arith)
        requires
            d.total_micros() == d.spec_secs() * 1_000_000 + (d.spec_nanos() / 1000) as int,
    ;
    vstd::arithmetic::div_mod::lemma_small_mod((now + d.total_micros()) as nat, crate::clock::tick_range() as nat);
}

/// The alarm that never expires is not expired at any tick below the
/// largest, and once registered it is never among the entries that a poll
/// at such a tick takes out: it stays pending.
pub proof fn lemma_never_stays_pending(s: Seq<Entry>, key: u64, now: u64)
    requires
        now < u64::MAX,
    ensures
        Alarm::never_spec().spec_tick() == u64::MAX,
        !Alarm::never_spec().expired_at(now),
        !due(s, now).contains((Alarm::never_spec().spec_tick(), key)),
        s.contains((Alarm::never_spec().spec_tick(), key)) ==> pending(s, now).contains(
            (Alarm::never_spec().spec_tick(), key),
        ),
{
    broadcast use vstd::seq_lib::group_filter_ensures;
    let e = (u64::MAX, key);
    if due(s, now).contains(e) {
        let k = choose|k: int| 0 <= k < due(s, now).len() && due(s, now)[k] == e;
        assert(crate::chronos::is_due(now)(due(s, now)[k]));
    }
    if s.contains(e) {
        let k = choose|k: int| 0 <= k < s.len() && s[k] == e;
        assert(crate::chronos::is_pending(now)(s[k]));
    }
}

} // verus!
