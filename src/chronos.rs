use vstd::prelude::*;
use crate::alarm::Alarm;
use crate::clock::TickCounter;

verus! {

/// How many pending alarms the registry holds at once.
pub const CAPACITY: usize = 32;

/// A registered alarm: its target tick and the key of the waker to call.
pub type Entry = (u64, u64);

/// heapless::Vec, the fixed-capacity vector that stores the registry; its
/// contents are known only through `slots_of`.
#[verifier::external_type_specification]
#[verifier::external_body]
#[verifier::reject_recursive_types(T)]
pub struct ExHeaplessVec<T, const N: usize>(heapless::Vec<T, N>);

/// What a fixed-capacity vector of entries holds, front to back.
pub uninterp spec fn slots_of(v: heapless::Vec<(u64, u64), CAPACITY>) -> Seq<(u64, u64)>;

/// Relies on heapless::Vec::new: a new vector holds nothing.
#[verifier::external_body]
fn slots_new() -> (r: heapless::Vec<(u64, u64), CAPACITY>)
    ensures
        slots_of(r) == Seq::<(u64, u64)>::empty(),
{
    heapless::Vec::new()
}

/// Relies on heapless::Vec::len (through its slice): the number of items held.
#[verifier::external_body]
fn slots_len(v: &heapless::Vec<(u64, u64), CAPACITY>) -> (r: usize)
    ensures
        r == slots_of(*v).len(),
{
    v.len()
}

/// Relies on indexing a heapless::Vec (through its slice): the item at `i`.
#[verifier::external_body]
fn slots_get(v: &heapless::Vec<(u64, u64), CAPACITY>, i: usize) -> (r: (u64, u64))
    requires
        i < slots_of(*v).len(),
    ensures
        r == slots_of(*v)[i as int],
{
    v[i]
}

/// Relies on heapless::Vec::push: appends while fewer than `CAPACITY` items
/// are held, and otherwise hands the item back and changes nothing.
#[verifier::external_body]
fn slots_push(v: &mut heapless::Vec<(u64, u64), CAPACITY>, e: (u64, u64)) -> (r: Result<(), (u64, u64)>)
    ensures
        r is Ok <==> slots_of(*old(v)).len() < CAPACITY,
        r is Ok ==> slots_of(*final(v)) == slots_of(*old(v)).push(e),
        r is Err ==> r->Err_0 == e && slots_of(*final(v)) == slots_of(*old(v)),
{
    v.push(e)
}

/// Entries in ascending order of target tick.
pub open spec fn sorted_by_tick(s: Seq<Entry>) -> bool {
    forall|i: int, j: int| 0 <= i < j < s.len() ==> s[i].0 <= s[j].0
}

pub open spec fn is_due(now: u64) -> spec_fn(Entry) -> bool {
    |e: Entry| e.0 <= now
}

pub open spec fn is_pending(now: u64) -> spec_fn(Entry) -> bool {
    |e: Entry| e.0 > now
}

/// The entries of `s` whose target tick has been reached at `now`, in order.
pub open spec fn due(s: Seq<Entry>, now: u64) -> Seq<Entry> {
    s.filter(is_due(now))
}

/// The entries of `s` whose target tick lies after `now`, in order.
pub open spec fn pending(s: Seq<Entry>, now: u64) -> Seq<Entry> {
    s.filter(is_pending(now))
}

/// The waker keys of `s`, in order.
pub open spec fn keys(s: Seq<Entry>) -> Seq<u64> {
    s.map_values(|e: Entry| e.1)
}

/// `s` with `e` placed after every entry due no later than it and before
/// every entry due after it.
pub open spec fn with_entry(s: Seq<Entry>, e: Entry) -> Seq<Entry> {
    due(s, e.0) + seq![e] + pending(s, e.0)
}

/// Filtering a prefix one entry longer adds that entry if it passes.
proof fn lemma_filter_step(s: Seq<Entry>, p: spec_fn(Entry) -> bool, i: int)
    requires
        0 <= i < s.len(),
    ensures
        s.take(i + 1).filter(p) == if p(s[i]) {
            s.take(i).filter(p).push(s[i])
        } else {
            s.take(i).filter(p)
        },
{
    assert(s.take(i + 1) =~= s.take(i).push(s[i]));
    s.take(i).lemma_filter_push(s[i], p);
}

/// Every entry is either due or pending, never both.
proof fn lemma_partition_len(s: Seq<Entry>, now: u64)
    ensures
        due(s, now).len() + pending(s, now).len() == s.len(),
    decreases s.len(),
{
    if s.len() > 0 {
        lemma_partition_len(s.drop_last(), now);
        assert(s == s.drop_last().push(s.last()));
        s.drop_last().lemma_filter_push(s.last(), is_due(now));
        s.drop_last().lemma_filter_push(s.last(), is_pending(now));
    }
}

/// Filtering keeps ascending order.
proof fn lemma_filter_sorted(s: Seq<Entry>, p: spec_fn(Entry) -> bool)
    requires
        sorted_by_tick(s),
    ensures
        sorted_by_tick(s.filter(p)),
    decreases s.len(),
{
    broadcast use vstd::seq_lib::group_seq_properties;
    if s.len() > 0 {
        let rest = s.drop_last();
        lemma_filter_sorted(rest, p);
        assert(s == rest.push(s.last()));
        rest.lemma_filter_push(s.last(), p);
        let f = rest.filter(p);
        assert forall|k: int| 0 <= k < f.len() implies f[k].0 <= s.last().0 by {
            assert(f.contains(f[k]));
            rest.lemma_filter_contains_rev(p, f[k]);
            let j = choose|j: int| 0 <= j < rest.len() && rest[j] == f[k];
            assert(s[j] == rest[j]);
        }
    }
}

/// Where no entry is due, filtering by dueness leaves nothing and filtering
/// by pendingness leaves everything.
proof fn lemma_none_due(s: Seq<Entry>, now: u64)
    requires
        forall|k: int| 0 <= k < s.len() ==> s[k].0 > now,
    ensures
        due(s, now) == Seq::<Entry>::empty(),
        pending(s, now) == s,
    decreases s.len(),
{
    if s.len() > 0 {
        let rest = s.drop_last();
        lemma_none_due(rest, now);
        assert(s == rest.push(s.last()));
        rest.lemma_filter_push(s.last(), is_due(now));
        rest.lemma_filter_push(s.last(), is_pending(now));
    } else {
        reveal(Seq::filter);
    }
}

/// A prefix filters to no more than the whole.
proof fn lemma_filter_prefix_len(s: Seq<Entry>, p: spec_fn(Entry) -> bool, i: int)
    requires
        0 <= i <= s.len(),
    ensures
        s.take(i).filter(p).len() <= s.filter(p).len(),
    decreases s.len() - i,
{
    if i < s.len() {
        lemma_filter_prefix_len(s, p, i + 1);
        lemma_filter_step(s, p, i);
    } else {
        assert(s.take(i) =~= s);
    }
}

/// Placing an entry between the due and the pending part keeps the order.
proof fn lemma_insert_sorted(s: Seq<Entry>, e: Entry)
    requires
        sorted_by_tick(s),
    ensures
        sorted_by_tick(with_entry(s, e)),
{
    broadcast use vstd::seq_lib::group_filter_ensures;
    let a = due(s, e.0);
    let b = pending(s, e.0);
    lemma_filter_sorted(s, is_due(e.0));
    lemma_filter_sorted(s, is_pending(e.0));
    let w = with_entry(s, e);
    assert forall|k: int| 0 <= k < a.len() implies a[k].0 <= e.0 by {
        assert(is_due(e.0)(a[k]));
    }
    assert forall|k: int| 0 <= k < b.len() implies b[k].0 > e.0 by {
        assert(is_pending(e.0)(b[k]));
    }
    assert forall|i: int, j: int| 0 <= i < j < w.len() implies w[i].0 <= w[j].0 by {
        if j < a.len() {
            assert(w[i] == a[i] && w[j] == a[j]);
        } else if i > a.len() {
            assert(w[i] == b[i - a.len() - 1] && w[j] == b[j - a.len() - 1]);
        } else {
            if i < a.len() {
                assert(w[i] == a[i]);
            } else {
                assert(w[i] == e);
            }
            if j == a.len() {
                assert(w[j] == e);
            } else {
                assert(w[j] == b[j - a.len() - 1]);
            }
        }
    }
}

/// With the counter below the first target of an ordered registry, a poll
/// takes nothing out and leaves every entry in place.
pub proof fn lemma_poll_before_first(s: Seq<Entry>, now: u64)
    requires
        sorted_by_tick(s),
        s.len() > 0,
        now < s[0].0,
    ensures
        due(s, now) == Seq::<Entry>::empty(),
        keys(due(s, now)) == Seq::<u64>::empty(),
        pending(s, now) == s,
{
    assert forall|k: int| 0 <= k < s.len() implies s[k].0 > now by {
        assert(s[0].0 <= s[k].0);
    }
    lemma_none_due(s, now);
    assert(keys(due(s, now)) =~= Seq::<u64>::empty());
}

/// Registering an entry due after every entry held appends it.
pub proof fn lemma_register_latest(s: Seq<Entry>, e: Entry)
    requires
        forall|k: int| 0 <= k < s.len() ==> s[k].0 < e.0,
    ensures
        with_entry(s, e) == s.push(e),
{
    let t = e.0;
    assert forall|k: int| 0 <= k < s.len() implies s[k].0 <= t by {}
    lemma_all_due(s, t);
    assert(with_entry(s, e) =~= s.push(e));
}

/// Where every entry is due, filtering by dueness keeps everything.
proof fn lemma_all_due(s: Seq<Entry>, now: u64)
    requires
        forall|k: int| 0 <= k < s.len() ==> s[k].0 <= now,
    ensures
        due(s, now) == s,
        pending(s, now) == Seq::<Entry>::empty(),
    decreases s.len(),
{
    if s.len() > 0 {
        let rest = s.drop_last();
        lemma_all_due(rest, now);
        assert(s == rest.push(s.last()));
        rest.lemma_filter_push(s.last(), is_due(now));
        rest.lemma_filter_push(s.last(), is_pending(now));
    } else {
        reveal(Seq::filter);
    }
}

/// A poll takes out the due entries in ascending order of target tick.
pub proof fn lemma_poll_wakes_in_order(s: Seq<Entry>, now: u64)
    requires
        sorted_by_tick(s),
    ensures
        sorted_by_tick(due(s, now)),
        forall|k: int| 0 <= k < due(s, now).len() ==> due(s, now)[k].0 <= now,
{
    broadcast use vstd::seq_lib::group_filter_ensures;
    lemma_filter_sorted(s, is_due(now));
    assert forall|k: int| 0 <= k < due(s, now).len() implies due(s, now)[k].0 <= now by {
        assert(is_due(now)(due(s, now)[k]));
    }
}

/// The bounded registry of pending alarms, kept in ascending order of
/// target tick.
pub struct Chronos {
    slots: heapless::Vec<(u64, u64), CAPACITY>,
}

impl Chronos {
    /// The registered entries, front to back.
    pub closed spec fn entries(&self) -> Seq<Entry> {
        slots_of(self.slots)
    }

    pub open spec fn wf(&self) -> bool {
        &&& self.entries().len() <= CAPACITY
        &&& sorted_by_tick(self.entries())
    }

    /// An empty registry.
    pub fn new() -> (r: Chronos)
        ensures
            r.wf(),
            r.entries() == Seq::<Entry>::empty(),
    {
        Chronos { slots: slots_new() }
    }

    /// The number of registered entries.
    pub fn len(&self) -> (r: usize)
        ensures
            r == self.entries().len(),
    {
        slots_len(&self.slots)
    }

    pub fn is_empty(&self) -> (r: bool)
        ensures
            r == (self.entries().len() == 0),
    {
        slots_len(&self.slots) == 0
    }

    pub fn is_full(&self) -> (r: bool)
        requires
            self.wf(),
        ensures
            r == (self.entries().len() == CAPACITY),
    {
        slots_len(&self.slots) == CAPACITY
    }

    /// The target tick and waker key of the entry at `i`.
    pub fn entry(&self, i: usize) -> (r: Entry)
        requires
            i < self.entries().len(),
        ensures
            r == self.entries()[i as int],
    {
        slots_get(&self.slots, i)
    }
    /// Appends to `out`, in order, the entries of `self` that are due at `t`
    /// when `want_due` holds, and those still pending at `t` otherwise.
    fn copy_where(&self, out: &mut heapless::Vec<(u64, u64), CAPACITY>, t: u64, want_due: bool)
        requires
            self.wf(),
            slots_of(*old(out)).len() + (if want_due {
                due(self.entries(), t).len()
            } else {
                pending(self.entries(), t).len()
            }) <= CAPACITY,
        ensures
            slots_of(*final(out)) == slots_of(*old(out)) + (if want_due {
                due(self.entries(), t)
            } else {
                pending(self.entries(), t)
            }),
    {
        let ghost s = self.entries();
        let ghost p = if want_due { is_due(t) } else { is_pending(t) };
        let ghost start = slots_of(*out);
        let n: usize = slots_len(&self.slots);
        let mut i: usize = 0;
        while i < n
            invariant
                n == s.len(),
                i <= n,
                s == self.entries(),
                p == if want_due { is_due(t) } else { is_pending(t) },
                s.filter(p) == if want_due { due(s, t) } else { pending(s, t) },
                start.len() + s.filter(p).len() <= CAPACITY,
                slots_of(*out) == start + s.take(i as int).filter(p),
            decreases n - i,
        {
            let e = slots_get(&self.slots, i);
            proof {
                lemma_filter_step(s, p, i as int);
                assert(s.take(i as int + 1).filter(p).len() <= s.filter(p).len()) by {
                    lemma_filter_prefix_len(s, p, i as int + 1);
                }
            }
            let keep = if want_due { e.0 <= t } else { e.0 > t };
            if keep {
                let _ = slots_push(out, e);
                assert(slots_of(*out) =~= start + s.take(i as int + 1).filter(p));
            }
            i = i + 1;
        }
        assert(s.take(n as int) =~= s);
    }

    /// Adds `alarm` with the waker whose key is `key`, after every entry due
    /// no later and before every entry due later. The registry must have
    /// room: a full registry is a fatal condition for the runtime.
    pub fn register(&mut self, alarm: &Alarm, key: u64)
        requires
            old(self).wf(),
            old(self).entries().len() < CAPACITY,
        ensures
            final(self).wf(),
            final(self).entries() == with_entry(old(self).entries(), (alarm.spec_tick(), key)),
    {
        let tick: u64 = alarm.tick();
        let ghost s = self.entries();
        proof {
            lemma_partition_len(s, tick);
        }
        let mut fresh = slots_new();
        self.copy_where(&mut fresh, tick, true);
        let _ = slots_push(&mut fresh, (tick, key));
        self.copy_where(&mut fresh, tick, false);
        proof {
            lemma_insert_sorted(s, (tick, key));
            assert(slots_of(fresh) =~= with_entry(s, (tick, key)));
        }
        self.slots = fresh;
    }

    /// Takes out every entry whose target tick has been reached at the
    /// counter's current tick and returns their waker keys in registry
    /// order, so in ascending order of target tick; the rest stay, in order.
    pub fn poll(&mut self, counter: &TickCounter) -> (r: Vec<u64>)
        requires
            old(self).wf(),
        ensures
            final(self).wf(),
            final(self).entries() == pending(old(self).entries(), counter.spec_tick()),
            r@ == keys(due(old(self).entries(), counter.spec_tick())),
    {
        let now: u64 = counter.tick();
        let ghost s = self.entries();
        let n: usize = slots_len(&self.slots);
        if n == 0 || slots_get(&self.slots, 0).0 > now {
            proof {
                if n == 0 {
                    lemma_none_due(s, now);
                    assert(keys(due(s, now)) =~= Seq::<u64>::empty());
                } else {
                    lemma_poll_before_first(s, now);
                }
            }
            return Vec::new();
        }
        let mut woken: Vec<u64> = Vec::new();
        let mut i: usize = 0;
        while i < n
            invariant
                n == s.len(),
                i <= n,
                s == self.entries(),
                woken@ == keys(s.take(i as int).filter(is_due(now))),
            decreases n - i,
        {
            let e = slots_get(&self.slots, i);
            proof {
                lemma_filter_step(s, is_due(now), i as int);
            }
            if e.0 <= now {
                woken.push(e.1);
            }
            assert(woken@ =~= keys(s.take(i as int + 1).filter(is_due(now))));
            i = i + 1;
        }
        assert(s.take(n as int) =~= s);
        let mut rest = slots_new();
        proof {
            lemma_partition_len(s, now);
        }
        self.copy_where(&mut rest, now, false);
        proof {
            lemma_filter_sorted(s, is_pending(now));
            assert(slots_of(rest) =~= pending(s, now));
        }
        self.slots = rest;
        woken
    }
}

} // verus!
