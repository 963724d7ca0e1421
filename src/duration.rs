use vstd::prelude::*;

verus! {

pub const NANOS_PER_SEC: u32 = 1_000_000_000;

pub const NANOS_PER_MICRO: u32 = 1_000;

pub const MICROS_PER_SEC: u64 = 1_000_000;

/// A span of time: whole seconds plus a sub-second part in nanoseconds,
/// laid out as `core::time::Duration` is.
#[derive(Clone, Copy, Debug, PartialEq, Eq, Structural)]
pub struct Duration {
    secs: u64,
    nanos: u32,
}

impl Duration {
    /// The sub-second part stays below one second.
    pub open spec fn wf(self) -> bool {
        self.spec_nanos() < NANOS_PER_SEC
    }

    pub closed spec fn spec_secs(self) -> u64 {
        self.secs
    }

    pub closed spec fn spec_nanos(self) -> u32 {
        self.nanos
    }

    /// The whole span in nanoseconds.
    pub open spec fn total_nanos(self) -> int {
        self.spec_secs() * NANOS_PER_SEC + self.spec_nanos()
    }

    /// The whole span in whole microseconds, rounding down.
    pub open spec fn total_micros(self) -> int {
        self.spec_secs() * MICROS_PER_SEC + (self.spec_nanos() / NANOS_PER_MICRO) as int
    }

    /// `secs` seconds and `nanos` nanoseconds; whole seconds in `nanos` carry over.
    pub fn new(secs: u64, nanos: u32) -> (r: Duration)
        requires
            secs + nanos / NANOS_PER_SEC <= u64::MAX,
        ensures
            r.wf(),
            r.total_nanos() == secs * NANOS_PER_SEC + nanos,
    {
        let carry: u32 = nanos / NANOS_PER_SEC;
        let rest: u32 = nanos % NANOS_PER_SEC;
        let r = Duration { secs: secs + carry as u64, nanos: rest };
        r
    }

    pub fn from_secs(secs: u64) -> (r: Duration)
        ensures
            r.wf(),
            r.spec_secs() == secs,
            r.spec_nanos() == 0,
    {
        Duration { secs, nanos: 0 }
    }

    pub fn from_micros(micros: u64) -> (r: Duration)
        ensures
            r.wf(),
            r.spec_secs() == micros / MICROS_PER_SEC,
            r.spec_nanos() == (micros % MICROS_PER_SEC) * NANOS_PER_MICRO,
            r.total_micros() == micros,
            r.total_nanos() == micros * NANOS_PER_MICRO,
    {
        let secs: u64 = micros / MICROS_PER_SEC;
        let sub: u64 = micros % MICROS_PER_SEC;
        let nanos: u32 = (sub as u32) * NANOS_PER_MICRO;
        let r = Duration { secs, nanos };
        assert(r.total_micros() == micros) by (nonlinear_arith)
            requires
                r.spec_secs() == secs,
                r.spec_nanos() == nanos,
                nanos == sub * 1000,
                secs == micros / 1_000_000,
                sub == micros % 1_000_000,
                r.total_micros() == r.spec_secs() * 1_000_000 + r.spec_nanos() / 1000,
        ;
        r
    }

    pub fn from_millis(millis: u64) -> (r: Duration)
        ensures
            r.wf(),
            r.spec_secs() == millis / 1000,
            r.spec_nanos() == (millis % 1000) * 1_000_000,
            r.total_nanos() == millis * 1_000_000,
    {
        let secs: u64 = millis / 1000;
        let sub: u32 = (millis % 1000) as u32;
        Duration { secs, nanos: sub * 1_000_000 }
    }

    pub fn as_secs(&self) -> (r: u64)
        ensures
            r == self.spec_secs(),
    {
        self.secs
    }

    pub fn subsec_nanos(&self) -> (r: u32)
        ensures
            r == self.spec_nanos(),
    {
        self.nanos
    }

    pub fn subsec_micros(&self) -> (r: u32)
        ensures
            r == self.spec_nanos() / NANOS_PER_MICRO,
    {
        self.nanos / NANOS_PER_MICRO
    }

}

} // verus!
