use vstd::prelude::*;

verus! {

/// A point on the monotonic clock, in nanoseconds since the clock's origin.
#[derive(Clone, Copy, Debug, PartialEq, Eq, Structural)]
pub struct Moment {
    pub nanos: u64,
}

/// A length of time, in nanoseconds.
#[derive(Clone, Copy, Debug, PartialEq, Eq, Structural)]
pub struct Interval {
    pub nanos: u64,
}

pub const NANOS_PER_SEC: u64 = 1_000_000_000;

impl Interval {
    pub fn from_nanos(nanos: u64) -> (r: Interval)
        ensures
            r.nanos == nanos,
    {
        Interval { nanos }
    }

    /// An interval of `secs` whole seconds.
    pub fn from_secs(secs: u64) -> (r: Interval)
        requires
            secs * NANOS_PER_SEC <= u64::MAX,
        ensures
            r.nanos == secs * NANOS_PER_SEC,
    {
        Interval { nanos: secs * NANOS_PER_SEC }
    }

    pub fn as_nanos(&self) -> (r: u64)
        ensures
            r == self.nanos,
    {
        self.nanos
    }
}

impl Moment {
    pub fn from_nanos(nanos: u64) -> (r: Moment)
        ensures
            r.nanos == nanos,
    {
        Moment { nanos }
    }

    /// The instant `d` after `self`, or `None` where it is past the clock's range.
    pub fn checked_add(&self, d: Interval) -> (r: Option<Moment>)
        ensures
            self.nanos + d.nanos <= u64::MAX ==> r == Some(Moment { nanos: (self.nanos + d.nanos) as u64 }),
            self.nanos + d.nanos > u64::MAX ==> r is None,
    {
        match self.nanos.checked_add(d.nanos) {
            Some(n) => Some(Moment { nanos: n }),
            None => None,
        }
    }
}

} // verus!
