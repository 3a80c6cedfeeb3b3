use vstd::prelude::*;

use crate::clock::Clock;
use crate::store::{live_counters, request_effect, CounterMap};
use crate::time::{Interval, Moment, NANOS_PER_SEC};
use crate::window::{
    count_in, fresh_end, give_back, request_outcome, BackendError, SimpleInput, SimpleOutput, Value,
};

verus! {

/// How often the reaper runs unless told otherwise: every ten minutes.
pub const DEFAULT_GC_INTERVAL_SECONDS: u64 = 600;

/// A fixed-window rate limiter that keeps its counters in memory. Its view is
/// the map from each key to its counter. Callers that share one backend put
/// it behind a lock; each operation below is then one critical section.
pub struct InMemoryBackend {
    map: CounterMap,
    clock: Clock,
    gc_interval: Option<Interval>,
}

/// Sets up an `InMemoryBackend`.
pub struct Builder {
    gc_interval: Option<Interval>,
}

impl View for InMemoryBackend {
    type V = Map<Seq<char>, Value>;

    closed spec fn view(&self) -> Map<Seq<char>, Value> {
        self.map@
    }
}

impl InMemoryBackend {
    /// The counter map is well formed.
    pub closed spec fn wf(&self) -> bool {
        self.map.wf()
    }

    /// A builder with the reaper on, at the default period.
    pub fn builder() -> (r: Builder)
        ensures
            r.gc_interval() == Some(Interval { nanos: (DEFAULT_GC_INTERVAL_SECONDS * NANOS_PER_SEC) as u64 }),
    {
        Builder { gc_interval: Some(Interval::from_secs(DEFAULT_GC_INTERVAL_SECONDS)) }
    }

    /// The reaper period this backend was built with; `None` where the reaper
    /// is off.
    pub closed spec fn reaper_period(&self) -> Option<Interval> {
        self.gc_interval
    }

    pub fn gc_interval(&self) -> (r: Option<Interval>)
        ensures
            r == self.reaper_period(),
    {
        self.gc_interval
    }

    /// Counts one unit for `input.key` at `now` and decides on it (fixed
    /// window). Where the key's window is open, its counter is bumped and its
    /// end kept, whatever `input.interval` says; otherwise a window of
    /// `input.interval` opens at `now` with a count of one. The call is allowed
    /// while the count does not pass `input.max_requests`. Fails, leaving the
    /// counters as they were, where the end of a fresh window would pass the
    /// clock's range.
    pub fn request_at(&mut self, input: SimpleInput, now: Moment) -> (r: Result<
        (bool, SimpleOutput, String),
        BackendError,
    >)
        requires
            old(self).wf(),
        ensures
            final(self).wf(),
            final(self).reaper_period() == old(self).reaper_period(),
            fresh_end(now, input.interval) is None ==> r == Err::<
                (bool, SimpleOutput, String),
                BackendError,
            >(BackendError::Overflow) && final(self)@ == old(self)@,
            fresh_end(now, input.interval) matches Some(fresh_ttl) ==> {
                let v = count_in(old(self)@.get(input.key@), now, fresh_ttl);
                &&& final(self)@ == old(self)@.insert(input.key@, v)
                &&& r matches Ok(out) && request_outcome(v, input, out)
            },
    {
        self.map.request(input, now)
    }

    /// As `request_at`, at the instant the backend's clock reads. A zero
    /// interval never overflows, so it always succeeds.
    pub fn request(&mut self, input: SimpleInput) -> (r: Result<
        (bool, SimpleOutput, String),
        BackendError,
    >)
        requires
            old(self).wf(),
        ensures
            final(self).wf(),
            final(self).reaper_period() == old(self).reaper_period(),
            exists|now: Moment| request_effect(old(self)@, final(self)@, input, now, r),
            input.interval.nanos == 0 ==> r is Ok,
            r matches Err(e) ==> e == BackendError::Overflow && input.interval.nanos > 0,
    {
        let now = self.clock.now();
        let r = self.request_at(input, now);
        assert(request_effect(old(self)@, self@, input, now, r));
        r
    }

    /// Gives back the unit counted by the `request` that handed out `token`:
    /// the key's count drops by one, held at zero, and its window's end is
    /// kept. Nothing happens where the key has no counter (it was reaped or
    /// removed). Where the key's window has rolled over since, it is the new
    /// window's count that drops.
    pub fn rollback(&mut self, token: String)
        requires
            old(self).wf(),
        ensures
            final(self).wf(),
            final(self).reaper_period() == old(self).reaper_period(),
            old(self)@.contains_key(token@) ==> final(self)@ == old(self)@.insert(
                token@,
                give_back(old(self)@.get(token@))->Some_0,
            ),
            !old(self)@.contains_key(token@) ==> final(self)@ == old(self)@,
    {
        self.map.decrement(token.as_str());
    }

    /// Removes `key`'s counter, so that its next request opens a fresh window.
    pub fn remove_key(&mut self, key: &str)
        requires
            old(self).wf(),
        ensures
            final(self).wf(),
            final(self).reaper_period() == old(self).reaper_period(),
            final(self)@ == old(self)@.remove(key@),
    {
        let _ = self.map.remove(key);
    }

    /// Whether `key` has a counter.
    pub fn contains_key(&self, key: &str) -> (r: bool)
        ensures
            r == self@.contains_key(key@),
    {
        self.map.contains_key(key)
    }

    /// The instant the backend's clock reads.
    pub fn now(&self) -> Moment {
        self.clock.now()
    }

    /// One reaper pass at `now`: drops the counters whose window has ended,
    /// and keeps the others as they are.
    pub fn collect_garbage(&mut self, now: Moment)
        requires
            old(self).wf(),
        ensures
            final(self).wf(),
            final(self).reaper_period() == old(self).reaper_period(),
            final(self)@ == live_counters(old(self)@, now),
    {
        self.map.retain(now);
    }
}

impl Builder {
    pub closed spec fn gc_interval(&self) -> Option<Interval> {
        self.gc_interval
    }

    /// Overrides the reaper period; `None` turns the reaper off.
    pub fn with_gc_interval(self, interval: Option<Interval>) -> (r: Builder)
        ensures
            r.gc_interval() == interval,
    {
        Builder { gc_interval: interval }
    }

    /// A backend with no counters, a clock starting now, and this builder's
    /// reaper period. A zero period is refused.
    pub fn build(self) -> (r: Result<InMemoryBackend, BackendError>)
        ensures
            (self.gc_interval() matches Some(i) && i.nanos == 0) <==> r is Err,
            r matches Err(e) ==> e == BackendError::ZeroGcInterval,
            r matches Ok(b) ==> b.wf() && b@ == Map::<Seq<char>, Value>::empty() && b.reaper_period()
                == self.gc_interval(),
    {
        if let Some(i) = self.gc_interval {
            if i.nanos == 0 {
                return Err(BackendError::ZeroGcInterval);
            }
        }
        Ok(InMemoryBackend { map: CounterMap::new(), clock: Clock::new(), gc_interval: self.gc_interval })
    }
}

} // verus!
