use vstd::prelude::*;
use vstd::rwlock::{RwLock, RwLockPredicate};

use crate::store::CounterMap;
use crate::time::Moment;
use crate::window::{count_in, fresh_end, request_outcome, BackendError, SimpleInput, SimpleOutput, Value};

verus! {

/// What the lock holds between two critical sections: a well-formed map.
pub struct WellFormedMap;

impl RwLockPredicate<CounterMap> for WellFormedMap {
    open spec fn inv(self, m: CounterMap) -> bool {
        m.wf()
    }
}

/// The counter map behind one lock, shared by every caller. Each operation
/// takes the lock once, does its whole read-modify-write on the map and
/// releases it; no reference into the map leaves a critical section.
pub struct LockedHashMap {
    lock: RwLock<CounterMap, WellFormedMap>,
}

impl LockedHashMap {
    pub fn new() -> (r: LockedHashMap) {
        LockedHashMap { lock: RwLock::new(CounterMap::new(), Ghost(WellFormedMap)) }
    }

    /// One fixed-window request at `now`, in one critical section (see
    /// `CounterMap::request`). Other callers may have changed the key's
    /// counter since any earlier call, so the result is stated over the
    /// counter as this call found it, whatever that was.
    pub fn request(&self, input: SimpleInput, now: Moment) -> (r: Result<
        (bool, SimpleOutput, String),
        BackendError,
    >)
        ensures
            fresh_end(now, input.interval) is None <==> r == Err::<
                (bool, SimpleOutput, String),
                BackendError,
            >(BackendError::Overflow),
            fresh_end(now, input.interval) is Some ==> r is Ok,
            r matches Ok(out) ==> exists|prev: Option<Value>|
                request_outcome(
                    #[trigger] count_in(prev, now, fresh_end(now, input.interval)->Some_0),
                    input,
                    out,
                ),
    {
        let (mut m, handle) = self.lock.acquire_write();
        let ghost found = m@.get(input.key@);
        let r = m.request(input, now);
        handle.release_write(m);
        proof {
            if fresh_end(now, input.interval) is Some {
                let v = count_in(found, now, fresh_end(now, input.interval)->Some_0);
                assert(r matches Ok(out) && request_outcome(v, input, out));
            }
        }
        r
    }

    /// Gives back one unit of `key`'s counter, if it has one, in one critical
    /// section.
    pub fn decrement(&self, key: &str) {
        let (mut m, handle) = self.lock.acquire_write();
        m.decrement(key);
        handle.release_write(m);
    }

    /// Removes `key`'s counter, if there is one, and returns it (see
    /// `CounterMap::remove`).
    pub fn remove(&self, key: &str) -> Option<Value> {
        let (mut m, handle) = self.lock.acquire_write();
        let r = m.remove(key);
        handle.release_write(m);
        r
    }

    /// In one critical section, stores `make_default()` for an absent `key`
    /// or replaces its value `v` by `modify(v)` (see
    /// `CounterMap::upsert_modify`). Returns the value stored, which came from
    /// one of the two, whatever the map held.
    pub fn upsert_modify<D, M>(&self, key: String, make_default: D, modify: M) -> (r: Value) where
        D: FnOnce() -> Value,
        M: FnOnce(Value) -> Value,

        requires
            make_default.requires(()),
            forall|v: Value| #[trigger] modify.requires((v,)),
        ensures
            make_default.ensures((), r) || exists|v: Value| #[trigger] modify.ensures((v,), r),
    {
        let (mut m, handle) = self.lock.acquire_write();
        let r = m.upsert_modify(key, make_default, modify);
        handle.release_write(m);
        r
    }

    /// Whether `key` has a counter at the moment of the call.
    pub fn contains_key(&self, key: &str) -> bool {
        let handle = self.lock.acquire_read();
        let r = handle.borrow().contains_key(key);
        handle.release_read();
        r
    }

    /// Keeps the entries for which `keep(key, value)` returns true, in one
    /// critical section (see `CounterMap::retain_by`).
    pub fn retain<F>(&self, keep: F) where F: Fn(&String, &Value) -> bool
        requires
            forall|k: &String, v: &Value| #[trigger] keep.requires((k, v)),
    {
        let (mut m, handle) = self.lock.acquire_write();
        m.retain_by(keep);
        handle.release_write(m);
    }
}

} // verus!
