use vstd::prelude::*;

use crate::time::{Moment, Interval};

verus! {

/// The counter kept for one key: how many units were counted in the current
/// window, and the instant at which that window ends.
#[derive(Clone, Copy, Debug, PartialEq, Eq, Structural)]
pub struct Value {
    pub ttl: Moment,
    pub count: u64,
}

/// What one call asks for: the key, the window length for a fresh window, and
/// the number of units the window admits.
#[derive(Clone, Debug)]
pub struct SimpleInput {
    pub interval: Interval,
    pub max_requests: u64,
    pub key: String,
}

/// What a caller learns of the key's window after a call.
#[derive(Clone, Copy, Debug, PartialEq, Eq, Structural)]
pub struct SimpleOutput {
    pub limit: u64,
    pub remaining: u64,
    pub reset: Moment,
}

/// Why a backend could not be built, or a call not evaluated.
#[derive(Clone, Copy, Debug, PartialEq, Eq, Structural)]
pub enum BackendError {
    /// The reaper period was zero.
    ZeroGcInterval,
    /// The end of a fresh window lies past the clock's range.
    Overflow,
}

/// What a call to `request` hands back: the decision, the descriptor, and the
/// token that `rollback` takes.
pub open spec fn request_outcome(
    v: Value,
    input: SimpleInput,
    r: (bool, SimpleOutput, String),
) -> bool {
    &&& r.0 == allowed(v, input.max_requests)
    &&& r.1 == output_of(v, input.max_requests)
    &&& r.2@ == input.key@
}

/// `count + 1`, held at `u64::MAX`.
pub open spec fn succ_count(count: u64) -> u64 {
    if count < u64::MAX {
        (count + 1) as u64
    } else {
        count
    }
}

/// `count - 1`, held at zero.
pub open spec fn pred_count(count: u64) -> u64 {
    if count > 0 {
        (count - 1) as u64
    } else {
        0
    }
}

/// Whether the counter's window is still open at `now`.
pub open spec fn is_live(v: Value, now: Moment) -> bool {
    v.ttl.nanos > now.nanos
}

/// The counter after one unit is counted at `now`: a live window is bumped and
/// keeps its end; an absent or elapsed one starts afresh, ending at `fresh_ttl`.
pub open spec fn count_in(prev: Option<Value>, now: Moment, fresh_ttl: Moment) -> Value {
    match prev {
        Some(v) => if is_live(v, now) {
            Value { ttl: v.ttl, count: succ_count(v.count) }
        } else {
            Value { ttl: fresh_ttl, count: 1 }
        },
        None => Value { ttl: fresh_ttl, count: 1 },
    }
}

/// The counter after a rollback: one unit given back, the window's end kept.
pub open spec fn give_back(prev: Option<Value>) -> Option<Value> {
    match prev {
        Some(v) => Some(Value { ttl: v.ttl, count: pred_count(v.count) }),
        None => None,
    }
}

/// Whether a counter that has reached `v` admits the call that brought it there.
pub open spec fn allowed(v: Value, max_requests: u64) -> bool {
    v.count <= max_requests
}

/// The descriptor reported for a counter that has reached `v`.
pub open spec fn output_of(v: Value, max_requests: u64) -> SimpleOutput {
    SimpleOutput {
        limit: max_requests,
        remaining: if v.count <= max_requests { (max_requests - v.count) as u64 } else { 0 },
        reset: v.ttl,
    }
}

/// The end of a window that opens at `now` and lasts `interval`, where that
/// instant is within the clock's range.
pub open spec fn fresh_end(now: Moment, interval: Interval) -> Option<Moment> {
    if now.nanos + interval.nanos <= u64::MAX {
        Some(Moment { nanos: (now.nanos + interval.nanos) as u64 })
    } else {
        None
    }
}

/// Computes the counter after one unit is counted at `now`.
pub fn next_value(prev: Option<Value>, now: Moment, fresh_ttl: Moment) -> (r: Value)
    ensures
        r == count_in(prev, now, fresh_ttl),
{
    match prev {
        Some(v) => {
            if v.ttl.nanos > now.nanos {
                Value { ttl: v.ttl, count: v.count.saturating_add(1) }
            } else {
                Value { ttl: fresh_ttl, count: 1 }
            }
        },
        None => Value { ttl: fresh_ttl, count: 1 },
    }
}

/// Computes the counter after one unit is given back.
pub fn previous_value(v: Value) -> (r: Value)
    ensures
        Some(r) == give_back(Some(v)),
{
    Value { ttl: v.ttl, count: v.count.saturating_sub(1) }
}

/// The decision and the descriptor for a counter that has reached `v`.
pub fn decide(v: Value, max_requests: u64) -> (r: (bool, SimpleOutput))
    ensures
        r.0 == allowed(v, max_requests),
        r.1 == output_of(v, max_requests),
{
    let allow = v.count <= max_requests;
    let output = SimpleOutput {
        limit: max_requests,
        remaining: max_requests.saturating_sub(v.count),
        reset: v.ttl,
    };
    (allow, output)
}

} // verus!
