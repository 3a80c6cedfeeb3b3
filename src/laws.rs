use vstd::prelude::*;

use crate::store::live_counters;
use crate::time::{Moment, Interval};
use crate::window::{allowed, count_in, fresh_end, give_back, is_live, output_of, Value};

verus! {

/// The counter of one key after units are counted at each of `times` in turn,
/// starting from `prev`; each fresh window lasts `interval`.
pub open spec fn run(prev: Option<Value>, times: Seq<Moment>, interval: Interval) -> Option<Value>
    decreases times.len(),
{
    if times.len() == 0 {
        prev
    } else {
        let t = times.last();
        Some(
            count_in(
                run(prev, times.drop_last(), interval),
                t,
                Moment { nanos: (t.nanos + interval.nanos) as u64 },
            ),
        )
    }
}

/// Every one of `times` falls inside the window that opens at the first of
/// them, and that window ends within the clock's range.
pub open spec fn within_first_window(times: Seq<Moment>, interval: Interval) -> bool {
    &&& times.len() > 0
    &&& times[0].nanos + interval.nanos <= u64::MAX
    &&& forall|j: int|
        0 <= j < times.len() ==> times[0].nanos <= #[trigger] times[j].nanos < times[0].nanos
            + interval.nanos
}

proof fn lemma_run_in_window(times: Seq<Moment>, interval: Interval, j: int)
    requires
        within_first_window(times, interval),
        times.len() < u64::MAX,
        0 <= j < times.len(),
    ensures
        run(None, times.take(j + 1), interval) == Some(
            Value { ttl: Moment { nanos: (times[0].nanos + interval.nanos) as u64 }, count: (j + 1) as u64 },
        ),
    decreases j,
{
    let s = times.take(j + 1);
    assert(s.last() == times[j]);
    assert(times[0].nanos <= times[j].nanos < times[0].nanos + interval.nanos);
    if j > 0 {
        lemma_run_in_window(times, interval, j - 1);
        assert(s.drop_last() =~= times.take(j));
        assert(run(None, s.drop_last(), interval) == run(None, times.take(j), interval));
    } else {
        assert(s.drop_last() =~= Seq::<Moment>::empty());
        assert(run(None, s.drop_last(), interval) == None::<Value>);
    }
}

/// Within one window, a fresh key's first `max_requests` calls are allowed
/// and the ones after are denied; the call that brings the count to `j + 1`
/// reports `max_requests - (j + 1)` remaining, and zero once that would go
/// below zero, and every call reports the end of the first window.
pub proof fn lemma_window_correctness(times: Seq<Moment>, interval: Interval, max_requests: u64)
    requires
        within_first_window(times, interval),
        times.len() < u64::MAX,
    ensures
        forall|j: int| 0 <= j < times.len() ==> {
            let v = (#[trigger] run(None, times.take(j + 1), interval))->Some_0;
            &&& v.count == j + 1
            &&& allowed(v, max_requests) <==> j + 1 <= max_requests
            &&& output_of(v, max_requests).limit == max_requests
            &&& output_of(v, max_requests).remaining == if j + 1 <= max_requests {
                max_requests - (j + 1)
            } else {
                0
            }
            &&& output_of(v, max_requests).reset.nanos == times[0].nanos + interval.nanos
        },
{
    assert forall|j: int| 0 <= j < times.len() implies {
        let v = (#[trigger] run(None, times.take(j + 1), interval))->Some_0;
        &&& v.count == j + 1
        &&& allowed(v, max_requests) <==> j + 1 <= max_requests
        &&& output_of(v, max_requests).limit == max_requests
        &&& output_of(v, max_requests).remaining == if j + 1 <= max_requests {
            max_requests - (j + 1)
        } else {
            0
        }
        &&& output_of(v, max_requests).reset.nanos == times[0].nanos + interval.nanos
    } by {
        lemma_run_in_window(times, interval, j);
    }
}

/// Calls on one fresh key, taken in the order in which their critical
/// sections ran, each see a different count: with as many calls as
/// `max_requests`, the counts are exactly 1 to `max_requests` and every call is
/// allowed, so none is counted twice and none is lost.
pub proof fn lemma_serialized_counts(times: Seq<Moment>, interval: Interval)
    requires
        within_first_window(times, interval),
        times.len() < u64::MAX,
    ensures
        forall|j: int| 0 <= j < times.len() ==> {
            let v = (#[trigger] run(None, times.take(j + 1), interval))->Some_0;
            &&& 1 <= v.count <= times.len()
            &&& allowed(v, times.len() as u64)
        },
        forall|i: int, j: int|
            0 <= i < j < times.len() ==> (#[trigger] run(None, times.take(i + 1), interval))->Some_0.count
                != (#[trigger] run(None, times.take(j + 1), interval))->Some_0.count,
{
    lemma_window_correctness(times, interval, times.len() as u64);
    assert forall|i: int, j: int| 0 <= i < j < times.len() implies (#[trigger] run(
        None,
        times.take(i + 1),
        interval,
    ))->Some_0.count != (#[trigger] run(None, times.take(j + 1), interval))->Some_0.count by {
        lemma_run_in_window(times, interval, i);
        lemma_run_in_window(times, interval, j);
    }
}

/// Once a key's window has ended, its next call opens a fresh window of
/// `interval` at `now` with a count of one: it is allowed, where the limit
/// admits any call at all, and reports one less than the limit remaining.
pub proof fn lemma_window_rollover(v: Value, now: Moment, interval: Interval, max_requests: u64)
    requires
        !is_live(v, now),
        fresh_end(now, interval) is Some,
        max_requests >= 1,
    ensures
        ({
            let w = count_in(Some(v), now, fresh_end(now, interval)->Some_0);
            &&& w.count == 1
            &&& w.ttl.nanos == now.nanos + interval.nanos
            &&& allowed(w, max_requests)
            &&& output_of(w, max_requests).remaining == max_requests - 1
        }),
{
}

/// A request on `key` at `now`, rolled back at once, leaves the key as
/// good as untouched: a later request at `later` is allowed exactly when it
/// would have been without the pair, and reports the same remaining count.
/// (A count already at `u64::MAX` is left out: there the bump saturates.)
pub proof fn lemma_rollback_inverse(
    m: Map<Seq<char>, Value>,
    key: Seq<char>,
    now: Moment,
    interval: Interval,
    later: Moment,
    later_interval: Interval,
    max_requests: u64,
)
    requires
        fresh_end(now, interval) is Some,
        fresh_end(later, later_interval) is Some,
        now.nanos <= later.nanos,
        m.contains_key(key) ==> m[key].count < u64::MAX,
    ensures
        ({
            let after_request = m.insert(
                key,
                count_in(m.get(key), now, fresh_end(now, interval)->Some_0),
            );
            let after_rollback = after_request.insert(key, give_back(after_request.get(key))->Some_0);
            let with_pair = count_in(after_rollback.get(key), later, fresh_end(later, later_interval)->Some_0);
            let without = count_in(m.get(key), later, fresh_end(later, later_interval)->Some_0);
            &&& allowed(with_pair, max_requests) == allowed(without, max_requests)
            &&& output_of(with_pair, max_requests).remaining == output_of(without, max_requests).remaining
        }),
{
}

/// A reaper pass at `now` removes exactly the counters whose window has
/// ended by `now`, and keeps the others as they are.
pub proof fn lemma_reaper_eviction(m: Map<Seq<char>, Value>, now: Moment, key: Seq<char>)
    ensures
        m.contains_key(key) && !is_live(m[key], now) ==> !live_counters(m, now).contains_key(key),
        m.contains_key(key) && is_live(m[key], now) ==> live_counters(m, now).contains_key(key)
            && live_counters(m, now)[key] == m[key],
        !m.contains_key(key) ==> !live_counters(m, now).contains_key(key),
{
}

/// The map after requests on `key` at each of `times` in turn, each doing
/// what `CounterMap::request` and `InMemoryBackend::request_at` do to the
/// counters when they succeed.
pub open spec fn after_requests(
    m: Map<Seq<char>, Value>,
    key: Seq<char>,
    times: Seq<Moment>,
    interval: Interval,
) -> Map<Seq<char>, Value>
    decreases times.len(),
{
    if times.len() == 0 {
        m
    } else {
        let p = after_requests(m, key, times.drop_last(), interval);
        let t = times.last();
        p.insert(key, count_in(p.get(key), t, Moment { nanos: (t.nanos + interval.nanos) as u64 }))
    }
}

/// One more request at `now` takes the map from `after_requests(.., times, ..)`
/// to `after_requests(.., times.push(now), ..)` exactly as `CounterMap::request`
/// states its effect where the window's end fits the clock.
pub proof fn lemma_request_step(
    m: Map<Seq<char>, Value>,
    key: Seq<char>,
    times: Seq<Moment>,
    now: Moment,
    interval: Interval,
)
    requires
        fresh_end(now, interval) is Some,
    ensures
        ({
            let before = after_requests(m, key, times, interval);
            after_requests(m, key, times.push(now), interval) == before.insert(
                key,
                count_in(before.get(key), now, fresh_end(now, interval)->Some_0),
            )
        }),
{
    assert(times.push(now).drop_last() =~= times);
}

proof fn lemma_requests_follow_run(
    m: Map<Seq<char>, Value>,
    key: Seq<char>,
    times: Seq<Moment>,
    interval: Interval,
)
    ensures
        after_requests(m, key, times, interval).get(key) == run(m.get(key), times, interval),
    decreases times.len(),
{
    if times.len() > 0 {
        lemma_requests_follow_run(m, key, times.drop_last(), interval);
    }
}

/// Requests on a key that has no counter, all inside the window the first of
/// them opens: after the `j + 1`-th, the key's counter holds `j + 1` and ends
/// with that window, so the first `max_requests` are allowed, the rest
/// denied, and `remaining` counts down to zero and stays there.
pub proof fn lemma_requests_in_one_window(
    m: Map<Seq<char>, Value>,
    key: Seq<char>,
    times: Seq<Moment>,
    interval: Interval,
    max_requests: u64,
)
    requires
        !m.contains_key(key),
        within_first_window(times, interval),
        times.len() < u64::MAX,
    ensures
        forall|j: int| 0 <= j < times.len() ==> {
            let v = (#[trigger] after_requests(m, key, times.take(j + 1), interval))[key];
            &&& v.count == j + 1
            &&& v.ttl.nanos == times[0].nanos + interval.nanos
            &&& allowed(v, max_requests) <==> j + 1 <= max_requests
            &&& output_of(v, max_requests).remaining == if j + 1 <= max_requests {
                max_requests - (j + 1)
            } else {
                0
            }
        },
{
    assert forall|j: int| 0 <= j < times.len() implies {
        let v = (#[trigger] after_requests(m, key, times.take(j + 1), interval))[key];
        &&& v.count == j + 1
        &&& v.ttl.nanos == times[0].nanos + interval.nanos
        &&& allowed(v, max_requests) <==> j + 1 <= max_requests
        &&& output_of(v, max_requests).remaining == if j + 1 <= max_requests {
            max_requests - (j + 1)
        } else {
            0
        }
    } by {
        lemma_requests_follow_run(m, key, times.take(j + 1), interval);
        lemma_run_in_window(times, interval, j);
        assert(m.get(key) == None::<Value>);
    }
}

} // verus!
