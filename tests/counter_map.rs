use extensible_rate_limit::locked::LockedHashMap;
use extensible_rate_limit::store::{still_open, CounterMap};
use extensible_rate_limit::time::{Moment, Interval};
use extensible_rate_limit::window::{decide, next_value, previous_value, BackendError, SimpleInput, SimpleOutput, Value};

fn t(n: u64) -> Moment {
    Moment::from_nanos(n)
}

#[test]
fn increment_starts_bumps_and_restarts_windows() {
    let mut m = CounterMap::new();
    assert_eq!(m.increment("k".to_string(), t(0), t(60)), Value { ttl: t(60), count: 1 });
    assert_eq!(m.increment("k".to_string(), t(59), t(119)), Value { ttl: t(60), count: 2 });
    assert_eq!(m.increment("k".to_string(), t(60), t(120)), Value { ttl: t(120), count: 1 });
    assert!(m.contains_key("k"));
    assert!(!m.contains_key("other"));
}

#[test]
fn decrement_holds_at_zero_and_keeps_the_end() {
    let mut m = CounterMap::new();
    m.increment("k".to_string(), t(0), t(60));
    m.decrement("k");
    m.decrement("k");
    m.decrement("absent");
    assert!(!m.contains_key("absent"));
    assert_eq!(m.increment("k".to_string(), t(1), t(61)), Value { ttl: t(60), count: 1 });
}

#[test]
fn remove_then_retain_keep_the_map_consistent() {
    let mut m = CounterMap::new();
    for (i, key) in ["a", "b", "c", "d"].iter().enumerate() {
        m.increment(key.to_string(), t(0), t(10 * (i as u64 + 1)));
    }
    m.remove("b");
    m.remove("b");
    assert!(!m.contains_key("b"));
    m.retain(t(20));
    assert!(!m.contains_key("a"));
    assert!(m.contains_key("c"));
    assert!(m.contains_key("d"));
    m.retain(t(40));
    assert!(!m.contains_key("c"));
    assert!(!m.contains_key("d"));
    assert_eq!(m.increment("d".to_string(), t(41), t(51)), Value { ttl: t(51), count: 1 });
}

#[test]
fn store_request_decides_against_the_limit() {
    let mut m = CounterMap::new();
    let input = SimpleInput { interval: Interval::from_nanos(100), max_requests: 1, key: "q".to_string() };
    assert_eq!(
        m.request(input.clone(), t(5)),
        Ok((true, SimpleOutput { limit: 1, remaining: 0, reset: t(105) }, "q".to_string()))
    );
    assert_eq!(
        m.request(input.clone(), t(6)),
        Ok((false, SimpleOutput { limit: 1, remaining: 0, reset: t(105) }, "q".to_string()))
    );
    assert_eq!(m.request(input, t(u64::MAX - 1)), Err(BackendError::Overflow));
}

#[test]
fn locked_map_operations() {
    let m = LockedHashMap::new();
    let input = SimpleInput { interval: Interval::from_nanos(10), max_requests: 3, key: "x".to_string() };
    let (allow, output, _) = m.request(input.clone(), t(0)).unwrap();
    assert!(allow);
    assert_eq!(output.remaining, 2);
    m.decrement("x");
    let (_, output, _) = m.request(input, t(1)).unwrap();
    assert_eq!(output.remaining, 2);
    m.retain(still_open(t(9)));
    assert!(m.contains_key("x"));
    m.retain(still_open(t(10)));
    assert!(!m.contains_key("x"));
    assert_eq!(m.remove("x"), None);
    let stored = m.upsert_modify("y".to_string(), || Value { ttl: t(7), count: 3 }, |v: Value| v);
    assert_eq!(stored, Value { ttl: t(7), count: 3 });
    let stored = m.upsert_modify("y".to_string(), || Value { ttl: t(0), count: 0 }, |v: Value| Value { ttl: v.ttl, count: v.count * 2 });
    assert_eq!(stored, Value { ttl: t(7), count: 6 });
    assert_eq!(m.remove("y"), Some(Value { ttl: t(7), count: 6 }));
    assert_eq!(m.remove("y"), None);
}

#[test]
fn step_functions() {
    let live = Value { ttl: t(50), count: 4 };
    assert_eq!(next_value(Some(live), t(49), t(99)), Value { ttl: t(50), count: 5 });
    assert_eq!(next_value(Some(live), t(50), t(100)), Value { ttl: t(100), count: 1 });
    assert_eq!(next_value(None, t(3), t(13)), Value { ttl: t(13), count: 1 });
    let full = Value { ttl: t(50), count: u64::MAX };
    assert_eq!(next_value(Some(full), t(0), t(10)).count, u64::MAX);
    assert_eq!(previous_value(live), Value { ttl: t(50), count: 3 });
    assert_eq!(previous_value(Value { ttl: t(50), count: 0 }).count, 0);
    assert_eq!(decide(live, 4), (true, SimpleOutput { limit: 4, remaining: 0, reset: t(50) }));
    assert_eq!(decide(live, 3), (false, SimpleOutput { limit: 3, remaining: 0, reset: t(50) }));
    assert_eq!(decide(live, 10), (true, SimpleOutput { limit: 10, remaining: 6, reset: t(50) }));
}

#[test]
fn remove_returns_the_old_value_once() {
    let mut m = CounterMap::new();
    m.increment("k".to_string(), t(0), t(60));
    m.increment("k".to_string(), t(1), t(61));
    assert_eq!(m.remove("k"), Some(Value { ttl: t(60), count: 2 }));
    assert_eq!(m.remove("k"), None);
    assert!(!m.contains_key("k"));
}

#[test]
fn upsert_modify_calls_one_of_the_two() {
    let mut m = CounterMap::new();
    let first = m.upsert_modify("u".to_string(), || Value { ttl: t(9), count: 1 }, |_v: Value| -> Value { panic!("modify called on an absent key") });
    assert_eq!(first, Value { ttl: t(9), count: 1 });
    let second = m.upsert_modify("u".to_string(), || -> Value { panic!("default made for a present key") }, |v: Value| Value { ttl: v.ttl, count: v.count + 10 });
    assert_eq!(second, Value { ttl: t(9), count: 11 });
    assert_eq!(m.remove("u"), Some(second));
}

#[test]
fn retain_by_keeps_what_the_predicate_accepts() {
    let mut m = CounterMap::new();
    for (i, key) in ["p", "q", "r", "s"].iter().enumerate() {
        m.increment(key.to_string(), t(0), t(100 + i as u64));
    }
    m.increment("q".to_string(), t(1), t(200));
    m.retain_by(|k: &String, v: &Value| k.as_str() != "p" && v.count < 2);
    assert!(!m.contains_key("p"));
    assert!(!m.contains_key("q"));
    assert_eq!(m.remove("r"), Some(Value { ttl: t(102), count: 1 }));
    assert_eq!(m.remove("s"), Some(Value { ttl: t(103), count: 1 }));
}
