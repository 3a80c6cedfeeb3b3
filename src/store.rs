use vstd::hash_map::StringHashMap;
use vstd::prelude::*;

use crate::time::Moment;
use crate::window::{
    count_in, decide, fresh_end, give_back, is_live, next_value, previous_value, request_outcome,
    BackendError, SimpleInput, SimpleOutput, Value,
};

verus! {

/// The counters that survive a reaper pass at `now`: those whose window is
/// still open.
pub open spec fn live_counters(m: Map<Seq<char>, Value>, now: Moment) -> Map<Seq<char>, Value> {
    Map::new(|k: Seq<char>| m.contains_key(k) && is_live(m[k], now), |k: Seq<char>| m[k])
}

/// What one successful or failed request at `now` does: either the end of a
/// fresh window passes the clock's range and the map is left as it was, or
/// the key's counter becomes `count_in` of what it was and the outcome is
/// read off that counter.
pub open spec fn request_effect(
    before: Map<Seq<char>, Value>,
    after: Map<Seq<char>, Value>,
    input: SimpleInput,
    now: Moment,
    r: Result<(bool, SimpleOutput, String), BackendError>,
) -> bool {
    match fresh_end(now, input.interval) {
        None => r == Err::<(bool, SimpleOutput, String), BackendError>(BackendError::Overflow)
            && after == before,
        Some(fresh_ttl) => {
            let v = count_in(before.get(input.key@), now, fresh_ttl);
            &&& after == before.insert(input.key@, v)
            &&& r matches Ok(out) && request_outcome(v, input, out)
        },
    }
}

/// The key→counter map, with a list of its keys so that a pass can visit each
/// entry.
pub struct CounterMap {
    map: StringHashMap<Value>,
    keys: Vec<String>,
}

impl View for CounterMap {
    type V = Map<Seq<char>, Value>;

    closed spec fn view(&self) -> Map<Seq<char>, Value> {
        self.map@
    }
}

impl CounterMap {
    /// The key list names each key of the map once, and nothing else.
    pub closed spec fn wf(&self) -> bool {
        &&& forall|i: int, j: int|
            0 <= i < j < self.keys@.len() ==> self.keys@[i]@ != self.keys@[j]@
        &&& forall|i: int| 0 <= i < self.keys@.len() ==> self.map@.contains_key(#[trigger] self.keys@[i]@)
        &&& forall|k: Seq<char>| #[trigger] self.map@.contains_key(k) ==> exists|i: int|
            0 <= i < self.keys@.len() && self.keys@[i]@ == k
    }

    pub fn new() -> (r: CounterMap)
        ensures
            r.wf(),
            r@ == Map::<Seq<char>, Value>::empty(),
    {
        CounterMap { map: StringHashMap::new(), keys: Vec::new() }
    }

    /// Looks `key` up once and either stores `make_default()` where it is
    /// absent, or replaces its value `v` by `modify(v)` where it is present;
    /// exactly one of the two is called, once. Returns the value stored.
    pub fn upsert_modify<D, M>(&mut self, key: String, make_default: D, modify: M) -> (r: Value) where
        D: FnOnce() -> Value,
        M: FnOnce(Value) -> Value,

        requires
            old(self).wf(),
            !old(self)@.contains_key(key@) ==> make_default.requires(()),
            old(self)@.contains_key(key@) ==> modify.requires((old(self)@[key@],)),
        ensures
            final(self).wf(),
            !old(self)@.contains_key(key@) ==> make_default.ensures((), r),
            old(self)@.contains_key(key@) ==> modify.ensures((old(self)@[key@],), r),
            final(self)@ == old(self)@.insert(key@, r),
    {
        let prev = match self.map.get(key.as_str()) {
            Some(v) => Some(*v),
            None => None,
        };
        let next = match prev {
            Some(v) => modify(v),
            None => {
                self.keys.push(key.clone());
                make_default()
            },
        };
        self.map.insert(key, next);
        proof {
            assert forall|k: Seq<char>| #[trigger] self.map@.contains_key(k) implies exists|i: int|
                0 <= i < self.keys@.len() && self.keys@[i]@ == k by {
                if k == key@ && prev.is_none() {
                    assert(self.keys@[self.keys@.len() - 1]@ == k);
                } else {
                    let i = choose|i: int| 0 <= i < old(self).keys@.len() && old(self).keys@[i]@ == k;
                    assert(self.keys@[i]@ == k);
                }
            }
        }
        next
    }

    /// Counts one unit for `key` at `now`, in one step: an absent or elapsed
    /// counter starts afresh with end `fresh_ttl`, a live one is bumped.
    /// Returns the counter as it stands afterwards.
    pub fn increment(&mut self, key: String, now: Moment, fresh_ttl: Moment) -> (r: Value)
        requires
            old(self).wf(),
        ensures
            final(self).wf(),
            r == count_in(old(self)@.get(key@), now, fresh_ttl),
            final(self)@ == old(self)@.insert(key@, r),
    {
        let make_default = || -> (v: Value)
            ensures
                v == count_in(None, now, fresh_ttl),
            {
                next_value(None, now, fresh_ttl)
            };
        let modify = |prev: Value| -> (v: Value)
            ensures
                v == count_in(Some(prev), now, fresh_ttl),
            {
                next_value(Some(prev), now, fresh_ttl)
            };
        self.upsert_modify(key, make_default, modify)
    }

    /// One fixed-window request on this map at `now`: counts one unit for
    /// `input.key` (see `increment`; a fresh window lasts `input.interval`)
    /// and decides on it against `input.max_requests`. Fails, leaving the map
    /// as it was, where the end of a fresh window would pass the clock's
    /// range.
    pub fn request(&mut self, input: SimpleInput, now: Moment) -> (r: Result<
        (bool, SimpleOutput, String),
        BackendError,
    >)
        requires
            old(self).wf(),
        ensures
            final(self).wf(),
            fresh_end(now, input.interval) is None ==> r == Err::<
                (bool, SimpleOutput, String),
                BackendError,
            >(BackendError::Overflow) && final(self)@ == old(self)@,
            fresh_end(now, input.interval) matches Some(fresh_ttl) ==> {
                let v = count_in(old(self)@.get(input.key@), now, fresh_ttl);
                &&& final(self)@ == old(self)@.insert(input.key@, v)
                &&& r matches Ok(out) && request_outcome(v, input, out)
            },
    {
        let fresh_ttl = match now.checked_add(input.interval) {
            Some(t) => t,
            None => {
                return Err(BackendError::Overflow);
            },
        };
        let token = input.key.clone();
        let v = self.increment(input.key, now, fresh_ttl);
        let (allow, output) = decide(v, input.max_requests);
        Ok((allow, output, token))
    }

    /// Gives back one unit of `key`'s counter, held at zero; the window's end
    /// is kept. An absent key is left absent.
    pub fn decrement(&mut self, key: &str)
        requires
            old(self).wf(),
        ensures
            final(self).wf(),
            old(self)@.contains_key(key@) ==> final(self)@ == old(self)@.insert(
                key@,
                give_back(old(self)@.get(key@))->Some_0,
            ),
            !old(self)@.contains_key(key@) ==> final(self)@ == old(self)@,
    {
        let prev = match self.map.get(key) {
            Some(v) => Some(*v),
            None => None,
        };
        if let Some(v) = prev {
            let next = previous_value(v);
            self.map.insert(key.to_owned(), next);
            proof {
                assert forall|k: Seq<char>| #[trigger] self.map@.contains_key(k) implies exists|i: int|
                    0 <= i < self.keys@.len() && self.keys@[i]@ == k by {
                    let i = choose|i: int| 0 <= i < old(self).keys@.len() && old(self).keys@[i]@ == k;
                    assert(self.keys@[i]@ == k);
                }
            }
        }
    }

    /// Removes `key`'s counter, if there is one, and returns it.
    pub fn remove(&mut self, key: &str) -> (r: Option<Value>)
        requires
            old(self).wf(),
        ensures
            final(self).wf(),
            r == old(self)@.get(key@),
            final(self)@ == old(self)@.remove(key@),
    {
        let removed = match self.map.get(key) {
            Some(v) => Some(*v),
            None => None,
        };
        self.map.remove(key);
        let owned = key.to_owned();
        let mut i: usize = 0;
        while i < self.keys.len()
            invariant
                i <= self.keys@.len(),
                self.keys@ == old(self).keys@,
                self.map@ == old(self).map@.remove(key@),
                removed == old(self)@.get(key@),
                owned@ == key@,
                old(self).wf(),
                forall|j: int| 0 <= j < i ==> self.keys@[j]@ != key@,
            decreases self.keys@.len() - i,
        {
            if self.keys[i] == owned {
                let ghost before = self.keys@;
                self.keys.remove(i);
                proof {
                    assert forall|a: int, b: int|
                        0 <= a < b < self.keys@.len() implies self.keys@[a]@ != self.keys@[b]@ by {
                        let a0 = if a < i { a } else { a + 1 };
                        let b0 = if b < i { b } else { b + 1 };
                        assert(self.keys@[a] == before[a0]);
                        assert(self.keys@[b] == before[b0]);
                    }
                    assert forall|j: int| 0 <= j < self.keys@.len() implies self.map@.contains_key(
                        #[trigger] self.keys@[j]@,
                    ) by {
                        let j0 = if j < i { j } else { j + 1 };
                        assert(self.keys@[j] == before[j0]);
                        assert(before[j0]@ != before[i as int]@);
                    }
                    assert forall|k: Seq<char>| #[trigger] self.map@.contains_key(k) implies exists|j: int|
                        0 <= j < self.keys@.len() && self.keys@[j]@ == k by {
                        let j0 = choose|j: int| 0 <= j < before.len() && before[j]@ == k;
                        assert(j0 != i);
                        let j = if j0 < i { j0 } else { j0 - 1 };
                        assert(self.keys@[j] == before[j0]);
                    }
                }
                return removed;
            }
            i = i + 1;
        }
        proof {
            assert forall|k: Seq<char>| #[trigger] self.map@.contains_key(k) implies exists|j: int|
                0 <= j < self.keys@.len() && self.keys@[j]@ == k by {
                assert(old(self).map@.contains_key(k));
            }
        }
        removed
    }

    /// Whether `key` has a counter.
    pub fn contains_key(&self, key: &str) -> (r: bool)
        ensures
            r == self@.contains_key(key@),
    {
        self.map.contains_key(key)
    }

    /// Keeps the entries for which `keep(key, value)` returns true and drops
    /// the others; `keep` is called once for each entry. Values are left as
    /// they were, and no key is added.
    pub fn retain_by<F>(&mut self, keep: F) where F: Fn(&String, &Value) -> bool
        requires
            old(self).wf(),
            forall|k: &String, v: &Value| #[trigger] keep.requires((k, v)),
        ensures
            final(self).wf(),
            forall|k: Seq<char>| #[trigger] final(self)@.contains_key(k) ==> old(self)@.contains_key(k)
                && final(self)@[k] == old(self)@[k] && answered(keep, k, old(self)@[k], true),
            forall|k: Seq<char>| #[trigger] old(self)@.contains_key(k) && !final(self)@.contains_key(k)
                ==> answered(keep, k, old(self)@[k], false),
    {
        let mut kept: StringHashMap<Value> = StringHashMap::new();
        let mut kept_keys: Vec<String> = Vec::new();
        let ghost mut verdicts: Map<Seq<char>, bool> = Map::empty();
        let mut i: usize = 0;
        while i < self.keys.len()
            invariant
                i <= self.keys@.len(),
                self.wf(),
                forall|k: &String, v: &Value| #[trigger] keep.requires((k, v)),
                forall|a: int, b: int|
                    0 <= a < b < kept_keys@.len() ==> kept_keys@[a]@ != kept_keys@[b]@,
                forall|j: int| 0 <= j < kept_keys@.len() ==> kept@.contains_key(#[trigger] kept_keys@[j]@),
                forall|k: Seq<char>| #[trigger] kept@.contains_key(k) ==> exists|j: int|
                    0 <= j < kept_keys@.len() && kept_keys@[j]@ == k,
                forall|k: Seq<char>| #[trigger] verdicts.contains_key(k) <==> exists|j: int|
                    0 <= j < i && self.keys@[j]@ == k,
                forall|k: Seq<char>| #[trigger] verdicts.contains_key(k) ==> self.map@.contains_key(k)
                    && answered(keep, k, self.map@[k], verdicts[k]),
                kept@ == Map::new(
                    |k: Seq<char>| verdicts.contains_key(k) && verdicts[k],
                    |k: Seq<char>| self.map@[k],
                ),
            decreases self.keys@.len() - i,
        {
            let key = &self.keys[i];
            let ghost kept_keys0 = kept_keys@;
            let ghost kept0 = kept@;
            assert(self.map@.contains_key(self.keys@[i as int]@));
            let v = *self.map.get(key.as_str()).unwrap();
            let stays = keep(key, &v);
            proof {
                assert(answered(keep, key@, v, stays));
                verdicts = verdicts.insert(key@, stays);
            }
            if stays {
                if !kept.contains_key(key.as_str()) {
                    kept_keys.push(key.clone());
                }
                kept.insert(key.clone(), v);
            }
            proof {
                assert forall|k: Seq<char>| #[trigger] verdicts.contains_key(k) <==> exists|j: int|
                    0 <= j < i + 1 && self.keys@[j]@ == k by {
                    if k == self.keys@[i as int]@ {
                        assert(self.keys@[i as int]@ == k);
                    } else if (exists|j: int| 0 <= j < i + 1 && self.keys@[j]@ == k) {
                        let j = choose|j: int| 0 <= j < i + 1 && self.keys@[j]@ == k;
                        assert(j < i);
                    }
                }
                assert(kept@ =~= Map::new(
                    |k: Seq<char>| verdicts.contains_key(k) && verdicts[k],
                    |k: Seq<char>| self.map@[k],
                ));
                assert forall|k: Seq<char>| #[trigger] kept@.contains_key(k) implies exists|j: int|
                    0 <= j < kept_keys@.len() && kept_keys@[j]@ == k by {
                    if kept0.contains_key(k) {
                        let j = choose|j: int| 0 <= j < kept_keys0.len() && kept_keys0[j]@ == k;
                        assert(kept_keys@[j] == kept_keys0[j]);
                    } else {
                        assert(kept_keys@[kept_keys@.len() - 1]@ == k);
                    }
                }
            }
            i = i + 1;
        }
        proof {
            assert forall|k: Seq<char>| #[trigger] self.map@.contains_key(k) implies verdicts.contains_key(k) by {
                let j = choose|j: int| 0 <= j < self.keys@.len() && self.keys@[j]@ == k;
                assert(self.keys@[j]@ == k);
            }
        }
        let ghost kept_view = kept@;
        let ghost kept_keys_view = kept_keys@;
        self.map = kept;
        self.keys = kept_keys;
        assert(self.map@ == kept_view && self.keys@ == kept_keys_view);
    }

    /// Keeps the counters whose window is still open at `now`, and drops the
    /// others: one use of `retain_by`.
    pub fn retain(&mut self, now: Moment)
        requires
            old(self).wf(),
        ensures
            final(self).wf(),
            final(self)@ == live_counters(old(self)@, now),
    {
        let ghost before = self@;
        self.retain_by(still_open(now));
        assert(self@ =~= live_counters(before, now));
    }
}

/// Whether `keep` may return `verdict` on a key with view `k` and the value
/// `v`.
pub open spec fn answered<F: Fn(&String, &Value) -> bool>(keep: F, k: Seq<char>, v: Value, verdict: bool) -> bool {
    exists|s: String| s@ == k && #[trigger] keep.ensures((&s, &v), verdict)
}

/// The reaper's test: whether a counter's window is still open at `now`.
pub fn still_open(now: Moment) -> (r: impl Fn(&String, &Value) -> bool)
    ensures
        forall|k: &String, v: &Value| #[trigger] r.requires((k, v)),
        forall|k: &String, v: &Value, b: bool| #[trigger] r.ensures((k, v), b) ==> b == is_live(*v, now),
{
    move |_k: &String, v: &Value| -> (b: bool)
        ensures
            b == is_live(*v, now),
        { v.ttl.nanos > now.nanos }
}

} // verus!
