use vstd::prelude::*;
use vstd::string::StringExecFns;

use crate::time::Interval;
use crate::window::SimpleInput;

verus! {

/// The parts written one after another, with a `-` between each two.
pub open spec fn joined(parts: Seq<Seq<char>>) -> Seq<char>
    decreases parts.len(),
{
    if parts.len() == 0 {
        Seq::empty()
    } else if parts.len() == 1 {
        parts[0]
    } else {
        joined(parts.drop_last()) + seq!['-'] + parts.last()
    }
}

pub open spec fn views(parts: Seq<String>) -> Seq<Seq<char>> {
    parts.map_values(|s: String| s@)
}

/// Builds a rate-limiting key from its components, joined by `-`.
pub fn join_components(parts: &Vec<String>) -> (r: String)
    ensures
        r@ == joined(views(parts@)),
{
    let mut r = String::new();
    let mut i: usize = 0;
    while i < parts.len()
        invariant
            i <= parts@.len(),
            r@ == joined(views(parts@).take(i as int)),
        decreases parts@.len() - i,
    {
        let ghost before = views(parts@).take(i as int);
        let ghost after = views(parts@).take(i + 1);
        assert(after.drop_last() =~= before);
        if i > 0 {
            proof {
                reveal_strlit("-");
            }
            r.append("-");
        } else {
            assert(before =~= Seq::<Seq<char>>::empty());
        }
        r.append(parts[i].as_str());
        i = i + 1;
    }
    assert(views(parts@).take(parts@.len() as int) =~= views(parts@));
    r
}

/// The triple a backend is asked about: the components joined into a key, and
/// the default interval and limit unless an override is given for them.
pub fn assemble_input(
    components: &Vec<String>,
    interval: Interval,
    max_requests: u64,
    interval_override: Option<Interval>,
    max_requests_override: Option<u64>,
) -> (r: SimpleInput)
    ensures
        r.key@ == joined(views(components@)),
        r.interval == (match interval_override {
            Some(i) => i,
            None => interval,
        }),
        r.max_requests == (match max_requests_override {
            Some(m) => m,
            None => max_requests,
        }),
{
    let interval = match interval_override {
        Some(i) => i,
        None => interval,
    };
    let max_requests = match max_requests_override {
        Some(m) => m,
        None => max_requests,
    };
    SimpleInput { interval, max_requests, key: join_components(components) }
}

} // verus!
