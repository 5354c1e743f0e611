use vstd::prelude::*;
use crate::types::{Args, Url, DEFAULT_MAX_DELAY, ONE};
use crate::compare::ip_filter;

verus! {

/// Both timing statistics and the score are known.
pub open spec fn has_data(u: Url) -> bool {
    u.duration_avg is Some && u.duration_stddev is Some && u.score is Some
}

/// The mirror's country matches the criteria, or no country is asked for.
pub open spec fn country_ok(c: Args, u: Url) -> bool {
    match c.country {
        Some(s) => s@ == u.country_code@,
        None => true,
    }
}

/// The mirror's protocol is among those allowed, or none are named.
pub open spec fn protocol_ok(c: Args, u: Url) -> bool {
    c.protocol@.len() == 0 || exists|i: int|
        0 <= i < c.protocol@.len() && (#[trigger] c.protocol@[i])@ == u.protocol@
}

/// The mirror holds the whole package set.
pub open spec fn complete(u: Url) -> bool {
    u.completion_pct == Some(ONE)
}

/// The mirror's sync delay is known and within the threshold.
pub open spec fn fresh(c: Args, u: Url) -> bool {
    match u.delay {
        Some(d) => d <= c.max_delay(),
        None => false,
    }
}

/// Average duration plus its deviation stays within one second.
pub open spec fn quick(u: Url) -> bool {
    match (u.duration_avg, u.duration_stddev) {
        (Some(a), Some(s)) => a + s <= ONE,
        _ => false,
    }
}

/// The mirror supports each IP version that the criteria require.
pub open spec fn ip_ok(c: Args, u: Url) -> bool {
    (!c.require_ipv4 || u.ipv4) && (!c.require_ipv6 || u.ipv6)
}

/// A mirror is acceptable when every predicate holds.
pub open spec fn accepts(c: Args, u: Url) -> bool {
    &&& has_data(u)
    &&& country_ok(c, u)
    &&& protocol_ok(c, u)
    &&& complete(u)
    &&& fresh(c, u)
    &&& quick(u)
    &&& ip_ok(c, u)
}

/// The acceptable mirrors of `xs`, in their order in `xs`.
pub open spec fn survivors(xs: Seq<Url>, c: Args) -> Seq<Url>
    decreases xs.len(),
{
    if xs.len() == 0 {
        Seq::empty()
    } else {
        let rest = survivors(xs.drop_last(), c);
        if accepts(c, xs.last()) {
            rest.push(xs.last())
        } else {
            rest
        }
    }
}

// vstd specifies `==` on `String` directly rather than through `PartialEqSpec`,
// so the generic helpers of `compare` would prove nothing here: the two string
// matchers below state their result over the strings' views.

/// The country filter is absent or equals `code`.
fn country_matches(country: &Option<String>, code: &String) -> (r: bool)
    ensures
        r == match country {
            Some(s) => s@ == code@,
            None => true,
        },
{
    match country {
        Some(s) => *s == *code,
        None => true,
    }
}

/// The protocol list is empty or holds `protocol`.
fn protocol_allowed(protocols: &Vec<String>, protocol: &String) -> (r: bool)
    ensures
        r == (protocols@.len() == 0 || exists|i: int|
            0 <= i < protocols@.len() && (#[trigger] protocols@[i])@ == protocol@),
{
    if protocols.len() == 0 {
        return true;
    }
    let mut i: usize = 0;
    while i < protocols.len()
        invariant
            i <= protocols@.len(),
            forall|j: int| 0 <= j < i ==> (#[trigger] protocols@[j])@ != protocol@,
        decreases protocols@.len() - i,
    {
        if protocols[i] == *protocol {
            return true;
        }
        i = i + 1;
    }
    false
}

/// Decides whether one mirror passes every predicate of the criteria.
pub fn mirror_passes(args: &Args, m: &Url) -> (r: bool)
    ensures
        r == accepts(*args, *m),
{
    if m.duration_avg.is_none() || m.duration_stddev.is_none() || m.score.is_none() {
        return false;
    }
    if !country_matches(&args.country, &m.country_code) {
        return false;
    }
    if !protocol_allowed(&args.protocol, &m.protocol) {
        return false;
    }
    if m.completion_pct != Some(ONE) {
        return false;
    }
    let max_delay: u32 = match args.delay {
        Some(d) => d,
        None => DEFAULT_MAX_DELAY,
    };
    match m.delay {
        Some(d) => {
            if d > max_delay {
                return false;
            }
        },
        None => {
            return false;
        },
    }
    match (m.duration_avg, m.duration_stddev) {
        (Some(a), Some(s)) => {
            if a > ONE || s > ONE - a {
                return false;
            }
        },
        _ => {
            return false;
        },
    }
    ip_filter((args.require_ipv4, args.require_ipv6), (m.ipv4, m.ipv6))
}

/// Keeps the acceptable mirrors, in their original order.
pub fn filter_mirrors(urls: Vec<Url>, args: &Args) -> (r: Vec<Url>)
    ensures
        r@ == survivors(urls@, *args),
{
    let ghost all = urls@;
    let mut rest = urls;
    let mut kept: Vec<Url> = Vec::new();
    let ghost mut k: int = 0;
    while rest.len() > 0
        invariant
            0 <= k <= all.len(),
            rest@ == all.subrange(k, all.len() as int),
            kept@ == survivors(all.subrange(0, k), *args),
        decreases rest@.len(),
    {
        let m = rest.remove(0);
        proof {
            assert(all.subrange(0, k + 1).drop_last() =~= all.subrange(0, k));
            assert(m == all[k]);
            assert(rest@ =~= all.subrange(k + 1, all.len() as int));
        }
        if mirror_passes(args, &m) {
            kept.push(m);
        }
        proof {
            k = k + 1;
        }
    }
    proof {
        assert(all.subrange(0, k) =~= all);
    }
    kept
}

} // verus!
