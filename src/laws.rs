use vstd::prelude::*;
use crate::types::{Args, Url, ONE};
use crate::filter::{accepts, ip_ok, protocol_ok, survivors};
use crate::rank::{by_score, lemma_by_score};

verus! {

broadcast use vstd::seq_lib::group_to_multiset_ensures;

/// Every survivor is acceptable.
pub proof fn lemma_survivors_accepted(xs: Seq<Url>, c: Args)
    ensures
        forall|i: int| 0 <= i < survivors(xs, c).len() ==> accepts(c, #[trigger] survivors(xs, c)[i]),
    decreases xs.len(),
{
    if xs.len() > 0 {
        let p = xs.drop_last();
        lemma_survivors_accepted(p, c);
        let q = survivors(p, c);
        if accepts(c, xs.last()) {
            assert forall|i: int| 0 <= i < q.push(xs.last()).len() implies
                accepts(c, #[trigger] q.push(xs.last())[i]) by {
                if i < q.len() {
                    assert(q.push(xs.last())[i] == q[i]);
                }
            }
        }
    }
}

/// A mirror survives exactly when it is among the candidates and acceptable.
pub proof fn lemma_survivors_contains(xs: Seq<Url>, c: Args, u: Url)
    ensures
        survivors(xs, c).contains(u) <==> (xs.contains(u) && accepts(c, u)),
    decreases xs.len(),
{
    if xs.len() > 0 {
        let p = xs.drop_last();
        lemma_survivors_contains(p, c, u);
        assert(xs =~= p.push(xs.last()));
        let q = survivors(p, c);
        if accepts(c, xs.last()) {
            if q.push(xs.last()).contains(u) && u != xs.last() {
                let i = choose|i: int| 0 <= i < q.push(xs.last()).len() && q.push(xs.last())[i] == u;
                assert(q[i] == u);
            }
            if q.contains(u) {
                let i = choose|i: int| 0 <= i < q.len() && q[i] == u;
                assert(q.push(xs.last())[i] == u);
            }
            assert(q.push(xs.last())[q.len() as int] == xs.last());
        }
        if xs.contains(u) && u != xs.last() {
            let i = choose|i: int| 0 <= i < xs.len() && xs[i] == u;
            assert(p[i] == u);
        }
        if p.contains(u) {
            let i = choose|i: int| 0 <= i < p.len() && p[i] == u;
            assert(xs[i] == u);
        }
        assert(xs[xs.len() - 1] == xs.last());
    }
}

/// Filtering is idempotent: filtering the survivors again changes nothing.
pub proof fn lemma_filter_idempotent(xs: Seq<Url>, c: Args)
    ensures
        survivors(survivors(xs, c), c) == survivors(xs, c),
    decreases xs.len(),
{
    if xs.len() > 0 {
        let p = xs.drop_last();
        lemma_filter_idempotent(p, c);
        let q = survivors(p, c);
        if accepts(c, xs.last()) {
            assert(q.push(xs.last()).drop_last() =~= q);
        }
    }
}

/// Every survivor is a complete mirror whose average duration plus deviation
/// stays within one second.
pub proof fn lemma_survivors_complete_and_quick(xs: Seq<Url>, c: Args)
    ensures
        forall|i: int| 0 <= i < survivors(xs, c).len() ==> {
            let u = #[trigger] survivors(xs, c)[i];
            &&& u.completion_pct == Some(ONE)
            &&& u.duration_avg is Some
            &&& u.duration_stddev is Some
            &&& u.duration_avg->Some_0 + u.duration_stddev->Some_0 <= ONE
        },
{
    lemma_survivors_accepted(xs, c);
}

/// The ranked survivors all have a score, and the scores of each adjacent pair
/// are in ascending order.
pub proof fn lemma_ranking_ascending(xs: Seq<Url>, c: Args)
    ensures
        forall|i: int| 0 <= i < by_score(survivors(xs, c)).len() ==>
            (#[trigger] by_score(survivors(xs, c))[i]).score is Some,
        forall|i: int| 0 <= i < by_score(survivors(xs, c)).len() - 1 ==>
            (#[trigger] by_score(survivors(xs, c))[i]).score->Some_0
                <= by_score(survivors(xs, c))[i + 1].score->Some_0,
{
    let s = survivors(xs, c);
    let r = by_score(s);
    lemma_survivors_accepted(xs, c);
    lemma_by_score(s);
    assert forall|i: int| 0 <= i < r.len() implies (#[trigger] r[i]).score is Some by {
        assert(r.contains(r[i]));
        assert(r.to_multiset().count(r[i]) > 0);
        assert(s.to_multiset().count(r[i]) > 0);
        assert(s.contains(r[i]));
    }
    assert forall|i: int| 0 <= i < r.len() - 1 implies
        (#[trigger] r[i]).score->Some_0 <= r[i + 1].score->Some_0 by {
        assert(r.contains(r[i]) && r.contains(r[i + 1]));
    }
}

/// `r` asks for no more than `c` of the country, the protocol and the IP
/// versions, and for the same of everything else.
pub open spec fn relaxes(r: Args, c: Args) -> bool {
    &&& (r.country is None || r.country == c.country)
    &&& (r.protocol@.len() == 0 || r.protocol@ == c.protocol@)
    &&& (!r.require_ipv4 || c.require_ipv4)
    &&& (!r.require_ipv6 || c.require_ipv6)
    &&& r.max_delay() == c.max_delay()
}

/// Relaxing the country, protocol or IP version constraints never removes a
/// survivor: it can only add some.
pub proof fn lemma_relaxing_keeps_survivors(xs: Seq<Url>, c: Args, r: Args)
    requires
        relaxes(r, c),
    ensures
        forall|u: Url| survivors(xs, c).contains(u) ==> #[trigger] survivors(xs, r).contains(u),
{
    assert forall|u: Url| survivors(xs, c).contains(u) implies #[trigger] survivors(xs, r).contains(u) by {
        lemma_survivors_contains(xs, c, u);
        lemma_survivors_contains(xs, r, u);
    }
}

/// With neither IP version required, the IP version gate passes every mirror.
pub proof fn lemma_no_ip_requirement(c: Args, u: Url)
    requires
        !c.require_ipv4,
        !c.require_ipv6,
    ensures
        ip_ok(c, u),
{
}

/// With no protocol named, no mirror is excluded for its protocol.
pub proof fn lemma_no_protocol_requirement(c: Args, u: Url)
    requires
        c.protocol@.len() == 0,
    ensures
        protocol_ok(c, u),
{
}

/// A mirror whose sync delay is unknown never survives, whatever the threshold.
pub proof fn lemma_unknown_delay_excluded(xs: Seq<Url>, c: Args, u: Url)
    requires
        u.delay is None,
    ensures
        !accepts(c, u),
        !survivors(xs, c).contains(u),
{
    lemma_survivors_contains(xs, c, u);
}

} // verus!
