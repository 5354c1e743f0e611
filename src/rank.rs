use vstd::prelude::*;
use crate::types::Url;

verus! {

broadcast use vstd::seq_lib::group_to_multiset_ensures;

/// Places `x` after every element of `s` whose score is not above its own,
/// scanning from the back: on a sorted `s`, `x` goes after its equals.
pub open spec fn insert_by_score(s: Seq<Url>, x: Url) -> Seq<Url>
    decreases s.len(),
{
    if s.len() == 0 {
        seq![x]
    } else if x.score_key() < s.last().score_key() {
        insert_by_score(s.drop_last(), x).push(s.last())
    } else {
        s.push(x)
    }
}

/// The stable ordering of `s` by ascending score: each element is inserted,
/// in input order, after those already placed with a score not above its own.
pub open spec fn by_score(s: Seq<Url>) -> Seq<Url>
    decreases s.len(),
{
    if s.len() == 0 {
        Seq::empty()
    } else {
        insert_by_score(by_score(s.drop_last()), s.last())
    }
}

/// Scores never decrease along `s`.
pub open spec fn sorted_by_score(s: Seq<Url>) -> bool {
    forall|i: int, j: int| 0 <= i < j < s.len() ==> s[i].score_key() <= s[j].score_key()
}

proof fn lemma_insert_bounded(s: Seq<Url>, x: Url, b: u64)
    requires
        forall|i: int| 0 <= i < s.len() ==> s[i].score_key() <= b,
        x.score_key() <= b,
    ensures
        forall|i: int| 0 <= i < insert_by_score(s, x).len()
            ==> (#[trigger] insert_by_score(s, x)[i]).score_key() <= b,
    decreases s.len(),
{
    if s.len() == 0 {
        assert(insert_by_score(s, x) =~= seq![x]);
    } else if x.score_key() < s.last().score_key() {
        let p = s.drop_last();
        lemma_insert_bounded(p, x, b);
        let q = insert_by_score(p, x);
        assert forall|i: int| 0 <= i < q.push(s.last()).len() implies
            (#[trigger] q.push(s.last())[i]).score_key() <= b by {
            if i < q.len() {
                assert(q.push(s.last())[i] == q[i]);
            }
        }
    } else {
        assert forall|i: int| 0 <= i < s.push(x).len() implies
            (#[trigger] s.push(x)[i]).score_key() <= b by {
            if i < s.len() {
                assert(s.push(x)[i] == s[i]);
            }
        }
    }
}

pub proof fn lemma_insert_sorted(s: Seq<Url>, x: Url)
    requires
        sorted_by_score(s),
    ensures
        sorted_by_score(insert_by_score(s, x)),
    decreases s.len(),
{
    if s.len() > 0 && x.score_key() < s.last().score_key() {
        let p = s.drop_last();
        lemma_insert_sorted(p, x);
        lemma_insert_bounded(p, x, s.last().score_key());
    }
}

pub proof fn lemma_insert_multiset(s: Seq<Url>, x: Url)
    ensures
        insert_by_score(s, x).to_multiset() =~= s.to_multiset().insert(x),
    decreases s.len(),
{
    if s.len() == 0 {
        assert(seq![x] =~= Seq::<Url>::empty().push(x));
    } else if x.score_key() < s.last().score_key() {
        let p = s.drop_last();
        lemma_insert_multiset(p, x);
        assert(p.push(s.last()) =~= s);
    }
}

/// The ordering by score is sorted and holds the same mirrors.
pub proof fn lemma_by_score(s: Seq<Url>)
    ensures
        sorted_by_score(by_score(s)),
        by_score(s).to_multiset() =~= s.to_multiset(),
    decreases s.len(),
{
    if s.len() > 0 {
        let p = s.drop_last();
        lemma_by_score(p);
        lemma_insert_sorted(by_score(p), s.last());
        lemma_insert_multiset(by_score(p), s.last());
        assert(p.push(s.last()) =~= s);
    }
}

fn key_of(m: &Url) -> (r: u64)
    ensures
        r == m.score_key(),
{
    match m.score {
        Some(s) => s,
        None => 0,
    }
}

/// Orders mirrors by ascending score; mirrors with equal scores keep their order.
pub fn rank_mirrors(mirrors: Vec<Url>) -> (r: Vec<Url>)
    requires
        forall|i: int| 0 <= i < mirrors@.len() ==> (#[trigger] mirrors@[i]).score is Some,
    ensures
        r@ == by_score(mirrors@),
        sorted_by_score(r@),
        r@.to_multiset() == mirrors@.to_multiset(),
{
    let ghost all = mirrors@;
    let mut rest = mirrors;
    let mut out: Vec<Url> = Vec::new();
    let ghost mut k: int = 0;
    while rest.len() > 0
        invariant
            0 <= k <= all.len(),
            rest@ == all.subrange(k, all.len() as int),
            out@ == by_score(all.subrange(0, k)),
        decreases rest@.len(),
    {
        let m = rest.remove(0);
        proof {
            assert(all.subrange(0, k + 1).drop_last() =~= all.subrange(0, k));
            assert(m == all[k]);
            assert(rest@ =~= all.subrange(k + 1, all.len() as int));
        }
        let key = key_of(&m);
        let mut pos: usize = out.len();
        let ghost before = out@;
        proof {
            assert(out@.subrange(0, pos as int) =~= out@);
            assert(out@.subrange(pos as int, out@.len() as int) =~= Seq::<Url>::empty());
            assert(insert_by_score(out@, m) + Seq::<Url>::empty() =~= insert_by_score(out@, m));
        }
        loop
            invariant
                pos <= out@.len(),
                key == m.score_key(),
                insert_by_score(out@, m) == insert_by_score(out@.subrange(0, pos as int), m)
                    + out@.subrange(pos as int, out@.len() as int),
            ensures
                pos <= out@.len(),
                pos == 0 || out@[pos - 1].score_key() <= key,
                insert_by_score(out@, m) == insert_by_score(out@.subrange(0, pos as int), m)
                    + out@.subrange(pos as int, out@.len() as int),
            decreases pos,
        {
            if pos == 0 {
                break;
            }
            if key_of(&out[pos - 1]) <= key {
                break;
            }
            proof {
                let s = out@.subrange(0, pos as int);
                assert(s.drop_last() =~= out@.subrange(0, pos - 1));
                assert(insert_by_score(s.drop_last(), m).push(s.last())
                    + out@.subrange(pos as int, out@.len() as int)
                    =~= insert_by_score(s.drop_last(), m)
                    + out@.subrange(pos - 1, out@.len() as int));
            }
            pos = pos - 1;
        }
        proof {
            let s = out@.subrange(0, pos as int);
            if pos == 0 {
                assert(seq![m] =~= s.push(m));
            } else {
                assert(s.last() == out@[pos - 1]);
            }
            assert(insert_by_score(s, m) == s.push(m));
            assert(out@.insert(pos as int, m) =~= s.push(m)
                + out@.subrange(pos as int, out@.len() as int));
        }
        out.insert(pos, m);
        proof {
            assert(out@ == insert_by_score(before, all[k]));
            assert(all.subrange(0, k + 1).last() == all[k]);
            k = k + 1;
        }
    }
    proof {
        assert(all.subrange(0, k) =~= all);
        lemma_by_score(all);
    }
    out
}

} // verus!
