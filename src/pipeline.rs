use vstd::prelude::*;
use crate::types::{ApiResponse, Args, Url};
use crate::filter::{filter_mirrors, survivors};
use crate::rank::{by_score, rank_mirrors, sorted_by_score};
use crate::laws::lemma_survivors_accepted;

verus! {

/// Keeps the acceptable mirrors of `res` and ranks them by ascending score.
pub fn process_mirrors(res: ApiResponse, args: &Args) -> (r: Vec<Url>)
    ensures
        r@ == by_score(survivors(res.urls@, *args)),
        sorted_by_score(r@),
        r@.to_multiset() == survivors(res.urls@, *args).to_multiset(),
{
    let mirrors = filter_mirrors(res.urls, args);
    proof {
        lemma_survivors_accepted(res.urls@, *args);
    }
    rank_mirrors(mirrors)
}

} // verus!
