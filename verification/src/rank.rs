//! Ranking: sort stories by descending effective score and truncate.

use vstd::prelude::*;
use crate::story::{Story, StoryModel, eff_score, sorted_by_score_desc, models_of};

verus! {

broadcast use vstd::seq_lib::group_to_multiset_ensures, vstd::multiset::group_multiset_axioms;

/// Sort by non-increasing effective score.  Equal scores have no defined
/// tie-break, so the contract pins the content (as a multiset) and the order
/// property, nothing more.
pub fn sort_stories(v: Vec<Story>) -> (r: Vec<Story>)
    ensures
        sorted_by_score_desc(models_of(r@)),
        models_of(r@).to_multiset() == models_of(v@).to_multiset(),
        r@.len() == v@.len(),
{
    let ghost orig: Seq<StoryModel> = models_of(v@);
    let mut rest = v;
    let mut out: Vec<Story> = Vec::new();
    while rest.len() > 0
        invariant
            sorted_by_score_desc(models_of(out@)),
            forall|a: int, b: int|
                0 <= a < out@.len() && 0 <= b < rest@.len()
                    ==> eff_score(out@[a]@) >= eff_score(rest@[b]@),
            models_of(out@).to_multiset().add(models_of(rest@).to_multiset())
                == orig.to_multiset(),
            out@.len() + rest@.len() == orig.len(),
        decreases rest@.len(),
    {
        let mut m: usize = 0;
        let mut k: usize = 1;
        while k < rest.len()
            invariant
                m < k,
                k <= rest@.len(),
                m < rest@.len(),
                forall|i: int| 0 <= i < k ==> eff_score(rest@[m as int]@) >= eff_score(rest@[i]@),
            decreases rest@.len() - k,
        {
            if rest[k].score_or_zero() > rest[m].score_or_zero() {
                m = k;
            }
            k += 1;
        }
        let ghost rest_before = rest@;
        let x = rest.remove(m);
        proof {
            assert(models_of(rest@) =~= models_of(rest_before).remove(m as int));
            assert(models_of(rest_before).to_multiset().contains(x@)) by {
                assert(models_of(rest_before)[m as int] == x@);
            }
        }
        let ghost out_before = out@;
        out.push(x);
        proof {
            assert(models_of(out@) =~= models_of(out_before).push(x@));
            assert(models_of(out@).to_multiset().add(models_of(rest@).to_multiset())
                =~= orig.to_multiset());
        }
    }
    proof {
        assert(models_of(rest@).to_multiset().len() == 0);
        assert(models_of(out@).to_multiset() =~= orig.to_multiset());
    }
    out
}

/// Keep at most `cap` entries, dropping from the tail, so that a sorted
/// sequence keeps its best-ranked prefix.
pub fn truncate_to(v: &mut Vec<Story>, cap: usize)
    ensures
        final(v)@ == (if old(v)@.len() <= cap as int { old(v)@ } else {
            old(v)@.take(cap as int)
        }),
{
    if v.len() > cap {
        v.truncate(cap);
        proof {
            assert(v@ =~= old(v)@.take(cap as int));
        }
    }
}

} // verus!
