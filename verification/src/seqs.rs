//! Selecting items of a vector by a mask computed beforehand.
use vstd::prelude::*;

verus! {

/// The items of `s` whose mark in `m` is set, in order.
pub open spec fn masked<T>(s: Seq<T>, m: Seq<bool>) -> Seq<T>
    decreases s.len(),
{
    if s.len() == 0 || m.len() == 0 {
        seq![]
    } else {
        let rest = masked(s.drop_last(), m.drop_last());
        if m.last() {
            rest.push(s.last())
        } else {
            rest
        }
    }
}

/// Keep the items whose mark is set, moving them out of `items`.
pub fn keep_marked<T>(items: Vec<T>, keep: &Vec<bool>) -> (r: Vec<T>)
    requires
        keep@.len() == items@.len(),
    ensures
        r@ == masked(items@, keep@),
{
    let ghost orig = items@;
    assert(orig.len() == items.len());
    let mut out: Vec<T> = Vec::new();
    let mut i: usize = 0;
    for x in it: items.into_iter()
        invariant
            it.seq() == orig,
            i == it.index(),
            i <= orig.len() <= usize::MAX,
            keep@.len() == orig.len(),
            out@ == masked(orig.take(i as int), keep@.take(i as int)),
    {
        proof {
            assert(orig.take(i + 1).drop_last() =~= orig.take(i as int));
            assert(keep@.take(i + 1).drop_last() =~= keep@.take(i as int));
        }
        if keep[i] {
            out.push(x);
        }
        i = i + 1;
    }
    proof {
        assert(orig.take(i as int) =~= orig);
        assert(keep@.take(i as int) =~= keep@);
    }
    out
}

} // verus!
