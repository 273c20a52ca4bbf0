//! Concatenation-map over sequences, and its permutation lemmas.
//!
//! The fetchspec planner emits, for each element of an input collection,
//! a small block of refspecs, and concatenates the blocks.  `cmap` is
//! that shape as a spec function; the lemmas below say how it grows and
//! that permuting the input only permutes the output.

use vstd::prelude::*;
use vstd::multiset::Multiset;
use vstd::seq_lib::group_to_multiset_ensures;

verus! {

/// The concatenation of `f` applied to every element of `s`, in order.
pub open spec fn cmap<A, B>(s: Seq<A>, f: spec_fn(A) -> Seq<B>) -> Seq<B>
    decreases s.len(),
{
    if s.len() == 0 {
        Seq::empty()
    } else {
        cmap(s.drop_last(), f) + f(s.last())
    }
}

/// Extending the mapped prefix by one element appends that element's
/// block.
pub proof fn lemma_cmap_take_step<A, B>(s: Seq<A>, f: spec_fn(A) -> Seq<B>, i: int)
    requires
        0 <= i < s.len(),
    ensures
        cmap(s.take(i + 1), f) == cmap(s.take(i), f) + f(s[i]),
{
    assert(s.take(i + 1).drop_last() =~= s.take(i));
    assert(s.take(i + 1).last() == s[i]);
}

/// `cmap` distributes over concatenation.
pub proof fn lemma_cmap_add<A, B>(a: Seq<A>, b: Seq<A>, f: spec_fn(A) -> Seq<B>)
    ensures
        cmap(a + b, f) == cmap(a, f) + cmap(b, f),
    decreases b.len(),
{
    if b.len() == 0 {
        assert(a + b =~= a);
        assert(cmap(a, f) + cmap(b, f) =~= cmap(a, f));
    } else {
        lemma_cmap_add(a, b.drop_last(), f);
        assert((a + b).drop_last() =~= a + b.drop_last());
        assert((a + b).last() == b.last());
        assert(cmap(a + b, f) == cmap(a + b.drop_last(), f) + f(b.last()));
        assert(cmap(a, f) + cmap(b, f) =~= cmap(a, f) + (cmap(b.drop_last(), f) + f(b.last())));
    }
}

/// Permuting the input of `cmap`, and exchanging `f` for a function
/// whose blocks are element-wise permutations, permutes the output.
pub proof fn lemma_cmap_permutation<A, B>(
    s1: Seq<A>,
    s2: Seq<A>,
    f1: spec_fn(A) -> Seq<B>,
    f2: spec_fn(A) -> Seq<B>,
)
    requires
        s1.to_multiset() == s2.to_multiset(),
        forall|x: A| (#[trigger] f1(x)).to_multiset() == f2(x).to_multiset(),
    ensures
        cmap(s1, f1).to_multiset() == cmap(s2, f2).to_multiset(),
    decreases s1.len(),
{
    broadcast use group_to_multiset_ensures;
    broadcast use vstd::seq_lib::lemma_multiset_commutative;

    if s1.len() == 0 {
        assert(s1.to_multiset().len() == s1.len());
        assert(s2.to_multiset().len() == s2.len());
        assert(s2.len() == 0);
        assert(cmap(s1, f1).to_multiset() =~= cmap(s2, f2).to_multiset());
    } else {
        let x = s1.last();
        assert(s1.to_multiset().contains(x)) by {
            assert(s1.contains(x));
        }
        assert(s2.to_multiset().contains(x));
        assert(s2.contains(x));
        let i = choose|i: int| 0 <= i < s2.len() && s2[i] == x;
        let s2r = s2.remove(i);
        assert(s1.drop_last().to_multiset() == s1.to_multiset().remove(x)) by {
            assert(s1.remove(s1.len() - 1) =~= s1.drop_last());
        }
        assert(s2r.to_multiset() == s2.to_multiset().remove(x));
        lemma_cmap_permutation(s1.drop_last(), s2r, f1, f2);
        // cmap(s1, f1) splits off the block of its last element.
        assert(cmap(s1, f1).to_multiset() == cmap(s1.drop_last(), f1).to_multiset().add(
            f1(x).to_multiset(),
        ));
        // cmap(s2, f2) splits around position i.
        let front = s2.take(i);
        let back = s2.skip(i + 1);
        assert(s2 =~= front + (seq![x] + back));
        lemma_cmap_add(front, seq![x] + back, f2);
        lemma_cmap_add(seq![x], back, f2);
        assert(cmap(seq![x], f2) =~= f2(x)) by {
            assert(seq![x].drop_last() =~= Seq::<A>::empty());
            assert(seq![x].last() == x);
            assert(cmap(Seq::<A>::empty(), f2) =~= Seq::<B>::empty());
            assert(cmap(seq![x], f2) == cmap(seq![x].drop_last(), f2) + f2(seq![x].last()));
            assert(Seq::<B>::empty() + f2(x) =~= f2(x));
        }
        assert(s2r =~= front + back);
        lemma_cmap_add(front, back, f2);
        assert(cmap(s2, f2).to_multiset() == cmap(front, f2).to_multiset().add(
            f2(x).to_multiset().add(cmap(back, f2).to_multiset()),
        ));
        assert(cmap(s2r, f2).to_multiset() == cmap(front, f2).to_multiset().add(
            cmap(back, f2).to_multiset(),
        ));
        assert(cmap(s1, f1).to_multiset() =~= cmap(s2, f2).to_multiset());
    }
}

/// Permuting the input of `map_values` permutes the output.
pub proof fn lemma_map_values_permutation<A, B>(s1: Seq<A>, s2: Seq<A>, f: spec_fn(A) -> B)
    requires
        s1.to_multiset() == s2.to_multiset(),
    ensures
        s1.map_values(f).to_multiset() == s2.map_values(f).to_multiset(),
    decreases s1.len(),
{
    broadcast use group_to_multiset_ensures;
    broadcast use vstd::seq_lib::lemma_multiset_commutative;

    if s1.len() == 0 {
        assert(s1.to_multiset().len() == s1.len());
        assert(s2.to_multiset().len() == s2.len());
        assert(s2.len() == 0);
        assert(s1.map_values(f).to_multiset() =~= s2.map_values(f).to_multiset());
    } else {
        let x = s1.last();
        assert(s1.to_multiset().contains(x)) by {
            assert(s1.contains(x));
        }
        assert(s2.to_multiset().contains(x));
        assert(s2.contains(x));
        let i = choose|i: int| 0 <= i < s2.len() && s2[i] == x;
        let s2r = s2.remove(i);
        assert(s1.drop_last().to_multiset() == s1.to_multiset().remove(x)) by {
            assert(s1.remove(s1.len() - 1) =~= s1.drop_last());
        }
        assert(s2r.to_multiset() == s2.to_multiset().remove(x));
        lemma_map_values_permutation(s1.drop_last(), s2r, f);
        assert(s1.map_values(f) =~= s1.drop_last().map_values(f).push(f(x)));
        let front = s2.take(i);
        let back = s2.skip(i + 1);
        assert(s2 =~= front + (seq![x] + back));
        assert(s2.map_values(f) =~= front.map_values(f) + (seq![f(x)] + back.map_values(f)));
        assert(s2r =~= front + back);
        assert(s2r.map_values(f) =~= front.map_values(f) + back.map_values(f));
        assert(s1.map_values(f).to_multiset() == s1.drop_last().map_values(f).to_multiset().insert(
            f(x),
        ));
        assert((seq![f(x)] + back.map_values(f)).to_multiset() == seq![f(x)].to_multiset().add(
            back.map_values(f).to_multiset(),
        ));
        assert(seq![f(x)].to_multiset() =~= Multiset::<B>::empty().insert(f(x))) by {
            assert(seq![f(x)] =~= Seq::<B>::empty().push(f(x)));
            assert(Seq::<B>::empty().to_multiset() =~= Multiset::<B>::empty());
        }
        assert(s1.map_values(f).to_multiset() =~= s2.map_values(f).to_multiset());
    }
}

} // verus!
