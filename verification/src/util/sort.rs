use vstd::prelude::*;
use vstd::relations::{sorted_by, total_ordering};

verus! {

/// The usual order on offsets.
pub open spec fn usize_leq() -> spec_fn(usize, usize) -> bool {
    |a: usize, b: usize| a <= b
}

pub proof fn lemma_usize_leq_total()
    ensures
        total_ordering(usize_leq()),
{
}

/// The offsets in ascending order.
pub fn sort_usizes(v: &Vec<usize>) -> (r: Vec<usize>)
    ensures
        r@ == v@.sort_by(usize_leq()),
{
    let ghost leq = usize_leq();
    let mut out: Vec<usize> = Vec::new();
    let mut k: usize = 0;
    proof {
        assert(out@ =~= v@.take(0));
    }
    while k < v.len()
        invariant
            k <= v@.len(),
            leq == usize_leq(),
            sorted_by(out@, leq),
            out@.to_multiset() == v@.take(k as int).to_multiset(),
        decreases v@.len() - k,
    {
        let x = v[k];
        let mut pos: usize = 0;
        while pos < out.len() && out[pos] <= x
            invariant
                pos <= out@.len(),
                forall|i: int| 0 <= i < pos ==> out@[i] <= x,
            decreases out@.len() - pos,
        {
            pos = pos + 1;
        }
        let ghost before = out@;
        out.insert(pos, x);
        proof {
            assert forall|i: int| pos < i < out@.len() implies x < #[trigger] out@[i] by {
                assert(out@[i] == before[i - 1]);
                if pos < before.len() {
                    assert(before[pos as int] > x);
                    if i - 1 > pos {
                        assert(leq(before[pos as int], before[i - 1]));
                    }
                }
            }
            assert forall|i: int, j: int| 0 <= i < j < out@.len() implies #[trigger] leq(out@[i], out@[j]) by {
                if j < pos {
                    assert(out@[i] == before[i] && out@[j] == before[j]);
                    assert(leq(before[i], before[j]));
                } else if j == pos {
                } else if i < pos {
                    assert(out@[i] <= x);
                } else if i == pos {
                } else {
                    assert(out@[i] == before[i - 1] && out@[j] == before[j - 1]);
                    assert(leq(before[i - 1], before[j - 1]));
                }
            }
            assert(out@ =~= before.take(pos as int) + (seq![x] + before.skip(pos as int)));
            vstd::seq_lib::lemma_multiset_commutative(before.take(pos as int), seq![x] + before.skip(pos as int));
            vstd::seq_lib::lemma_multiset_commutative(seq![x], before.skip(pos as int));
            vstd::seq_lib::lemma_multiset_commutative(before.take(pos as int), before.skip(pos as int));
            assert(before =~= before.take(pos as int) + before.skip(pos as int));
            assert(v@.take(k + 1) =~= v@.take(k as int).push(x));
            v@.take(k as int).to_multiset_ensures();
            assert(seq![x].to_multiset() =~= vstd::multiset::Multiset::<usize>::singleton(x)) by {
                Seq::<usize>::empty().to_multiset_ensures();
                assert(seq![x] =~= Seq::<usize>::empty().push(x));
            }
        }
        k = k + 1;
    }
    proof {
        assert(v@.take(k as int) =~= v@);
        v@.lemma_sort_by_ensures(leq);
        lemma_usize_leq_total();
        vstd::seq_lib::lemma_sorted_unique(out@, v@.sort_by(leq), leq);
    }
    out
}

} // verus!
