use std::collections::HashMap;

use vstd::prelude::*;
use vstd::std_specs::hash::spec_keys_iter;
use vstd::std_specs::iter::IteratorSpec;

verus! {

broadcast use vstd::std_specs::hash::group_hash_axioms;

/// Strictly increasing.
pub open spec fn ascending(l: Seq<u32>) -> bool {
    forall|i: int, j: int| 0 <= i < j < l.len() ==> l[i] < l[j]
}

/// The elements of a finite set of keys in increasing order.
pub open spec fn ascending_keys(keys: Set<u32>) -> Seq<u32> {
    choose|l: Seq<u32>| ascending(l) && l.to_set() == keys
}

/// Two increasing lists with the same elements are the same list.
pub proof fn lemma_ascending_unique(l1: Seq<u32>, l2: Seq<u32>)
    requires
        ascending(l1),
        ascending(l2),
        l1.to_set() == l2.to_set(),
    ensures
        l1 == l2,
    decreases l1.len() + l2.len(),
{
    if l1.len() == 0 {
        if l2.len() > 0 {
            assert(l2.to_set().contains(l2[0]));
        }
        assert(l1 =~= l2);
    } else if l2.len() == 0 {
        assert(l1.to_set().contains(l1[0]));
    } else {
        assert(l1.to_set().contains(l1[0]));
        assert(l2.to_set().contains(l2[0]));
        let j = choose|j: int| 0 <= j < l2.len() && l2[j] == l1[0];
        let i = choose|i: int| 0 <= i < l1.len() && l1[i] == l2[0];
        if j > 0 {
            assert(l2[0] < l2[j]);
            if i > 0 {
                assert(l1[0] < l1[i]);
            }
        }
        assert(l1[0] == l2[0]);
        let t1 = l1.drop_first();
        let t2 = l2.drop_first();
        assert(t1.to_set() =~= t2.to_set()) by {
            assert forall|x: u32| t1.to_set().contains(x) implies t2.to_set().contains(x) by {
                let a = choose|a: int| 0 <= a < t1.len() && t1[a] == x;
                assert(l1[a + 1] == x);
                assert(l2.to_set().contains(x));
                let b = choose|b: int| 0 <= b < l2.len() && l2[b] == x;
                assert(b != 0);
                assert(t2[b - 1] == x);
            }
            assert forall|x: u32| t2.to_set().contains(x) implies t1.to_set().contains(x) by {
                let a = choose|a: int| 0 <= a < t2.len() && t2[a] == x;
                assert(l2[a + 1] == x);
                assert(l1.to_set().contains(x));
                let b = choose|b: int| 0 <= b < l1.len() && l1[b] == x;
                assert(b != 0);
                assert(t1[b - 1] == x);
            }
        }
        lemma_ascending_unique(t1, t2);
        assert(t1.len() == t2.len());
        assert(l1 =~= l2) by {
            assert forall|k: int| 0 <= k < l1.len() implies l1[k] == l2[k] by {
                if k > 0 {
                    assert(l1[k] == t1[k - 1] && l2[k] == t2[k - 1]);
                }
            }
        }
    }
}

pub fn insert_ascending(out: &mut Vec<u32>, x: u32)
    requires
        ascending(old(out)@),
    ensures
        ascending(final(out)@),
        final(out)@.to_set() == old(out)@.to_set().insert(x),
{
    let ghost before = out@;
    let mut pos: usize = 0;
    while pos < out.len() && out[pos] < x
        invariant
            pos <= out@.len(),
            out@ == before,
            forall|j: int| 0 <= j < pos ==> out@[j] < x,
        decreases out@.len() - pos,
    {
        pos = pos + 1;
    }
    if pos < out.len() && out[pos] == x {
        assert(before.to_set().insert(x) =~= before.to_set()) by {
            assert(before.to_set().contains(x));
        }
        return;
    }
    out.insert(pos, x);
    proof {
        assert forall|i: int, j: int| 0 <= i < j < out@.len() implies out@[i] < out@[j] by {
            if j < pos {
                assert(out@[i] == before[i] && out@[j] == before[j]);
            } else if j == pos {
                assert(out@[i] == before[i]);
            } else if i < pos {
                assert(out@[i] == before[i] && out@[j] == before[j - 1]);
                assert(before[pos as int] > x);
                if j - 1 > pos {
                    assert(before[pos as int] < before[j - 1]);
                }
            } else if i == pos {
                assert(out@[j] == before[j - 1]);
                assert(before[pos as int] > x);
                if j - 1 > pos {
                    assert(before[pos as int] < before[j - 1]);
                }
            } else {
                assert(out@[i] == before[i - 1] && out@[j] == before[j - 1]);
            }
        }
        assert(out@.to_set() =~= before.to_set().insert(x)) by {
            assert forall|y: u32| out@.to_set().contains(y) <==> before.to_set().insert(x).contains(y) by {
                if out@.contains(y) {
                    let k = choose|k: int| 0 <= k < out@.len() && out@[k] == y;
                    if k < pos {
                        assert(before[k] == y);
                    } else if k > pos {
                        assert(before[k - 1] == y);
                    }
                }
                if before.contains(y) {
                    let k = choose|k: int| 0 <= k < before.len() && before[k] == y;
                    if k < pos {
                        assert(out@[k] == y);
                    } else {
                        assert(out@[k + 1] == y);
                    }
                }
                if y == x {
                    assert(out@[pos as int] == x);
                }
            }
        }
    }
}

/// The keys of a map in increasing order.
pub fn sorted_map_keys<V>(m: &HashMap<u32, V>) -> (r: Vec<u32>)
    ensures
        r@ == ascending_keys(m@.dom()),
        ascending(r@),
        r@.to_set() == m@.dom(),
{
    let ghost keys = spec_keys_iter(m).remaining().unref();
    let mut out: Vec<u32> = Vec::new();
    let ghost mut done: int = 0;
    proof {
        assert(keys.to_set() == m@.dom());
        assert(out@.to_set() =~= keys.take(0).to_set());
    }
    for k in it: m.keys()
        invariant
            keys == it.seq().unref(),
            done == it.index(),
            0 <= done <= keys.len(),
            ascending(out@),
            out@.to_set() == keys.take(done).to_set(),
    {
        let ghost d0 = done;
        proof {
            assert(keys[d0] == *k);
        }
        insert_ascending(&mut out, *k);
        proof {
            assert(keys.take(d0 + 1).to_set() =~= keys.take(d0).to_set().insert(keys[d0])) by {
                assert forall|y: u32| keys.take(d0 + 1).to_set().contains(y) <==> keys.take(d0).to_set().insert(keys[d0]).contains(y) by {
                    if keys.take(d0 + 1).contains(y) {
                        let i = choose|i: int| 0 <= i < d0 + 1 && #[trigger] keys.take(d0 + 1)[i] == y;
                        if i < d0 {
                            assert(keys.take(d0)[i] == y);
                        }
                    }
                    if keys.take(d0).contains(y) {
                        let i = choose|i: int| 0 <= i < d0 && #[trigger] keys.take(d0)[i] == y;
                        assert(keys.take(d0 + 1)[i] == y);
                    }
                    if y == keys[d0] {
                        assert(keys.take(d0 + 1)[d0] == y);
                    }
                }
            }
            done = done + 1;
        }
    }
    proof {
        assert(keys.take(done) =~= keys);
        lemma_ascending_unique(out@, ascending_keys(m@.dom()));
    }
    out
}

} // verus!
