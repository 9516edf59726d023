//! Solution encodings.

use std::collections::BTreeSet;

use vstd::prelude::*;

verus! {

broadcast use vstd::std_specs::btree::group_btree_axioms;

/// The traits required of every solution encoding.
pub trait AnyEncoding: Clone + PartialEq + Send {}

impl<T: Clone + PartialEq + Send> AnyEncoding for T {}

/// Returns `true` if no element occurs twice in `items`, i.e. if `items` is a permutation of
/// its own elements.
pub fn valid_permutation(items: &[usize]) -> (r: bool)
    ensures
        r == items@.no_duplicates(),
{
    let mut uniq: BTreeSet<usize> = BTreeSet::new();
    let mut i: usize = 0;
    while i < items.len()
        invariant
            i <= items.len(),
            forall|y: usize| uniq@.contains(y) <==> items@.take(i as int).contains(y),
            items@.take(i as int).no_duplicates(),
        decreases items.len() - i,
    {
        let x = items[i];
        let fresh = uniq.insert(x);
        if !fresh {
            proof {
                let j = choose|j: int| 0 <= j < i && items@.take(i as int)[j] == x;
                assert(items@[j] == items@[i as int]);
            }
            return false;
        }
        proof {
            let t = items@.take(i as int);
            let t1 = items@.take(i + 1);
            assert(t1 =~= t.push(x));
            assert forall|y: usize| uniq@.contains(y) <==> t1.contains(y) by {
                if t1.contains(y) {
                    let j = choose|j: int| 0 <= j < t1.len() && t1[j] == y;
                    if j < i {
                        assert(t[j] == y);
                    }
                }
                if t.contains(y) {
                    let j = choose|j: int| 0 <= j < t.len() && t[j] == y;
                    assert(t1[j] == y);
                }
                if y == x {
                    assert(t1[i as int] == x);
                }
            }
            assert forall|a: int, b: int| 0 <= a < t1.len() && 0 <= b < t1.len() && a != b implies t1[a]
                != t1[b] by {
                if a == i || b == i {
                    let o = if a == i { b } else { a };
                    assert(t[o] == t1[o]);
                }
            }
        }
        i = i + 1;
    }
    proof {
        assert(items@.take(i as int) =~= items@);
    }
    true
}

} // verus!
