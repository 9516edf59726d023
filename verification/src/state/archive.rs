//! An archive of elitists: the best individuals of a population, kept to be added back later.
//!
//! Individuals are ordered by keys: unsigned integers that order them as their objective
//! values do, and told apart by identities: equal individuals have equal identities.

use vstd::prelude::*;

verus! {

/// Whether `idx` selects the `n` best of the items whose keys are `keys` (all of them where
/// there are fewer), best first: no item is selected twice, and no item left out is better than
/// a selected one. Which of equally good items are selected is left open.
pub open spec fn is_elitist_selection(keys: Seq<u64>, n: nat, idx: Seq<usize>) -> bool {
    &&& idx.len() == if n < keys.len() {
        n
    } else {
        keys.len()
    }
    &&& idx.no_duplicates()
    &&& forall|i: int| 0 <= i < idx.len() ==> #[trigger] idx[i] < keys.len()
    &&& forall|i: int, j: int|
        0 <= i < j < idx.len() ==> keys[#[trigger] idx[i] as int] <= keys[#[trigger] idx[j] as int]
    &&& forall|i: int, q: usize|
        0 <= i < idx.len() && q < keys.len() && !idx.contains(q) ==> keys[#[trigger] idx[i] as int]
            <= #[trigger] keys[q as int]
}

/// Selects the `n_elitists` best of the items whose keys are `keys`, best first.
pub fn select_elitists(keys: &[u64], n_elitists: usize) -> (r: Vec<usize>)
    ensures
        is_elitist_selection(keys@, n_elitists as nat, r@),
{
    let len = keys.len();
    let mut remaining: Vec<usize> = Vec::new();
    let mut c: usize = 0;
    while c < len
        invariant
            c <= len,
            len == keys@.len(),
            remaining@.len() == c,
            forall|i: int| 0 <= i < c ==> #[trigger] remaining@[i] == i,
        decreases len - c,
    {
        remaining.push(c);
        c = c + 1;
    }
    let mut result: Vec<usize> = Vec::new();
    proof {
        assert forall|q: usize| q < len implies (remaining@.contains(q) <==> !result@.contains(q)) by {
            assert(remaining@[q as int] == q);
        }
        assert forall|a: int, b: int| 0 <= a < remaining@.len() && 0 <= b < remaining@.len() && a != b implies remaining@[a]
            != remaining@[b] by {}
    }
    while result.len() < n_elitists && remaining.len() > 0
        invariant
            len == keys@.len(),
            result@.len() <= n_elitists,
            result@.len() + remaining@.len() == len,
            result@.no_duplicates(),
            remaining@.no_duplicates(),
            forall|i: int| 0 <= i < result@.len() ==> #[trigger] result@[i] < len,
            forall|i: int| 0 <= i < remaining@.len() ==> #[trigger] remaining@[i] < len,
            forall|q: usize| q < len ==> (remaining@.contains(q) <==> !result@.contains(q)),
            forall|i: int, j: int|
                0 <= i < j < result@.len() ==> keys@[#[trigger] result@[i] as int]
                    <= keys@[#[trigger] result@[j] as int],
            forall|i: int, j: int|
                0 <= i < result@.len() && 0 <= j < remaining@.len() ==> keys@[#[trigger] result@[i] as int]
                    <= keys@[#[trigger] remaining@[j] as int],
        decreases remaining@.len(),
    {
        let mut best: usize = 0;
        let mut j: usize = 1;
        while j < remaining.len()
            invariant
                len == keys@.len(),
                0 <= best < j <= remaining@.len(),
                forall|i: int| 0 <= i < remaining@.len() ==> #[trigger] remaining@[i] < len,
                forall|i: int|
                    0 <= i < j ==> keys@[remaining@[best as int] as int] <= keys@[#[trigger] remaining@[i] as int],
            decreases remaining@.len() - j,
        {
            if keys[remaining[j]] < keys[remaining[best]] {
                best = j;
            }
            j = j + 1;
        }
        let ghost old_result = result@;
        let ghost old_remaining = remaining@;
        let next = remaining.remove(best);
        result.push(next);
        proof {
            let k = old_result.len() as int;
            assert(result@[k] == next);
            assert(!old_result.contains(next)) by {
                assert(old_remaining.contains(next)) by {
                    assert(old_remaining[best as int] == next);
                }
            }
            assert forall|a: int, b: int| 0 <= a < result@.len() && 0 <= b < result@.len() && a != b implies result@[a]
                != result@[b] by {
                if a == k {
                    assert(old_result[b] != next);
                } else if b == k {
                    assert(old_result[a] != next);
                }
            }
            assert forall|a: int, b: int| 0 <= a < remaining@.len() && 0 <= b < remaining@.len() && a != b implies remaining@[a]
                != remaining@[b] by {
                let a2 = if a < best { a } else { a + 1 };
                let b2 = if b < best { b } else { b + 1 };
                assert(remaining@[a] == old_remaining[a2]);
                assert(remaining@[b] == old_remaining[b2]);
            }
            assert forall|i: int| 0 <= i < remaining@.len() implies #[trigger] remaining@[i] < len by {
                let i2 = if i < best { i } else { i + 1 };
                assert(remaining@[i] == old_remaining[i2]);
            }
            assert forall|i: int, j: int|
                0 <= i < result@.len() && 0 <= j < remaining@.len() implies keys@[#[trigger] result@[i] as int]
                    <= keys@[#[trigger] remaining@[j] as int] by {
                let j2 = if j < best { j } else { j + 1 };
                assert(remaining@[j] == old_remaining[j2]);
                if i < k {
                    assert(result@[i] == old_result[i]);
                }
            }
            assert forall|i: int, j: int|
                0 <= i < j < result@.len() implies keys@[#[trigger] result@[i] as int]
                    <= keys@[#[trigger] result@[j] as int] by {
                if j == k {
                    assert(result@[i] == old_result[i]);
                    assert(old_remaining[best as int] == next);
                } else {
                    assert(result@[i] == old_result[i] && result@[j] == old_result[j]);
                }
            }
            assert forall|q: usize| q < len implies (remaining@.contains(q) <==> !result@.contains(q)) by {
                if remaining@.contains(q) {
                    let i = choose|i: int| 0 <= i < remaining@.len() && remaining@[i] == q;
                    let i2 = if i < best { i } else { i + 1 };
                    assert(old_remaining[i2] == q);
                    assert(old_remaining.contains(q));
                    assert(q != next) by {
                        assert(old_remaining[best as int] == next);
                    }
                    if result@.contains(q) {
                        let r = choose|r: int| 0 <= r < result@.len() && result@[r] == q;
                        if r < k {
                            assert(old_result[r] == q);
                        }
                    }
                }
                if !result@.contains(q) {
                    assert(!old_result.contains(q)) by {
                        if old_result.contains(q) {
                            let r = choose|r: int| 0 <= r < old_result.len() && old_result[r] == q;
                            assert(result@[r] == q);
                        }
                    }
                    assert(q != next) by {
                        assert(result@[k] == next);
                    }
                    let i = choose|i: int| 0 <= i < old_remaining.len() && old_remaining[i] == q;
                    assert(i != best);
                    if i < best {
                        assert(remaining@[i] == q);
                    } else {
                        assert(remaining@[i - 1] == q);
                    }
                }
            }
        }
    }
    proof {
        assert forall|i: int, q: usize|
            0 <= i < result@.len() && q < len && !result@.contains(q) implies keys@[#[trigger] result@[i] as int]
                <= #[trigger] keys@[q as int] by {
            assert(remaining@.contains(q));
            let j = choose|j: int| 0 <= j < remaining@.len() && remaining@[j] == q;
            assert(keys@[result@[i] as int] <= keys@[remaining@[j] as int]);
        }
    }
    result
}

/// `population` after each of `elitists`, in order, was appended where the population did not
/// hold it yet.
pub open spec fn with_elitists(population: Seq<u64>, elitists: Seq<u64>) -> Seq<u64>
    decreases elitists.len(),
{
    if elitists.len() == 0 {
        population
    } else {
        let p = with_elitists(population, elitists.drop_last());
        if p.contains(elitists.last()) {
            p
        } else {
            p.push(elitists.last())
        }
    }
}

/// Whether the items of `r` from position `start` on come in the order of `elitists`: each one
/// occurs among the elitists before every occurrence of any item after it.
pub open spec fn appended_in_order(start: int, elitists: Seq<u64>, r: Seq<u64>) -> bool {
    forall|k1: int, k2: int, a2: int|
        #![trigger r[k1], r[k2], elitists[a2]]
        start <= k1 < k2 < r.len() && 0 <= a2 < elitists.len() && elitists[a2] == r[k2]
            ==> occurs_before(elitists, r[k1], a2)
}

/// Whether `x` occurs among the first `a` items of `elitists`.
pub open spec fn occurs_before(elitists: Seq<u64>, x: u64, a: int) -> bool {
    exists|a1: int| 0 <= a1 < a && elitists[a1] == x
}

/// The individuals appended by adding elitists come in the order of the elitists: each one
/// occurs among the elitists before every occurrence of any individual appended after it.
pub proof fn law_elitists_are_added_in_order(population: Seq<u64>, elitists: Seq<u64>)
    ensures
        appended_in_order(population.len() as int, elitists, with_elitists(population, elitists)),
    decreases elitists.len(),
{
    if elitists.len() > 0 {
        let e = elitists.drop_last();
        let x = elitists.last();
        let p = with_elitists(population, e);
        law_elitists_are_added_in_order(population, e);
        law_elitists_are_added_once(population, e);
        let n = elitists.len() - 1;
        let r = with_elitists(population, elitists);
        assert forall|k1: int, k2: int, a2: int|
            #![trigger r[k1], r[k2], elitists[a2]]
            (population.len() as int) <= k1 < k2 < r.len() && 0 <= a2 < elitists.len() && elitists[a2] == r[k2]
                implies occurs_before(elitists, r[k1], a2) by {
            assert(with_elitists(population, elitists)[k1] == p[k1]);
            lemma_appended_is_elitist(population, e, k1);
            let w = choose|a: int| 0 <= a < e.len() && e[a] == p[k1];
            assert(elitists[w] == e[w]);
            if k2 < p.len() {
                assert(with_elitists(population, elitists)[k2] == p[k2]);
                if a2 < n {
                    assert(e[a2] == elitists[a2]);
                    assert(e[a2] == p[k2]);
                    let a1 = choose|a1: int| 0 <= a1 < a2 && #[trigger] e[a1] == p[k1];
                    assert(elitists[a1] == e[a1]);
                    assert(elitists[a1] == with_elitists(population, elitists)[k1]);
                } else {
                    assert(elitists[w] == with_elitists(population, elitists)[k1]);
                }
            } else {
                assert(!p.contains(x));
                assert(with_elitists(population, elitists)[k2] == x);
                if a2 < n {
                    assert(e[a2] == x);
                    assert(e.contains(x));
                }
                assert(elitists[w] == with_elitists(population, elitists)[k1]);
            }
        }
        assert(appended_in_order(population.len() as int, elitists, r));
    } else {
        assert(with_elitists(population, elitists) == population);
    }
}

/// An individual that adding elitists appended to the population is one of the elitists.
proof fn lemma_appended_is_elitist(population: Seq<u64>, elitists: Seq<u64>, k: int)
    requires
        population.len() <= k < with_elitists(population, elitists).len(),
    ensures
        exists|a: int| 0 <= a < elitists.len() && elitists[a] == with_elitists(population, elitists)[k],
    decreases elitists.len(),
{
    if elitists.len() > 0 {
        let e = elitists.drop_last();
        let p = with_elitists(population, e);
        law_elitists_are_added_once(population, e);
        if k < p.len() {
            lemma_appended_is_elitist(population, e, k);
            let a = choose|a: int| 0 <= a < e.len() && e[a] == p[k];
            assert(elitists[a] == e[a]);
        } else {
            assert(elitists[elitists.len() - 1] == with_elitists(population, elitists)[k]);
        }
    }
}

/// Adding elitists keeps the population as it was at the front and appends after it only
/// elitists that it did not hold, each once: the result holds exactly the individuals of the
/// population and the elitists, and no appended individual occurs anywhere before it.
pub proof fn law_elitists_are_added_once(population: Seq<u64>, elitists: Seq<u64>)
    ensures
        with_elitists(population, elitists).len() >= population.len(),
        with_elitists(population, elitists).take(population.len() as int) == population,
        forall|x: u64|
            #![trigger with_elitists(population, elitists).contains(x)]
            with_elitists(population, elitists).contains(x) <==> (population.contains(x)
                || elitists.contains(x)),
        forall|k: int, j: int|
            #![trigger with_elitists(population, elitists)[k], with_elitists(population, elitists)[j]]
            0 <= j < k < with_elitists(population, elitists).len() && population.len() <= k
                ==> with_elitists(population, elitists)[j] != with_elitists(population, elitists)[k],
    decreases elitists.len(),
{
    let r = with_elitists(population, elitists);
    if elitists.len() > 0 {
        let e = elitists.drop_last();
        let x = elitists.last();
        let p = with_elitists(population, e);
        law_elitists_are_added_once(population, e);
        assert forall|y: u64| elitists.contains(y) <==> (e.contains(y) || y == x) by {
            if elitists.contains(y) {
                let i = choose|i: int| 0 <= i < elitists.len() && elitists[i] == y;
                if i < elitists.len() - 1 {
                    assert(e[i] == y);
                }
            }
            if e.contains(y) {
                let i = choose|i: int| 0 <= i < e.len() && e[i] == y;
                assert(elitists[i] == y);
            }
            if y == x {
                assert(elitists[elitists.len() - 1] == y);
            }
        }
        if !p.contains(x) {
            assert(r == p.push(x));
            assert(r.take(population.len() as int) =~= p.take(population.len() as int));
            assert forall|y: u64| r.contains(y) <==> (p.contains(y) || y == x) by {
                if r.contains(y) {
                    let i = choose|i: int| 0 <= i < r.len() && r[i] == y;
                    if i < p.len() {
                        assert(p[i] == y);
                    }
                }
                if p.contains(y) {
                    let i = choose|i: int| 0 <= i < p.len() && p[i] == y;
                    assert(r[i] == y);
                }
                if y == x {
                    assert(r[p.len() as int] == y);
                }
            }
            assert forall|k: int, j: int|
                0 <= j < k < r.len() && population.len() <= k implies r[j] != r[k] by {
                if k == p.len() {
                    assert(r[j] == p[j]);
                    assert(p.contains(p[j]));
                } else {
                    assert(r[j] == p[j] && r[k] == p[k]);
                }
            }
        }
    }
}

/// Adds the elitists with identities `elitists` to the population with identities
/// `population`: each one that the population does not hold yet is appended, in order.
pub fn add_elitists(population: &mut Vec<u64>, elitists: &[u64])
    ensures
        final(population)@ == with_elitists(old(population)@, elitists@),
        final(population)@.take(old(population)@.len() as int) == old(population)@,
        forall|x: u64|
            #![trigger final(population)@.contains(x)]
            final(population)@.contains(x) <==> (old(population)@.contains(x) || elitists@.contains(
                x,
            )),
        forall|k: int, j: int|
            #![trigger final(population)@[k], final(population)@[j]]
            0 <= j < k < final(population)@.len() && old(population)@.len() <= k
                ==> final(population)@[j] != final(population)@[k],
        appended_in_order(old(population)@.len() as int, elitists@, final(population)@),
{
    let mut i: usize = 0;
    while i < elitists.len()
        invariant
            i <= elitists.len(),
            population@ == with_elitists(old(population)@, elitists@.take(i as int)),
        decreases elitists.len() - i,
    {
        let e = elitists[i];
        let mut found = false;
        let mut j: usize = 0;
        while j < population.len()
            invariant
                j <= population@.len(),
                found <==> exists|k: int| 0 <= k < j && population@[k] == e,
            decreases population@.len() - j,
        {
            if population[j] == e {
                found = true;
            }
            j = j + 1;
        }
        proof {
            assert(elitists@.take(i + 1).drop_last() =~= elitists@.take(i as int));
            assert(elitists@.take(i + 1).last() == e);
        }
        if !found {
            population.push(e);
        }
        i = i + 1;
    }
    proof {
        assert(elitists@.take(i as int) =~= elitists@);
        law_elitists_are_added_once(old(population)@, elitists@);
        law_elitists_are_added_in_order(old(population)@, elitists@);
    }
}

/// The elitists of a population.
pub struct ElitistArchive<I> {
    elitists: Vec<I>,
}

impl<I> View for ElitistArchive<I> {
    type V = Seq<I>;

    closed spec fn view(&self) -> Seq<I> {
        self.elitists@
    }
}

impl<I> ElitistArchive<I> {
    /// Creates an empty archive.
    pub fn new() -> (r: Self)
        ensures
            r@ == Seq::<I>::empty(),
    {
        ElitistArchive { elitists: Vec::new() }
    }

    /// The elitists.
    pub fn elitists(&self) -> (r: &[I])
        ensures
            r@ == self@,
    {
        self.elitists.as_slice()
    }

    /// The elitists, mutably.
    pub fn elitists_mut(&mut self) -> (r: &mut [I])
        ensures
            r@ == old(self)@,
            final(self)@ == final(r)@,
    {
        self.elitists.as_mut_slice()
    }

    /// Replaces the elitists by clones of the `n_elitists` best individuals of `population`,
    /// best first, where `keys` orders the individuals as their objective values do.
    pub fn state_update(&mut self, population: &[I], keys: &[u64], n_elitists: usize)
        where
            I: Clone,
        requires
            keys.len() == population.len(),
        ensures
            exists|idx: Seq<usize>|
                is_elitist_selection(keys@, n_elitists as nat, idx) && final(self)@.len()
                    == idx.len() && forall|i: int|
                    0 <= i < idx.len() ==> cloned(#[trigger] population@[idx[i] as int], final(self)@[i]),
    {
        let idx = select_elitists(keys, n_elitists);
        let mut elitists: Vec<I> = Vec::new();
        let mut i: usize = 0;
        while i < idx.len()
            invariant
                i <= idx@.len(),
                is_elitist_selection(keys@, n_elitists as nat, idx@),
                keys@.len() == population@.len(),
                elitists@.len() == i,
                forall|k: int| 0 <= k < i ==> cloned(#[trigger] population@[idx@[k] as int], elitists@[k]),
            decreases idx@.len() - i,
        {
            let x = population[idx[i]].clone();
            elitists.push(x);
            i = i + 1;
        }
        self.elitists = elitists;
    }
}

} // verus!
