//! The bests of particle swarm optimization: every particle's own best individual, and the
//! best individual of the whole swarm.
//!
//! Individuals are ordered by keys: unsigned integers that order them as their objective
//! values do.

use vstd::prelude::*;

verus! {

/// The index of the first item with the smallest of the keys `keys`.
pub open spec fn is_first_best(keys: Seq<u64>, i: int) -> bool {
    &&& 0 <= i < keys.len()
    &&& forall|j: int| 0 <= j < keys.len() ==> keys[i] <= #[trigger] keys[j]
    &&& forall|j: int| 0 <= j < i ==> keys[i] < #[trigger] keys[j]
}

/// Returns the index of the first item with the smallest key; there must be an item.
pub fn best_index(keys: &[u64]) -> (r: usize)
    requires
        keys.len() > 0,
    ensures
        is_first_best(keys@, r as int),
{
    let mut best: usize = 0;
    let mut j: usize = 1;
    while j < keys.len()
        invariant
            0 <= best < j <= keys.len(),
            forall|i: int| 0 <= i < j ==> keys@[best as int] <= #[trigger] keys@[i],
            forall|i: int| 0 <= i < best ==> keys@[best as int] < #[trigger] keys@[i],
        decreases keys.len() - j,
    {
        if keys[j] < keys[best] {
            best = j;
        }
        j = j + 1;
    }
    best
}

/// The number of particles that an update compares: as many as both the population and the
/// bests have.
pub open spec fn compared(population: int, bests: int) -> int {
    if population < bests {
        population
    } else {
        bests
    }
}

/// Whether the `i`-th individual of the population improves on its particle's own best.
pub open spec fn improves(best_keys: Seq<u64>, keys: Seq<u64>, i: int) -> bool {
    best_keys[i] > keys[i]
}

/// The key of the swarm's best, and the index of the individual that became it last (if any),
/// after the first `k` particles were compared, starting from the key `global`.
pub open spec fn global_after(global: u64, best_keys: Seq<u64>, keys: Seq<u64>, k: nat) -> (
    u64,
    Option<int>,
)
    decreases k,
{
    if k == 0 {
        (global, None)
    } else {
        let (g, src) = global_after(global, best_keys, keys, (k - 1) as nat);
        let i = k - 1;
        if improves(best_keys, keys, i) && g > keys[i] {
            (keys[i], Some(i))
        } else {
            (g, src)
        }
    }
}

proof fn lemma_global_after_source(global: u64, best_keys: Seq<u64>, keys: Seq<u64>, k: nat)
    ensures
        global_after(global, best_keys, keys, k).1 matches Some(i) ==> 0 <= i < k,
    decreases k,
{
    if k > 0 {
        lemma_global_after_source(global, best_keys, keys, (k - 1) as nat);
    }
}

/// The swarm's best after the first `k` particles were compared is the best of the swarm's
/// best before and every individual among them that improved on its own best: its key is
/// at most the old key and at most the key of each such individual, and it is one of those
/// keys; where it is the key of an individual, that individual improved on its own best.
pub proof fn law_global_best_is_the_minimum(global: u64, best_keys: Seq<u64>, keys: Seq<u64>, k: nat)
    requires
        k <= keys.len(),
        k <= best_keys.len(),
    ensures
        global_after(global, best_keys, keys, k).0 <= global,
        forall|i: int|
            0 <= i < k && #[trigger] improves(best_keys, keys, i) ==> global_after(
                global,
                best_keys,
                keys,
                k,
            ).0 <= keys[i],
        global_after(global, best_keys, keys, k).1 matches Some(i) ==> 0 <= i < k && improves(
            best_keys,
            keys,
            i,
        ) && keys[i] == global_after(global, best_keys, keys, k).0 && keys[i] < global,
        global_after(global, best_keys, keys, k).1 is None ==> global_after(
            global,
            best_keys,
            keys,
            k,
        ).0 == global,
    decreases k,
{
    if k > 0 {
        law_global_best_is_the_minimum(global, best_keys, keys, (k - 1) as nat);
    }
}

/// Updates the bests with the population whose keys are `keys`: where an individual is better
/// than its particle's own best, it replaces that best, and, where it is better than the
/// swarm's best too, the swarm's best.
pub fn update_bests<I: Clone>(
    population: &[I],
    keys: &[u64],
    bests: &mut Vec<I>,
    best_keys: &mut Vec<u64>,
    global_best: &mut I,
    global_key: &mut u64,
)
    requires
        keys.len() == population.len(),
        old(best_keys).len() == old(bests).len(),
    ensures
        ({
            let n = compared(population.len() as int, old(bests).len() as int);
            let (g, src) = global_after(*old(global_key), old(best_keys)@, keys@, n as nat);
            &&& final(bests)@.len() == old(bests)@.len()
            &&& final(best_keys)@.len() == old(best_keys)@.len()
            &&& forall|i: int|
                0 <= i < old(bests)@.len() ==> if i < n && improves(old(best_keys)@, keys@, i) {
                    final(best_keys)@[i] == keys@[i] && cloned(
                        population@[i],
                        #[trigger] final(bests)@[i],
                    )
                } else {
                    final(best_keys)@[i] == old(best_keys)@[i] && final(bests)@[i] == old(
                        bests,
                    )@[i]
                }
            &&& *final(global_key) == g
            &&& *final(global_key) <= *old(global_key)
            &&& forall|i: int|
                0 <= i < n && #[trigger] improves(old(best_keys)@, keys@, i) ==> *final(global_key)
                    <= keys@[i]
            &&& (*final(global_key) == *old(global_key) && *final(global_best) == *old(global_best))
                || exists|i: int|
                0 <= i < n && improves(old(best_keys)@, keys@, i) && keys@[i] == *final(global_key)
                    && cloned(#[trigger] population@[i], *final(global_best))
            &&& match src {
                Some(i) => cloned(population@[i], *final(global_best)),
                None => *final(global_best) == *old(global_best),
            }
        }),
{
    let n = if population.len() < bests.len() {
        population.len()
    } else {
        bests.len()
    };
    let ghost bk0 = best_keys@;
    let ghost b0 = bests@;
    let ghost g0 = *global_key;
    let ghost gb0 = *global_best;
    let mut i: usize = 0;
    while i < n
        invariant
            n == compared(population.len() as int, b0.len() as int),
            keys.len() == population.len(),
            bk0.len() == b0.len(),
            i <= n,
            bests@.len() == b0.len(),
            best_keys@.len() == bk0.len(),
            forall|j: int|
                #![trigger best_keys@[j]]
                #![trigger bests@[j]]
                0 <= j < b0.len() ==> if j < i && improves(bk0, keys@, j) {
                    best_keys@[j] == keys@[j] && cloned(population@[j], bests@[j])
                } else {
                    best_keys@[j] == bk0[j] && bests@[j] == b0[j]
                },
            *global_key == global_after(g0, bk0, keys@, i as nat).0,
            global_after(g0, bk0, keys@, i as nat).1 matches Some(j) ==> 0 <= j < i,
            match global_after(g0, bk0, keys@, i as nat).1 {
                Some(j) => cloned(population@[j], *global_best),
                None => *global_best == gb0,
            },
        decreases n - i,
    {
        assert(best_keys@[i as int] == bk0[i as int]);
        proof {
            lemma_global_after_source(g0, bk0, keys@, (i + 1) as nat);
        }
        if best_keys[i] > keys[i] {
            let x = population[i].clone();
            bests.set(i, x);
            best_keys.set(i, keys[i]);
            if *global_key > keys[i] {
                *global_best = population[i].clone();
                *global_key = keys[i];
            }
        }
        i = i + 1;
    }
    proof {
        law_global_best_is_the_minimum(g0, bk0, keys@, n as nat);
    }
}

} // verus!
