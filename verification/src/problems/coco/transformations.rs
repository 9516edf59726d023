//! Input transformations of benchmark problems that do not compute on the input values.

use vstd::prelude::*;

verus! {

/// Whether `mapping` is a permutation of `0..mapping.len()`.
pub open spec fn is_permutation(mapping: Seq<usize>) -> bool {
    &&& mapping.no_duplicates()
    &&& forall|i: int| 0 <= i < mapping.len() ==> #[trigger] mapping[i] < mapping.len()
}

/// `out` after the first `k` values of `x` were written to the positions that `mapping` gives
/// them, in order (a later write to the same position wins).
pub open spec fn scattered<T>(out: Seq<T>, x: Seq<T>, mapping: Seq<usize>, k: nat) -> Seq<T>
    decreases k,
{
    if k == 0 {
        out
    } else {
        scattered(out, x, mapping, (k - 1) as nat).update(
            mapping[k - 1] as int,
            x[k - 1],
        )
    }
}

/// `out` after the permutation `mapping` was applied from `x` to it: its `i`-th value is the
/// `mapping[i]`-th value of `x` wherever the mapping has a position `i`.
pub open spec fn applied<T>(x: Seq<T>, mapping: Seq<usize>, out: Seq<T>) -> Seq<T> {
    Seq::new(
        out.len(),
        |i: int|
            if i < mapping.len() {
                x[mapping[i] as int]
            } else {
                out[i]
            },
    )
}

/// What `scattered` writes, for a mapping without duplicates: the `i`-th value lands at
/// position `mapping[i]`, and positions outside the mapping keep their old value.
proof fn lemma_scattered<T>(out: Seq<T>, x: Seq<T>, mapping: Seq<usize>, k: nat)
    requires
        k <= mapping.len(),
        mapping.no_duplicates(),
        forall|i: int| 0 <= i < mapping.len() ==> #[trigger] mapping[i] < out.len(),
    ensures
        scattered(out, x, mapping, k).len() == out.len(),
        forall|i: int|
            0 <= i < k ==> #[trigger] scattered(out, x, mapping, k)[mapping[i] as int] == x[i],
        forall|q: int|
            0 <= q < out.len() && (forall|i: int| 0 <= i < k ==> #[trigger] mapping[i] != q)
                ==> scattered(out, x, mapping, k)[q] == out[q],
    decreases k,
{
    if k > 0 {
        lemma_scattered(out, x, mapping, (k - 1) as nat);
        let prev = scattered(out, x, mapping, (k - 1) as nat);
        assert forall|i: int| 0 <= i < k implies #[trigger] scattered(out, x, mapping, k)[mapping[i] as int]
            == x[i] by {
            if i < k - 1 {
                assert(mapping[i] != mapping[k - 1]);
            }
        }
        assert forall|q: int|
            0 <= q < out.len() && (forall|i: int| 0 <= i < k ==> #[trigger] mapping[i] != q) implies scattered(
            out,
            x,
            mapping,
            k,
        )[q] == out[q] by {
            assert(mapping[k - 1] != q);
            assert forall|i: int| 0 <= i < k - 1 implies #[trigger] mapping[i] != q by {
                assert(mapping[i] != q);
            }
        }
    }
}

/// A mapping of `n` distinct positions below `n` hits every position below `n`.
proof fn lemma_permutation_onto(mapping: Seq<usize>, q: int)
    requires
        is_permutation(mapping),
        0 <= q < mapping.len(),
    ensures
        exists|i: int| 0 <= i < mapping.len() && mapping[i] == q,
{
    let n = mapping.len() as int;
    let mi = mapping.map_values(|v: usize| v as int);
    assert(mi.no_duplicates()) by {
        assert forall|a: int, b: int| 0 <= a < mi.len() && 0 <= b < mi.len() && a != b implies mi[a]
            != mi[b] by {
            assert(mapping[a] != mapping[b]);
        }
    }
    mi.unique_seq_to_set();
    let s = mi.to_set();
    let r = vstd::set_lib::set_int_range(0, n);
    vstd::set_lib::lemma_int_range(0, n);
    assert(s.subset_of(r)) by {
        assert forall|v: int| s.contains(v) implies r.contains(v) by {
            let i = choose|i: int| 0 <= i < mi.len() && mi[i] == v;
            assert(mapping[i] < n);
        }
    }
    vstd::seq_lib::seq_to_set_is_finite(mi);
    vstd::set_lib::lemma_subset_equality(s, r);
    assert(r.contains(q));
    assert(s.contains(q));
    let i = choose|i: int| 0 <= i < mi.len() && mi[i] == q;
    assert(mapping[i] == q);
}

/// Reversing a permutation undoes applying it.
pub proof fn law_reverse_undoes_apply<T>(
    x: Seq<T>,
    mapping: Seq<usize>,
    out: Seq<T>,
    out2: Seq<T>,
)
    requires
        is_permutation(mapping),
        x.len() == mapping.len(),
        out.len() == mapping.len(),
        out2.len() == mapping.len(),
    ensures
        scattered(out2, applied(x, mapping, out), mapping, mapping.len()) == x,
{
    let y = applied(x, mapping, out);
    let z = scattered(out2, y, mapping, mapping.len());
    lemma_scattered(out2, y, mapping, mapping.len());
    assert forall|q: int| 0 <= q < x.len() implies z[q] == x[q] by {
        lemma_permutation_onto(mapping, q);
        let i = choose|i: int| 0 <= i < mapping.len() && mapping[i] == q;
        assert(z[mapping[i] as int] == y[i]);
    }
    assert(z =~= x);
}

/// Applying a permutation undoes reversing it.
pub proof fn law_apply_undoes_reverse<T>(
    x: Seq<T>,
    mapping: Seq<usize>,
    out: Seq<T>,
    out2: Seq<T>,
)
    requires
        is_permutation(mapping),
        x.len() == mapping.len(),
        out.len() == mapping.len(),
        out2.len() == mapping.len(),
    ensures
        applied(scattered(out, x, mapping, mapping.len()), mapping, out2) == x,
{
    let y = scattered(out, x, mapping, mapping.len());
    lemma_scattered(out, x, mapping, mapping.len());
    let z = applied(y, mapping, out2);
    assert forall|i: int| 0 <= i < x.len() implies z[i] == x[i] by {
        assert(y[mapping[i] as int] == x[i]);
    }
    assert(z =~= x);
}

/// Permutes the input: the `i`-th output is the `mapping[i]`-th input.
pub struct Permutation {
    pub mapping: Vec<usize>,
}

impl Permutation {
    /// Creates the permutation with the given mapping.
    pub fn new(mapping: Vec<usize>) -> (r: Self)
        ensures
            r.mapping@ == mapping@,
    {
        Permutation { mapping }
    }

    /// Applies the permutation: `out[i] = x[mapping[i]]` for every position that both `out`
    /// and the mapping have.
    pub fn apply<T: Copy>(&self, x: &[T], out: &mut [T])
        requires
            x.len() == self.mapping.len(),
            forall|i: int| 0 <= i < self.mapping.len() ==> #[trigger] self.mapping[i] < x.len(),
        ensures
            final(out)@ == applied(x@, self.mapping@, old(out)@),
    {
        let n = if out.len() < self.mapping.len() {
            out.len()
        } else {
            self.mapping.len()
        };
        let mut i: usize = 0;
        while i < n
            invariant
                n <= out.len(),
                n <= self.mapping.len(),
                n == out.len() || n == self.mapping.len(),
                x.len() == self.mapping.len(),
                forall|j: int| 0 <= j < self.mapping.len() ==> #[trigger] self.mapping[j] < x.len(),
                i <= n,
                out@.len() == old(out)@.len(),
                forall|j: int|
                    0 <= j < out@.len() ==> #[trigger] out@[j] == if j < i {
                        x@[self.mapping[j] as int]
                    } else {
                        old(out)@[j]
                    },
            decreases n - i,
        {
            let m = self.mapping[i];
            out[i] = x[m];
            i = i + 1;
        }
        proof {
            assert(out@ =~= applied(x@, self.mapping@, old(out)@));
        }
    }

    /// Reverses the permutation: `out[mapping[i]] = x[i]` for every position `i` of the
    /// mapping, in order.
    pub fn reverse<T: Copy>(&self, x: &[T], out: &mut [T])
        requires
            x.len() == self.mapping.len(),
            forall|i: int| 0 <= i < self.mapping.len() ==> #[trigger] self.mapping[i] < old(out).len(),
        ensures
            final(out)@ == scattered(old(out)@, x@, self.mapping@, self.mapping@.len()),
    {
        let n = self.mapping.len();
        let mut i: usize = 0;
        while i < n
            invariant
                n == self.mapping.len(),
                x.len() == n,
                forall|j: int| 0 <= j < n ==> #[trigger] self.mapping[j] < old(out).len(),
                i <= n,
                out@ == scattered(old(out)@, x@, self.mapping@, i as nat),
                out@.len() == old(out)@.len(),
            decreases n - i,
        {
            let m = self.mapping[i];
            out[m] = x[i];
            i = i + 1;
        }
    }
}

} // verus!
