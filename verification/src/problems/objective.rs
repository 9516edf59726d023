//! Objective types.

use vstd::prelude::*;

verus! {

/// The traits required of every objective type: a (lightweight) value with an equality and
/// (at least) a partial order.
pub trait AnyObjective: core::fmt::Debug + Clone + Eq + PartialOrd + Send {}

impl<T: core::fmt::Debug + Clone + Eq + PartialOrd + Send> AnyObjective for T {}

/// Marker trait for objective types.
pub trait Objective: AnyObjective {}

/// Error type for illegal objective values.
/// Both `NaN` and `-Inf` are considered illegal.
///
/// # Reasons
///
/// - `NaN` is not comparable to other objective values, invalidating the required ordering.
/// - `-Inf` would symbolize an infinitely good objective value for minimization, which is not
///   sensible to allow.
#[derive(Debug, Clone, Copy, PartialEq, Eq, Structural)]
pub enum IllegalObjective {
    /// `NaN` (Not A Number)
    NaN,
    /// `-Inf` (Negative Infinity)
    NegativeInfinity,
}

impl IllegalObjective {
    /// The message that describes the error.
    pub fn message(&self) -> (r: &'static str)
        ensures
            r@ == match self {
                IllegalObjective::NaN => "NaN is not a valid objective value"@,
                IllegalObjective::NegativeInfinity => "Negative infinity is not a valid objective value"@,
            },
    {
        match self {
            IllegalObjective::NaN => "NaN is not a valid objective value",
            IllegalObjective::NegativeInfinity => "Negative infinity is not a valid objective value",
        }
    }
}

/// How one objective value compares to another.
#[derive(Clone, Copy, Debug, PartialEq, Eq, Structural)]
pub enum Comparison {
    Less,
    Equal,
    Greater,
}

/// The Pareto order of two objective vectors of lengths `own_len` and `other_len`, whose
/// values compare as `comparisons` says, position by position.
pub open spec fn pareto(own_len: usize, other_len: usize, comparisons: Seq<Comparison>) -> Option<
    Comparison,
> {
    let better = exists|i: int| 0 <= i < comparisons.len() && comparisons[i] == Comparison::Less;
    let worse = exists|i: int|
        0 <= i < comparisons.len() && comparisons[i] == Comparison::Greater;
    if own_len != other_len {
        None
    } else if !better && !worse {
        Some(Comparison::Equal)
    } else if better && !worse {
        Some(Comparison::Less)
    } else if !better && worse {
        Some(Comparison::Greater)
    } else {
        None
    }
}

/// Orders two objective vectors by Pareto domination: `Less` means that the first dominates
/// the second (it is better somewhere and worse nowhere), `Greater` the reverse, `Equal` that
/// they are equal, and `None` that they are incomparable or of different lengths.
///
/// `comparisons[i]` is how the `i`-th values compare, for vectors of equal length.
pub fn pareto_order(own_len: usize, other_len: usize, comparisons: &[Comparison]) -> (r: Option<
    Comparison,
>)
    requires
        own_len == other_len ==> comparisons.len() == own_len,
    ensures
        r == pareto(own_len, other_len, comparisons@),
        own_len != other_len ==> r is None,
        own_len == other_len ==> (r == Some(Comparison::Equal) <==> forall|i: int|
            0 <= i < comparisons@.len() ==> #[trigger] comparisons@[i] == Comparison::Equal),
        forall|i: int|
            0 <= i < comparisons@.len() && #[trigger] comparisons@[i] == Comparison::Greater ==> r
                != Some(Comparison::Less) && r != Some(Comparison::Equal),
        forall|i: int|
            0 <= i < comparisons@.len() && #[trigger] comparisons@[i] == Comparison::Less ==> r
                != Some(Comparison::Greater) && r != Some(Comparison::Equal),
        r == Some(Comparison::Less) ==> forall|i: int|
            0 <= i < comparisons@.len() ==> #[trigger] comparisons@[i] != Comparison::Greater,
        r == Some(Comparison::Greater) ==> forall|i: int|
            0 <= i < comparisons@.len() ==> #[trigger] comparisons@[i] != Comparison::Less,
{
    if own_len != other_len {
        return None;
    }
    let mut has_better = false;
    let mut has_worse = false;
    let mut i: usize = 0;
    while i < comparisons.len()
        invariant
            i <= comparisons.len(),
            has_better <==> exists|j: int| 0 <= j < i && comparisons@[j] == Comparison::Less,
            has_worse <==> exists|j: int| 0 <= j < i && comparisons@[j] == Comparison::Greater,
        decreases comparisons.len() - i,
    {
        match comparisons[i] {
            Comparison::Less => {
                has_better = true;
            },
            Comparison::Greater => {
                has_worse = true;
            },
            Comparison::Equal => {},
        }
        i = i + 1;
    }
    proof {
        law_pareto_by_positions(own_len, other_len, comparisons@);
    }
    if !has_better && !has_worse {
        Some(Comparison::Equal)
    } else if has_better && !has_worse {
        Some(Comparison::Less)
    } else if !has_better && has_worse {
        Some(Comparison::Greater)
    } else {
        None
    }
}

/// The Pareto order of vectors of equal length looks at every position: they are equal exactly
/// when every position is equal; a position where the first is worse rules out that it
/// dominates or equals the second, and a position where it is better rules out the reverse;
/// and where it dominates, it is worse nowhere, where it is dominated, better nowhere.
pub proof fn law_pareto_by_positions(own_len: usize, other_len: usize, comparisons: Seq<Comparison>)
    ensures
        own_len != other_len ==> pareto(own_len, other_len, comparisons) is None,
        own_len == other_len ==> (pareto(own_len, other_len, comparisons) == Some(Comparison::Equal)
            <==> forall|i: int|
            0 <= i < comparisons.len() ==> #[trigger] comparisons[i] == Comparison::Equal),
        forall|i: int|
            0 <= i < comparisons.len() && #[trigger] comparisons[i] == Comparison::Greater ==> pareto(
                own_len,
                other_len,
                comparisons,
            ) != Some(Comparison::Less) && pareto(own_len, other_len, comparisons) != Some(
                Comparison::Equal,
            ),
        forall|i: int|
            0 <= i < comparisons.len() && #[trigger] comparisons[i] == Comparison::Less ==> pareto(
                own_len,
                other_len,
                comparisons,
            ) != Some(Comparison::Greater) && pareto(own_len, other_len, comparisons) != Some(
                Comparison::Equal,
            ),
        pareto(own_len, other_len, comparisons) == Some(Comparison::Less) ==> forall|i: int|
            0 <= i < comparisons.len() ==> #[trigger] comparisons[i] != Comparison::Greater,
        pareto(own_len, other_len, comparisons) == Some(Comparison::Greater) ==> forall|i: int|
            0 <= i < comparisons.len() ==> #[trigger] comparisons[i] != Comparison::Less,
{
    if own_len == other_len {
        if forall|i: int| 0 <= i < comparisons.len() ==> #[trigger] comparisons[i] == Comparison::Equal {
            assert(!exists|i: int| 0 <= i < comparisons.len() && comparisons[i] == Comparison::Less);
            assert(!exists|i: int| 0 <= i < comparisons.len() && comparisons[i] == Comparison::Greater);
        } else {
            let i = choose|i: int| 0 <= i < comparisons.len() && comparisons[i] != Comparison::Equal;
            assert(comparisons[i] == Comparison::Less || comparisons[i] == Comparison::Greater);
        }
    }
}

/// Making one position of two equal vectors worse for the first makes the second dominate it,
/// and making it better makes the first dominate.
pub proof fn law_pareto_one_position_decides(n: usize, comparisons: Seq<Comparison>, i: int)
    requires
        comparisons.len() == n,
        0 <= i < n,
        pareto(n, n, comparisons) == Some(Comparison::Equal),
    ensures
        pareto(n, n, comparisons.update(i, Comparison::Greater)) == Some(Comparison::Greater),
        pareto(n, n, comparisons.update(i, Comparison::Less)) == Some(Comparison::Less),
{
    law_pareto_by_positions(n, n, comparisons);
    let g = comparisons.update(i, Comparison::Greater);
    let l = comparisons.update(i, Comparison::Less);
    assert(g[i] == Comparison::Greater);
    assert(l[i] == Comparison::Less);
    assert forall|j: int| 0 <= j < n implies #[trigger] g[j] != Comparison::Less by {
        if j != i {
            assert(g[j] == comparisons[j]);
        }
    }
    assert forall|j: int| 0 <= j < n implies #[trigger] l[j] != Comparison::Greater by {
        if j != i {
            assert(l[j] == comparisons[j]);
        }
    }
}

/// The comparisons of `comparisons` seen from the other side.
pub open spec fn flipped(comparisons: Seq<Comparison>) -> Seq<Comparison> {
    comparisons.map_values(
        |c: Comparison|
            match c {
                Comparison::Less => Comparison::Greater,
                Comparison::Equal => Comparison::Equal,
                Comparison::Greater => Comparison::Less,
            },
    )
}

/// Pareto domination is antisymmetric: swapping the vectors swaps `Less` and `Greater`.
pub proof fn law_pareto_antisymmetric(n: usize, comparisons: Seq<Comparison>)
    requires
        comparisons.len() == n,
    ensures
        pareto(n, n, flipped(comparisons)) == match pareto(n, n, comparisons) {
            Some(Comparison::Less) => Some(Comparison::Greater),
            Some(Comparison::Greater) => Some(Comparison::Less),
            other => other,
        },
{
    let f = flipped(comparisons);
    assert((exists|i: int| 0 <= i < f.len() && f[i] == Comparison::Less) <==> (exists|i: int|
        0 <= i < comparisons.len() && comparisons[i] == Comparison::Greater)) by {
        if exists|i: int| 0 <= i < f.len() && f[i] == Comparison::Less {
            let i = choose|i: int| 0 <= i < f.len() && f[i] == Comparison::Less;
            assert(comparisons[i] == Comparison::Greater);
        }
        if exists|i: int| 0 <= i < comparisons.len() && comparisons[i] == Comparison::Greater {
            let i = choose|i: int| 0 <= i < comparisons.len() && comparisons[i] == Comparison::Greater;
            assert(f[i] == Comparison::Less);
        }
    }
    assert((exists|i: int| 0 <= i < f.len() && f[i] == Comparison::Greater) <==> (exists|i: int|
        0 <= i < comparisons.len() && comparisons[i] == Comparison::Less)) by {
        if exists|i: int| 0 <= i < f.len() && f[i] == Comparison::Greater {
            let i = choose|i: int| 0 <= i < f.len() && f[i] == Comparison::Greater;
            assert(comparisons[i] == Comparison::Less);
        }
        if exists|i: int| 0 <= i < comparisons.len() && comparisons[i] == Comparison::Less {
            let i = choose|i: int| 0 <= i < comparisons.len() && comparisons[i] == Comparison::Less;
            assert(f[i] == Comparison::Greater);
        }
    }
}

/// The kind of a floating-point objective value, as far as its legality goes.
#[derive(Clone, Copy, Debug, PartialEq, Eq, Structural)]
pub enum ValueKind {
    /// A number or positive infinity.
    Legal,
    /// `NaN`
    NaN,
    /// `-Inf`
    NegativeInfinity,
}

/// Checks that objective values of the kinds `kinds` are legal: `NaN` anywhere is reported
/// first, then `-Inf` anywhere.
pub fn check_objective_values(kinds: &[ValueKind]) -> (r: Result<(), IllegalObjective>)
    ensures
        (exists|i: int| 0 <= i < kinds.len() && kinds@[i] == ValueKind::NaN) ==> r == Err::<
            (),
            IllegalObjective,
        >(IllegalObjective::NaN),
        !(exists|i: int| 0 <= i < kinds.len() && kinds@[i] == ValueKind::NaN) && (exists|i: int|
            0 <= i < kinds.len() && kinds@[i] == ValueKind::NegativeInfinity) ==> r == Err::<
            (),
            IllegalObjective,
        >(IllegalObjective::NegativeInfinity),
        (forall|i: int| 0 <= i < kinds.len() ==> kinds@[i] == ValueKind::Legal) ==> r is Ok,
{
    let mut i: usize = 0;
    while i < kinds.len()
        invariant
            i <= kinds.len(),
            forall|j: int| 0 <= j < i ==> kinds@[j] != ValueKind::NaN,
        decreases kinds.len() - i,
    {
        if kinds[i] == ValueKind::NaN {
            return Err(IllegalObjective::NaN);
        }
        i = i + 1;
    }
    let mut i: usize = 0;
    while i < kinds.len()
        invariant
            i <= kinds.len(),
            forall|j: int| 0 <= j < kinds.len() ==> kinds@[j] != ValueKind::NaN,
            forall|j: int| 0 <= j < i ==> kinds@[j] == ValueKind::Legal,
        decreases kinds.len() - i,
    {
        if kinds[i] == ValueKind::NegativeInfinity {
            return Err(IllegalObjective::NegativeInfinity);
        }
        i = i + 1;
    }
    Ok(())
}

} // verus!
