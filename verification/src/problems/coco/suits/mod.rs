//! Benchmark suites: the combinations of functions, instances and dimensions that a suite
//! visits, one after another.

use vstd::arithmetic::div_mod::lemma_fundamental_div_mod_converse;
use vstd::prelude::*;

pub mod bbob;
pub mod progress;
pub mod toy;

verus! {

/// The (function, instance, dimension) indices visited at position `p` of a suite with `f`
/// functions and `i` instances: instances vary fastest, then functions, then dimensions.
pub open spec fn index_triple(f: int, i: int, p: int) -> (int, int, int) {
    ((p / i) % f, p % i, p / (f * i))
}

/// The position at which a suite with `f` functions and `i` instances visits the function of
/// index `a`, the instance of index `b` and the dimension of index `c`.
pub open spec fn position(f: int, i: int, a: int, b: int, c: int) -> int {
    c * (f * i) + a * i + b
}

/// Position and index triple are inverse to each other.
proof fn lemma_position_indices(f: int, i: int, a: int, b: int, c: int)
    requires
        0 <= a < f,
        0 <= b < i,
        0 <= c,
    ensures
        index_triple(f, i, position(f, i, a, b, c)) == (a, b, c),
        0 <= position(f, i, a, b, c),
        position(f, i, a, b, c) < (c + 1) * (f * i),
{
    let p = position(f, i, a, b, c);
    assert(p == (c * f + a) * i + b) by (nonlinear_arith)
        requires
            p == c * (f * i) + a * i + b,
    ;
    assert(c * f + a >= 0) by (nonlinear_arith)
        requires
            c >= 0,
            f > 0,
            a >= 0,
    ;
    lemma_fundamental_div_mod_converse(p, i, c * f + a, b);
    lemma_fundamental_div_mod_converse(c * f + a, f, c, a);
    assert(a * i + b < f * i) by (nonlinear_arith)
        requires
            0 <= a < f,
            0 <= b < i,
    ;
    assert(a * i + b >= 0) by (nonlinear_arith)
        requires
            0 <= a,
            0 <= b,
            0 < i,
    ;
    assert(f * i > 0) by (nonlinear_arith)
        requires
            f > 0,
            i > 0,
    ;
    lemma_fundamental_div_mod_converse(p, f * i, c, a * i + b);
    assert(p < (c + 1) * (f * i)) by (nonlinear_arith)
        requires
            p == c * (f * i) + a * i + b,
            a * i + b < f * i,
    ;
    assert(p >= 0) by (nonlinear_arith)
        requires
            p == c * (f * i) + a * i + b,
            a * i + b >= 0,
            c >= 0,
            f * i > 0,
    ;
}

/// A suite of benchmark problems: it visits every combination of its functions, instances
/// and dimensions once, instances varying fastest, then functions, then dimensions.
pub struct Suite {
    functions: Vec<usize>,
    instances: Vec<usize>,
    dimensions: Vec<usize>,
    next: Cursor,
}

/// The indices of the function, instance and dimension that a suite visits next.
struct Cursor {
    function: usize,
    instance: usize,
    dimension: usize,
}

impl Suite {
    #[verifier::type_invariant]
    spec fn inv(self) -> bool {
        let f = self.functions@.len();
        let i = self.instances@.len();
        let d = self.dimensions@.len();
        if f == 0 || i == 0 || d == 0 {
            self.next.function == 0 && self.next.instance == 0 && self.next.dimension == 0
        } else {
            self.next.function < f && self.next.instance < i && self.next.dimension <= d
                && (self.next.dimension == d ==> self.next.function == 0 && self.next.instance
                == 0)
        }
    }

    /// The functions of the suite.
    pub closed spec fn spec_functions(&self) -> Seq<usize> {
        self.functions@
    }

    /// The instances of the suite.
    pub closed spec fn spec_instances(&self) -> Seq<usize> {
        self.instances@
    }

    /// The dimensions of the suite.
    pub closed spec fn spec_dimensions(&self) -> Seq<usize> {
        self.dimensions@
    }

    /// The number of combinations visited so far.
    pub closed spec fn spec_position(&self) -> int {
        position(
            self.functions@.len() as int,
            self.instances@.len() as int,
            self.next.function as int,
            self.next.instance as int,
            self.next.dimension as int,
        )
    }

    /// The number of combinations of functions, instances and dimensions.
    pub open spec fn spec_total(&self) -> int {
        (self.spec_functions().len() * self.spec_instances().len() * self.spec_dimensions().len()) as int
    }

    /// The (function, instance, dimension) that the suite visits at position `p`.
    pub open spec fn spec_entry_at(&self, p: int) -> (usize, usize, usize) {
        let (a, b, c) = index_triple(
            self.spec_functions().len() as int,
            self.spec_instances().len() as int,
            p,
        );
        (self.spec_functions()[a], self.spec_instances()[b], self.spec_dimensions()[c])
    }

    /// A suite is positioned somewhere from its first combination to just past its last.
    proof fn lemma_position_bounds(&self)
        requires
            self.inv(),
        ensures
            0 <= self.spec_position() <= self.spec_total(),
    {
        let f = self.functions@.len() as int;
        let i = self.instances@.len() as int;
        let d = self.dimensions@.len() as int;
        if f == 0 || i == 0 || d == 0 {
            assert(self.spec_total() == 0) by (nonlinear_arith)
                requires
                    f == 0 || i == 0 || d == 0,
                    self.spec_total() == f * i * d,
            ;
            assert(self.spec_position() == 0) by (nonlinear_arith)
                requires
                    self.spec_position() == 0 * (f * i) + 0 * i + 0,
            ;
        } else {
            let c = self.next.dimension as int;
            lemma_position_indices(f, i, self.next.function as int, self.next.instance as int, c);
            if c == d {
                assert(self.spec_position() == self.spec_total()) by (nonlinear_arith)
                    requires
                        self.spec_position() == c * (f * i) + 0 * i + 0,
                        c == d,
                        self.spec_total() == f * i * d,
                ;
            } else {
                assert((c + 1) * (f * i) <= f * i * d) by (nonlinear_arith)
                    requires
                        c + 1 <= d,
                        f * i > 0,
                ;
            }
        }
    }

    /// Creates a suite over the given functions, instances and dimensions, positioned at its
    /// first combination.
    pub fn new(functions: Vec<usize>, instances: Vec<usize>, dimensions: Vec<usize>) -> (r: Self)
        ensures
            r.spec_functions() == functions@,
            r.spec_instances() == instances@,
            r.spec_dimensions() == dimensions@,
            r.spec_position() == 0,
    {
        let r = Suite {
            functions,
            instances,
            dimensions,
            next: Cursor { function: 0, instance: 0, dimension: 0 },
        };
        proof {
            let f = r.functions@.len() as int;
            let i = r.instances@.len() as int;
            assert(position(f, i, 0, 0, 0) == 0) by (nonlinear_arith);
        }
        r
    }

    /// The functions of the suite.
    pub fn functions(&self) -> (r: &[usize])
        ensures
            r@ == self.spec_functions(),
    {
        self.functions.as_slice()
    }

    /// The instances of the suite.
    pub fn instances(&self) -> (r: &[usize])
        ensures
            r@ == self.spec_instances(),
    {
        self.instances.as_slice()
    }

    /// The dimensions of the suite.
    pub fn dimensions(&self) -> (r: &[usize])
        ensures
            r@ == self.spec_dimensions(),
    {
        self.dimensions.as_slice()
    }

    /// The number of combinations of functions, instances and dimensions.
    pub fn total_instances(&self) -> (r: usize)
        requires
            self.spec_total() <= usize::MAX,
        ensures
            r == self.spec_total(),
    {
        let f = self.functions.len();
        let i = self.instances.len();
        let d = self.dimensions.len();
        proof {
            assert(f * i <= f * i * d || d == 0) by (nonlinear_arith)
                requires
                    d >= 0,
                    f * i >= 0,
            ;
            if d == 0 {
                assert(f * i * d == 0) by (nonlinear_arith)
                    requires
                        d == 0,
                ;
            }
        }
        if d == 0 {
            proof {
                assert(f * i * d == 0) by (nonlinear_arith)
                    requires
                        d == 0,
                ;
            }
            return 0;
        }
        f * i * d
    }

    /// Visits the next combination of the suite: returns its (function, instance, dimension),
    /// or `None` once every combination was visited.
    pub fn next_instance(&mut self) -> (r: Option<(usize, usize, usize)>)
        ensures
            final(self).spec_functions() == old(self).spec_functions(),
            final(self).spec_instances() == old(self).spec_instances(),
            final(self).spec_dimensions() == old(self).spec_dimensions(),
            old(self).spec_position() < old(self).spec_total() ==> {
                &&& r == Some(old(self).spec_entry_at(old(self).spec_position()))
                &&& final(self).spec_position() == old(self).spec_position() + 1
            },
            old(self).spec_position() >= old(self).spec_total() ==> {
                &&& r is None
                &&& final(self).spec_position() == old(self).spec_position()
            },
    {
        proof {
            use_type_invariant(&*self);
            self.lemma_position_bounds();
        }
        let ghost f = self.functions@.len() as int;
        let ghost i = self.instances@.len() as int;
        let ghost d = self.dimensions@.len() as int;
        if self.next.function == self.functions.len() || self.next.instance == self.instances.len()
            || self.next.dimension == self.dimensions.len() {
            proof {
                if f == 0 || i == 0 || d == 0 {
                    assert(self.spec_total() == 0) by (nonlinear_arith)
                        requires
                            f == 0 || i == 0 || d == 0,
                            self.spec_total() == f * i * d,
                    ;
                } else {
                    assert(self.spec_position() == self.spec_total()) by (nonlinear_arith)
                        requires
                            self.spec_position() == d * (f * i) + 0 * i + 0,
                            self.spec_total() == f * i * d,
                    ;
                }
            }
            return None;
        }
        let ghost a = self.next.function as int;
        let ghost b = self.next.instance as int;
        let ghost c = self.next.dimension as int;
        let entry = (
            self.functions[self.next.function],
            self.instances[self.next.instance],
            self.dimensions[self.next.dimension],
        );
        proof {
            lemma_position_indices(f, i, a, b, c);
            assert((c + 1) * (f * i) <= f * i * d) by (nonlinear_arith)
                requires
                    c + 1 <= d,
                    f * i > 0,
            ;
        }
        let ghost p0 = old(self).spec_position();
        let mut next = Cursor {
            function: self.next.function,
            instance: self.next.instance + 1,
            dimension: self.next.dimension,
        };
        if next.instance == self.instances.len() {
            next.instance = 0;
            next.function = next.function + 1;
        }
        if next.function == self.functions.len() {
            next.function = 0;
            next.dimension = next.dimension + 1;
        }
        self.next = next;
        proof {
            assert(self.spec_position() == p0 + 1) by (nonlinear_arith)
                requires
                    p0 == c * (f * i) + a * i + b,
                    b + 1 < i ==> self.next.instance == b + 1 && self.next.function == a
                        && self.next.dimension == c,
                    b + 1 == i && a + 1 < f ==> self.next.instance == 0 && self.next.function
                        == a + 1 && self.next.dimension == c,
                    b + 1 == i && a + 1 == f ==> self.next.instance == 0 && self.next.function
                        == 0 && self.next.dimension == c + 1,
                    b + 1 <= i,
                    a + 1 <= f,
                    self.spec_position() == self.next.dimension * (f * i) + self.next.function
                        * i + self.next.instance,
            ;
        }
        Some(entry)
    }
}

/// Every combination of function, instance and dimension index is visited at exactly one
/// position of the suite before its end.
pub proof fn law_suite_visits_each_once(f: int, i: int, d: int, a: int, b: int, c: int, p: int)
    requires
        0 <= a < f,
        0 <= b < i,
        0 <= c < d,
        0 <= p < f * i * d,
    ensures
        0 <= position(f, i, a, b, c) < f * i * d,
        index_triple(f, i, position(f, i, a, b, c)) == (a, b, c),
        index_triple(f, i, p) == (a, b, c) ==> p == position(f, i, a, b, c),
{
    lemma_position_indices(f, i, a, b, c);
    assert((c + 1) * (f * i) <= f * i * d) by (nonlinear_arith)
        requires
            c + 1 <= d,
            f * i > 0,
    ;
    assert(f * i > 0) by (nonlinear_arith)
        requires
            f > 0,
            i > 0,
    ;
    if index_triple(f, i, p) == (a, b, c) {
        vstd::arithmetic::div_mod::lemma_fundamental_div_mod(p, i);
        vstd::arithmetic::div_mod::lemma_fundamental_div_mod(p / i, f);
        assert(p / i == f * (p / i / f) + (p / i) % f);
        assert(p / i / f == p / (f * i)) by {
            vstd::arithmetic::div_mod::lemma_div_denominator(p, i, f);
            vstd::arithmetic::mul::lemma_mul_is_commutative(i, f);
        }
        assert(p == position(f, i, a, b, c)) by (nonlinear_arith)
            requires
                p == i * (p / i) + b,
                p / i == f * c + a,
                position(f, i, a, b, c) == c * (f * i) + a * i + b,
        ;
    }
}

} // verus!
