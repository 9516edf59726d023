//! Common custom state: counters, and the stack of populations that evolutionary
//! operators push to and pop from.

use vstd::prelude::*;

use crate::state::registry::{depth_of, lookup, stack_has, CustomState, TypeKey};
use crate::state::State;

verus! {

/// The key of the [`Iterations`] state.
pub const ITERATIONS_KEY: TypeKey = 1;

/// The key of the [`Evaluations`] state.
pub const EVALUATIONS_KEY: TypeKey = 2;

/// The key of the [`Populations`] state.
pub const POPULATIONS_KEY: TypeKey = 3;

/// The key of the [`ParetoFront`] state.
pub const PARETO_FRONT_KEY: TypeKey = 4;

/// The number of evaluations of the objective function.
#[derive(Clone, Copy, Debug, Default, PartialEq, Eq, Structural)]
pub struct Evaluations(pub u32);

/// The number of iterations performed by a loop.
#[derive(Clone, Copy, Debug, Default, PartialEq, Eq, Structural)]
pub struct Iterations(pub u32);

/// A stack of populations consisting of one or multiple individuals.
///
/// Components are allowed to freely push to and pop from the stack: initialization pushes a
/// newly generated population, selection pushes a subset of the top-most population,
/// generation modifies only the top population, and replacement merges the two top-most
/// populations. Applying different operations to different parts of a population is possible
/// by splitting it into several populations and rotating through them with
/// [`shift`](Self::shift).
pub struct Populations<I> {
    stack: Vec<Vec<I>>,
}

impl<I> View for Populations<I> {
    type V = Seq<Seq<I>>;

    /// The populations, bottom-most first.
    closed spec fn view(&self) -> Seq<Seq<I>> {
        self.stack@.map_values(|p: Vec<I>| p@)
    }
}

/// The stack `s` after the top-most `n` populations were rotated by one: the top-most
/// population moves below the other `n - 1`.
pub open spec fn shifted<I>(s: Seq<Seq<I>>, n: int) -> Seq<Seq<I>>
    recommends
        0 <= n <= s.len(),
{
    if n == 0 {
        s
    } else {
        s.take(s.len() - n).push(s.last()) + s.subrange(s.len() - n, s.len() - 1)
    }
}

/// The stack `s` after `k` shifts of its top-most `n` populations.
pub open spec fn shifted_times<I>(s: Seq<Seq<I>>, n: int, k: nat) -> Seq<Seq<I>>
    decreases k,
{
    if k == 0 {
        s
    } else {
        shifted(shifted_times(s, n, (k - 1) as nat), n)
    }
}

/// The top-most `n` populations of `s` after `k <= n` shifts: the `k` populations that were
/// on top now lie below the others, in their old order.
spec fn rotated<I>(s: Seq<Seq<I>>, n: int, k: int) -> Seq<Seq<I>> {
    let p = s.len() - n;
    s.take(p) + s.subrange(s.len() - k, s.len() as int) + s.subrange(p, s.len() - k)
}

proof fn lemma_shifted_times<I>(s: Seq<Seq<I>>, n: int, k: nat)
    requires
        0 < n <= s.len(),
        k <= n,
    ensures
        shifted_times(s, n, k) == rotated(s, n, k as int),
    decreases k,
{
    let p = s.len() - n;
    if k == 0 {
        assert(rotated(s, n, 0) =~= s);
    } else {
        lemma_shifted_times(s, n, (k - 1) as nat);
        let t = rotated(s, n, k - 1);
        assert(t.len() == s.len());
        assert(t.last() == s[s.len() - k]);
        assert(t.take(t.len() - n) =~= s.take(p));
        assert(t.subrange(t.len() - n, t.len() - 1) =~= s.subrange(s.len() - k + 1, s.len() as int)
            + s.subrange(p, s.len() - k));
        assert(shifted(t, n) =~= rotated(s, n, k as int));
    }
}

/// Shifting the top-most `n` populations `n` times restores the original order of the stack.
pub proof fn law_shift_cycle<I>(s: Seq<Seq<I>>, n: nat)
    requires
        n <= s.len(),
    ensures
        shifted_times(s, n as int, n) == s,
{
    if n > 0 {
        lemma_shifted_times(s, n as int, n);
        assert(rotated(s, n as int, n as int) =~= s);
    } else {
        assert(shifted_times(s, 0, 0) == s);
    }
}

/// A shift keeps the populations below the top-most `n` and the number of populations.
pub proof fn law_shift_keeps_rest<I>(s: Seq<Seq<I>>, n: int)
    requires
        0 <= n <= s.len(),
    ensures
        shifted(s, n).len() == s.len(),
        shifted(s, n).take(s.len() - n) == s.take(s.len() - n),
{
    if n > 0 {
        assert(shifted(s, n).take(s.len() - n) =~= s.take(s.len() - n));
    }
}

impl<I> Populations<I> {
    /// Constructs an empty stack of populations.
    pub fn new() -> (r: Self)
        ensures
            r@ == Seq::<Seq<I>>::empty(),
    {
        let r = Populations { stack: Vec::new() };
        proof {
            assert(r@ =~= Seq::<Seq<I>>::empty());
        }
        r
    }

    /// Returns the top-most population; the stack must not be empty.
    pub fn current(&self) -> (r: &[I])
        requires
            self@.len() > 0,
        ensures
            r@ == self@.last(),
    {
        match self.get_current() {
            Some(p) => p,
            None => vstd::pervasive::unreached(),
        }
    }

    /// Returns the top-most population, or `None` if the stack is empty.
    pub fn get_current(&self) -> (r: Option<&[I]>)
        ensures
            r is Some <==> self@.len() > 0,
            r matches Some(p) ==> p@ == self@.last(),
    {
        let n = self.stack.len();
        if n == 0 {
            None
        } else {
            Some(self.stack[n - 1].as_slice())
        }
    }

    /// Returns the top-most population mutably; the stack must not be empty.
    pub fn current_mut(&mut self) -> (r: &mut Vec<I>)
        requires
            old(self)@.len() > 0,
        ensures
            r@ == old(self)@.last(),
            final(self)@ == old(self)@.update(old(self)@.len() - 1, final(r)@),
    {
        match self.get_current_mut() {
            Some(p) => p,
            None => vstd::pervasive::unreached(),
        }
    }

    /// Returns the top-most population mutably, or `None` if the stack is empty.
    pub fn get_current_mut(&mut self) -> (r: Option<&mut Vec<I>>)
        ensures
            r is Some <==> old(self)@.len() > 0,
            r matches Some(p) ==> p@ == old(self)@.last() && final(self)@ == old(self)@.update(
                old(self)@.len() - 1,
                final(p)@,
            ),
            r is None ==> final(self)@ == old(self)@,
    {
        let ghost s0 = self.stack@;
        let r = self.stack.as_mut_slice().last_mut();
        proof {
            if s0.len() > 0 {
                let p = r->0;
                assert(s0.update(s0.len() - 1, *final(p)).map_values(|p: Vec<I>| p@) =~= old(
                    self,
                )@.update(old(self)@.len() - 1, final(p)@));
            }
        }
        r
    }

    /// Pushes a population on top of the stack.
    pub fn push(&mut self, population: Vec<I>)
        ensures
            final(self)@ == old(self)@.push(population@),
    {
        self.stack.push(population);
        proof {
            assert(self@ =~= old(self)@.push(population@));
        }
    }

    /// Pops the top-most population from the stack, which must not be empty.
    pub fn pop(&mut self) -> (r: Vec<I>)
        requires
            old(self)@.len() > 0,
        ensures
            r@ == old(self)@.last(),
            final(self)@ == old(self)@.drop_last(),
    {
        match self.try_pop() {
            Some(p) => p,
            None => vstd::pervasive::unreached(),
        }
    }

    /// Pops the top-most population from the stack, or returns `None` if it is empty.
    pub fn try_pop(&mut self) -> (r: Option<Vec<I>>)
        ensures
            r is Some <==> old(self)@.len() > 0,
            r matches Some(p) ==> p@ == old(self)@.last() && final(self)@ == old(
                self,
            )@.drop_last(),
            r is None ==> final(self)@ == old(self)@,
    {
        let r = self.stack.pop();
        proof {
            if old(self)@.len() > 0 {
                assert(self@ =~= old(self)@.drop_last());
            }
        }
        r
    }

    /// Peeks the population at `depth` from the top of the stack; there must be more than
    /// `depth` populations.
    pub fn peek(&self, depth: usize) -> (r: &[I])
        requires
            depth < self@.len(),
        ensures
            r@ == self@[self@.len() - 1 - depth],
    {
        match self.try_peek(depth) {
            Some(p) => p,
            None => vstd::pervasive::unreached(),
        }
    }

    /// Peeks the population at `depth` from the top of the stack, or returns `None` if there
    /// are at most `depth` populations on the stack.
    pub fn try_peek(&self, depth: usize) -> (r: Option<&[I]>)
        ensures
            r is Some <==> depth < self@.len(),
            r matches Some(p) ==> p@ == self@[self@.len() - 1 - depth],
    {
        let n = self.stack.len();
        if n == 0 || depth > n - 1 {
            None
        } else {
            Some(self.stack[n - 1 - depth].as_slice())
        }
    }

    /// Shifts the top-most `n` populations circularly: the top-most population moves below
    /// the other `n - 1`, which move up by one.
    ///
    /// Shifting `n` populations `n` times restores the original order.
    pub fn shift(&mut self, n: usize)
        requires
            n <= old(self)@.len(),
        ensures
            final(self)@ == shifted(old(self)@, n as int),
    {
        if n > 0 {
            let len = self.stack.len();
            let ghost s0 = self.stack@;
            let top = match self.stack.pop() {
                Some(p) => p,
                None => vstd::pervasive::unreached(),
            };
            self.stack.insert(len - n, top);
            proof {
                let s = old(self)@;
                assert(s.last() == s0[len - 1]@);
                assert(self@ =~= s.take(s.len() - n).push(s.last()) + s.subrange(
                    s.len() - n,
                    s.len() - 1,
                ));
            }
        }
    }

    /// Returns `true` if the stack contains no populations.
    pub fn is_empty(&self) -> (r: bool)
        ensures
            r == (self@.len() == 0),
    {
        self.stack.len() == 0
    }

    /// Returns the number of populations on the stack.
    pub fn len(&self) -> (r: usize)
        ensures
            r == self@.len(),
    {
        self.stack.len()
    }
}

impl<I> Default for Populations<I> {
    /// Constructs an empty stack of populations.
    fn default() -> (r: Self)
        ensures
            r@ == Seq::<Seq<I>>::empty(),
    {
        Self::new()
    }
}

/// The current approximation of the Pareto front of a problem with several objectives.
///
/// The front only grows through the non-dominated sorting of its users; it starts empty.
pub struct ParetoFront<I> {
    front: Vec<I>,
}

impl<I> View for ParetoFront<I> {
    type V = Seq<I>;

    closed spec fn view(&self) -> Seq<I> {
        self.front@
    }
}

impl<I> ParetoFront<I> {
    /// Constructs the state without any individuals.
    pub fn new() -> (r: Self)
        ensures
            r@ == Seq::<I>::empty(),
    {
        ParetoFront { front: Vec::new() }
    }

    /// Returns the current approximation of the Pareto front.
    pub fn front(&self) -> (r: &[I])
        ensures
            r@ == self@,
    {
        self.front.as_slice()
    }
}

impl<I> Default for ParetoFront<I> {
    /// Constructs the state without any individuals.
    fn default() -> (r: Self)
        ensures
            r@ == Seq::<I>::empty(),
    {
        Self::new()
    }
}

impl CustomState for Iterations {
    open spec fn spec_id() -> TypeKey {
        ITERATIONS_KEY
    }

    fn id() -> (r: TypeKey) {
        ITERATIONS_KEY
    }
}

impl CustomState for Evaluations {
    open spec fn spec_id() -> TypeKey {
        EVALUATIONS_KEY
    }

    fn id() -> (r: TypeKey) {
        EVALUATIONS_KEY
    }
}

impl<I> CustomState for Populations<I> {
    open spec fn spec_id() -> TypeKey {
        POPULATIONS_KEY
    }

    fn id() -> (r: TypeKey) {
        POPULATIONS_KEY
    }
}

impl<I> CustomState for ParetoFront<I> {
    open spec fn spec_id() -> TypeKey {
        PARETO_FRONT_KEY
    }

    fn id() -> (r: TypeKey) {
        PARETO_FRONT_KEY
    }
}

impl State<Iterations> {
    /// Returns the number of iterations of the top-most [`Iterations`] state, which must be
    /// present.
    pub fn iterations(&self) -> (r: u32)
        requires
            stack_has(self.spec_registry()@, ITERATIONS_KEY),
        ensures
            r == (lookup(self.spec_registry()@, ITERATIONS_KEY)->0).0,
    {
        self.registry().borrow(Iterations::id()).0
    }
}

impl State<Evaluations> {
    /// Returns the number of evaluations of the top-most [`Evaluations`] state, which must be
    /// present.
    pub fn evaluations(&self) -> (r: u32)
        requires
            stack_has(self.spec_registry()@, EVALUATIONS_KEY),
        ensures
            r == (lookup(self.spec_registry()@, EVALUATIONS_KEY)->0).0,
    {
        self.registry().borrow(Evaluations::id()).0
    }
}

impl<I> State<Populations<I>> {
    /// Returns the top-most [`Populations`] state, which must be present.
    pub fn populations(&self) -> (r: &Populations<I>)
        requires
            stack_has(self.spec_registry()@, POPULATIONS_KEY),
        ensures
            *r == lookup(self.spec_registry()@, POPULATIONS_KEY)->0,
    {
        self.registry().borrow(Populations::<I>::id())
    }

    /// Returns the top-most [`Populations`] state mutably; it must be present. What is written
    /// through the reference lands in the registry that held the state.
    pub fn populations_mut(&mut self) -> (r: &mut Populations<I>)
        requires
            stack_has(old(self).spec_registry()@, POPULATIONS_KEY),
        ensures
            ({
                let s = old(self).spec_registry()@;
                let d = depth_of(s, POPULATIONS_KEY)->0 as int;
                &&& *r == s[d][POPULATIONS_KEY]
                &&& final(self).spec_registry()@ == s.update(
                    d,
                    s[d].insert(POPULATIONS_KEY, *final(r)),
                )
            }),
    {
        self.registry_mut().borrow_mut(Populations::<I>::id())
    }
}

impl<I> State<ParetoFront<I>> {
    /// Returns the top-most [`ParetoFront`] state, which must be present.
    pub fn pareto_front(&self) -> (r: &ParetoFront<I>)
        requires
            stack_has(self.spec_registry()@, PARETO_FRONT_KEY),
        ensures
            *r == lookup(self.spec_registry()@, PARETO_FRONT_KEY)->0,
    {
        self.registry().borrow(ParetoFront::<I>::id())
    }

    /// Returns the top-most [`ParetoFront`] state mutably; it must be present. What is written
    /// through the reference lands in the registry that held the state.
    pub fn pareto_front_mut(&mut self) -> (r: &mut ParetoFront<I>)
        requires
            stack_has(old(self).spec_registry()@, PARETO_FRONT_KEY),
        ensures
            ({
                let s = old(self).spec_registry()@;
                let d = depth_of(s, PARETO_FRONT_KEY)->0 as int;
                &&& *r == s[d][PARETO_FRONT_KEY]
                &&& final(self).spec_registry()@ == s.update(
                    d,
                    s[d].insert(PARETO_FRONT_KEY, *final(r)),
                )
            }),
    {
        self.registry_mut().borrow_mut(ParetoFront::<I>::id())
    }
}

} // verus!
