//! The BBOB suite: its functions, its instances by year, its dimensions, and the choice of
//! base function and random seed for each of its problems.

use vstd::prelude::*;

use super::Suite;

verus! {

/// The editions of the BBOB suite, which differ in their instances.
#[derive(Clone, Copy, Debug, PartialEq, Eq, Structural)]
pub enum Years {
    Y2009,
    Y2010,
    Y2012,
    Y2013,
    Y2015,
    Y2016,
    Y2017,
    Y2018,
}

impl Years {
    /// The year of the edition.
    pub open spec fn spec_year(self) -> u16 {
        match self {
            Years::Y2009 => 2009,
            Years::Y2010 => 2010,
            Years::Y2012 => 2012,
            Years::Y2013 => 2013,
            Years::Y2015 => 2015,
            Years::Y2016 => 2016,
            Years::Y2017 => 2017,
            Years::Y2018 => 2018,
        }
    }

    /// The year of the edition.
    pub fn year(&self) -> (r: u16)
        ensures
            r == self.spec_year(),
    {
        match self {
            Years::Y2009 => 2009,
            Years::Y2010 => 2010,
            Years::Y2012 => 2012,
            Years::Y2013 => 2013,
            Years::Y2015 => 2015,
            Years::Y2016 => 2016,
            Years::Y2017 => 2017,
            Years::Y2018 => 2018,
        }
    }
}

/// The numbers from `start` to `end`, both included, in increasing order.
pub open spec fn inclusive_range(start: usize, end: usize) -> Seq<usize> {
    if start <= end {
        Seq::new((end - start + 1) as nat, |k: int| (start + k) as usize)
    } else {
        Seq::empty()
    }
}

/// The numbers of the inclusive ranges `ranges` (pairs of start and end), one range after
/// the other.
pub open spec fn flattened(ranges: Seq<(usize, usize)>) -> Seq<usize>
    decreases ranges.len(),
{
    if ranges.len() == 0 {
        Seq::empty()
    } else {
        flattened(ranges.drop_last()) + inclusive_range(ranges.last().0, ranges.last().1)
    }
}

/// Lists the numbers of the inclusive ranges `ranges`, given as pairs of start and end, one
/// range after the other.
pub fn flatten_ranges(ranges: &[(usize, usize)]) -> (r: Vec<usize>)
    ensures
        r@ == flattened(ranges@),
{
    let mut list: Vec<usize> = Vec::new();
    let mut k: usize = 0;
    while k < ranges.len()
        invariant
            k <= ranges.len(),
            list@ == flattened(ranges@.take(k as int)),
        decreases ranges.len() - k,
    {
        let (start, end) = ranges[k];
        let ghost before = list@;
        if start <= end {
            let mut v: usize = start;
            loop
                invariant_except_break
                    start <= v <= end,
                    list@ == before + inclusive_range(start, end).take(v - start),
                ensures
                    list@ == before + inclusive_range(start, end),
                decreases end - v,
            {
                list.push(v);
                proof {
                    assert(inclusive_range(start, end).take(v - start + 1) =~= inclusive_range(
                        start,
                        end,
                    ).take(v - start).push(v));
                }
                if v == end {
                    proof {
                        assert(inclusive_range(start, end).take(end - start + 1) =~= inclusive_range(
                            start,
                            end,
                        ));
                    }
                    break;
                }
                v = v + 1;
            }
        } else {
            assert(list@ =~= before + inclusive_range(start, end));
        }
        proof {
            assert(ranges@.take(k + 1).drop_last() =~= ranges@.take(k as int));
            assert(list@ =~= flattened(ranges@.take(k + 1)));
        }
        k = k + 1;
    }
    proof {
        assert(ranges@.take(k as int) =~= ranges@);
    }
    list
}

/// The instance ranges of each edition of the suite.
pub open spec fn year_ranges(year: Years) -> Seq<(usize, usize)> {
    match year {
        Years::Y2009 => seq![(1, 5), (1, 5), (1, 5)],
        Years::Y2010 => seq![(1, 15)],
        Years::Y2012 => seq![(1, 5), (21, 30)],
        Years::Y2013 => seq![(1, 5), (31, 40)],
        Years::Y2015 => seq![(1, 5), (41, 50)],
        Years::Y2016 => seq![(1, 5), (51, 60)],
        Years::Y2017 => seq![(1, 5), (61, 70)],
        Years::Y2018 => seq![(1, 5), (71, 80)],
    }
}

/// The instances of an edition of the suite.
pub fn instances_by_year(year: Years) -> (r: Vec<usize>)
    ensures
        r@ == flattened(year_ranges(year)),
{
    let ranges: Vec<(usize, usize)> = match year {
        Years::Y2009 => vec![(1, 5), (1, 5), (1, 5)],
        Years::Y2010 => vec![(1, 15)],
        Years::Y2012 => vec![(1, 5), (21, 30)],
        Years::Y2013 => vec![(1, 5), (31, 40)],
        Years::Y2015 => vec![(1, 5), (41, 50)],
        Years::Y2016 => vec![(1, 5), (51, 60)],
        Years::Y2017 => vec![(1, 5), (61, 70)],
        Years::Y2018 => vec![(1, 5), (71, 80)],
    };
    proof {
        assert(ranges@ =~= year_ranges(year));
    }
    flatten_ranges(ranges.as_slice())
}

/// The dimensions of the suite.
pub open spec fn bbob_dimensions() -> Seq<usize> {
    seq![2, 3, 5, 10, 20, 40]
}

/// Creates the suite of an edition: its 24 functions, the instances of the edition and the
/// dimensions 2, 3, 5, 10, 20 and 40. Its problems are built by [`generator`].
pub fn new(year: Years) -> (r: Suite)
    ensures
        r.spec_functions() == inclusive_range(1, 24),
        r.spec_instances() == flattened(year_ranges(year)),
        r.spec_dimensions() == bbob_dimensions(),
        r.spec_position() == 0,
{
    let ranges: Vec<(usize, usize)> = vec![(1, 24)];
    let functions = flatten_ranges(ranges.as_slice());
    proof {
        let rs = seq![(1usize, 24usize)];
        assert(ranges@ =~= rs);
        assert(rs.drop_last() =~= Seq::<(usize, usize)>::empty());
        assert(flattened(rs.drop_last()) =~= Seq::<usize>::empty());
        assert(flattened(rs) =~= inclusive_range(1, 24));
    }
    let dimensions = vec![2, 3, 5, 10, 20, 40];
    proof {
        assert(dimensions@ =~= bbob_dimensions());
    }
    Suite::new(functions, instances_by_year(year), dimensions)
}

/// The base functions of the problems of the suite that are implemented.
#[derive(Clone, Copy, Debug, PartialEq, Eq, Structural)]
pub enum BbobFunction {
    Sphere,
    Ellipsoid,
    Rastrigin,
    BuecheRastrigin,
    LinearSlope,
}

/// What a problem of the suite is built from: its base function (with the transformations
/// that belong to it) and the seed of its random optimum.
#[derive(Clone, Copy, Debug, PartialEq, Eq, Structural)]
pub struct BbobProblem {
    pub function: BbobFunction,
    pub rseed: usize,
}

/// A problem of the suite, with its function, instance and dimension.
#[derive(Clone, Copy, Debug, PartialEq, Eq, Structural)]
pub struct Instance {
    pub problem: BbobProblem,
    pub function: usize,
    pub instance: usize,
    pub dimension: usize,
}

/// The base function of the problem with function number `function`.
pub open spec fn bbob_function(function: usize) -> BbobFunction {
    if function == 1 {
        BbobFunction::Sphere
    } else if function == 2 {
        BbobFunction::Ellipsoid
    } else if function == 3 {
        BbobFunction::Rastrigin
    } else if function == 4 {
        BbobFunction::BuecheRastrigin
    } else {
        BbobFunction::LinearSlope
    }
}

/// The seed of the random optimum of a problem: the Büche-Rastrigin function uses the seed of
/// function 3, every other function its own.
pub open spec fn bbob_rseed(function: usize, instance: usize) -> int {
    if function == 4 {
        3 + 10000 * instance
    } else {
        function + 10000 * instance
    }
}

/// Every problem of the suite gets the seed of its own function number, `function + 10000 *
/// instance`, except the Büche-Rastrigin function (4), which shares the seed of the Rastrigin
/// function (3); so two different functions share a seed exactly when they are 3 and 4, and
/// the five functions have five different base functions.
pub proof fn law_bbob_seeds_and_functions(f: usize, g: usize, instance: usize)
    requires
        1 <= f <= 5,
        1 <= g <= 5,
    ensures
        f != 4 ==> bbob_rseed(f, instance) == f + 10000 * instance,
        f == 4 ==> bbob_rseed(f, instance) == 3 + 10000 * instance,
        bbob_rseed(f, instance) == bbob_rseed(g, instance) <==> (f == g || (f == 3 && g == 4) || (
        f == 4 && g == 3)),
        bbob_function(f) == bbob_function(g) <==> f == g,
{
}

/// Chooses what the problem of the given function, instance and dimension is built from.
///
/// Only the first instance and the functions 1 to 5 are implemented.
pub fn generator(function: usize, instance: usize, dimension: usize) -> (r: Instance)
    requires
        instance == 1,
        1 <= function <= 5,
    ensures
        r.problem.function == bbob_function(function),
        r.problem.rseed == bbob_rseed(function, instance),
        function != 4 ==> r.problem.rseed == function + 10000 * instance,
        function == 4 ==> r.problem.rseed == 3 + 10000 * instance,
        function == 1 ==> r.problem.function == BbobFunction::Sphere,
        function == 2 ==> r.problem.function == BbobFunction::Ellipsoid,
        function == 3 ==> r.problem.function == BbobFunction::Rastrigin,
        function == 4 ==> r.problem.function == BbobFunction::BuecheRastrigin,
        function == 5 ==> r.problem.function == BbobFunction::LinearSlope,
        r.function == function,
        r.instance == instance,
        r.dimension == dimension,
{
    let rseed = function + 10000 * instance;
    let rseed_3 = 3 + 10000 * instance;
    let problem = match function {
        1 => BbobProblem { function: BbobFunction::Sphere, rseed },
        2 => BbobProblem { function: BbobFunction::Ellipsoid, rseed },
        3 => BbobProblem { function: BbobFunction::Rastrigin, rseed },
        4 => BbobProblem { function: BbobFunction::BuecheRastrigin, rseed: rseed_3 },
        _ => BbobProblem { function: BbobFunction::LinearSlope, rseed },
    };
    Instance { problem, function, instance, dimension }
}

} // verus!
