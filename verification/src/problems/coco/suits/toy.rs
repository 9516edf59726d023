//! The toy suite: six functions, one instance, and the dimensions 2 to 40.

use vstd::prelude::*;

use super::Suite;

verus! {

/// The base functions of the problems of the toy suite.
#[derive(Clone, Copy, Debug, PartialEq, Eq, Structural)]
pub enum ToyFunction {
    Sphere,
    Ellipsoid,
    Rastrigin,
    BuecheRastrigin,
    LinearSlope,
    Rosenbrock,
}

/// A problem of the toy suite: its base function, untransformed, with its function, instance
/// and dimension.
#[derive(Clone, Copy, Debug, PartialEq, Eq, Structural)]
pub struct ToyInstance {
    pub problem: ToyFunction,
    pub function: usize,
    pub instance: usize,
    pub dimension: usize,
}

/// The base function of the toy problem with function number `function`.
pub open spec fn toy_function(function: usize) -> ToyFunction {
    if function == 1 {
        ToyFunction::Sphere
    } else if function == 2 {
        ToyFunction::Ellipsoid
    } else if function == 3 {
        ToyFunction::Rastrigin
    } else if function == 4 {
        ToyFunction::BuecheRastrigin
    } else if function == 5 {
        ToyFunction::LinearSlope
    } else {
        ToyFunction::Rosenbrock
    }
}

/// The six functions of the toy suite have six different base functions: the function number
/// of a toy problem is told by its base function, in the order Sphere, Ellipsoid, Rastrigin,
/// Büche-Rastrigin, linear slope, Rosenbrock.
pub proof fn law_toy_functions_are_distinct(f: usize, g: usize)
    requires
        1 <= f <= 6,
        1 <= g <= 6,
    ensures
        toy_function(f) == toy_function(g) <==> f == g,
        toy_function(f) == ToyFunction::Sphere <==> f == 1,
        toy_function(f) == ToyFunction::Ellipsoid <==> f == 2,
        toy_function(f) == ToyFunction::Rastrigin <==> f == 3,
        toy_function(f) == ToyFunction::BuecheRastrigin <==> f == 4,
        toy_function(f) == ToyFunction::LinearSlope <==> f == 5,
        toy_function(f) == ToyFunction::Rosenbrock <==> f == 6,
{
}

/// Creates the toy suite: the functions 1 to 6, the single instance 1, and the dimensions 2, 3,
/// 5, 10, 20 and 40. Its problems are built by [`generator`].
pub fn new() -> (r: Suite)
    ensures
        r.spec_functions() == seq![1usize, 2, 3, 4, 5, 6],
        r.spec_instances() == seq![1usize],
        r.spec_dimensions() == seq![2usize, 3, 5, 10, 20, 40],
        r.spec_position() == 0,
{
    let functions: Vec<usize> = vec![1, 2, 3, 4, 5, 6];
    let instances: Vec<usize> = vec![1];
    let dimensions: Vec<usize> = vec![2, 3, 5, 10, 20, 40];
    proof {
        assert(functions@ =~= seq![1usize, 2, 3, 4, 5, 6]);
        assert(instances@ =~= seq![1usize]);
        assert(dimensions@ =~= seq![2usize, 3, 5, 10, 20, 40]);
    }
    Suite::new(functions, instances, dimensions)
}

/// Chooses the base function of the toy problem of the given function, instance and
/// dimension. The suite has the functions 1 to 6 and only the instance 1.
pub fn generator(function: usize, instance: usize, dimension: usize) -> (r: ToyInstance)
    requires
        instance == 1,
        1 <= function <= 6,
    ensures
        r.problem == toy_function(function),
        function == 1 ==> r.problem == ToyFunction::Sphere,
        function == 2 ==> r.problem == ToyFunction::Ellipsoid,
        function == 3 ==> r.problem == ToyFunction::Rastrigin,
        function == 4 ==> r.problem == ToyFunction::BuecheRastrigin,
        function == 5 ==> r.problem == ToyFunction::LinearSlope,
        function == 6 ==> r.problem == ToyFunction::Rosenbrock,
        r.function == function,
        r.instance == instance,
        r.dimension == dimension,
{
    let problem = match function {
        1 => ToyFunction::Sphere,
        2 => ToyFunction::Ellipsoid,
        3 => ToyFunction::Rastrigin,
        4 => ToyFunction::BuecheRastrigin,
        5 => ToyFunction::LinearSlope,
        _ => ToyFunction::Rosenbrock,
    };
    ToyInstance { problem, function, instance, dimension }
}

} // verus!
