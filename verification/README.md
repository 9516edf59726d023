# mahf

A framework for the modular construction of metaheuristics, written in Verus: every
function of the library carries a contract that the verifier proves.

- `src/state/`: the registries that components share state through (a stack of maps from
  state keys to values, where inner registries shadow outer ones), the entry API, the
  container state with its scoped substates, scoped access to one or several states at
  once, the population stack, the archive of elitists, the bests of a particle swarm,
  the counters and Pareto front, lenses and extractors.
- `src/problems/`: problems, individuals and their sequential or parallel evaluation,
  objective legality and Pareto order, permutations of inputs, the BBOB and toy benchmark
  suites with the progress of a suite's evaluation, and the greedy route and optimal-tour
  files of the travelling salesperson problem.
- `app/`: what works on floating point or with the operating system: objective values,
  benchmark functions and problems, diversity measures, the particle-swarm and
  chemical-reaction states, instances of the travelling salesperson problem, the random
  number generator, a thread pool that evaluates a suite, a terminal prompt, and the error
  types with their messages.
- `tests/`: tests of the library.

Laws that relate several operations are stated and proved as `law_*` proof functions next
to the operations they are about.
