//! The progress of a suite's evaluation: every run of every problem of the suite reports once,
//! and the evaluation ends when all have reported or at the first failure.

use vstd::prelude::*;

use crate::problems::coco::suits::Suite;

verus! {

/// What the evaluation of a suite does after a report.
#[derive(Clone, Copy, Debug, PartialEq, Eq, Structural)]
pub enum ProgressStep {
    /// Runs are still due: wait for the next report.
    Wait,
    /// Every run has reported: the evaluation is done.
    Done,
    /// A run failed: the evaluation stops with its error.
    Abort,
}

/// How many of the runs of a suite's evaluation have finished, out of how many are due.
pub struct SuiteProgress {
    finished: usize,
    total: usize,
}

impl SuiteProgress {
    /// The number of runs that have finished.
    pub closed spec fn spec_finished(&self) -> nat {
        self.finished as nat
    }

    /// The number of runs that are due.
    pub closed spec fn spec_total(&self) -> nat {
        self.total as nat
    }

    /// Starts an evaluation of `total` runs, none of them finished.
    pub fn new(total: usize) -> (r: Self)
        ensures
            r.spec_finished() == 0,
            r.spec_total() == total,
    {
        SuiteProgress { finished: 0, total }
    }

    /// Starts the evaluation of `runs` runs on each problem of `suite`.
    pub fn for_suite(suite: &Suite, runs: usize) -> (r: Self)
        requires
            suite.spec_total() * runs <= usize::MAX,
        ensures
            r.spec_finished() == 0,
            r.spec_total() == suite.spec_total() * runs,
    {
        proof {
            assert(suite.spec_total() <= suite.spec_total() * runs || runs == 0)
                by (nonlinear_arith)
                requires
                    suite.spec_total() >= 0,
                    runs >= 0,
            ;
            if runs == 0 {
                assert(suite.spec_total() * runs == 0) by (nonlinear_arith)
                    requires
                        runs == 0,
                ;
            }
        }
        let instances = if runs == 0 {
            0
        } else {
            suite.total_instances()
        };
        proof {
            if runs == 0 {
                assert(instances * runs == 0) by (nonlinear_arith)
                    requires
                        runs == 0,
                ;
            }
        }
        SuiteProgress::new(instances * runs)
    }

    /// The number of runs that have finished.
    pub fn finished(&self) -> (r: usize)
        ensures
            r == self.spec_finished(),
    {
        self.finished
    }

    /// The number of runs that are due.
    pub fn total(&self) -> (r: usize)
        ensures
            r == self.spec_total(),
    {
        self.total
    }

    /// Whether every run has finished.
    pub fn is_done(&self) -> (r: bool)
        ensures
            r == (self.spec_finished() >= self.spec_total()),
    {
        self.finished >= self.total
    }

    /// Takes the report of one run, `succeeded` saying whether it succeeded, while runs are
    /// still due. A success counts the run and gives [`Done`](ProgressStep::Done) once every
    /// run has finished, [`Wait`](ProgressStep::Wait) before; a failure counts nothing and
    /// gives [`Abort`](ProgressStep::Abort).
    pub fn report(&mut self, succeeded: bool) -> (r: ProgressStep)
        requires
            old(self).spec_finished() < old(self).spec_total(),
        ensures
            final(self).spec_total() == old(self).spec_total(),
            succeeded ==> final(self).spec_finished() == old(self).spec_finished() + 1,
            !succeeded ==> final(self).spec_finished() == old(self).spec_finished(),
            r == (if !succeeded {
                ProgressStep::Abort
            } else if final(self).spec_finished() >= final(self).spec_total() {
                ProgressStep::Done
            } else {
                ProgressStep::Wait
            }),
    {
        if !succeeded {
            return ProgressStep::Abort;
        }
        self.finished = self.finished + 1;
        if self.finished >= self.total {
            ProgressStep::Done
        } else {
            ProgressStep::Wait
        }
    }
}

} // verus!
