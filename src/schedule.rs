use vstd::prelude::*;

verus! {

/// What a capped power iteration has done: `tests` holds, for each multiplication
/// made so far, whether the convergence test that followed it passed.
/// The run stops at the first passing test, or after `max_iter` multiplications.
pub open spec fn stops_at_first_pass(tests: Seq<bool>, max_iter: nat, converged: bool) -> bool {
    &&& tests.len() <= max_iter
    &&& forall|i: int| 0 <= i < tests.len() - 1 ==> !#[trigger] tests[i]
    &&& converged == (tests.len() > 0 && tests.last())
    &&& !converged ==> tests.len() == max_iter
}

/// Bookkeeping of a power iteration: how many multiplications were made and
/// whether the last convergence test passed.
pub struct Schedule {
    pub max_iter: usize,
    pub done: usize,
    pub converged: bool,
    pub tests: Ghost<Seq<bool>>,
}

impl Schedule {
    /// The counters agree with the test history, and no test but the last passed.
    pub open spec fn wf(&self) -> bool {
        &&& self.done == self.tests@.len()
        &&& self.done <= self.max_iter
        &&& forall|i: int| 0 <= i < self.tests@.len() - 1 ==> !#[trigger] self.tests@[i]
        &&& self.converged == (self.done > 0 && self.tests@.last())
    }

    /// No further multiplication is due.
    pub open spec fn finished(&self) -> bool {
        self.converged || self.done == self.max_iter
    }

    /// A schedule allowing at most `max_iter` multiplications, none made yet.
    pub fn new(max_iter: usize) -> (r: Schedule)
        ensures
            r.wf(),
            r.max_iter == max_iter,
            r.done == 0,
            !r.converged,
    {
        Schedule { max_iter, done: 0, converged: false, tests: Ghost(Seq::empty()) }
    }

    /// Whether the iteration has to stop.
    pub fn is_finished(&self) -> (r: bool)
        requires
            self.wf(),
        ensures
            r == self.finished(),
    {
        self.converged || self.done == self.max_iter
    }

    /// Records one multiplication, followed by a convergence test that passed or not.
    pub fn record(&mut self, passed: bool)
        requires
            old(self).wf(),
            !old(self).finished(),
        ensures
            final(self).wf(),
            final(self).max_iter == old(self).max_iter,
            final(self).done == old(self).done + 1,
            final(self).converged == passed,
            final(self).tests@ == old(self).tests@.push(passed),
    {
        self.tests = Ghost(self.tests@.push(passed));
        self.done = self.done + 1;
        self.converged = passed;
    }

    /// Once finished, the history is that of a run stopped at its first passing test.
    pub proof fn lemma_finished(&self)
        requires
            self.wf(),
            self.finished(),
        ensures
            stops_at_first_pass(self.tests@, self.max_iter as nat, self.converged),
    {
    }
}

/// A run allowed at least one multiplication makes at least one, and when the
/// first convergence test passes it stops right there, converged.
pub proof fn lemma_first_test_passes(tests: Seq<bool>, max_iter: nat, converged: bool)
    requires
        stops_at_first_pass(tests, max_iter, converged),
        max_iter >= 1,
    ensures
        tests.len() >= 1,
        tests[0] ==> tests.len() == 1 && converged,
{
}

/// A run in which no convergence test passes makes exactly `max_iter`
/// multiplications and does not report convergence; with `max_iter == 0` it makes none.
pub proof fn lemma_no_test_passes(tests: Seq<bool>, max_iter: nat, converged: bool)
    requires
        stops_at_first_pass(tests, max_iter, converged),
        forall|i: int| 0 <= i < tests.len() ==> !#[trigger] tests[i],
    ensures
        tests.len() == max_iter,
        !converged,
{
}

} // verus!
