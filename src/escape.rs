//! Bookkeeping of the escape-time evaluation `z <- z * z + c`, `z_0 = 0`.
//!
//! The evaluator counts iterations of the recurrence until the orbit leaves
//! the disc of radius 2 or the iteration cap is reached. The caller performs
//! each step of the recurrence and reports whether `|z|^2 > 4` after it.
use vstd::prelude::*;

verus! {

/// State of one escape-time evaluation.
#[derive(Debug, Clone, Copy, PartialEq, Eq, Structural)]
pub struct EscapeCounter {
    /// Steps performed so far.
    pub count: usize,
    /// The iteration cap.
    pub max_iter: usize,
    /// Whether the last step took the orbit past the escape bound.
    pub escaped: bool,
}

impl EscapeCounter {
    /// The counter is consistent: it never counts past the cap, and it only
    /// escapes on a step.
    pub open spec fn wf(self) -> bool {
        &&& self.count <= self.max_iter
        &&& self.escaped ==> self.count >= 1
    }

    /// The evaluation has halted, escaped or bounded.
    pub open spec fn done(self) -> bool {
        self.escaped || self.count == self.max_iter
    }

    /// The state before any step.
    pub open spec fn initial(max_iter: nat) -> EscapeCounter {
        EscapeCounter { count: 0, max_iter: max_iter as usize, escaped: false }
    }

    /// The state after one more step, which went past the bound iff `exceeded`.
    pub open spec fn stepped(self, exceeded: bool) -> EscapeCounter {
        EscapeCounter { count: (self.count + 1) as usize, max_iter: self.max_iter, escaped: exceeded }
    }

    /// Starts an evaluation capped at `max_iter` iterations.
    pub fn new(max_iter: usize) -> (c: Self)
        ensures
            c == Self::initial(max_iter as nat),
            c.wf(),
    {
        EscapeCounter { count: 0, max_iter, escaped: false }
    }

    /// Whether the evaluation has halted.
    pub fn is_done(&self) -> (r: bool)
        ensures
            r == self.done(),
    {
        self.escaped || self.count == self.max_iter
    }

    /// Records one step of the recurrence; `exceeded` tells whether the orbit's
    /// squared magnitude went past 4 on it.
    pub fn step(&mut self, exceeded: bool)
        requires
            old(self).wf(),
            !old(self).done(),
        ensures
            *final(self) == old(self).stepped(exceeded),
            final(self).wf(),
    {
        self.count = self.count + 1;
        self.escaped = exceeded;
    }

    /// The escape result: the step on which the orbit escaped (counting from
    /// 1), or the cap if it stayed bounded.
    pub fn result(&self) -> (r: usize)
        ensures
            r == self.count,
    {
        self.count
    }
}

/// The state reached from the start by reporting `steps` in order, the
/// reports after the evaluation has halted being ignored.
pub open spec fn run(max_iter: nat, steps: Seq<bool>) -> EscapeCounter
    decreases steps.len(),
{
    if steps.len() == 0 {
        EscapeCounter::initial(max_iter)
    } else {
        let before = run(max_iter, steps.drop_last());
        if before.done() {
            before
        } else {
            before.stepped(steps.last())
        }
    }
}

/// Every run is consistent, counts at most `max_iter` steps, and has halted
/// once `max_iter` steps were reported.
pub proof fn lemma_run_wf(max_iter: nat, steps: Seq<bool>)
    requires
        max_iter <= usize::MAX,
    ensures
        run(max_iter, steps).wf(),
        run(max_iter, steps).max_iter == max_iter,
        run(max_iter, steps).count <= steps.len(),
        !run(max_iter, steps).done() ==> run(max_iter, steps).count == steps.len(),
        steps.len() >= max_iter ==> run(max_iter, steps).done(),
    decreases steps.len(),
{
    if steps.len() > 0 {
        lemma_run_wf(max_iter, steps.drop_last());
    }
}

/// An orbit that never goes past the bound (the orbit of `c = 0` stays at 0)
/// halts bounded after exactly `max_iter` steps, with result `max_iter`.
pub proof fn lemma_never_escapes(max_iter: nat, steps: Seq<bool>)
    requires
        max_iter <= usize::MAX,
        steps.len() >= max_iter,
        forall|i: int| 0 <= i < steps.len() ==> !steps[i],
    ensures
        run(max_iter, steps).done(),
        !run(max_iter, steps).escaped,
        run(max_iter, steps).count == max_iter,
    decreases steps.len(),
{
    lemma_never_escapes_prefix(max_iter, steps);
    lemma_run_wf(max_iter, steps);
}

proof fn lemma_never_escapes_prefix(max_iter: nat, steps: Seq<bool>)
    requires
        max_iter <= usize::MAX,
        forall|i: int| 0 <= i < steps.len() ==> !steps[i],
    ensures
        !run(max_iter, steps).escaped,
        run(max_iter, steps).count == if steps.len() < max_iter {
            steps.len()
        } else {
            max_iter
        },
    decreases steps.len(),
{
    if steps.len() > 0 {
        let prefix = steps.drop_last();
        assert forall|i: int| 0 <= i < prefix.len() implies !prefix[i] by {
            assert(prefix[i] == steps[i]);
        }
        lemma_never_escapes_prefix(max_iter, prefix);
        lemma_run_wf(max_iter, prefix);
        assert(!steps.last());
    }
}

/// An orbit that goes past the bound on its first step (any `|c| > 2`)
/// escapes with result 1, whatever the later reports and whenever the cap is
/// at least 1.
pub proof fn lemma_escapes_first(max_iter: nat, steps: Seq<bool>)
    requires
        1 <= max_iter <= usize::MAX,
        steps.len() >= 1,
        steps[0],
    ensures
        run(max_iter, steps).done(),
        run(max_iter, steps).escaped,
        run(max_iter, steps).count == 1,
    decreases steps.len(),
{
    if steps.len() > 1 {
        assert(steps.drop_last()[0] == steps[0]);
        lemma_escapes_first(max_iter, steps.drop_last());
    } else {
        assert(steps.drop_last().len() == 0);
        assert(run(max_iter, steps.drop_last()) == EscapeCounter::initial(max_iter));
        assert(!EscapeCounter::initial(max_iter).done());
        assert(steps.last() == steps[0]);
    }
}

/// A cap of 0 gives the result 0 with no step performed.
pub proof fn lemma_zero_cap(steps: Seq<bool>)
    ensures
        run(0, steps) == EscapeCounter::initial(0),
        run(0, steps).done(),
    decreases steps.len(),
{
    if steps.len() > 0 {
        lemma_zero_cap(steps.drop_last());
    }
}

} // verus!
