use vstd::prelude::*;

verus! {

/// Where a run stands.
#[derive(Debug, Clone, Copy, PartialEq, Eq, Structural)]
pub enum Phase {
    /// Verifying the stage at this position.
    Verifying(usize),
    /// Applying the stage at this position.
    Applying(usize),
    /// Every stage was verified and every stage that asked for work applied.
    Finished,
    /// A stage failed; nothing more is run.
    Aborted,
}

/// What the runner is to do next.
#[derive(Debug, Clone, Copy, PartialEq, Eq, Structural)]
pub enum Action {
    Verify(usize),
    Apply(usize),
    Done,
    Abort,
}

/// What came of the last action.
#[derive(Debug, Clone, Copy, PartialEq, Eq, Structural)]
pub enum Event {
    /// The stage was verified; `true` when it needs work.
    Verified(bool),
    /// The stage was applied.
    Applied,
    /// The stage's verification or application failed.
    Failed,
}

/// The decisions of a run over an ordered list of stages: every stage is
/// verified first, in order, and only then are the stages that asked for work
/// applied, in the same order. The first failure ends the run.
pub struct Pipeline {
    count: usize,
    phase: Phase,
    needs: Vec<bool>,
}

/// The first position at or after `from` whose stage asked for work, or
/// `needs.len()` when there is none.
pub open spec fn next_needed(needs: Seq<bool>, from: int) -> int
    decreases needs.len() - from,
{
    if from >= needs.len() || from < 0 {
        needs.len() as int
    } else if needs[from] {
        from
    } else {
        next_needed(needs, from + 1)
    }
}

/// The phase that follows once applying may start at `from`.
pub open spec fn applying_from(needs: Seq<bool>, from: int) -> Phase {
    let j = next_needed(needs, from);
    if j < needs.len() {
        Phase::Applying(j as usize)
    } else {
        Phase::Finished
    }
}

/// The action a phase calls for.
pub open spec fn action_of(phase: Phase) -> Action {
    match phase {
        Phase::Verifying(i) => Action::Verify(i),
        Phase::Applying(i) => Action::Apply(i),
        Phase::Finished => Action::Done,
        Phase::Aborted => Action::Abort,
    }
}

/// The phase after `event` in `phase`, with `needs` the verdicts so far and
/// `count` the number of stages.
pub open spec fn next_phase(count: nat, phase: Phase, needs: Seq<bool>, event: Event) -> Phase {
    match (phase, event) {
        (Phase::Verifying(_), Event::Failed) => Phase::Aborted,
        (Phase::Applying(_), Event::Failed) => Phase::Aborted,
        (Phase::Verifying(i), Event::Verified(b)) => if i + 1 < count {
            Phase::Verifying((i + 1) as usize)
        } else {
            applying_from(needs.push(b), 0)
        },
        (Phase::Applying(i), Event::Applied) => applying_from(needs, i + 1),
        _ => phase,
    }
}

proof fn lemma_next_needed(needs: Seq<bool>, from: int)
    requires
        0 <= from <= needs.len(),
    ensures
        from <= next_needed(needs, from) <= needs.len(),
        next_needed(needs, from) < needs.len() ==> needs[next_needed(needs, from)],
        forall|k: int| from <= k < next_needed(needs, from) ==> !needs[k],
    decreases needs.len() - from,
{
    if from < needs.len() && !needs[from] {
        lemma_next_needed(needs, from + 1);
    }
}

/// A stage is applied only once every stage has been verified, and only if
/// its own verification asked for work.
pub proof fn lemma_apply_only_needed(p: Pipeline)
    requires
        p.wf(),
    ensures
        action_of(p.phase()) matches Action::Apply(i) ==> p.needs().len() == p.count()
            && p.needs()[i as int],
{
}

/// A failed verification ends the run: the run is aborted, stays aborted
/// whatever comes after, and applying can only begin from the last stage's
/// successful verification, or go on from an earlier application.
pub proof fn lemma_failure_aborts(p: Pipeline, e: Event)
    requires
        p.wf(),
    ensures
        p.phase() is Verifying ==> next_phase(p.count(), p.phase(), p.needs(), Event::Failed) == Phase::Aborted,
        next_phase(p.count(), Phase::Aborted, p.needs(), e) == Phase::Aborted,
        action_of(Phase::Aborted) == Action::Abort,
        next_phase(p.count(), p.phase(), p.needs(), e) is Applying ==> p.phase() is Applying
            || (p.phase() == Phase::Verifying((p.count() - 1) as usize) && e is Verified),
{
}

impl Pipeline {
    pub closed spec fn count(&self) -> nat {
        self.count as nat
    }

    pub closed spec fn phase(&self) -> Phase {
        self.phase
    }

    /// The verdicts of the stages verified so far, in order.
    pub closed spec fn needs(&self) -> Seq<bool> {
        self.needs@
    }

    /// While verifying stage `i`, the verdicts of the stages before it are
    /// known; once applying, every verdict is known and the stage being
    /// applied asked for work.
    pub open spec fn wf(&self) -> bool {
        match self.phase() {
            Phase::Verifying(i) => i < self.count() && self.needs().len() == i,
            Phase::Applying(i) => self.needs().len() == self.count() && i < self.count()
                && self.needs()[i as int],
            Phase::Finished => self.needs().len() == self.count(),
            Phase::Aborted => true,
        }
    }

    /// A run over `count` stages: the first is verified first; with no stage
    /// the run is finished at once.
    pub fn new(count: usize) -> (r: Self)
        ensures
            r.wf(),
            r.count() == count,
            r.needs() == Seq::<bool>::empty(),
            r.phase() == if count > 0 { Phase::Verifying(0) } else { Phase::Finished },
    {
        let phase = if count > 0 { Phase::Verifying(0) } else { Phase::Finished };
        Pipeline { count, phase, needs: Vec::new() }
    }

    /// Where the run stands.
    pub fn phase_now(&self) -> (r: Phase)
        ensures
            r == self.phase(),
    {
        self.phase
    }

    /// What the runner is to do next.
    pub fn next_action(&self) -> (r: Action)
        requires
            self.wf(),
        ensures
            r == action_of(self.phase()),
            r matches Action::Apply(i) ==> i < self.count() && self.needs()[i as int],
            r matches Action::Verify(i) ==> i < self.count() && self.needs().len() == i,
    {
        match self.phase {
            Phase::Verifying(i) => Action::Verify(i),
            Phase::Applying(i) => Action::Apply(i),
            Phase::Finished => Action::Done,
            Phase::Aborted => Action::Abort,
        }
    }

    fn applying_from(&self, from: usize) -> (r: Phase)
        requires
            from <= self.needs@.len(),
        ensures
            r == applying_from(self.needs@, from as int),
    {
        let mut j: usize = from;
        while j < self.needs.len() && !self.needs[j]
            invariant
                from <= j <= self.needs@.len(),
                next_needed(self.needs@, from as int) == next_needed(self.needs@, j as int),
            decreases self.needs.len() - j,
        {
            j = j + 1;
        }
        if j < self.needs.len() {
            Phase::Applying(j)
        } else {
            Phase::Finished
        }
    }

    /// Take in what came of the last action.
    pub fn step(&mut self, event: Event)
        requires
            old(self).wf(),
        ensures
            final(self).wf(),
            final(self).count() == old(self).count(),
            final(self).phase() == next_phase(old(self).count(), old(self).phase(), old(self).needs(), event),
            final(self).needs() == match (old(self).phase(), event) {
                (Phase::Verifying(_), Event::Verified(b)) => old(self).needs().push(b),
                _ => old(self).needs(),
            },
    {
        match (self.phase, event) {
            (Phase::Verifying(_), Event::Failed) => {
                self.phase = Phase::Aborted;
            },
            (Phase::Applying(_), Event::Failed) => {
                self.phase = Phase::Aborted;
            },
            (Phase::Verifying(i), Event::Verified(b)) => {
                self.needs.push(b);
                if i + 1 < self.count {
                    self.phase = Phase::Verifying(i + 1);
                } else {
                    let p = self.applying_from(0);
                    proof {
                        lemma_next_needed(self.needs@, 0);
                    }
                    self.phase = p;
                }
            },
            (Phase::Applying(i), Event::Applied) => {
                let p = self.applying_from(i + 1);
                proof {
                    lemma_next_needed(self.needs@, i + 1);
                }
                self.phase = p;
            },
            _ => {},
        }
    }
}

} // verus!
