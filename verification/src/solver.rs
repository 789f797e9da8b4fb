//! Iteration control for the fixed-point flow solver.
//!
//! The solver's arithmetic is done by the caller. After each step the caller
//! reports how the new estimate relates to the previous one, and the guard
//! answers whether to go on, to accept the estimate, or to give up. The
//! guard is what bounds the iteration: it never answers "go on" more often
//! than its limit allows.

use vstd::prelude::*;

verus! {

/// The most steps the solver is allowed unless told otherwise.
pub const MAX_ITERATIONS: u32 = 100;

/// How the estimate of one step relates to the estimate before it.
#[derive(Clone, Copy, Debug, PartialEq, Eq, Structural)]
pub enum Progress {
    /// The relative change is below the tolerance.
    Settled,
    /// The relative change is at or above the tolerance.
    Moving,
    /// The estimate or the change is not a finite number.
    NotFinite,
}

/// The guard's answer after a step.
#[derive(Clone, Copy, Debug, PartialEq, Eq, Structural)]
pub enum Verdict {
    /// Take another step.
    Continue,
    /// The estimate is accepted.
    Converged,
    /// The iteration is abandoned: the limit is reached, or the estimate is
    /// not finite.
    DidNotConverge,
}

/// Why the solver returned no flow.
#[derive(Clone, Copy, Debug, PartialEq, Eq, Structural)]
pub enum SolveError {
    /// The iteration did not settle within the allowed number of steps.
    DidNotConverge,
}

/// Mathematical model of an [`IterationGuard`].
pub struct GuardModel {
    /// The most steps that may be reported.
    pub limit: nat,
    /// The steps reported while the guard was still running.
    pub taken: nat,
    /// The answer to the latest report; `Continue` before the first.
    pub verdict: Verdict,
}

impl GuardModel {
    /// No more steps have been counted than the limit allows, and a guard
    /// that still runs has steps left, unless it was given none.
    pub open spec fn wf(self) -> bool {
        &&& self.taken <= self.limit
        &&& self.verdict == Verdict::Continue ==> self.taken < self.limit || self.limit == 0
    }

    /// A fresh guard.
    pub open spec fn initial(limit: nat) -> Self {
        GuardModel { limit, taken: 0, verdict: Verdict::Continue }
    }

    /// The guard after one report. A guard that has stopped stays as it is.
    /// A running guard with no step left gives up; otherwise the step is
    /// counted, a settled estimate is accepted, one that is not finite is
    /// given up on, and a moving one goes on while steps are left.
    pub open spec fn observe(self, progress: Progress) -> Self {
        if self.verdict != Verdict::Continue {
            self
        } else if self.taken >= self.limit {
            GuardModel { verdict: Verdict::DidNotConverge, ..self }
        } else {
            GuardModel {
                taken: self.taken + 1,
                verdict: match progress {
                    Progress::Settled => Verdict::Converged,
                    Progress::NotFinite => Verdict::DidNotConverge,
                    Progress::Moving => if self.taken + 1 < self.limit {
                        Verdict::Continue
                    } else {
                        Verdict::DidNotConverge
                    },
                },
                ..self
            }
        }
    }

    /// The guard after a sequence of reports.
    pub open spec fn run(self, reports: Seq<Progress>) -> Self
        decreases reports.len(),
    {
        if reports.len() == 0 {
            self
        } else {
            self.run(reports.drop_last()).observe(reports.last())
        }
    }
}

/// Whether every report of a sequence says that the estimate still moves.
pub open spec fn all_moving(reports: Seq<Progress>) -> bool {
    forall|i: int| 0 <= i < reports.len() ==> #[trigger] reports[i] == Progress::Moving
}

/// What a finished solve returns for the guard's final answer: the estimate
/// is handed on only where the guard accepted it.
pub open spec fn solve_result(verdict: Verdict) -> Option<Result<(), SolveError>> {
    match verdict {
        Verdict::Continue => None,
        Verdict::Converged => Some(Ok(())),
        Verdict::DidNotConverge => Some(Err(SolveError::DidNotConverge)),
    }
}

/// Bounds the number of steps of an iteration.
pub struct IterationGuard {
    limit: u32,
    taken: u32,
    verdict: Verdict,
}

impl View for IterationGuard {
    type V = GuardModel;

    closed spec fn view(&self) -> GuardModel {
        GuardModel { limit: self.limit as nat, taken: self.taken as nat, verdict: self.verdict }
    }
}

impl IterationGuard {
    #[verifier::type_invariant]
    spec fn consistent(self) -> bool {
        self@.wf()
    }

    /// A guard that allows `limit` steps.
    pub fn new(limit: u32) -> (guard: Self)
        ensures
            guard@ == GuardModel::initial(limit as nat),
    {
        IterationGuard { limit, taken: 0, verdict: Verdict::Continue }
    }

    /// The most steps that may be reported.
    pub fn limit(&self) -> (limit: u32)
        ensures
            limit == self@.limit,
    {
        self.limit
    }

    /// The steps counted so far; never more than the limit.
    pub fn taken(&self) -> (taken: u32)
        ensures
            taken == self@.taken,
            taken <= self@.limit,
    {
        proof {
            use_type_invariant(self);
        }
        self.taken
    }

    /// The answer to the latest report; `Continue` before the first.
    pub fn verdict(&self) -> (verdict: Verdict)
        ensures
            verdict == self@.verdict,
    {
        self.verdict
    }

    /// Reports one step and returns the guard's answer.
    pub fn observe(&mut self, progress: Progress) -> (verdict: Verdict)
        ensures
            final(self)@ == old(self)@.observe(progress),
            verdict == final(self)@.verdict,
            final(self)@.wf(),
    {
        proof {
            use_type_invariant(&*self);
        }
        if self.verdict != Verdict::Continue {
            return self.verdict;
        }
        if self.taken >= self.limit {
            *self = IterationGuard {
                limit: self.limit,
                taken: self.taken,
                verdict: Verdict::DidNotConverge,
            };
            return Verdict::DidNotConverge;
        }
        let taken: u32 = self.taken + 1;
        let verdict = match progress {
            Progress::Settled => Verdict::Converged,
            Progress::NotFinite => Verdict::DidNotConverge,
            Progress::Moving => if taken < self.limit {
                Verdict::Continue
            } else {
                Verdict::DidNotConverge
            },
        };
        *self = IterationGuard { limit: self.limit, taken, verdict };
        verdict
    }

    /// What the solve returns once the guard has stopped: success where the
    /// estimate was accepted, the failure otherwise, nothing while the
    /// iteration still runs.
    pub fn outcome(&self) -> (result: Option<Result<(), SolveError>>)
        ensures
            result == solve_result(self@.verdict),
    {
        match self.verdict {
            Verdict::Continue => None,
            Verdict::Converged => Some(Ok(())),
            Verdict::DidNotConverge => Some(Err(SolveError::DidNotConverge)),
        }
    }
}

/// Every report keeps the guard consistent and its limit unchanged.
pub proof fn lemma_observe_keeps_wf(guard: GuardModel, progress: Progress)
    requires
        guard.wf(),
    ensures
        guard.observe(progress).wf(),
        guard.observe(progress).limit == guard.limit,
{
}

/// A guard that has stopped stays stopped with the same answer.
pub proof fn lemma_verdict_is_final(guard: GuardModel, reports: Seq<Progress>)
    requires
        guard.verdict != Verdict::Continue,
    ensures
        guard.run(reports) == guard,
    decreases reports.len(),
{
    if reports.len() > 0 {
        lemma_verdict_is_final(guard, reports.drop_last());
    }
}

/// Running over a sequence of reports is running over its first part and
/// then over the rest.
pub proof fn lemma_run_split(guard: GuardModel, first: Seq<Progress>, rest: Seq<Progress>)
    ensures
        guard.run(first + rest) == guard.run(first).run(rest),
    decreases rest.len(),
{
    if rest.len() == 0 {
        assert(first + rest =~= first);
    } else {
        lemma_run_split(guard, first, rest.drop_last());
        assert((first + rest).drop_last() =~= first + rest.drop_last());
        assert((first + rest).last() == rest.last());
    }
}

/// While the estimate keeps moving, the guard counts every step and goes on
/// until the limit is reached; at the limit it gives up.
pub proof fn lemma_moving_counts(limit: nat, reports: Seq<Progress>)
    requires
        all_moving(reports),
        reports.len() <= limit,
        limit > 0,
    ensures
        GuardModel::initial(limit).run(reports) == (GuardModel {
            limit,
            taken: reports.len(),
            verdict: if reports.len() < limit {
                Verdict::Continue
            } else {
                Verdict::DidNotConverge
            },
        }),
    decreases reports.len(),
{
    if reports.len() > 0 {
        assert(reports.last() == reports[reports.len() - 1]);
        assert(all_moving(reports.drop_last())) by {
            assert forall|i: int| 0 <= i < reports.drop_last().len() implies (
            #[trigger] reports.drop_last()[i]) == Progress::Moving by {
                assert(reports.drop_last()[i] == reports[i]);
            }
        }
        lemma_moving_counts(limit, reports.drop_last());
    }
}

/// The iteration is bounded: after as many reports as the limit allows, the
/// guard has stopped, whatever was reported.
pub proof fn lemma_stops_within_limit(limit: nat, reports: Seq<Progress>)
    requires
        reports.len() >= limit,
        reports.len() > 0,
    ensures
        GuardModel::initial(limit).run(reports).verdict != Verdict::Continue,
        GuardModel::initial(limit).run(reports).taken <= limit,
{
    lemma_running_has_counted(limit, reports);
}

/// A guard that still runs has counted every report made to it.
pub proof fn lemma_running_has_counted(limit: nat, reports: Seq<Progress>)
    ensures
        GuardModel::initial(limit).run(reports).wf(),
        GuardModel::initial(limit).run(reports).limit == limit,
        GuardModel::initial(limit).run(reports).verdict == Verdict::Continue ==> {
            &&& GuardModel::initial(limit).run(reports).taken == reports.len()
            &&& all_moving(reports)
            &&& reports.len() < limit || reports.len() == 0
        },
    decreases reports.len(),
{
    if reports.len() > 0 {
        let before = GuardModel::initial(limit).run(reports.drop_last());
        lemma_running_has_counted(limit, reports.drop_last());
        if before.observe(reports.last()).verdict == Verdict::Continue {
            assert(before.verdict == Verdict::Continue);
            assert forall|i: int| 0 <= i < reports.len() implies #[trigger] reports[i]
                == Progress::Moving by {
                if i < reports.len() - 1 {
                    assert(reports.drop_last()[i] == reports[i]);
                }
            }
        }
    }
}

/// An estimate that never settles is given up on exactly when the limit is
/// reached, not before and not after.
pub proof fn lemma_oscillation_gives_up(limit: nat, reports: Seq<Progress>)
    requires
        all_moving(reports),
        reports.len() >= limit,
        reports.len() > 0,
    ensures
        GuardModel::initial(limit).run(reports).verdict == Verdict::DidNotConverge,
{
    lemma_stops_within_limit(limit, reports);
    lemma_running_has_counted(limit, reports);
    lemma_never_accepts_moving(limit, reports);
}

/// An estimate is accepted only on a report that it has settled.
pub proof fn lemma_never_accepts_moving(limit: nat, reports: Seq<Progress>)
    requires
        forall|i: int| 0 <= i < reports.len() ==> #[trigger] reports[i] != Progress::Settled,
    ensures
        GuardModel::initial(limit).run(reports).verdict != Verdict::Converged,
    decreases reports.len(),
{
    if reports.len() > 0 {
        assert forall|i: int| 0 <= i < reports.drop_last().len() implies (
        #[trigger] reports.drop_last()[i]) != Progress::Settled by {
            assert(reports.drop_last()[i] == reports[i]);
        }
        lemma_never_accepts_moving(limit, reports.drop_last());
        assert(reports.last() == reports[reports.len() - 1]);
    }
}

/// The first report that the estimate has settled, made within the limit
/// after reports of movement only, is accepted at once.
pub proof fn lemma_settling_converges(limit: nat, moving: Seq<Progress>)
    requires
        all_moving(moving),
        moving.len() < limit,
    ensures
        GuardModel::initial(limit).run(moving.push(Progress::Settled)) == (GuardModel {
            limit,
            taken: moving.len() + 1,
            verdict: Verdict::Converged,
        }),
{
    lemma_moving_counts(limit, moving);
    assert(moving.push(Progress::Settled).drop_last() =~= moving);
}

/// The first report of an estimate that is not finite, made within the
/// limit after reports of movement only, ends the iteration at once.
pub proof fn lemma_not_finite_gives_up(limit: nat, moving: Seq<Progress>)
    requires
        all_moving(moving),
        moving.len() < limit,
    ensures
        GuardModel::initial(limit).run(moving.push(Progress::NotFinite)) == (GuardModel {
            limit,
            taken: moving.len() + 1,
            verdict: Verdict::DidNotConverge,
        }),
{
    lemma_moving_counts(limit, moving);
    assert(moving.push(Progress::NotFinite).drop_last() =~= moving);
}

} // verus!
