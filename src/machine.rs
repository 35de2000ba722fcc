use vstd::prelude::*;

use crate::interp::{interpolated, Vars};
use crate::launch::{shell_of, Invocation, StepFailure};
use crate::model::{display_id, opt_view, Step, Workflow};
use crate::text::trimmed;

verus! {

/// How a launched step ended, as the caller observed it.
#[derive(Debug, PartialEq, Eq)]
pub enum Outcome {
    /// The command exited successfully.
    Success,
    /// The command exited unsuccessfully; its exit code, if it had one.
    Exited(Option<i32>),
    /// The shell could not be started.
    LaunchFailed(String),
    /// Reading output or changing directory failed.
    Io(String),
}

/// The step a run stopped at, and why.
#[derive(Debug, PartialEq, Eq)]
pub struct Failure {
    pub job: usize,
    pub step: usize,
    pub cause: StepFailure,
}

/// What the caller is to do next.
#[derive(Debug)]
pub enum Action {
    /// Launch this step, then report how it ended.
    Launch { job: usize, step: usize, invocation: Invocation },
    /// Every planned step succeeded.
    Completed,
    /// The run has failed; `failure` says where. Nothing more is launched.
    Halted,
}

/// A run over a plan of (job, step) positions, executed strictly in order
/// and stopped at the first step that does not succeed.
#[derive(Debug)]
pub struct Run {
    pub items: Vec<(usize, usize)>,
    /// How many planned steps have succeeded.
    pub next: usize,
    /// A step has been handed out and its outcome is not reported yet.
    pub awaiting: bool,
    pub failure: Option<Failure>,
}

/// The step a planned position refers to.
pub open spec fn step_at(w: Workflow, p: (usize, usize)) -> Step {
    w.jobs@[p.0 as int].1.steps@[p.1 as int]
}

/// Every planned position refers to a step of `w`.
pub open spec fn items_valid(items: Seq<(usize, usize)>, w: Workflow) -> bool {
    forall|k: int|
        0 <= k < items.len() ==> {
            &&& (#[trigger] items[k]).0 < w.jobs@.len()
            &&& items[k].1 < w.jobs@[items[k].0 as int].1.steps@.len()
        }
}

/// The failure an unsuccessful outcome stands for.
pub open spec fn cause_of(o: Outcome) -> StepFailure {
    match o {
        Outcome::Success => StepFailure::NonZeroExit(None),
        Outcome::Exited(c) => StepFailure::NonZeroExit(c),
        Outcome::LaunchFailed(m) => StepFailure::LaunchError(m),
        Outcome::Io(m) => StepFailure::IoError(m),
    }
}

/// One call of `advance` took the run from `before` to `after` and asked for `a`.
pub open spec fn advanced(
    before: Run,
    w: Workflow,
    scope: Seq<(String, String)>,
    ambient: Seq<(String, String)>,
    a: Action,
    after: Run,
) -> bool {
    if before.failure is Some {
        a is Halted && after == before
    } else if before.next == before.items@.len() {
        a is Completed && after == before
    } else {
        let p = before.items@[before.next as int];
        let st = step_at(w, p);
        &&& after.items == before.items
        &&& after.next == before.next
        &&& if st.run is None {
            &&& a is Halted
            &&& !after.awaiting
            &&& after.failure matches Some(f) && f.job == p.0 && f.step == p.1 && (
            f.cause matches StepFailure::NoRunCommand(id) && id@ == display_id(st))
        } else {
            &&& a matches Action::Launch { job, step, invocation } && job == p.0 && step == p.1
                && invocation.shell@ == shell_of(st) && invocation.command@ == trimmed(
                interpolated(st.run->0@, scope, ambient),
            ) && opt_view(invocation.working_directory) == opt_view(st.working_directory)
            &&& after.awaiting
            &&& after.failure is None
        }
    }
}

/// One call of `report` took the run from `before` to `after`.
pub open spec fn reported(before: Run, o: Outcome, after: Run) -> bool {
    let p = before.items@[before.next as int];
    &&& after.items == before.items
    &&& !after.awaiting
    &&& if o is Success {
        after.next == before.next + 1 && after.failure is None
    } else {
        &&& after.next == before.next
        &&& after.failure == Some(Failure { job: p.0, step: p.1, cause: cause_of(o) })
    }
}

impl Run {
    /// The run's consistency: it has not gone past its plan, and a step is
    /// only awaited while the run has not failed.
    pub open spec fn wf(&self, w: Workflow) -> bool {
        &&& items_valid(self.items@, w)
        &&& self.next <= self.items@.len()
        &&& self.awaiting ==> self.next < self.items@.len() && self.failure is None
    }

    /// A run that has executed nothing yet.
    pub fn new(items: Vec<(usize, usize)>) -> (r: Run)
        ensures
            r.items == items,
            r.next == 0,
            !r.awaiting,
            r.failure is None,
    {
        Run { items, next: 0, awaiting: false, failure: None }
    }

    /// Decides what to do next: launch the next planned step, or finish.
    /// A step without a `run` command fails the run without being launched.
    pub fn advance(&mut self, w: &Workflow, scope: &Vars, ambient: &Vars) -> (a: Action)
        requires
            old(self).wf(*w),
            !old(self).awaiting,
        ensures
            advanced(*old(self), *w, scope@, ambient@, a, *final(self)),
            final(self).wf(*w),
    {
        if self.failure.is_some() {
            return Action::Halted;
        }
        if self.next == self.items.len() {
            return Action::Completed;
        }
        let (j, s) = self.items[self.next];
        let step = &w.jobs[j].1.steps[s];
        match step.invocation(scope, ambient) {
            Err(cause) => {
                self.failure = Some(Failure { job: j, step: s, cause });
                Action::Halted
            },
            Ok(invocation) => {
                self.awaiting = true;
                Action::Launch { job: j, step: s, invocation }
            },
        }
    }

    /// Records how the launched step ended: success moves on to the next
    /// planned step; anything else fails the run there.
    pub fn report(&mut self, o: Outcome)
        requires
            old(self).awaiting,
            old(self).next < old(self).items@.len(),
            old(self).failure is None,
        ensures
            reported(*old(self), o, *final(self)),
    {
        self.awaiting = false;
        let n = self.items.len();
        assert(self.next < n);
        let (j, s) = self.items[self.next];
        match o {
            Outcome::Success => {
                self.next = self.next + 1;
            },
            Outcome::Exited(c) => {
                self.failure = Some(Failure { job: j, step: s, cause: StepFailure::NonZeroExit(c) });
            },
            Outcome::LaunchFailed(m) => {
                self.failure = Some(Failure { job: j, step: s, cause: StepFailure::LaunchError(m) });
            },
            Outcome::Io(m) => {
                self.failure = Some(Failure { job: j, step: s, cause: StepFailure::IoError(m) });
            },
        }
    }
}

/// Fail-fast: once a launched step is reported as not successful, the next
/// `advance` halts the run and changes nothing, so no later step (of this
/// job or of a later one) is ever launched.
pub proof fn lemma_fail_fast(
    r0: Run,
    o: Outcome,
    r1: Run,
    w: Workflow,
    scope: Seq<(String, String)>,
    ambient: Seq<(String, String)>,
    a: Action,
    r2: Run,
)
    requires
        r0.wf(w),
        r0.awaiting,
        !(o is Success),
        reported(r0, o, r1),
        advanced(r1, w, scope, ambient, a, r2),
    ensures
        a is Halted,
        r2 == r1,
        r2.next == r0.next,
        r2.failure is Some,
{
}

/// A halted run stays halted: every later `advance` halts again and leaves
/// the run as it is.
pub proof fn lemma_halted_stays(
    r1: Run,
    w: Workflow,
    scope: Seq<(String, String)>,
    ambient: Seq<(String, String)>,
    a: Action,
    r2: Run,
)
    requires
        r1.failure is Some,
        advanced(r1, w, scope, ambient, a, r2),
    ensures
        a is Halted,
        r2 == r1,
{
}

/// A run completes only when every planned step has succeeded, in order.
pub proof fn lemma_completed_only_after_all(
    r: Run,
    w: Workflow,
    scope: Seq<(String, String)>,
    ambient: Seq<(String, String)>,
    a: Action,
    r2: Run,
)
    requires
        advanced(r, w, scope, ambient, a, r2),
        a is Completed,
    ensures
        r.failure is None,
        r.next == r.items@.len(),
{
}

} // verus!
