use vstd::prelude::*;

use crate::model::{
    first_index, has_match, is_first_job, lemma_first_match_unique, opt_view, Job, Step,
    Workflow,
};
use crate::select::{missing_bound, range_end, range_start, SelectError};
use crate::text::str_eq;

verus! {

/// Which steps of a job to run.
#[derive(Debug)]
pub enum Selection {
    /// The first step with this name or id.
    Single(String),
    /// The inclusive range between two optional bounds (the whole job when
    /// both are absent).
    Range { from: Option<String>, to: Option<String> },
}

/// The identifier of a selection that addresses no step of `steps`, if any.
pub open spec fn sel_missing(steps: Seq<Step>, sel: Selection) -> Option<Seq<char>> {
    match sel {
        Selection::Single(id) => if has_match(steps, id@) {
            None
        } else {
            Some(id@)
        },
        Selection::Range { from, to } => missing_bound(steps, opt_view(from), opt_view(to)),
    }
}

/// The positions, in order, of the steps a selection picks.
pub open spec fn sel_indices(steps: Seq<Step>, sel: Selection) -> Seq<int> {
    match sel {
        Selection::Single(id) => seq![first_index(steps, id@)],
        Selection::Range { from, to } => {
            let s = range_start(steps, opt_view(from));
            let e = range_end(steps, opt_view(to));
            if s < e {
                Seq::new((e - s) as nat, |k: int| s + k)
            } else {
                Seq::empty()
            }
        },
    }
}

/// The same positions, as machine integers.
pub open spec fn same_positions(v: Seq<usize>, s: Seq<int>) -> bool {
    v.len() == s.len() && forall|k: int| 0 <= k < v.len() ==> v[k] as int == #[trigger] s[k]
}

pub open spec fn pairs_view(v: Seq<(usize, usize)>) -> Seq<(int, int)> {
    v.map_values(|p: (usize, usize)| (p.0 as int, p.1 as int))
}

fn as_str_opt(o: &Option<String>) -> (r: Option<&str>)
    ensures
        crate::select::opt_str_view(r) == opt_view(*o),
{
    match o {
        Some(s) => Some(s.as_str()),
        None => None,
    }
}

impl Job {
    /// The positions of the steps that `sel` picks, or the identifier that
    /// addresses no step.
    pub fn select_indices(&self, sel: &Selection) -> (r: Result<Vec<usize>, SelectError>)
        ensures
            match r {
                Ok(v) => sel_missing(self.steps@, *sel) is None && same_positions(v@, sel_indices(self.steps@, *sel)),
                Err(SelectError::StepNotFound(id)) => sel_missing(self.steps@, *sel) == Some(
                    id@,
                ),
            },
    {
        match sel {
            Selection::Single(id) => match self.find_step_index(id.as_str()) {
                Some(i) => {
                    proof {
                        lemma_first_match_unique(self.steps@, id@, i as int);
                    }
                    let v = vec![i];
                    assert(same_positions(v@, sel_indices(self.steps@, *sel)));
                    Ok(v)
                },
                None => Err(SelectError::StepNotFound(id.clone())),
            },
            Selection::Range { from, to } => {
                let n = self.steps.len();
                let (start, end) = match self.range_bounds(as_str_opt(from), as_str_opt(to)) {
                    Ok(b) => b,
                    Err(e) => {
                        return Err(e);
                    },
                };
                let mut v: Vec<usize> = Vec::new();
                let mut i: usize = start;
                while i < end
                    invariant
                        start <= end ==> start <= i <= end,
                        start > end ==> i == start,
                        end <= n,
                        v@.len() == i - start,
                        forall|k: int| 0 <= k < v@.len() ==> #[trigger] v@[k] == start + k,
                    decreases end - i,
                {
                    v.push(i);
                    i = i + 1;
                }
                assert(same_positions(v@, sel_indices(self.steps@, *sel)));
                Ok(v)
            },
        }
    }
}

} // verus!

verus! {

/// Why a run could not be planned.
#[derive(Debug, PartialEq, Eq)]
pub enum PlanError {
    /// No job has this name.
    JobNotFound(String),
    /// The named job has no step addressed by this identifier.
    StepNotFound { job: String, step: String },
}

/// The position of the first job called `n` (only meaningful when there is one).
pub open spec fn first_job(jobs: Seq<(String, Job)>, n: Seq<char>) -> int {
    choose|i: int| is_first_job(jobs, n, i)
}

/// Some job is called `n`.
pub open spec fn has_job(jobs: Seq<(String, Job)>, n: Seq<char>) -> bool {
    exists|i: int| is_first_job(jobs, n, i)
}

/// The jobs a run targets, by position: the first job with the given name,
/// or every job in order; `None` when no job has that name.
pub open spec fn target_jobs(jobs: Seq<(String, Job)>, job: Option<Seq<char>>) -> Option<Seq<int>> {
    match job {
        Some(n) => if has_job(jobs, n) {
            Some(seq![first_job(jobs, n)])
        } else {
            None
        },
        None => Some(Seq::new(jobs.len(), |i: int| i)),
    }
}

/// The first targeted job (in order) whose selection addresses no step,
/// with the identifier that is missing.
pub open spec fn plan_missing(jobs: Seq<(String, Job)>, t: Seq<int>, sel: Selection) -> Option<
    (int, Seq<char>),
>
    decreases t.len(),
{
    if t.len() == 0 {
        None
    } else {
        match plan_missing(jobs, t.drop_last(), sel) {
            Some(p) => Some(p),
            None => match sel_missing(jobs[t.last()].1.steps@, sel) {
                Some(id) => Some((t.last(), id)),
                None => None,
            },
        }
    }
}

/// The (job, step) positions a run executes, job after job, each job's
/// steps in the order the selection gives.
pub open spec fn plan_items(jobs: Seq<(String, Job)>, t: Seq<int>, sel: Selection) -> Seq<
    (int, int),
>
    decreases t.len(),
{
    if t.len() == 0 {
        Seq::empty()
    } else {
        let idx = sel_indices(jobs[t.last()].1.steps@, sel);
        plan_items(jobs, t.drop_last(), sel) + Seq::new(idx.len(), |k: int| (t.last(), idx[k]))
    }
}

/// The same pairs of positions, as machine integers.
pub open spec fn same_pairs(v: Seq<(usize, usize)>, s: Seq<(int, int)>) -> bool {
    v.len() == s.len() && forall|k: int|
        0 <= k < v.len() ==> (v[k].0 as int, v[k].1 as int) == #[trigger] s[k]
}

impl Workflow {
    /// The position of the first job called `name`.
    pub fn find_job_index(&self, name: &str) -> (r: Option<usize>)
        ensures
            match r {
                Some(i) => is_first_job(self.jobs@, name@, i as int),
                None => forall|i: int|
                    0 <= i < self.jobs@.len() ==> (#[trigger] self.jobs@[i]).0@ != name@,
            },
    {
        let mut i: usize = 0;
        while i < self.jobs.len()
            invariant
                0 <= i <= self.jobs@.len(),
                forall|j: int| 0 <= j < i ==> (#[trigger] self.jobs@[j]).0@ != name@,
            decreases self.jobs@.len() - i,
        {
            if str_eq(self.jobs[i].0.as_str(), name) {
                return Some(i);
            }
            i = i + 1;
        }
        None
    }

    /// Plans a run: the targeted jobs (the one named, or all of them), and
    /// in each the steps that `sel` picks. Every job and step identifier is
    /// checked before anything runs.
    pub fn plan_run(&self, job: Option<&str>, sel: &Selection) -> (r: Result<
        Vec<(usize, usize)>,
        PlanError,
    >)
        ensures
            match target_jobs(self.jobs@, crate::select::opt_str_view(job)) {
                None => r matches Err(PlanError::JobNotFound(n)) && n@ == job->0@,
                Some(t) => match plan_missing(self.jobs@, t, *sel) {
                    Some((j, id)) => r matches Err(PlanError::StepNotFound { job: jn, step: sn })
                        && jn@ == self.jobs@[j].0@ && sn@ == id,
                    None => r matches Ok(v) && same_pairs(v@, plan_items(self.jobs@, t, *sel)),
                },
            },
    {
        let ghost jobs = self.jobs@;
        let mut targets: Vec<usize> = Vec::new();
        let ghost t: Seq<int>;
        match job {
            Some(name) => match self.find_job_index(name) {
                Some(i) => {
                    targets.push(i);
                    proof {
                        assert(is_first_job(jobs, name@, i as int));
                        let c = first_job(jobs, name@);
                        if c < i {
                            assert(jobs[c].0@ != name@);
                        } else if i < c {
                            assert(jobs[i as int].0@ != name@);
                        }
                        t = seq![i as int];
                        assert(seq![c] =~= t);
                    }
                },
                None => {
                    return Err(PlanError::JobNotFound(name.to_string()));
                },
            },
            None => {
                let mut i: usize = 0;
                while i < self.jobs.len()
                    invariant
                        0 <= i <= jobs.len(),
                        jobs == self.jobs@,
                        targets@.len() == i,
                        forall|k: int| 0 <= k < i ==> #[trigger] targets@[k] == k,
                    decreases jobs.len() - i,
                {
                    targets.push(i);
                    i = i + 1;
                }
                proof {
                    t = Seq::new(jobs.len(), |i: int| i);
                }
            },
        }
        assert(target_jobs(jobs, crate::select::opt_str_view(job)) == Some(t));
        assert(forall|k: int| 0 <= k < t.len() ==> 0 <= #[trigger] t[k] < jobs.len());
        let mut items: Vec<(usize, usize)> = Vec::new();
        let mut k: usize = 0;
        while k < targets.len()
            invariant
                jobs == self.jobs@,
                target_jobs(jobs, crate::select::opt_str_view(job)) == Some(t),
                same_positions(targets@, t),
                forall|m: int| 0 <= m < t.len() ==> 0 <= #[trigger] t[m] < jobs.len(),
                0 <= k <= t.len(),
                plan_missing(jobs, t.subrange(0, k as int), *sel) is None,
                same_pairs(items@, plan_items(jobs, t.subrange(0, k as int), *sel)),
            decreases t.len() - k,
        {
            let j = targets[k];
            let ghost pre = t.subrange(0, k as int);
            let ghost cur = t.subrange(0, k + 1);
            assert(cur.drop_last() =~= pre);
            assert(cur.last() == j);
            match self.jobs[j].1.select_indices(sel) {
                Err(SelectError::StepNotFound(id)) => {
                    proof {
                        lemma_missing_prefix(jobs, t, *sel, k + 1);
                    }
                    return Err(PlanError::StepNotFound { job: self.jobs[j].0.clone(), step: id });
                },
                Ok(idx) => {
                    let ghost before = items@;
                    let mut m: usize = 0;
                    while m < idx.len()
                        invariant
                            0 <= m <= idx@.len(),
                            items@.len() == before.len() + m,
                            forall|q: int| 0 <= q < before.len() ==> #[trigger] items@[q] == before[q],
                            forall|q: int|
                                0 <= q < m ==> #[trigger] items@[before.len() + q] == (j, idx@[q]),
                        decreases idx@.len() - m,
                    {
                        items.push((j, idx[m]));
                        m = m + 1;
                    }
                    proof {
                        let sidx = sel_indices(jobs[j as int].1.steps@, *sel);
                        assert(plan_items(jobs, cur, *sel) == plan_items(jobs, pre, *sel) + Seq::new(
                            sidx.len(),
                            |q: int| (j as int, sidx[q]),
                        ));
                        assert forall|q: int| 0 <= q < items@.len() implies (
                            items@[q].0 as int,
                            items@[q].1 as int,
                        ) == #[trigger] plan_items(jobs, cur, *sel)[q] by {
                            if q >= before.len() {
                                let q2 = q - before.len();
                                assert(items@[before.len() + q2] == (j, idx@[q2]));
                            }
                        }
                    }
                },
            }
            k = k + 1;
        }
        assert(t.subrange(0, t.len() as int) =~= t);
        Ok(items)
    }
}

/// Where the selection of the last of the first `k` targets addresses no
/// step, and none before it failed, that job is the first that fails.
proof fn lemma_missing_prefix(jobs: Seq<(String, Job)>, t: Seq<int>, sel: Selection, k: int)
    requires
        1 <= k <= t.len(),
        plan_missing(jobs, t.subrange(0, k - 1), sel) is None,
        sel_missing(jobs[t[k - 1]].1.steps@, sel) is Some,
    ensures
        plan_missing(jobs, t, sel) == Some((t[k - 1], sel_missing(jobs[t[k - 1]].1.steps@, sel)->0)),
    decreases t.len(),
{
    assert(t.subrange(0, k).drop_last() =~= t.subrange(0, k - 1));
    if k < t.len() {
        assert(t.drop_last().subrange(0, k - 1) =~= t.subrange(0, k - 1));
        lemma_missing_prefix(jobs, t.drop_last(), sel, k);
    } else {
        assert(t.subrange(0, k) =~= t);
    }
}

} // verus!
