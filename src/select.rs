use vstd::prelude::*;

use crate::model::{
    first_index, has_match, is_first_job, is_first_match, lemma_first_match_unique, step_matches,
    Job, Step, Workflow,
};
use crate::text::str_eq;

verus! {

/// Why a step selection could not be made.
#[derive(Debug, PartialEq, Eq)]
pub enum SelectError {
    /// No step of the job is addressed by this identifier.
    StepNotFound(String),
}

/// The steps as plain values, seen through references.
pub open spec fn deref_steps(v: Seq<&Step>) -> Seq<Step> {
    v.map_values(|s: &Step| *s)
}

/// Where an inclusive range starts: at the first step that `from` addresses,
/// or at the first step.
pub open spec fn range_start(steps: Seq<Step>, from: Option<Seq<char>>) -> int {
    match from {
        Some(f) => first_index(steps, f),
        None => 0,
    }
}

/// Where an inclusive range ends (exclusive bound): just after the first step
/// that `to` addresses, or after the last step.
pub open spec fn range_end(steps: Seq<Step>, to: Option<Seq<char>>) -> int {
    match to {
        Some(t) => first_index(steps, t) + 1,
        None => steps.len() as int,
    }
}

/// The steps between the two bounds, in order; empty when `to` comes before
/// `from`.
pub open spec fn steps_in_range(
    steps: Seq<Step>,
    from: Option<Seq<char>>,
    to: Option<Seq<char>>,
) -> Seq<Step> {
    let s = range_start(steps, from);
    let e = range_end(steps, to);
    if s < e {
        steps.subrange(s, e)
    } else {
        Seq::empty()
    }
}

/// The first bound, `from` before `to`, that is given and addresses no step.
pub open spec fn missing_bound(
    steps: Seq<Step>,
    from: Option<Seq<char>>,
    to: Option<Seq<char>>,
) -> Option<Seq<char>> {
    if from matches Some(f) && !has_match(steps, f) {
        from
    } else if to matches Some(t) && !has_match(steps, t) {
        to
    } else {
        None
    }
}

pub open spec fn opt_str_view(o: Option<&str>) -> Option<Seq<char>> {
    match o {
        Some(s) => Some(s@),
        None => None,
    }
}

impl Job {
    /// The position of the first step that `ident` addresses.
    pub fn find_step_index(&self, ident: &str) -> (r: Option<usize>)
        ensures
            match r {
                Some(i) => is_first_match(self.steps@, ident@, i as int),
                None => !has_match(self.steps@, ident@),
            },
    {
        let mut i: usize = 0;
        while i < self.steps.len()
            invariant
                0 <= i <= self.steps@.len(),
                forall|j: int| 0 <= j < i ==> !step_matches(#[trigger] self.steps@[j], ident@),
            decreases self.steps@.len() - i,
        {
            if self.steps[i].is_addressed_by(ident) {
                return Some(i);
            }
            i = i + 1;
        }
        None
    }

    /// The first step whose name or id is `id_or_name`.
    pub fn get_step(&self, id_or_name: &str) -> (r: Option<&Step>)
        ensures
            match r {
                Some(s) => has_match(self.steps@, id_or_name@) && *s == self.steps@[first_index(
                    self.steps@,
                    id_or_name@,
                )],
                None => !has_match(self.steps@, id_or_name@),
            },
    {
        match self.find_step_index(id_or_name) {
            Some(i) => {
                proof {
                    lemma_first_match_unique(self.steps@, id_or_name@, i as int);
                }
                Some(&self.steps[i])
            },
            None => None,
        }
    }

    /// References to the steps from position `start` up to, not including, `end`.
    fn steps_between(&self, start: usize, end: usize) -> (r: Vec<&Step>)
        requires
            start <= end <= self.steps@.len(),
        ensures
            deref_steps(r@) == self.steps@.subrange(start as int, end as int),
    {
        let mut r: Vec<&Step> = Vec::new();
        let mut i: usize = start;
        while i < end
            invariant
                start <= i <= end <= self.steps@.len(),
                deref_steps(r@) == self.steps@.subrange(start as int, i as int),
            decreases end - i,
        {
            let ghost old_r = r;
            r.push(&self.steps[i]);
            proof {
                assert(r@ == old_r@.push(&self.steps@[i as int]));
                assert(deref_steps(old_r@).len() == old_r@.len());
                assert(deref_steps(r@).len() == r@.len());
                assert(deref_steps(r@).len() == i + 1 - start);
                assert forall|k: int| 0 <= k < i + 1 - start implies deref_steps(r@)[k]
                    == self.steps@.subrange(start as int, i + 1)[k] by {
                    if k < i - start {
                        assert(deref_steps(r@)[k] == deref_steps(old_r@)[k]);
                    }
                }
                assert(deref_steps(r@) =~= self.steps@.subrange(start as int, i + 1));
            }
            i = i + 1;
        }
        r
    }

    /// The first step that `id_or_name` addresses and every step after it;
    /// empty when no step is addressed.
    pub fn get_all_steps_since(&self, id_or_name: &str) -> (r: Vec<&Step>)
        ensures
            has_match(self.steps@, id_or_name@) ==> deref_steps(r@) == self.steps@.subrange(
                first_index(self.steps@, id_or_name@),
                self.steps@.len() as int,
            ),
            !has_match(self.steps@, id_or_name@) ==> r@.len() == 0,
    {
        match self.find_step_index(id_or_name) {
            Some(i) => {
                proof {
                    lemma_first_match_unique(self.steps@, id_or_name@, i as int);
                }
                self.steps_between(i, self.steps.len())
            },
            None => Vec::new(),
        }
    }

    /// The bounds of the inclusive range between `from` and `to`: its
    /// start, and the position just after its end.
    pub fn range_bounds(&self, from: Option<&str>, to: Option<&str>) -> (r: Result<
        (usize, usize),
        SelectError,
    >)
        ensures
            match r {
                Ok((s, e)) => missing_bound(self.steps@, opt_str_view(from), opt_str_view(to))
                    is None && s == range_start(self.steps@, opt_str_view(from)) && e == range_end(
                    self.steps@,
                    opt_str_view(to),
                ) && e <= self.steps@.len(),
                Err(SelectError::StepNotFound(id)) => missing_bound(
                    self.steps@,
                    opt_str_view(from),
                    opt_str_view(to),
                ) == Some(id@),
            },
    {
        let n = self.steps.len();
        let start: usize = match from {
            Some(f) => match self.find_step_index(f) {
                Some(i) => {
                    proof {
                        lemma_first_match_unique(self.steps@, f@, i as int);
                    }
                    i
                },
                None => {
                    return Err(SelectError::StepNotFound(f.to_string()));
                },
            },
            None => 0,
        };
        let end: usize = match to {
            Some(t) => match self.find_step_index(t) {
                Some(i) => {
                    proof {
                        lemma_first_match_unique(self.steps@, t@, i as int);
                    }
                    i + 1
                },
                None => {
                    return Err(SelectError::StepNotFound(t.to_string()));
                },
            },
            None => n,
        };
        Ok((start, end))
    }

    /// The inclusive range of steps from the first step that `from` addresses
    /// (or the first step) to the first step that `to` addresses (or the last
    /// step). A bound that addresses no step is an error; a `to` that comes
    /// before `from` gives no steps.
    pub fn get_steps_in_range(&self, from: Option<&str>, to: Option<&str>) -> (r: Result<
        Vec<&Step>,
        SelectError,
    >)
        ensures
            match r {
                Ok(v) => missing_bound(self.steps@, opt_str_view(from), opt_str_view(to)) is None
                    && deref_steps(v@) == steps_in_range(
                    self.steps@,
                    opt_str_view(from),
                    opt_str_view(to),
                ),
                Err(SelectError::StepNotFound(id)) => missing_bound(
                    self.steps@,
                    opt_str_view(from),
                    opt_str_view(to),
                ) == Some(id@),
            },
    {
        let (start, end) = match self.range_bounds(from, to) {
            Ok(b) => b,
            Err(e) => {
                return Err(e);
            },
        };
        if start < end {
            Ok(self.steps_between(start, end))
        } else {
            Ok(Vec::new())
        }
    }
}

impl Workflow {
    /// The job called `job_name`, compared exactly.
    pub fn get_job(&self, job_name: &str) -> (r: Option<&Job>)
        ensures
            match r {
                Some(j) => exists|i: int|
                    is_first_job(self.jobs@, job_name@, i) && *j == #[trigger] self.jobs@[i].1,
                None => forall|i: int|
                    0 <= i < self.jobs@.len() ==> (#[trigger] self.jobs@[i]).0@ != job_name@,
            },
    {
        let mut i: usize = 0;
        while i < self.jobs.len()
            invariant
                0 <= i <= self.jobs@.len(),
                forall|j: int| 0 <= j < i ==> (#[trigger] self.jobs@[j]).0@ != job_name@,
            decreases self.jobs@.len() - i,
        {
            if str_eq(self.jobs[i].0.as_str(), job_name) {
                assert(is_first_job(self.jobs@, job_name@, i as int));
                return Some(&self.jobs[i].1);
            }
            i = i + 1;
        }
        None
    }
}

} // verus!
