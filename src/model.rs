use vstd::prelude::*;

use crate::text::str_eq;

verus! {

/// A parsed YAML document, reduced to plain values.
#[derive(Debug)]
pub enum Node {
    Null,
    Bool(bool),
    /// A number, as its decimal text.
    Number(String),
    Text(String),
    List(Vec<Node>),
    /// Key/value pairs in document order.
    Dict(Vec<(Node, Node)>),
}

/// One step of a job.
#[derive(Debug)]
pub struct Step {
    pub name: Option<String>,
    pub id: Option<String>,
    pub uses: Option<String>,
    pub shell: Option<String>,
    pub working_directory: Option<String>,
    pub run: Option<String>,
}

/// A job: a runner label and an ordered list of steps.
#[derive(Debug)]
pub struct Job {
    pub runs_on: String,
    pub steps: Vec<Step>,
}

/// The `push` part of a trigger.
#[derive(Debug)]
pub struct Push {
    pub branches: Option<Vec<String>>,
    pub tags: Option<Vec<String>>,
    pub paths: Option<Vec<String>>,
}

/// What starts the workflow; carried along, never interpreted.
#[derive(Debug)]
pub struct Trigger {
    pub push: Option<Push>,
    pub pull_request: Option<Node>,
}

/// A whole workflow. Job names are kept in document order.
#[derive(Debug)]
pub struct Workflow {
    pub name: String,
    pub on: Trigger,
    pub jobs: Vec<(String, Job)>,
    pub env: Option<Vec<(String, String)>>,
}

/// The text of an optional string.
pub open spec fn opt_view(o: Option<String>) -> Option<Seq<char>> {
    match o {
        Some(s) => Some(s@),
        None => None,
    }
}

/// A step is addressed by an identifier when its name or its id equals it.
pub open spec fn step_matches(step: Step, ident: Seq<char>) -> bool {
    opt_view(step.name) == Some(ident) || opt_view(step.id) == Some(ident)
}

/// `i` is the position of the first step that `ident` addresses.
pub open spec fn is_first_match(steps: Seq<Step>, ident: Seq<char>, i: int) -> bool {
    &&& 0 <= i < steps.len()
    &&& step_matches(steps[i], ident)
    &&& forall|j: int| 0 <= j < i ==> !step_matches(#[trigger] steps[j], ident)
}

/// Some step is addressed by `ident`.
pub open spec fn has_match(steps: Seq<Step>, ident: Seq<char>) -> bool {
    exists|i: int| 0 <= i < steps.len() && step_matches(#[trigger] steps[i], ident)
}

/// The position of the first step that `ident` addresses (only meaningful
/// when `has_match`).
pub open spec fn first_index(steps: Seq<Step>, ident: Seq<char>) -> int {
    choose|i: int| is_first_match(steps, ident, i)
}

/// The identifier under which a step is reported: its name, else its id,
/// else `unknown`.
pub open spec fn display_id(step: Step) -> Seq<char> {
    match step.name {
        Some(n) => n@,
        None => match step.id {
            Some(i) => i@,
            None => "unknown"@,
        },
    }
}

/// The position of the first job called `name`.
pub open spec fn is_first_job(jobs: Seq<(String, Job)>, name: Seq<char>, i: int) -> bool {
    &&& 0 <= i < jobs.len()
    &&& jobs[i].0@ == name
    &&& forall|j: int| 0 <= j < i ==> (#[trigger] jobs[j]).0@ != name
}

/// Job names are unique.
pub open spec fn unique_job_names(jobs: Seq<(String, Job)>) -> bool {
    forall|i: int, j: int|
        0 <= i < jobs.len() && 0 <= j < jobs.len() && i != j ==> (#[trigger] jobs[i]).0@
            != (#[trigger] jobs[j]).0@
}

/// Every position before the one returned holds no step addressed by `ident`.
pub proof fn lemma_first_match_unique(steps: Seq<Step>, ident: Seq<char>, i: int)
    requires
        is_first_match(steps, ident, i),
    ensures
        has_match(steps, ident),
        first_index(steps, ident) == i,
{
    assert(step_matches(steps[i], ident));
    let k = first_index(steps, ident);
    assert(is_first_match(steps, ident, k));
    if k < i {
        assert(!step_matches(steps[k], ident));
    } else if i < k {
        assert(!step_matches(steps[i], ident));
    }
}

fn opt_eq(o: &Option<String>, s: &str) -> (r: bool)
    ensures
        r == (opt_view(*o) == Some(s@)),
{
    match o {
        Some(v) => {
            str_eq(v.as_str(), s)
        },
        None => false,
    }
}

impl Step {
    /// Whether `ident` addresses this step by name or id.
    pub fn is_addressed_by(&self, ident: &str) -> (r: bool)
        ensures
            r == step_matches(*self, ident@),
    {
        opt_eq(&self.name, ident) || opt_eq(&self.id, ident)
    }

    /// The step's name, else its id, else `unknown`.
    pub fn get_name_or_id(&self) -> (r: &str)
        ensures
            r@ == display_id(*self),
    {
        match &self.name {
            Some(n) => n.as_str(),
            None => match &self.id {
                Some(i) => i.as_str(),
                None => "unknown",
            },
        }
    }
}

} // verus!
