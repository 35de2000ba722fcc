use vstd::prelude::*;

use crate::model::{opt_view, Job, Node, Push, Step, Trigger, Workflow};
use crate::text::str_eq;

verus! {

/// Why a document is not a workflow, in words that name the field at fault.
#[derive(Debug, PartialEq, Eq)]
pub struct ParseError {
    pub cause: String,
}

fn field_error(what: &str, key: &str) -> (r: ParseError)
    ensures
        r.cause@ == what@ + key@,
{
    let mut cause = what.to_string();
    cause.append(key);
    ParseError { cause }
}

/// A required field is absent.
fn missing(key: &str) -> (r: ParseError)
    ensures
        r.cause@ == "missing field "@ + key@,
{
    field_error("missing field ", key)
}

/// A field holds a value of the wrong kind.
fn invalid(key: &str) -> (r: ParseError)
    ensures
        r.cause@ == "invalid field "@ + key@,
{
    field_error("invalid field ", key)
}

/// A node that is the text `key`.
pub open spec fn is_key(k: Node, key: Seq<char>) -> bool {
    k matches Node::Text(t) && t@ == key
}

/// `i` is the first entry whose key is `key`.
pub open spec fn is_first_entry(e: Seq<(Node, Node)>, key: Seq<char>, i: int) -> bool {
    &&& 0 <= i < e.len()
    &&& is_key(e[i].0, key)
    &&& forall|j: int| 0 <= j < i ==> !is_key(#[trigger] e[j].0, key)
}

pub open spec fn first_entry(e: Seq<(Node, Node)>, key: Seq<char>) -> int {
    choose|i: int| is_first_entry(e, key, i)
}

/// The value of the first entry whose key is `key`.
pub open spec fn entry(e: Seq<(Node, Node)>, key: Seq<char>) -> Option<Node> {
    if exists|i: int| is_first_entry(e, key, i) {
        Some(e[first_entry(e, key)].1)
    } else {
        None
    }
}

/// An optional text field: `Some(None)` when absent or null, `Some(Some(t))`
/// for text, `None` for anything else.
pub open spec fn opt_text(v: Option<Node>) -> Option<Option<Seq<char>>> {
    match v {
        None => Some(None),
        Some(Node::Null) => Some(None),
        Some(Node::Text(t)) => Some(Some(t@)),
        _ => None,
    }
}

/// A list whose items are all text.
pub open spec fn is_text_list(items: Seq<Node>) -> bool {
    forall|i: int| 0 <= i < items.len() ==> (#[trigger] items[i]) is Text
}

/// The texts of `v` match the text items of `items`.
pub open spec fn texts_fit(v: Seq<String>, items: Seq<Node>) -> bool {
    &&& v.len() == items.len()
    &&& forall|i: int| 0 <= i < v.len() ==> is_key(#[trigger] items[i], v[i]@)
}

/// An optional list of texts: absent or null, or a list of text items.
pub open spec fn opt_text_list_valid(v: Option<Node>) -> bool {
    match v {
        None => true,
        Some(Node::Null) => true,
        Some(Node::List(items)) => is_text_list(items@),
        _ => false,
    }
}

pub open spec fn opt_text_list_fits(o: Option<Vec<String>>, v: Option<Node>) -> bool {
    match v {
        Some(Node::List(items)) => o matches Some(l) && texts_fit(l@, items@),
        _ => o is None,
    }
}

pub open spec fn step_valid(n: Node) -> bool {
    n matches Node::Dict(e) && {
        &&& opt_text(entry(e@, "name"@)) is Some
        &&& opt_text(entry(e@, "id"@)) is Some
        &&& opt_text(entry(e@, "uses"@)) is Some
        &&& opt_text(entry(e@, "shell"@)) is Some
        &&& opt_text(entry(e@, "working-directory"@)) is Some
        &&& opt_text(entry(e@, "run"@)) is Some
    }
}

/// `s` holds exactly the fields of the step node `n`.
pub open spec fn step_fits(s: Step, n: Node) -> bool {
    n matches Node::Dict(e) && {
        &&& opt_text(entry(e@, "name"@)) == Some(opt_view(s.name))
        &&& opt_text(entry(e@, "id"@)) == Some(opt_view(s.id))
        &&& opt_text(entry(e@, "uses"@)) == Some(opt_view(s.uses))
        &&& opt_text(entry(e@, "shell"@)) == Some(opt_view(s.shell))
        &&& opt_text(entry(e@, "working-directory"@)) == Some(opt_view(s.working_directory))
        &&& opt_text(entry(e@, "run"@)) == Some(opt_view(s.run))
    }
}

pub open spec fn job_valid(n: Node) -> bool {
    n matches Node::Dict(e) && {
        &&& entry(e@, "runs-on"@) matches Some(Node::Text(_))
        &&& entry(e@, "steps"@) matches Some(Node::List(items)) && forall|i: int|
            0 <= i < items@.len() ==> step_valid(#[trigger] items@[i])
    }
}

pub open spec fn job_fits(j: Job, n: Node) -> bool {
    n matches Node::Dict(e) && {
        &&& entry(e@, "runs-on"@) matches Some(Node::Text(r)) && r@ == j.runs_on@
        &&& entry(e@, "steps"@) matches Some(Node::List(items)) && items@.len() == j.steps@.len()
            && forall|i: int| 0 <= i < items@.len() ==> step_fits(j.steps@[i], #[trigger] items@[i])
    }
}

pub open spec fn jobs_valid(e: Seq<(Node, Node)>) -> bool {
    forall|i: int| 0 <= i < e.len() ==> (#[trigger] e[i]).0 is Text && job_valid(e[i].1)
}

pub open spec fn jobs_fit(js: Seq<(String, Job)>, e: Seq<(Node, Node)>) -> bool {
    &&& js.len() == e.len()
    &&& forall|i: int|
        0 <= i < e.len() ==> is_key((#[trigger] e[i]).0, js[i].0@) && job_fits(js[i].1, e[i].1)
}

pub open spec fn vars_valid(e: Seq<(Node, Node)>) -> bool {
    forall|i: int| 0 <= i < e.len() ==> (#[trigger] e[i]).0 is Text && e[i].1 is Text
}

pub open spec fn vars_fit(vs: Seq<(String, String)>, e: Seq<(Node, Node)>) -> bool {
    &&& vs.len() == e.len()
    &&& forall|i: int|
        0 <= i < e.len() ==> is_key((#[trigger] e[i]).0, vs[i].0@) && is_key(e[i].1, vs[i].1@)
}

pub open spec fn push_valid(v: Option<Node>) -> bool {
    match v {
        None => true,
        Some(Node::Null) => true,
        Some(Node::Dict(e)) => {
            &&& opt_text_list_valid(entry(e@, "branches"@))
            &&& opt_text_list_valid(entry(e@, "tags"@))
            &&& opt_text_list_valid(entry(e@, "paths"@))
        },
        _ => false,
    }
}

pub open spec fn push_fits(p: Option<Push>, v: Option<Node>) -> bool {
    match v {
        Some(Node::Dict(e)) => p matches Some(p) && {
            &&& opt_text_list_fits(p.branches, entry(e@, "branches"@))
            &&& opt_text_list_fits(p.tags, entry(e@, "tags"@))
            &&& opt_text_list_fits(p.paths, entry(e@, "paths"@))
        },
        _ => p is None,
    }
}

pub open spec fn trigger_valid(n: Node) -> bool {
    n matches Node::Dict(e) && push_valid(entry(e@, "push"@))
}

pub open spec fn trigger_fits(t: Trigger, n: Node) -> bool {
    n matches Node::Dict(e) && push_fits(t.push, entry(e@, "push"@)) && match entry(
        e@,
        "pull_request"@,
    ) {
        None => t.pull_request is None,
        Some(Node::Null) => t.pull_request is None,
        Some(v) => t.pull_request == Some(v),
    }
}

/// The document `n` describes a workflow: `name` (text), `on` (a mapping)
/// and `jobs` (job names to jobs) are present and well formed, as is `env`
/// where given. Other fields are ignored.
pub open spec fn workflow_valid(n: Node) -> bool {
    n matches Node::Dict(e) && {
        &&& entry(e@, "name"@) matches Some(Node::Text(_))
        &&& entry(e@, "on"@) matches Some(on) && trigger_valid(on)
        &&& entry(e@, "jobs"@) matches Some(Node::Dict(je)) && jobs_valid(je@)
        &&& match entry(e@, "env"@) {
            None => true,
            Some(Node::Null) => true,
            Some(Node::Dict(ve)) => vars_valid(ve@),
            _ => false,
        }
    }
}

/// `w` has the name, jobs and variables that the document `n` gives.
pub open spec fn workflow_core_fits(w: Workflow, n: Node) -> bool {
    n matches Node::Dict(e) && {
        &&& entry(e@, "name"@) matches Some(Node::Text(t)) && t@ == w.name@
        &&& entry(e@, "jobs"@) matches Some(Node::Dict(je)) && jobs_fit(w.jobs@, je@)
        &&& match entry(e@, "env"@) {
            Some(Node::Dict(ve)) => w.env matches Some(vs) && vars_fit(vs@, ve@),
            _ => w.env is None,
        }
    }
}

/// `w` holds exactly what the document `n` says.
pub open spec fn workflow_fits(w: Workflow, n: Node) -> bool {
    &&& workflow_core_fits(w, n)
    &&& n matches Node::Dict(e) && entry(e@, "on"@) matches Some(on) && trigger_fits(w.on, on)
}

proof fn lemma_first_entry(e: Seq<(Node, Node)>, key: Seq<char>, i: int)
    requires
        is_first_entry(e, key, i),
    ensures
        entry(e, key) == Some(e[i].1),
{
    let m = first_entry(e, key);
    assert(is_first_entry(e, key, m));
    if m < i {
        assert(!is_key(e[m].0, key));
    } else if i < m {
        assert(!is_key(e[i].0, key));
    }
}

/// The position of the first entry of `e` whose key is the text `key`.
pub fn find_entry_index(e: &Vec<(Node, Node)>, key: &str) -> (r: Option<usize>)
    ensures
        match r {
            Some(i) => is_first_entry(e@, key@, i as int) && entry(e@, key@) == Some(e@[i as int].1),
            None => entry(e@, key@) is None,
        },
{
    let mut i: usize = 0;
    while i < e.len()
        invariant
            0 <= i <= e@.len(),
            forall|j: int| 0 <= j < i ==> !is_key(#[trigger] e@[j].0, key@),
        decreases e@.len() - i,
    {
        if let Node::Text(t) = &e[i].0 {
            if str_eq(t.as_str(), key) {
                proof {
                    lemma_first_entry(e@, key@, i as int);
                }
                return Some(i);
            }
        }
        i = i + 1;
    }
    None
}

/// The value of the first entry of `e` whose key is the text `key`.
pub fn find_entry<'a>(e: &'a Vec<(Node, Node)>, key: &str) -> (r: Option<&'a Node>)
    ensures
        match r {
            Some(v) => entry(e@, key@) == Some(*v),
            None => entry(e@, key@) is None,
        },
{
    let mut i: usize = 0;
    while i < e.len()
        invariant
            0 <= i <= e@.len(),
            forall|j: int| 0 <= j < i ==> !is_key(#[trigger] e@[j].0, key@),
        decreases e@.len() - i,
    {
        if let Node::Text(t) = &e[i].0 {
            if str_eq(t.as_str(), key) {
                proof {
                    lemma_first_entry(e@, key@, i as int);
                }
                return Some(&e[i].1);
            }
        }
        i = i + 1;
    }
    None
}

fn clone_text(s: &String) -> (r: String)
    ensures
        r@ == s@,
{
    s.clone()
}

/// An optional text field of a mapping.
fn opt_text_field(e: &Vec<(Node, Node)>, key: &str) -> (r: Result<Option<String>, ParseError>)
    ensures
        match r {
            Ok(o) => opt_text(entry(e@, key@)) == Some(opt_view(o)),
            Err(_) => opt_text(entry(e@, key@)) is None,
        },
{
    match find_entry(e, key) {
        None => Ok(None),
        Some(Node::Null) => Ok(None),
        Some(Node::Text(t)) => Ok(Some(clone_text(t))),
        Some(_) => Err(invalid(key)),
    }
}

/// The texts of a list whose items are all text.
fn text_list(items: &Vec<Node>) -> (r: Option<Vec<String>>)
    ensures
        match r {
            Some(v) => is_text_list(items@) && texts_fit(v@, items@),
            None => !is_text_list(items@),
        },
{
    let mut v: Vec<String> = Vec::new();
    let mut i: usize = 0;
    while i < items.len()
        invariant
            0 <= i <= items@.len(),
            is_text_list(items@.subrange(0, i as int)),
            texts_fit(v@, items@.subrange(0, i as int)),
        decreases items@.len() - i,
    {
        match &items[i] {
            Node::Text(t) => {
                v.push(clone_text(t));
            },
            _ => {
                return None;
            },
        }
        proof {
            let sub = items@.subrange(0, i + 1);
            assert forall|k: int| 0 <= k < sub.len() implies (#[trigger] sub[k]) is Text by {
                if k < i {
                    assert(sub[k] == items@.subrange(0, i as int)[k]);
                }
            }
            assert forall|k: int| 0 <= k < v@.len() implies is_key(#[trigger] sub[k], v@[k]@) by {
                if k < i {
                    assert(sub[k] == items@.subrange(0, i as int)[k]);
                }
            }
        }
        i = i + 1;
    }
    assert(items@.subrange(0, items@.len() as int) =~= items@);
    Some(v)
}

/// An optional list-of-text field of a mapping.
fn opt_text_list_field(e: &Vec<(Node, Node)>, key: &str) -> (r: Result<
    Option<Vec<String>>,
    ParseError,
>)
    ensures
        match r {
            Ok(o) => opt_text_list_valid(entry(e@, key@)) && opt_text_list_fits(o, entry(e@, key@)),
            Err(_) => !opt_text_list_valid(entry(e@, key@)),
        },
{
    match find_entry(e, key) {
        None => Ok(None),
        Some(Node::Null) => Ok(None),
        Some(Node::List(items)) => match text_list(items) {
            Some(v) => Ok(Some(v)),
            None => Err(invalid(key)),
        },
        Some(_) => Err(invalid(key)),
    }
}

/// A step, from its mapping.
pub fn parse_step(n: &Node) -> (r: Result<Step, ParseError>)
    ensures
        match r {
            Ok(s) => step_valid(*n) && step_fits(s, *n),
            Err(_) => !step_valid(*n),
        },
{
    match n {
        Node::Dict(e) => {
            let name = opt_text_field(e, "name")?;
            let id = opt_text_field(e, "id")?;
            let uses = opt_text_field(e, "uses")?;
            let shell = opt_text_field(e, "shell")?;
            let working_directory = opt_text_field(e, "working-directory")?;
            let run = opt_text_field(e, "run")?;
            Ok(Step { name, id, uses, shell, working_directory, run })
        },
        _ => Err(invalid("steps")),
    }
}

/// A job, from its mapping.
pub fn parse_job(n: &Node) -> (r: Result<Job, ParseError>)
    ensures
        match r {
            Ok(j) => job_valid(*n) && job_fits(j, *n),
            Err(_) => !job_valid(*n),
        },
{
    let e = match n {
        Node::Dict(e) => e,
        _ => {
            return Err(invalid("jobs"));
        },
    };
    let runs_on = match find_entry(e, "runs-on") {
        Some(Node::Text(t)) => clone_text(t),
        None => {
            return Err(missing("runs-on"));
        },
        Some(_) => {
            return Err(invalid("runs-on"));
        },
    };
    let items = match find_entry(e, "steps") {
        Some(Node::List(items)) => items,
        None => {
            return Err(missing("steps"));
        },
        Some(_) => {
            return Err(invalid("steps"));
        },
    };
    let mut steps: Vec<Step> = Vec::new();
    let mut i: usize = 0;
    while i < items.len()
        invariant
            *n == Node::Dict(*e),
            entry(e@, "steps"@) == Some(Node::List(*items)),
            entry(e@, "runs-on"@) matches Some(Node::Text(t)) && t@ == runs_on@,
            0 <= i <= items@.len(),
            steps@.len() == i,
            forall|k: int| 0 <= k < i ==> step_valid(#[trigger] items@[k]),
            forall|k: int| 0 <= k < i ==> step_fits(steps@[k], #[trigger] items@[k]),
        decreases items@.len() - i,
    {
        match parse_step(&items[i]) {
            Ok(s) => {
                steps.push(s);
            },
            Err(err) => {
                proof {
                    if job_valid(*n) {
                        let it = entry(e@, "steps"@)->0->List_0;
                        assert(it == *items);
                        assert(step_valid(it@[i as int]));
                    }
                }
                return Err(err);
            },
        }
        i = i + 1;
    }
    Ok(Job { runs_on, steps })
}

/// The jobs of a workflow, from the mapping of job names to jobs.
fn parse_jobs(e: &Vec<(Node, Node)>) -> (r: Result<Vec<(String, Job)>, ParseError>)
    ensures
        match r {
            Ok(js) => jobs_valid(e@) && jobs_fit(js@, e@),
            Err(_) => !jobs_valid(e@),
        },
{
    let mut js: Vec<(String, Job)> = Vec::new();
    let mut i: usize = 0;
    while i < e.len()
        invariant
            0 <= i <= e@.len(),
            js@.len() == i,
            forall|k: int| 0 <= k < i ==> (#[trigger] e@[k]).0 is Text && job_valid(e@[k].1),
            forall|k: int|
                0 <= k < i ==> is_key((#[trigger] e@[k]).0, js@[k].0@) && job_fits(js@[k].1, e@[k].1),
        decreases e@.len() - i,
    {
        let name = match &e[i].0 {
            Node::Text(t) => clone_text(t),
            _ => {
                return Err(invalid("jobs"));
            },
        };
        let job = parse_job(&e[i].1)?;
        js.push((name, job));
        i = i + 1;
    }
    Ok(js)
}

/// Variables, from a mapping of names to texts.
fn parse_vars(e: &Vec<(Node, Node)>) -> (r: Result<Vec<(String, String)>, ParseError>)
    ensures
        match r {
            Ok(vs) => vars_valid(e@) && vars_fit(vs@, e@),
            Err(_) => !vars_valid(e@),
        },
{
    let mut vs: Vec<(String, String)> = Vec::new();
    let mut i: usize = 0;
    while i < e.len()
        invariant
            0 <= i <= e@.len(),
            vs@.len() == i,
            forall|k: int| 0 <= k < i ==> (#[trigger] e@[k]).0 is Text && e@[k].1 is Text,
            forall|k: int|
                0 <= k < i ==> is_key((#[trigger] e@[k]).0, vs@[k].0@) && is_key(e@[k].1, vs@[k].1@),
        decreases e@.len() - i,
    {
        match (&e[i].0, &e[i].1) {
            (Node::Text(k), Node::Text(v)) => {
                vs.push((clone_text(k), clone_text(v)));
            },
            _ => {
                return Err(invalid("env"));
            },
        }
        i = i + 1;
    }
    Ok(vs)
}

pub open spec fn opt_node(v: Option<&Node>) -> Option<Node> {
    match v {
        Some(x) => Some(*x),
        None => None,
    }
}

/// The `push` part of a trigger, where present.
fn parse_push(v: Option<&Node>) -> (r: Result<Option<Push>, ParseError>)
    ensures
        match r {
            Ok(p) => push_valid(opt_node(v)) && push_fits(p, opt_node(v)),
            Err(_) => !push_valid(opt_node(v)),
        },
{
    match v {
        None => Ok(None),
        Some(Node::Null) => Ok(None),
        Some(Node::Dict(e)) => {
            let branches = opt_text_list_field(e, "branches")?;
            let tags = opt_text_list_field(e, "tags")?;
            let paths = opt_text_list_field(e, "paths")?;
            Ok(Some(Push { branches, tags, paths }))
        },
        Some(_) => Err(invalid("push")),
    }
}

/// A trigger, from its mapping; `pull_request` is carried over as it is.
pub fn parse_trigger(n: Node) -> (r: Result<Trigger, ParseError>)
    ensures
        match r {
            Ok(t) => trigger_valid(n) && trigger_fits(t, n),
            Err(_) => !trigger_valid(n),
        },
{
    match n {
        Node::Dict(mut e) => {
            let push = parse_push(find_entry(&e, "push"))?;
            let pull_request = match find_entry_index(&e, "pull_request") {
                None => None,
                Some(i) => {
                    let (_, v) = e.remove(i);
                    match v {
                        Node::Null => None,
                        v => Some(v),
                    }
                },
            };
            Ok(Trigger { push, pull_request })
        },
        _ => Err(invalid("on")),
    }
}

impl Workflow {
    /// The workflow a document describes. `name`, `on` and `jobs` are
    /// required, `env` is optional, other fields are ignored; job order is
    /// kept.
    pub fn from_node(n: Node) -> (r: Result<Workflow, ParseError>)
        ensures
            match r {
                Ok(w) => workflow_valid(n) && workflow_fits(w, n),
                Err(_) => !workflow_valid(n),
            },
    {
        match n {
            Node::Dict(mut e) => {
                let name = match find_entry(&e, "name") {
                    Some(Node::Text(t)) => clone_text(t),
                    None => {
                        return Err(missing("name"));
                    },
                    Some(_) => {
                        return Err(invalid("name"));
                    },
                };
                let jobs = match find_entry(&e, "jobs") {
                    Some(Node::Dict(je)) => parse_jobs(je)?,
                    None => {
                        return Err(missing("jobs"));
                    },
                    Some(_) => {
                        return Err(invalid("jobs"));
                    },
                };
                let env = match find_entry(&e, "env") {
                    None => None,
                    Some(Node::Null) => None,
                    Some(Node::Dict(ve)) => Some(parse_vars(ve)?),
                    Some(_) => {
                        return Err(invalid("env"));
                    },
                };
                let on = match find_entry_index(&e, "on") {
                    Some(i) => {
                        let (_, v) = e.remove(i);
                        parse_trigger(v)?
                    },
                    None => {
                        return Err(missing("on"));
                    },
                };
                Ok(Workflow { name, on, jobs, env })
            },
            _ => Err(invalid("workflow")),
        }
    }
}

} // verus!
