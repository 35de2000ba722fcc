use vstd::prelude::*;

use crate::model::{opt_view, Job, Node, Push, Step, Trigger, Workflow};
use crate::schema::{
    entry, is_first_entry, is_key, is_text_list, job_fits, job_valid, jobs_fit, jobs_valid,
    opt_text, opt_text_list_fits, opt_text_list_valid, push_fits, push_valid, step_fits,
    step_valid, texts_fit, trigger_fits, trigger_valid, vars_fit, vars_valid, workflow_core_fits,
    workflow_fits, workflow_valid,
};

verus! {

/// The entry at `i` is the first with key `key` when the keys before it differ.
proof fn lemma_entry_at(e: Seq<(Node, Node)>, key: Seq<char>, i: int)
    requires
        0 <= i < e.len(),
        is_key(e[i].0, key),
        forall|j: int| 0 <= j < i ==> !is_key(#[trigger] e[j].0, key),
    ensures
        entry(e, key) == Some(e[i].1),
{
    assert(is_first_entry(e, key, i));
    let m = choose|m: int| is_first_entry(e, key, m);
    if m < i {
        assert(!is_key(e[m].0, key));
    } else if i < m {
        assert(!is_key(e[i].0, key));
    }
}

fn key_node(k: &str) -> (r: Node)
    ensures
        is_key(r, k@),
{
    Node::Text(k.to_string())
}

fn opt_text_node(o: &Option<String>) -> (r: Node)
    ensures
        opt_text(Some(r)) == Some(opt_view(*o)),
{
    match o {
        Some(s) => Node::Text(s.clone()),
        None => Node::Null,
    }
}

/// The six step keys differ from one another.
proof fn lemma_step_keys_distinct()
    ensures
        "name"@ != "id"@,
        "name"@ != "uses"@,
        "name"@ != "shell"@,
        "name"@ != "working-directory"@,
        "name"@ != "run"@,
        "id"@ != "uses"@,
        "id"@ != "shell"@,
        "id"@ != "working-directory"@,
        "id"@ != "run"@,
        "uses"@ != "shell"@,
        "uses"@ != "working-directory"@,
        "uses"@ != "run"@,
        "shell"@ != "working-directory"@,
        "shell"@ != "run"@,
        "working-directory"@ != "run"@,
{
    reveal_strlit("name");
    reveal_strlit("id");
    reveal_strlit("uses");
    reveal_strlit("shell");
    reveal_strlit("working-directory");
    reveal_strlit("run");
    assert("name"@ != "id"@) by {
        assert("name"@.len() != "id"@.len());
    }
    assert("name"@ != "uses"@) by {
        assert("name"@[0] != "uses"@[0]);
    }
    assert("name"@ != "shell"@) by {
        assert("name"@.len() != "shell"@.len());
    }
    assert("name"@ != "working-directory"@) by {
        assert("name"@.len() != "working-directory"@.len());
    }
    assert("name"@ != "run"@) by {
        assert("name"@.len() != "run"@.len());
    }
    assert("id"@ != "uses"@) by {
        assert("id"@.len() != "uses"@.len());
    }
    assert("id"@ != "shell"@) by {
        assert("id"@.len() != "shell"@.len());
    }
    assert("id"@ != "working-directory"@) by {
        assert("id"@.len() != "working-directory"@.len());
    }
    assert("id"@ != "run"@) by {
        assert("id"@.len() != "run"@.len());
    }
    assert("uses"@ != "shell"@) by {
        assert("uses"@.len() != "shell"@.len());
    }
    assert("uses"@ != "working-directory"@) by {
        assert("uses"@.len() != "working-directory"@.len());
    }
    assert("uses"@ != "run"@) by {
        assert("uses"@.len() != "run"@.len());
    }
    assert("shell"@ != "working-directory"@) by {
        assert("shell"@.len() != "working-directory"@.len());
    }
    assert("shell"@ != "run"@) by {
        assert("shell"@.len() != "run"@.len());
    }
    assert("working-directory"@ != "run"@) by {
        assert("working-directory"@.len() != "run"@.len());
    }
}

/// The mapping a step is written as: all six fields, null where absent.
pub fn step_node(s: &Step) -> (r: Node)
    ensures
        step_valid(r),
        step_fits(*s, r),
{
    let e = vec![
        (key_node("name"), opt_text_node(&s.name)),
        (key_node("id"), opt_text_node(&s.id)),
        (key_node("uses"), opt_text_node(&s.uses)),
        (key_node("shell"), opt_text_node(&s.shell)),
        (key_node("working-directory"), opt_text_node(&s.working_directory)),
        (key_node("run"), opt_text_node(&s.run)),
    ];
    proof {
        lemma_step_keys_distinct();
        lemma_entry_at(e@, "name"@, 0);
        lemma_entry_at(e@, "id"@, 1);
        lemma_entry_at(e@, "uses"@, 2);
        lemma_entry_at(e@, "shell"@, 3);
        lemma_entry_at(e@, "working-directory"@, 4);
        lemma_entry_at(e@, "run"@, 5);
    }
    Node::Dict(e)
}

/// The mapping a job is written as.
pub fn job_node(j: &Job) -> (r: Node)
    ensures
        job_valid(r),
        job_fits(*j, r),
{
    let mut items: Vec<Node> = Vec::new();
    let mut i: usize = 0;
    while i < j.steps.len()
        invariant
            0 <= i <= j.steps@.len(),
            items@.len() == i,
            forall|k: int| 0 <= k < i ==> step_valid(#[trigger] items@[k]),
            forall|k: int| 0 <= k < i ==> step_fits(j.steps@[k], #[trigger] items@[k]),
        decreases j.steps@.len() - i,
    {
        items.push(step_node(&j.steps[i]));
        i = i + 1;
    }
    let e = vec![(key_node("runs-on"), Node::Text(j.runs_on.clone())), (key_node("steps"), Node::List(items))];
    proof {
        reveal_strlit("runs-on");
        reveal_strlit("steps");
        assert("runs-on"@ != "steps"@) by {
            assert("runs-on"@.len() != "steps"@.len());
        }
        lemma_entry_at(e@, "runs-on"@, 0);
        lemma_entry_at(e@, "steps"@, 1);
    }
    Node::Dict(e)
}

fn jobs_entries(js: &Vec<(String, Job)>) -> (r: Vec<(Node, Node)>)
    ensures
        jobs_valid(r@),
        jobs_fit(js@, r@),
{
    let mut e: Vec<(Node, Node)> = Vec::new();
    let mut i: usize = 0;
    while i < js.len()
        invariant
            0 <= i <= js@.len(),
            e@.len() == i,
            forall|k: int| 0 <= k < i ==> (#[trigger] e@[k]).0 is Text && job_valid(e@[k].1),
            forall|k: int|
                0 <= k < i ==> is_key((#[trigger] e@[k]).0, js@[k].0@) && job_fits(js@[k].1, e@[k].1),
        decreases js@.len() - i,
    {
        e.push((Node::Text(js[i].0.clone()), job_node(&js[i].1)));
        i = i + 1;
    }
    e
}

fn vars_entries(vs: &Vec<(String, String)>) -> (r: Vec<(Node, Node)>)
    ensures
        vars_valid(r@),
        vars_fit(vs@, r@),
{
    let mut e: Vec<(Node, Node)> = Vec::new();
    let mut i: usize = 0;
    while i < vs.len()
        invariant
            0 <= i <= vs@.len(),
            e@.len() == i,
            forall|k: int| 0 <= k < i ==> (#[trigger] e@[k]).0 is Text && e@[k].1 is Text,
            forall|k: int|
                0 <= k < i ==> is_key((#[trigger] e@[k]).0, vs@[k].0@) && is_key(e@[k].1, vs@[k].1@),
        decreases vs@.len() - i,
    {
        e.push((Node::Text(vs[i].0.clone()), Node::Text(vs[i].1.clone())));
        i = i + 1;
    }
    e
}

fn text_list_node(o: &Option<Vec<String>>) -> (r: Node)
    ensures
        opt_text_list_valid(Some(r)),
        opt_text_list_fits(*o, Some(r)),
{
    match o {
        None => Node::Null,
        Some(v) => {
            let mut items: Vec<Node> = Vec::new();
            let mut i: usize = 0;
            while i < v.len()
                invariant
                    0 <= i <= v@.len(),
                    items@.len() == i,
                    forall|k: int| 0 <= k < i ==> is_key(#[trigger] items@[k], v@[k]@),
                decreases v@.len() - i,
            {
                items.push(Node::Text(v[i].clone()));
                i = i + 1;
            }
            assert(is_text_list(items@));
            assert(texts_fit(v@, items@));
            Node::List(items)
        },
    }
}

fn push_node(p: &Option<Push>) -> (r: Node)
    ensures
        push_valid(Some(r)),
        push_fits(*p, Some(r)),
{
    match p {
        None => Node::Null,
        Some(p) => {
            let e = vec![
                (key_node("branches"), text_list_node(&p.branches)),
                (key_node("tags"), text_list_node(&p.tags)),
                (key_node("paths"), text_list_node(&p.paths)),
            ];
            proof {
                reveal_strlit("branches");
                reveal_strlit("tags");
                reveal_strlit("paths");
                assert("branches"@ != "tags"@) by {
                    assert("branches"@.len() != "tags"@.len());
                }
                assert("branches"@ != "paths"@) by {
                    assert("branches"@.len() != "paths"@.len());
                }
                assert("tags"@ != "paths"@) by {
                    assert("tags"@.len() != "paths"@.len());
                }
                lemma_entry_at(e@, "branches"@, 0);
                lemma_entry_at(e@, "tags"@, 1);
                lemma_entry_at(e@, "paths"@, 2);
            }
            Node::Dict(e)
        },
    }
}

/// The mapping a trigger is written as; `pull_request` is moved over as it is.
pub fn trigger_node(t: Trigger) -> (r: Node)
    ensures
        trigger_valid(r),
        !(t.pull_request matches Some(Node::Null)) ==> trigger_fits(t, r),
{
    let push = push_node(&t.push);
    let pr = match t.pull_request {
        Some(v) => v,
        None => Node::Null,
    };
    let e = vec![(key_node("push"), push), (key_node("pull_request"), pr)];
    proof {
        reveal_strlit("push");
        reveal_strlit("pull_request");
        assert("push"@ != "pull_request"@) by {
            assert("push"@.len() != "pull_request"@.len());
        }
        lemma_entry_at(e@, "push"@, 0);
        lemma_entry_at(e@, "pull_request"@, 1);
    }
    Node::Dict(e)
}

impl Workflow {
    /// The document a workflow is written as: `name`, `on`, `jobs` in order,
    /// and `env` (null when absent). Reading it back gives the same workflow.
    pub fn to_node(self) -> (r: Node)
        ensures
            workflow_valid(r),
            workflow_core_fits(self, r),
            !(self.on.pull_request matches Some(Node::Null)) ==> workflow_fits(self, r),
    {
        let ghost w = self;
        let Workflow { name, on, jobs, env } = self;
        let jobs_e = jobs_entries(&jobs);
        let env_n = match &env {
            Some(vs) => Node::Dict(vars_entries(vs)),
            None => Node::Null,
        };
        let e = vec![
            (key_node("name"), Node::Text(name)),
            (key_node("on"), trigger_node(on)),
            (key_node("jobs"), Node::Dict(jobs_e)),
            (key_node("env"), env_n),
        ];
        proof {
            reveal_strlit("name");
            reveal_strlit("on");
            reveal_strlit("jobs");
            reveal_strlit("env");
            assert("name"@ != "on"@) by {
                assert("name"@.len() != "on"@.len());
            }
            assert("name"@ != "jobs"@) by {
                assert("name"@[0] != "jobs"@[0]);
            }
            assert("name"@ != "env"@) by {
                assert("name"@.len() != "env"@.len());
            }
            assert("on"@ != "jobs"@) by {
                assert("on"@.len() != "jobs"@.len());
            }
            assert("on"@ != "env"@) by {
                assert("on"@.len() != "env"@.len());
            }
            assert("jobs"@ != "env"@) by {
                assert("jobs"@.len() != "env"@.len());
            }
            lemma_entry_at(e@, "name"@, 0);
            lemma_entry_at(e@, "on"@, 1);
            lemma_entry_at(e@, "jobs"@, 2);
            lemma_entry_at(e@, "env"@, 3);
        }
        Node::Dict(e)
    }
}

/// Round trip: where `n` is the document written for `w` (its name, jobs and
/// variables) and `w2` is what reading `n` back gives, `w2` has the same
/// name, the same job names in the same order, and for each job the same
/// runner label and the same steps, field by field (`run` included).
pub proof fn lemma_round_trip(w: Workflow, n: Node, w2: Workflow)
    requires
        workflow_core_fits(w, n),
        workflow_fits(w2, n),
    ensures
        w2.name@ == w.name@,
        w2.jobs@.len() == w.jobs@.len(),
        forall|i: int|
            #![trigger w2.jobs@[i]]
            0 <= i < w.jobs@.len() ==> {
                &&& w2.jobs@[i].0@ == w.jobs@[i].0@
                &&& w2.jobs@[i].1.runs_on@ == w.jobs@[i].1.runs_on@
                &&& w2.jobs@[i].1.steps@.len() == w.jobs@[i].1.steps@.len()
                &&& forall|k: int|
                    #![trigger w2.jobs@[i].1.steps@[k]]
                    0 <= k < w.jobs@[i].1.steps@.len() ==> same_step(
                        w2.jobs@[i].1.steps@[k],
                        w.jobs@[i].1.steps@[k],
                    )
            },
{
    let e = n->Dict_0;
    let je = entry(e@, "jobs"@)->0->Dict_0;
    assert forall|i: int| #![trigger w2.jobs@[i]] 0 <= i < w.jobs@.len() implies {
        &&& w2.jobs@[i].0@ == w.jobs@[i].0@
        &&& w2.jobs@[i].1.runs_on@ == w.jobs@[i].1.runs_on@
        &&& w2.jobs@[i].1.steps@.len() == w.jobs@[i].1.steps@.len()
        &&& forall|k: int|
            #![trigger w2.jobs@[i].1.steps@[k]]
            0 <= k < w.jobs@[i].1.steps@.len() ==> same_step(
                w2.jobs@[i].1.steps@[k],
                w.jobs@[i].1.steps@[k],
            )
    } by {
        assert(is_key(je@[i].0, w.jobs@[i].0@));
        assert(is_key(je@[i].0, w2.jobs@[i].0@));
        let jn = je@[i].1;
        assert(job_fits(w.jobs@[i].1, jn));
        assert(job_fits(w2.jobs@[i].1, jn));
        let items = entry(jn->Dict_0@, "steps"@)->0->List_0;
        assert forall|k: int|
            #![trigger w2.jobs@[i].1.steps@[k]]
            0 <= k < w.jobs@[i].1.steps@.len() implies same_step(
                w2.jobs@[i].1.steps@[k],
                w.jobs@[i].1.steps@[k],
            ) by {
            assert(step_fits(w.jobs@[i].1.steps@[k], items@[k]));
            assert(step_fits(w2.jobs@[i].1.steps@[k], items@[k]));
        }
    }
}

/// Two steps with the same fields.
pub open spec fn same_step(a: Step, b: Step) -> bool {
    &&& opt_view(a.name) == opt_view(b.name)
    &&& opt_view(a.id) == opt_view(b.id)
    &&& opt_view(a.uses) == opt_view(b.uses)
    &&& opt_view(a.shell) == opt_view(b.shell)
    &&& opt_view(a.working_directory) == opt_view(b.working_directory)
    &&& opt_view(a.run) == opt_view(b.run)
}

} // verus!
