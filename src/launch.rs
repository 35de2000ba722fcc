use vstd::prelude::*;

use crate::interp::{interpolate, interpolated, is_first_key, lookup, Vars};
use crate::model::{display_id, opt_view, Step};
use crate::text::{trim_text, trimmed};

verus! {

/// What to launch for a step: `shell -c command`, in `working_directory`
/// when one is given.
#[derive(Debug)]
pub struct Invocation {
    pub shell: String,
    pub command: String,
    pub working_directory: Option<String>,
}

/// How a step failed.
#[derive(Debug, PartialEq, Eq)]
pub enum StepFailure {
    /// The step has no `run` command (an action step); carries its display
    /// identifier.
    NoRunCommand(String),
    /// The shell could not be started.
    LaunchError(String),
    /// The command ran and did not succeed; the exit code, if it had one.
    NonZeroExit(Option<i32>),
    /// Reading its output or changing directory failed.
    IoError(String),
}

/// The shell a step runs in: its own, or `bash`.
pub open spec fn shell_of(step: Step) -> Seq<char> {
    match step.shell {
        Some(s) => s@,
        None => "bash"@,
    }
}

fn clone_opt(o: &Option<String>) -> (r: Option<String>)
    ensures
        opt_view(r) == opt_view(*o),
{
    match o {
        Some(s) => Some(s.clone()),
        None => None,
    }
}

impl Step {
    /// The launch a step asks for: its shell (`bash` by default), its `run`
    /// text interpolated and trimmed, and its working directory. A step
    /// without `run` fails with `NoRunCommand`, whatever else it holds.
    pub fn invocation(&self, scope: &Vars, ambient: &Vars) -> (r: Result<Invocation, StepFailure>)
        ensures
            self.run is None <==> r is Err,
            r matches Err(e) ==> e matches StepFailure::NoRunCommand(id) && id@ == display_id(
                *self,
            ),
            r matches Ok(inv) ==> {
                &&& inv.shell@ == shell_of(*self)
                &&& inv.command@ == trimmed(interpolated(self.run->0@, scope@, ambient@))
                &&& opt_view(inv.working_directory) == opt_view(self.working_directory)
            },
    {
        match &self.run {
            None => Err(StepFailure::NoRunCommand(self.get_name_or_id().to_string())),
            Some(run) => {
                let expanded = interpolate(run.as_str(), scope, ambient);
                let command = trim_text(expanded.as_str());
                let shell = match &self.shell {
                    Some(s) => s.clone(),
                    None => "bash".to_string(),
                };
                Ok(Invocation { shell, command, working_directory: clone_opt(&self.working_directory) })
            },
        }
    }
}

/// Looking a name up in `a` followed by `b`: `a` first, then `b`.
pub proof fn lemma_lookup_concat(a: Seq<(String, String)>, b: Seq<(String, String)>, k: Seq<char>)
    ensures
        lookup(a + b, k) == match lookup(a, k) {
            Some(v) => Some(v),
            None => lookup(b, k),
        },
{
    let ab = a + b;
    if exists|i: int| is_first_key(a, k, i) {
        let i = choose|i: int| is_first_key(a, k, i);
        assert(is_first_key(ab, k, i)) by {
            assert forall|j: int| 0 <= j < i implies (#[trigger] ab[j]).0@ != k by {
                assert(ab[j] == a[j]);
            }
        }
        let m = choose|m: int| is_first_key(ab, k, m);
        if m < i {
            assert(ab[m] == a[m]);
        } else if i < m {
            assert(ab[i].0@ != k);
        }
    } else {
        assert forall|j: int| 0 <= j < a.len() implies (#[trigger] a[j]).0@ != k by {
            if a[j].0@ == k {
                lemma_first_key_exists(a, k, j);
            }
        }
        if exists|i: int| is_first_key(b, k, i) {
            let i = choose|i: int| is_first_key(b, k, i);
            assert(is_first_key(ab, k, a.len() + i)) by {
                assert forall|j: int| 0 <= j < a.len() + i implies (#[trigger] ab[j]).0@ != k by {
                    if j < a.len() {
                        assert(ab[j] == a[j]);
                    } else {
                        assert(ab[j] == b[j - a.len()]);
                    }
                }
            }
            let m = choose|m: int| is_first_key(ab, k, m);
            if m < a.len() + i {
                if m < a.len() {
                    assert(ab[m] == a[m]);
                } else {
                    assert(ab[m] == b[m - a.len()]);
                }
            } else if a.len() + i < m {
                assert(ab[a.len() + i].0@ != k);
            }
        } else {
            if exists|m: int| is_first_key(ab, k, m) {
                let m = choose|m: int| is_first_key(ab, k, m);
                if m < a.len() {
                    assert(ab[m] == a[m]);
                } else {
                    assert(ab[m] == b[m - a.len()]);
                    lemma_first_key_exists(b, k, m - a.len());
                }
            }
        }
    }
}

/// Where some entry is named `k`, there is a first one.
pub proof fn lemma_first_key_exists(v: Seq<(String, String)>, k: Seq<char>, j: int)
    requires
        0 <= j < v.len(),
        v[j].0@ == k,
    ensures
        exists|i: int| is_first_key(v, k, i),
    decreases j,
{
    if exists|m: int| 0 <= m < j && (#[trigger] v[m]).0@ == k {
        let m = choose|m: int| 0 <= m < j && (#[trigger] v[m]).0@ == k;
        lemma_first_key_exists(v, k, m);
    } else {
        assert(is_first_key(v, k, j));
    }
}

fn push_all(dst: &mut Vars, src: &Vars)
    ensures
        final(dst)@ == old(dst)@ + src@,
{
    let mut i: usize = 0;
    while i < src.len()
        invariant
            0 <= i <= src@.len(),
            dst@ == old(dst)@ + src@.subrange(0, i as int),
        decreases src@.len() - i,
    {
        let (k, v) = &src[i];
        dst.push((k.clone(), v.clone()));
        assert(src@.subrange(0, i + 1) =~= src@.subrange(0, i as int).push(src@[i as int]));
        i = i + 1;
    }
    assert(src@.subrange(0, src@.len() as int) =~= src@);
}

/// The variables a run sees: the workflow's `env`, with the secrets layered
/// over it (a secret wins on a shared name).
pub fn merge_scope(env: Option<&Vars>, secrets: Option<&Vars>) -> (r: Vars)
    ensures
        forall|k: Seq<char>|
            #![trigger lookup(r@, k)]
            lookup(r@, k) == match (match secrets {
                Some(s) => lookup(s@, k),
                None => None,
            }) {
                Some(v) => Some(v),
                None => match env {
                    Some(e) => lookup(e@, k),
                    None => None,
                },
            },
{
    let mut r: Vars = Vec::new();
    if let Some(s) = secrets {
        push_all(&mut r, s);
    }
    let ghost mid = r@;
    if let Some(e) = env {
        push_all(&mut r, e);
    }
    proof {
        let empty = Seq::<(String, String)>::empty();
        assert forall|k: Seq<char>| lookup(empty, k) is None by {}
        assert forall|k: Seq<char>| #[trigger] lookup(r@, k) == match (match secrets {
            Some(s) => lookup(s@, k),
            None => None,
        }) {
            Some(v) => Some(v),
            None => match env {
                Some(e) => lookup(e@, k),
                None => None,
            },
        } by {
            lemma_lookup_concat(empty, mid, k);
            if let Some(s) = secrets {
                assert(mid == empty + s@);
                lemma_lookup_concat(empty, s@, k);
                assert(empty + s@ =~= s@);
            } else {
                assert(mid =~= empty);
            }
            if let Some(e) = env {
                lemma_lookup_concat(mid, e@, k);
            } else {
                assert(r@ == mid);
            }
        }
    }
    r
}

} // verus!
