use actionoscope::launch::StepFailure;
use actionoscope::machine::{Action, Failure, Outcome, Run};
use actionoscope::model::{Job, Step, Trigger, Workflow};
use actionoscope::run::{PlanError, Selection};

fn step(id: &str, run: Option<&str>) -> Step {
    Step {
        name: None,
        id: Some(id.to_string()),
        uses: None,
        shell: None,
        working_directory: None,
        run: run.map(String::from),
    }
}

fn workflow(jobs: Vec<(&str, Vec<Step>)>) -> Workflow {
    Workflow {
        name: String::from("ci"),
        on: Trigger { push: None, pull_request: None },
        jobs: jobs
            .into_iter()
            .map(|(n, steps)| (n.to_string(), Job { runs_on: String::from("ubuntu-latest"), steps }))
            .collect(),
        env: None,
    }
}

fn all() -> Selection {
    Selection::Range { from: None, to: None }
}

#[test]
fn fail_fast_stops_at_first_failure() {
    let w = workflow(vec![(
        "build",
        vec![step("ok1", Some("true")), step("fails", Some("false")), step("ok2", Some("true"))],
    )]);
    let items = w.plan_run(Some("build"), &all()).unwrap();
    assert_eq!(items, vec![(0, 0), (0, 1), (0, 2)]);
    let none = Vec::new();
    let mut run = Run::new(items);
    let mut launched = Vec::new();
    loop {
        match run.advance(&w, &none, &none) {
            Action::Launch { job, step, invocation } => {
                launched.push(w.jobs[job].1.steps[step].get_name_or_id().to_string());
                let ok = invocation.command == "true";
                run.report(if ok { Outcome::Success } else { Outcome::Exited(Some(1)) });
            }
            Action::Completed => panic!("the run cannot complete"),
            Action::Halted => break,
        }
    }
    assert_eq!(launched, vec!["ok1", "fails"]);
    assert_eq!(
        run.failure,
        Some(Failure { job: 0, step: 1, cause: StepFailure::NonZeroExit(Some(1)) })
    );
    assert!(matches!(run.advance(&w, &none, &none), Action::Halted));
}

#[test]
fn run_completes_when_all_succeed() {
    let w = workflow(vec![
        ("a", vec![step("a1", Some("true"))]),
        ("b", vec![step("b1", Some("true")), step("b2", Some("true"))]),
    ]);
    let items = w.plan_run(None, &all()).unwrap();
    assert_eq!(items, vec![(0, 0), (1, 0), (1, 1)]);
    let none = Vec::new();
    let mut run = Run::new(items);
    let mut count = 0;
    loop {
        match run.advance(&w, &none, &none) {
            Action::Launch { .. } => {
                count += 1;
                run.report(Outcome::Success);
            }
            Action::Completed => break,
            Action::Halted => panic!("nothing fails"),
        }
    }
    assert_eq!(count, 3);
    assert_eq!(run.next, 3);
    assert!(run.failure.is_none());
}

#[test]
fn step_without_run_halts_before_launch() {
    let mut uses = step("checkout", None);
    uses.uses = Some(String::from("actions/checkout@v4"));
    let w = workflow(vec![("a", vec![uses, step("after", Some("true"))])]);
    let none = Vec::new();
    let mut run = Run::new(w.plan_run(None, &all()).unwrap());
    assert!(matches!(run.advance(&w, &none, &none), Action::Halted));
    assert_eq!(
        run.failure,
        Some(Failure { job: 0, step: 0, cause: StepFailure::NoRunCommand(String::from("checkout")) })
    );
}

#[test]
fn launch_and_io_failures_are_reported() {
    let w = workflow(vec![("a", vec![step("s", Some("x"))])]);
    let none = Vec::new();
    let mut run = Run::new(w.plan_run(None, &all()).unwrap());
    assert!(matches!(run.advance(&w, &none, &none), Action::Launch { .. }));
    run.report(Outcome::LaunchFailed(String::from("no such shell")));
    assert_eq!(run.failure.unwrap().cause, StepFailure::LaunchError(String::from("no such shell")));

    let mut run = Run::new(w.plan_run(None, &all()).unwrap());
    assert!(matches!(run.advance(&w, &none, &none), Action::Launch { .. }));
    run.report(Outcome::Io(String::from("broken pipe")));
    assert_eq!(run.failure.unwrap().cause, StepFailure::IoError(String::from("broken pipe")));
}

#[test]
fn plan_errors_come_before_any_launch() {
    let w = workflow(vec![
        ("a", vec![step("x", Some("true"))]),
        ("b", vec![step("y", Some("true"))]),
    ]);
    assert_eq!(
        w.plan_run(Some("zzz"), &all()).unwrap_err(),
        PlanError::JobNotFound(String::from("zzz"))
    );
    assert_eq!(
        w.plan_run(None, &Selection::Single(String::from("x"))).unwrap_err(),
        PlanError::StepNotFound { job: String::from("b"), step: String::from("x") }
    );
    assert_eq!(
        w.plan_run(Some("a"), &Selection::Range { from: Some(String::from("x")), to: Some(String::from("q")) })
            .unwrap_err(),
        PlanError::StepNotFound { job: String::from("a"), step: String::from("q") }
    );
    assert_eq!(w.plan_run(Some("b"), &Selection::Single(String::from("y"))).unwrap(), vec![(1, 0)]);
    assert_eq!(w.find_job_index("b"), Some(1));
}

#[test]
fn reversed_range_plans_nothing() {
    let w = workflow(vec![("a", vec![step("1", Some("t")), step("2", Some("t")), step("3", Some("t"))])]);
    let sel = Selection::Range { from: Some(String::from("3")), to: Some(String::from("1")) };
    assert!(w.plan_run(Some("a"), &sel).unwrap().is_empty());
    let none = Vec::new();
    let mut run = Run::new(Vec::new());
    assert!(matches!(run.advance(&w, &none, &none), Action::Completed));
}
