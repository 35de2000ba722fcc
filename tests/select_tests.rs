use actionoscope::model::{Job, Step};
use actionoscope::select::SelectError;

fn step(name: Option<&str>, id: Option<&str>) -> Step {
    Step {
        name: name.map(String::from),
        id: id.map(String::from),
        uses: None,
        shell: None,
        working_directory: None,
        run: Some(String::from("true")),
    }
}

fn ids(steps: &[&Step]) -> Vec<String> {
    steps.iter().map(|s| s.get_name_or_id().to_string()).collect()
}

fn four_steps() -> Job {
    Job {
        runs_on: String::from("ubuntu-latest"),
        steps: vec![
            step(None, Some("1")),
            step(None, Some("2")),
            step(None, Some("3")),
            step(None, Some("4")),
        ],
    }
}

#[test]
fn identity_resolution() {
    let job = Job {
        runs_on: String::from("ubuntu-latest"),
        steps: vec![step(None, Some("a")), step(Some("B"), Some("b2")), step(None, Some("c"))],
    };
    assert!(std::ptr::eq(job.get_step("B").unwrap(), &job.steps[1]));
    assert!(std::ptr::eq(job.get_step("b2").unwrap(), &job.steps[1]));
    assert!(job.get_step("zzz").is_none());
    assert_eq!(job.find_step_index("c"), Some(2));
    assert_eq!(
        job.get_steps_in_range(Some("zzz"), None).unwrap_err(),
        SelectError::StepNotFound(String::from("zzz"))
    );
}

#[test]
fn first_match_wins_on_collision() {
    let job = Job {
        runs_on: String::from("x"),
        steps: vec![step(Some("build"), Some("one")), step(Some("other"), Some("build"))],
    };
    assert_eq!(job.find_step_index("build"), Some(0));
    assert_eq!(job.get_step("build").unwrap().get_name_or_id(), "build");
}

#[test]
fn range_inclusivity() {
    let job = four_steps();
    assert_eq!(ids(&job.get_steps_in_range(Some("2"), None).unwrap()), vec!["2", "3", "4"]);
    assert_eq!(ids(&job.get_steps_in_range(None, Some("3")).unwrap()), vec!["1", "2", "3"]);
    assert_eq!(ids(&job.get_steps_in_range(Some("2"), Some("3")).unwrap()), vec!["2", "3"]);
    assert_eq!(ids(&job.get_steps_in_range(None, None).unwrap()), vec!["1", "2", "3", "4"]);
    assert_eq!(ids(&job.get_steps_in_range(Some("3"), Some("3")).unwrap()), vec!["3"]);
}

#[test]
fn empty_range_policy() {
    let job = four_steps();
    assert!(job.get_steps_in_range(Some("3"), Some("1")).unwrap().is_empty());
}

#[test]
fn range_bounds_must_exist() {
    let job = four_steps();
    assert_eq!(
        job.get_steps_in_range(Some("9"), Some("8")).unwrap_err(),
        SelectError::StepNotFound(String::from("9"))
    );
    assert_eq!(
        job.get_steps_in_range(Some("1"), Some("8")).unwrap_err(),
        SelectError::StepNotFound(String::from("8"))
    );
}

#[test]
fn steps_since_unknown_is_empty() {
    let job = four_steps();
    assert!(job.get_all_steps_since("nope").is_empty());
    assert_eq!(ids(&job.get_all_steps_since("1")), vec!["1", "2", "3", "4"]);
}

#[test]
fn range_of_empty_job() {
    let job = Job { runs_on: String::from("x"), steps: Vec::new() };
    assert!(job.get_steps_in_range(None, None).unwrap().is_empty());
    assert!(job.get_step("a").is_none());
}
