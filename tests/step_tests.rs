use actionoscope::launch::StepFailure;
use actionoscope::Step;

fn bare_step() -> Step {
    Step { name: None, id: None, uses: None, shell: None, working_directory: None, run: None }
}

#[test]
fn test_get_name_or_id_with_name() {
    let step = Step {
        name: Some(String::from("Test Step")),
        id: None,
        uses: None,
        shell: None,
        working_directory: None,
        run: None,
    };
    assert_eq!(step.get_name_or_id(), "Test Step");
}

#[test]
fn test_get_name_or_id_with_id() {
    let step = Step {
        name: None,
        id: Some(String::from("test_step")),
        uses: None,
        shell: None,
        working_directory: None,
        run: None,
    };
    assert_eq!(step.get_name_or_id(), "test_step");
}

#[test]
fn test_get_name_or_id_with_name_and_id() {
    let step = Step {
        name: Some(String::from("Test Step")),
        id: Some(String::from("test_step")),
        uses: None,
        shell: None,
        working_directory: None,
        run: None,
    };
    assert_eq!(step.get_name_or_id(), "Test Step");
}

#[test]
fn test_get_name_or_id_with_none() {
    let step = Step {
        name: None,
        id: None,
        uses: None,
        shell: None,
        working_directory: None,
        run: None,
    };
    assert_eq!(step.get_name_or_id(), "unknown");
}

#[test]
fn invocation_without_run_is_no_run_command() {
    let step = Step {
        name: Some(String::from("Test Step")),
        id: Some(String::from("test_step")),
        uses: None,
        shell: Some(String::from("echo")),
        working_directory: None,
        run: None,
    };
    let r = step.invocation(&Vec::new(), &Vec::new());
    assert_eq!(r.unwrap_err(), StepFailure::NoRunCommand(String::from("Test Step")));
}

#[test]
fn uses_step_is_unsupported_whatever_its_fields() {
    let mut step = bare_step();
    step.uses = Some(String::from("actions/checkout@v4"));
    step.id = Some(String::from("checkout"));
    step.shell = Some(String::from("sh"));
    step.working_directory = Some(String::from("/tmp"));
    let r = step.invocation(&Vec::new(), &Vec::new());
    assert_eq!(r.unwrap_err(), StepFailure::NoRunCommand(String::from("checkout")));

    let mut anonymous = bare_step();
    anonymous.uses = Some(String::from("actions/setup-node@v4"));
    let r = anonymous.invocation(&Vec::new(), &Vec::new());
    assert_eq!(r.unwrap_err(), StepFailure::NoRunCommand(String::from("unknown")));
}

#[test]
fn invocation_defaults_to_bash_and_trims() {
    let mut step = bare_step();
    step.run = Some(String::from("  echo ${{ env.WHO }}\n"));
    let scope = vec![(String::from("WHO"), String::from("world"))];
    let inv = step.invocation(&scope, &Vec::new()).unwrap();
    assert_eq!(inv.shell, "bash");
    assert_eq!(inv.command, "echo world");
    assert_eq!(inv.working_directory, None);
}

#[test]
fn invocation_keeps_shell_and_directory() {
    let mut step = bare_step();
    step.run = Some(String::from("make"));
    step.shell = Some(String::from("sh"));
    step.working_directory = Some(String::from("build"));
    let inv = step.invocation(&Vec::new(), &Vec::new()).unwrap();
    assert_eq!(inv.shell, "sh");
    assert_eq!(inv.command, "make");
    assert_eq!(inv.working_directory, Some(String::from("build")));
}

#[test]
fn addressed_by_name_or_id() {
    let mut step = bare_step();
    step.name = Some(String::from("B"));
    step.id = Some(String::from("b2"));
    assert!(step.is_addressed_by("B"));
    assert!(step.is_addressed_by("b2"));
    assert!(!step.is_addressed_by("b"));
    assert!(!bare_step().is_addressed_by(""));
}
