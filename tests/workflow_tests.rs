use actionoscope::model::{Node, Workflow};
use actionoscope::schema::ParseError;

fn node(v: serde_yaml::Value) -> Node {
    match v {
        serde_yaml::Value::Null => Node::Null,
        serde_yaml::Value::Bool(b) => Node::Bool(b),
        serde_yaml::Value::Number(n) => Node::Number(n.to_string()),
        serde_yaml::Value::String(s) => Node::Text(s),
        serde_yaml::Value::Sequence(items) => Node::List(items.into_iter().map(node).collect()),
        serde_yaml::Value::Mapping(m) => Node::Dict(m.into_iter().map(|(k, v)| (node(k), node(v))).collect()),
        serde_yaml::Value::Tagged(t) => node(t.value),
    }
}

fn from_yaml(text: &str) -> Result<Workflow, String> {
    let v: serde_yaml::Value = serde_yaml::from_str(text).map_err(|e| e.to_string())?;
    Workflow::from_node(node(v)).map_err(|e| e.cause)
}

const TWO_KEYS: &str = r#"
    name: Test Workflow
    on:
      push:
        branches:
          - main
    jobs:
      test_job:
        runs-on: ubuntu-latest
        steps:
          - name: Test Step
            run: echo "Hello, world!"
    "#;

#[test]
fn test_workflow_from_yaml() {
    let yaml_data = TWO_KEYS;
    let workflow = from_yaml(yaml_data).expect("Failed to parse YAML");
    assert_eq!(workflow.name, "Test Workflow");
    assert!(workflow.get_job("test_job").is_some());
}

#[test]
fn test_get_job() {
    let yaml_data = TWO_KEYS;
    let workflow = from_yaml(yaml_data).expect("Failed to parse YAML");
    let job = workflow.get_job("test_job").expect("Job not found");
    assert_eq!(job.runs_on, "ubuntu-latest");
}

#[test]
fn test_get_step() {
    let yaml_data = r#"
    name: Test Workflow
    on:
      push:
        branches:
          - main
    jobs:
      test_job:
        runs-on: ubuntu-latest
        steps:
          - name: Test Step
            id: test_step
            run: echo "Hello, world!"
    "#;

    let workflow = from_yaml(yaml_data).expect("Failed to parse YAML");
    let job = workflow.get_job("test_job").expect("Job not found");
    let step = job.get_step("test_step").expect("Step not found");
    assert_eq!(step.get_name_or_id(), "Test Step");
}

#[test]
fn test_get_all_steps_since() {
    let yaml_data = r#"
    name: Test Workflow
    on:
      push:
        branches:
          - main
    jobs:
      test_job:
        runs-on: ubuntu-latest
        steps:
          - name: Step 1
            id: step1
            run: echo "Step 1"
          - name: Step 2
            id: step2
            run: echo "Step 2"
          - name: Step 3
            id: step3
            run: echo "Step 3"
    "#;

    let workflow = from_yaml(yaml_data).expect("Failed to parse YAML");
    let job = workflow.get_job("test_job").expect("Job not found");
    let steps = job.get_all_steps_since("step2");
    assert_eq!(steps.len(), 2);
    assert_eq!(steps[0].get_name_or_id(), "Step 2");
    assert_eq!(steps[1].get_name_or_id(), "Step 3");
}

#[test]
fn parsed_fields_are_kept_exactly() {
    let text = r#"
name: ci
on:
  push:
    branches: [main, dev]
    tags: ["v*"]
  pull_request:
    types: [opened]
env:
  A: one
  B: "two"
jobs:
  build:
    runs-on: ubuntu-22.04
    extra: ignored
    steps:
      - uses: actions/checkout@v4
      - name: Make
        id: make
        shell: sh
        working-directory: src
        run: make all
  test:
    runs-on: macos
    steps: []
"#;
    let w = from_yaml(text).unwrap();
    assert_eq!(w.name, "ci");
    let push = w.on.push.as_ref().unwrap();
    assert_eq!(push.branches, Some(vec![String::from("main"), String::from("dev")]));
    assert_eq!(push.tags, Some(vec![String::from("v*")]));
    assert_eq!(push.paths, None);
    assert!(matches!(w.on.pull_request, Some(Node::Dict(_))));
    assert_eq!(
        w.env,
        Some(vec![
            (String::from("A"), String::from("one")),
            (String::from("B"), String::from("two"))
        ])
    );
    assert_eq!(w.jobs.len(), 2);
    assert_eq!(w.jobs[0].0, "build");
    assert_eq!(w.jobs[1].0, "test");
    let build = w.get_job("build").unwrap();
    assert_eq!(build.runs_on, "ubuntu-22.04");
    assert_eq!(build.steps[0].uses.as_deref(), Some("actions/checkout@v4"));
    assert_eq!(build.steps[0].run, None);
    let make = &build.steps[1];
    assert_eq!(make.shell.as_deref(), Some("sh"));
    assert_eq!(make.working_directory.as_deref(), Some("src"));
    assert_eq!(make.run.as_deref(), Some("make all"));
    assert!(w.get_job("test").unwrap().steps.is_empty());
    assert!(w.get_job("Build").is_none());
}

#[test]
fn minimal_workflow_round_trips() {
    let text = "name: rt\non: {}\njobs:\n  only:\n    runs-on: linux\n    steps:\n      - run: echo \"a  b\"\n";
    let first = from_yaml(text).unwrap();
    let mut steps = serde_yaml::Sequence::new();
    let mut step = serde_yaml::Mapping::new();
    step.insert("run".into(), first.jobs[0].1.steps[0].run.clone().unwrap().into());
    steps.push(step.into());
    let mut job = serde_yaml::Mapping::new();
    job.insert("runs-on".into(), first.jobs[0].1.runs_on.clone().into());
    job.insert("steps".into(), steps.into());
    let mut jobs = serde_yaml::Mapping::new();
    jobs.insert(first.jobs[0].0.clone().into(), job.into());
    let mut doc = serde_yaml::Mapping::new();
    doc.insert("name".into(), first.name.clone().into());
    doc.insert("on".into(), serde_yaml::Mapping::new().into());
    doc.insert("jobs".into(), jobs.into());
    let again = from_yaml(&serde_yaml::to_string(&doc).unwrap()).unwrap();
    assert_eq!(again.name, "rt");
    assert_eq!(again.jobs[0].0, "only");
    assert_eq!(again.jobs[0].1.runs_on, "linux");
    assert_eq!(again.jobs[0].1.steps[0].run.as_deref(), Some("echo \"a  b\""));
}

#[test]
fn missing_and_invalid_fields_are_errors() {
    let no_name = "on: {}\njobs: {}\n";
    let v: serde_yaml::Value = serde_yaml::from_str(no_name).unwrap();
    assert_eq!(Workflow::from_node(node(v)).unwrap_err(), ParseError { cause: String::from("missing field name") });
    let no_on = "name: x\njobs: {}\n";
    let v: serde_yaml::Value = serde_yaml::from_str(no_on).unwrap();
    assert_eq!(Workflow::from_node(node(v)).unwrap_err(), ParseError { cause: String::from("missing field on") });
    let bad_steps = "name: x\non: {}\njobs:\n  j:\n    runs-on: l\n    steps: 3\n";
    let v: serde_yaml::Value = serde_yaml::from_str(bad_steps).unwrap();
    assert_eq!(Workflow::from_node(node(v)).unwrap_err(), ParseError { cause: String::from("invalid field steps") });
    assert!(Workflow::from_node(Node::Text(String::from("x"))).is_err());
    assert!(Workflow::from_node(Node::List(Vec::new())).is_err());
}

fn value(n: Node) -> serde_yaml::Value {
    match n {
        Node::Null => serde_yaml::Value::Null,
        Node::Bool(b) => serde_yaml::Value::Bool(b),
        Node::Number(s) => serde_yaml::from_str(&s).unwrap(),
        Node::Text(s) => serde_yaml::Value::String(s),
        Node::List(items) => serde_yaml::Value::Sequence(items.into_iter().map(value).collect()),
        Node::Dict(e) => serde_yaml::Value::Mapping(e.into_iter().map(|(k, v)| (value(k), value(v))).collect()),
    }
}

#[test]
fn written_workflow_reads_back_the_same() {
    let text = "name: rt\non:\n  push:\n    branches: [main]\n  pull_request: {types: [opened]}\nenv:\n  K: v\njobs:\n  first:\n    runs-on: linux\n    steps:\n      - run: \"echo ${{ env.K }}\"\n        id: one\n      - uses: some/action@v1\n  second:\n    runs-on: mac\n    steps: []\n";
    let parsed = from_yaml(text).unwrap();
    let node = from_yaml(text).unwrap().to_node();
    let yaml = serde_yaml::to_string(&value(node)).unwrap();
    let back = from_yaml(&yaml).unwrap();
    assert_eq!(back.name, parsed.name);
    assert_eq!(back.env, parsed.env);
    assert_eq!(back.jobs.len(), 2);
    for (a, b) in back.jobs.iter().zip(parsed.jobs.iter()) {
        assert_eq!(a.0, b.0);
        assert_eq!(a.1.runs_on, b.1.runs_on);
        assert_eq!(a.1.steps.len(), b.1.steps.len());
        for (x, y) in a.1.steps.iter().zip(b.1.steps.iter()) {
            assert_eq!(x.run, y.run);
            assert_eq!(x.id, y.id);
            assert_eq!(x.uses, y.uses);
        }
    }
    assert_eq!(back.on.push.unwrap().branches, Some(vec![String::from("main")]));
    assert!(matches!(back.on.pull_request, Some(Node::Dict(_))));
}
