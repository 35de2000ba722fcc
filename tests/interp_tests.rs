use actionoscope::interp::{interpolate, lookup_var};
use actionoscope::launch::merge_scope;

fn vars(pairs: &[(&str, &str)]) -> Vec<(String, String)> {
    pairs.iter().map(|(k, v)| (k.to_string(), v.to_string())).collect()
}

#[test]
fn text_without_markers_is_unchanged() {
    let scope = vars(&[("X", "1")]);
    let ambient = vars(&[("Y", "2")]);
    for s in ["", "echo hello", "${{ X }}", "${ env.X }", "$${{ env. }}", "{{ env.X }}", "ünï ${{"] {
        assert_eq!(interpolate(s, &scope, &ambient), s);
    }
}

#[test]
fn interpolation_precedence() {
    let local = vars(&[("X", "local")]);
    let global = vars(&[("X", "global")]);
    let none = vars(&[]);
    assert_eq!(interpolate("${{ env.X }}", &local, &global), "local");
    assert_eq!(interpolate("${{ env.X }}", &none, &global), "global");
    assert_eq!(interpolate("${{ env.X }}", &none, &none), "");
}

#[test]
fn markers_tolerate_white_space() {
    let scope = vars(&[("A_1", "v")]);
    let none = vars(&[]);
    assert_eq!(interpolate("${{env.A_1}}", &scope, &none), "v");
    assert_eq!(interpolate("${{   env.A_1 \t}}", &scope, &none), "v");
    assert_eq!(interpolate("a${{ env.A_1 }}b${{ env.A_1 }}c", &scope, &none), "avbvc");
}

#[test]
fn malformed_markers_are_kept() {
    let scope = vars(&[("X", "v")]);
    let none = vars(&[]);
    assert_eq!(interpolate("${{ env.X- }}", &scope, &none), "${{ env.X- }}");
    assert_eq!(interpolate("${{ env.X }", &scope, &none), "${{ env.X }");
    assert_eq!(interpolate("$${{ env.X }}", &scope, &none), "$v");
}

#[test]
fn first_entry_of_a_name_counts() {
    let v = vars(&[("K", "first"), ("K", "second")]);
    assert_eq!(lookup_var(&v, "K").unwrap(), "first");
    assert!(lookup_var(&v, "k").is_none());
}

#[test]
fn secrets_override_workflow_env() {
    let env = vars(&[("A", "env"), ("B", "env")]);
    let secrets = vars(&[("B", "secret"), ("C", "secret")]);
    let scope = merge_scope(Some(&env), Some(&secrets));
    assert_eq!(lookup_var(&scope, "A").unwrap(), "env");
    assert_eq!(lookup_var(&scope, "B").unwrap(), "secret");
    assert_eq!(lookup_var(&scope, "C").unwrap(), "secret");
    assert!(merge_scope(None, None).is_empty());
    assert_eq!(interpolate("${{ env.B }}", &scope, &vars(&[])), "secret");
}
