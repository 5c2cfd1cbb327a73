use cargo_script::env::{get_final_env, EnvVars};
use cargo_script::manifest::{Script, ScriptDetails, Scripts};
use cargo_script::plan::{run_plan, Step};
use cargo_script::preview::{dry_run_script, PreviewItem};

fn details() -> ScriptDetails {
    ScriptDetails {
        command: None,
        requires: None,
        toolchain: None,
        info: None,
        env: None,
        includes: None,
        interpreter: None,
    }
}

fn vars(pairs: &[(&str, &str)]) -> EnvVars {
    let mut e = EnvVars::new();
    for (k, v) in pairs {
        e.insert(k.to_string(), v.to_string());
    }
    e
}

fn strings(v: &[&str]) -> Vec<String> {
    v.iter().map(|s| s.to_string()).collect()
}

fn spawned(steps: &[Step]) -> Vec<String> {
    steps
        .iter()
        .filter_map(|s| match s {
            Step::Spawn { command, .. } => Some(command.clone()),
            _ => None,
        })
        .collect()
}

fn spawn_env(steps: &[Step]) -> &EnvVars {
    steps
        .iter()
        .find_map(|s| match s {
            Step::Spawn { invocation, .. } => Some(&invocation.env),
            _ => None,
        })
        .expect("a spawn step")
}

#[test]
fn overrides_win_and_malformed_are_ignored() {
    let base = vars(&[("A", "1"), ("B", "2")]);
    let ov = strings(&["A=9", "NOEQUALS", "C=x=y"]);
    let env = get_final_env(&base, &ov);
    assert_eq!(env.get("A").map(|s| s.as_str()), Some("9"));
    assert_eq!(env.get("B").map(|s| s.as_str()), Some("2"));
    assert_eq!(env.get("C").map(|s| s.as_str()), Some("x=y"));
    assert_eq!(env.get("NOEQUALS"), None);
    assert_eq!(env.len(), 3);
}

#[test]
fn later_override_of_same_name_wins() {
    let env = get_final_env(&EnvVars::new(), &strings(&["X=1", "X=2"]));
    assert_eq!(env.get("X").map(|s| s.as_str()), Some("2"));
    assert_eq!(env.len(), 1);
}

fn precedence_manifest(with_script_env: bool) -> Scripts {
    let mut m = Scripts::new();
    m.global_env = Some(vars(&[("X", "g")]));
    let mut d = details();
    d.command = Some("printenv X".to_string());
    if with_script_env {
        d.env = Some(vars(&[("X", "s")]));
    }
    m.add_script("show_x".to_string(), Script::Inline(d));
    m
}

#[test]
fn env_precedence_command_line_then_script_then_global() {
    let m = precedence_manifest(true);
    let steps = run_plan(&m, "show_x", &strings(&["X=c"]), false);
    assert_eq!(spawn_env(&steps).get("X").map(|s| s.as_str()), Some("c"));
    let steps = run_plan(&m, "show_x", &vec![], false);
    assert_eq!(spawn_env(&steps).get("X").map(|s| s.as_str()), Some("s"));
    let m = precedence_manifest(false);
    let steps = run_plan(&m, "show_x", &vec![], false);
    assert_eq!(spawn_env(&steps).get("X").map(|s| s.as_str()), Some("g"));
}

fn chain_manifest() -> Scripts {
    let mut m = Scripts::new();
    m.add_script("a".to_string(), Script::Default("echo A".to_string()));
    m.add_script("b".to_string(), Script::Default("echo B".to_string()));
    let mut d = details();
    d.includes = Some(strings(&["a", "b"]));
    d.command = Some("echo SELF".to_string());
    d.info = Some("Release info".to_string());
    m.add_script("release".to_string(), Script::Inline(d));
    m
}

#[test]
fn pre_run_scripts_run_in_order_before_own_command() {
    let m = chain_manifest();
    let steps = run_plan(&m, "release", &vec![], false);
    assert_eq!(spawned(&steps), strings(&["echo A", "echo B", "echo SELF"]));
    match &steps[0] {
        Step::Start { script, level } => {
            assert_eq!(script, "release");
            assert_eq!(*level, 0);
        }
        _ => panic!("first step starts the timer"),
    }
    match steps.last().unwrap() {
        Step::Finish { script, timed } => {
            assert_eq!(script, "release");
            assert!(*timed);
        }
        _ => panic!("last step stops the timer"),
    }
}

#[test]
fn pre_run_only_entry_at_root_is_not_timed() {
    let mut m = chain_manifest();
    let mut d = details();
    d.includes = Some(strings(&["a"]));
    m.add_script("group".to_string(), Script::Inline(d));
    let steps = run_plan(&m, "group", &vec![], false);
    let finishes: Vec<(String, bool)> = steps
        .iter()
        .filter_map(|s| match s {
            Step::Finish { script, timed } => Some((script.clone(), *timed)),
            _ => None,
        })
        .collect();
    assert_eq!(finishes, vec![("a".to_string(), true), ("group".to_string(), false)]);
}

#[test]
fn missing_root_script_fails_at_once() {
    let m = chain_manifest();
    let steps = run_plan(&m, "nope", &vec![], false);
    assert_eq!(steps.len(), 1);
    assert!(matches!(&steps[0], Step::Missing { script } if script == "nope"));
}

#[test]
fn missing_listed_script_stops_after_earlier_ones() {
    let mut m = chain_manifest();
    let mut d = details();
    d.includes = Some(strings(&["a", "ghost", "b"]));
    d.command = Some("echo SELF".to_string());
    m.add_script("broken".to_string(), Script::Inline(d));
    let steps = run_plan(&m, "broken", &vec![], false);
    assert_eq!(spawned(&steps), strings(&["echo A"]));
    assert!(matches!(steps.last().unwrap(), Step::Missing { script } if script == "ghost"));
}

#[test]
fn looping_pre_run_lists_end_in_a_cycle_step() {
    let mut m = Scripts::new();
    let mut d1 = details();
    d1.includes = Some(strings(&["y"]));
    let mut d2 = details();
    d2.includes = Some(strings(&["x"]));
    m.add_script("x".to_string(), Script::Inline(d1));
    m.add_script("y".to_string(), Script::Inline(d2));
    let steps = run_plan(&m, "x", &vec![], false);
    assert!(matches!(steps.last().unwrap(), Step::Cycle { .. }));
    assert!(spawned(&steps).is_empty());
}

#[test]
fn requirements_are_checked_before_anything_runs() {
    let mut m = Scripts::new();
    let mut d = details();
    d.requires = Some(strings(&["rustup < 1.24.3"]));
    d.toolchain = Some("stable".to_string());
    d.command = Some("cargo build".to_string());
    m.add_script("inline_script".to_string(), Script::Inline(d));
    let steps = run_plan(&m, "inline_script", &vec![], false);
    match &steps[1] {
        Step::CheckRequirements { script, tools, toolchain, .. } => {
            assert_eq!(script, "inline_script");
            assert_eq!(tools, &strings(&["rustup < 1.24.3"]));
            assert_eq!(toolchain.as_deref(), Some("stable"));
        }
        _ => panic!("second step checks requirements"),
    }
}

#[test]
fn toolchain_wins_over_interpreter_in_the_plan() {
    let mut m = Scripts::new();
    let mut d = details();
    d.command = Some("cargo build".to_string());
    d.toolchain = Some("stable".to_string());
    d.interpreter = Some("bash".to_string());
    m.add_script("tc".to_string(), Script::CILike { script: "ci".to_string(), details: d });
    let steps = run_plan(&m, "tc", &vec![], false);
    let inv = steps
        .iter()
        .find_map(|s| match s {
            Step::Spawn { invocation, .. } => Some(invocation),
            _ => None,
        })
        .unwrap();
    assert_eq!(inv.program, "sh");
    assert_eq!(inv.args, strings(&["-c", "cargo +stable cargo build"]));
}

#[test]
fn dry_run_lists_the_command_and_starts_nothing() {
    let mut m = Scripts::new();
    m.add_script("side".to_string(), Script::Default("echo SIDE_EFFECT".to_string()));
    let items = dry_run_script(&m, "side", &vec![], false);
    assert_eq!(items.len(), 1);
    match &items[0] {
        PreviewItem::Command { script, level, command, interpreter, toolchain, env } => {
            assert_eq!(script, "side");
            assert_eq!(*level, 0);
            assert_eq!(command, "echo SIDE_EFFECT");
            assert!(interpreter.is_none() && toolchain.is_none());
            assert_eq!(env.len(), 0);
        }
        _ => panic!("a command item"),
    }
}

#[test]
fn dry_run_shows_chain_env_and_verbose_details() {
    let mut m = chain_manifest();
    let mut d = details();
    d.command = Some("echo $TEST_VAR".to_string());
    d.env = Some(vars(&[("TEST_VAR", "test_value")]));
    d.requires = Some(strings(&["git"]));
    d.toolchain = Some("stable".to_string());
    d.interpreter = Some("bash".to_string());
    d.info = Some("Env test".to_string());
    m.add_script("test_env".to_string(), Script::Inline(d));
    let items = dry_run_script(&m, "test_env", &strings(&["OVERRIDE_VAR=overridden"]), true);
    assert!(matches!(&items[0], PreviewItem::Requirements { tools, .. } if tools == &strings(&["git"])));
    assert!(matches!(&items[1], PreviewItem::Toolchain { name, .. } if name == "stable"));
    assert!(matches!(&items[2], PreviewItem::Description { text, .. } if text == "Env test"));
    match &items[3] {
        PreviewItem::Command { interpreter, env, .. } => {
            assert_eq!(interpreter.as_deref(), Some("bash"));
            assert_eq!(env.get("TEST_VAR").map(|s| s.as_str()), Some("test_value"));
            assert_eq!(env.get("OVERRIDE_VAR").map(|s| s.as_str()), Some("overridden"));
        }
        _ => panic!("a command item"),
    }
    assert_eq!(items.len(), 4);

    let items = dry_run_script(&m, "release", &vec![], false);
    assert!(matches!(&items[0], PreviewItem::IncludesHeader { script, info: None, .. } if script == "release"));
    let commands: Vec<(String, usize)> = items
        .iter()
        .filter_map(|i| match i {
            PreviewItem::Command { command, level, .. } => Some((command.clone(), *level)),
            _ => None,
        })
        .collect();
    assert_eq!(
        commands,
        vec![("echo A".to_string(), 1), ("echo B".to_string(), 1), ("echo SELF".to_string(), 0)]
    );
}

#[test]
fn dry_run_reports_missing_script() {
    let m = chain_manifest();
    let items = dry_run_script(&m, "nonexistent", &vec![], false);
    assert!(matches!(&items[0], PreviewItem::Missing { script } if script == "nonexistent"));
}

#[test]
fn add_script_replaces_same_name() {
    let mut m = Scripts::new();
    m.add_script("a".to_string(), Script::Default("one".to_string()));
    m.add_script("a".to_string(), Script::Default("two".to_string()));
    assert_eq!(m.scripts.len(), 1);
    assert!(matches!(m.get("a"), Some(Script::Default(c)) if c == "two"));
    assert_eq!(m.script_names(), strings(&["a"]));
}
