use cargo_script::commands::Shell;
use cargo_script::distance::{find_similar_scripts, levenshtein_distance};
use cargo_script::error::{create_tool_not_found_error, create_toolchain_not_found_error, locked_binary_failure, CargoScriptError};
use cargo_script::invocation::{build_invocation, check_exit_status};
use cargo_script::env::EnvVars;
use cargo_script::listing::{column_widths, picker_labels, show_rows, sort_rows_by_name, text_le_str};
use cargo_script::manifest::{Script, ScriptDetails, Scripts};
use cargo_script::metrics::ScriptDurations;
use cargo_script::requirements::{judge_requirement, judge_toolchain, requirement_probe, toolchain_probe, Probe, ProbeOutcome, RequirementCheck};
use cargo_script::validate::{validate_requirement, validate_scripts, validate_toolchain, validation_probes, ValidationResult};

fn strings(v: &[&str]) -> Vec<String> {
    v.iter().map(|s| s.to_string()).collect()
}

fn details() -> ScriptDetails {
    ScriptDetails {
        command: None,
        requires: None,
        toolchain: None,
        info: None,
        env: None,
        includes: None,
        interpreter: None,
    }
}

fn launched(s: &str) -> ProbeOutcome {
    ProbeOutcome::Launched { stdout: s.to_string() }
}

#[test]
fn levenshtein_known_values() {
    assert_eq!(levenshtein_distance("kitten", "sitting"), 3);
    assert_eq!(levenshtein_distance("", "abc"), 3);
    assert_eq!(levenshtein_distance("abc", ""), 3);
    assert_eq!(levenshtein_distance("build", "build"), 0);
    assert_eq!(levenshtein_distance("buil", "build"), 1);
    assert_eq!(levenshtein_distance("prepublis", "prepublish"), 1);
}

#[test]
fn suggestion_for_near_miss() {
    let names = strings(&["build", "test", "release"]);
    let s = find_similar_scripts("buil", &names);
    assert_eq!(s[0], "build");
    assert!(s.len() <= 3);
}

#[test]
fn suggestions_best_first_at_most_three_within_limit() {
    let names = strings(&["abcd", "abce", "zzzzzzzzzz", "abcf", "abc"]);
    let s = find_similar_scripts("abc", &names);
    assert_eq!(s, strings(&["abc", "abcd", "abce"]));
    let far = find_similar_scripts("ab", &strings(&["zzzzzzzz"]));
    assert!(far.is_empty());
    assert!(find_similar_scripts("x", &vec![]).is_empty());
}

#[test]
fn script_not_found_error_suggests() {
    let e = CargoScriptError::ScriptNotFound {
        script_name: "prepublis".to_string(),
        available_scripts: strings(&["prepublish", "build"]),
    };
    assert_eq!(e.suggestions()[0], "prepublish");
    let other = CargoScriptError::IncludeCycle { script_name: "x".to_string() };
    assert!(other.suggestions().is_empty());
}

#[test]
fn tool_hints() {
    match create_tool_not_found_error("docker", Some("20")) {
        CargoScriptError::ToolNotFound { tool, required_version, suggestion } => {
            assert_eq!(tool, "docker");
            assert_eq!(required_version.as_deref(), Some("20"));
            assert_eq!(suggestion, "Install Docker: https://docs.docker.com/get-docker/");
        }
        _ => panic!("tool error"),
    }
    match create_tool_not_found_error("foo", None) {
        CargoScriptError::ToolNotFound { suggestion, required_version, .. } => {
            assert_eq!(suggestion, "Install foo from your package manager or official website");
            assert!(required_version.is_none());
        }
        _ => panic!("tool error"),
    }
}

#[test]
fn toolchain_hints() {
    match create_toolchain_not_found_error("python:3.11") {
        CargoScriptError::ToolchainNotFound { toolchain, suggestion } => {
            assert_eq!(toolchain, "python:3.11");
            assert_eq!(suggestion, "Install Python 3.11 using your system package manager");
        }
        _ => panic!("toolchain error"),
    }
    match create_toolchain_not_found_error("nightly") {
        CargoScriptError::ToolchainNotFound { suggestion, .. } => {
            assert_eq!(suggestion, "Install toolchain: rustup toolchain install nightly");
        }
        _ => panic!("toolchain error"),
    }
}

#[test]
fn invocations_by_interpreter() {
    let i = build_invocation(Some("bash"), "echo hi", None, false, EnvVars::new());
    assert_eq!((i.program.as_str(), i.args.clone()), ("bash", strings(&["-c", "echo hi"])));
    let i = build_invocation(Some("powershell"), "dir", None, false, EnvVars::new());
    assert_eq!((i.program.as_str(), i.args.clone()), ("powershell", strings(&["-NoProfile", "-Command", "dir"])));
    let i = build_invocation(Some("cmd"), "dir", None, false, EnvVars::new());
    assert_eq!((i.program.as_str(), i.args.clone()), ("cmd", strings(&["/C", "dir"])));
    let i = build_invocation(Some("python3"), "print(1)", None, false, EnvVars::new());
    assert_eq!((i.program.as_str(), i.args.clone()), ("python3", strings(&["-c", "print(1)"])));
    let i = build_invocation(None, "ls", None, false, EnvVars::new());
    assert_eq!((i.program.as_str(), i.args.clone()), ("sh", strings(&["-c", "ls"])));
    let i = build_invocation(None, "dir", None, true, EnvVars::new());
    assert_eq!((i.program.as_str(), i.args.clone()), ("cmd", strings(&["/C", "dir"])));
    let i = build_invocation(Some("zsh"), "test", Some("nightly"), true, EnvVars::new());
    assert_eq!((i.program.as_str(), i.args.clone()), ("cmd", strings(&["/C", "cargo +nightly test"])));
}

#[test]
fn self_replacement_only_on_windows_failures() {
    assert!(matches!(
        check_exit_status("inst", "cargo install --path .", false, true),
        Err(CargoScriptError::WindowsSelfReplacementError { .. })
    ));
    assert!(check_exit_status("inst", "cargo install --path .", true, true).is_ok());
    assert!(check_exit_status("inst", "cargo install --path .", false, false).is_ok());
    assert!(check_exit_status("b", "cargo build", false, true).is_ok());
}

#[test]
fn requirement_probes_and_judgements() {
    assert!(matches!(requirement_probe("rustup 1.26"), Probe::Version { tool } if tool == "rustup"));
    assert!(matches!(requirement_probe("git"), Probe::Launch { tool } if tool == "git"));
    assert!(matches!(toolchain_probe("python:3.11"), Probe::PythonVersion));
    assert!(matches!(toolchain_probe("stable"), Probe::RustToolchains));
    assert!(judge_requirement("rustup 1.26", &launched("rustup 1.26.0 (5af9b9484 2023-04-05)")).is_ok());
    match judge_requirement("rustup < 1.24.3", &launched("rustup 1.26.0")) {
        Err(CargoScriptError::ToolNotFound { tool, required_version, .. }) => {
            assert_eq!(tool, "rustup");
            assert_eq!(required_version.as_deref(), Some("< 1.24.3"));
        }
        _ => panic!("version not found in output"),
    }
    assert!(judge_requirement("git", &launched("")).is_ok());
    assert!(judge_requirement("nonexistent_tool", &ProbeOutcome::NotLaunched).is_err());
    assert!(judge_toolchain("stable", &launched("stable-x86_64-unknown-linux-gnu (default)")).is_ok());
    assert!(matches!(
        judge_toolchain("nightly", &launched("stable-x86_64")),
        Err(CargoScriptError::ToolchainNotFound { .. })
    ));
    assert!(matches!(
        judge_toolchain("nightly", &ProbeOutcome::NotLaunched),
        Err(CargoScriptError::ToolNotFound { tool, .. }) if tool == "rustup"
    ));
    assert!(judge_toolchain("python:3.99", &ProbeOutcome::NotLaunched).is_ok());
}

#[test]
fn probe_command_lines() {
    let lines = Probe::PythonVersion.command_lines();
    assert_eq!(lines.len(), 2);
    assert_eq!(lines[0].0, "python");
    assert_eq!(lines[1].0, "python3");
    let lines = Probe::RustToolchains.command_lines();
    assert_eq!(lines[0].1, strings(&["toolchain", "list"]));
}

#[test]
fn requirement_messages() {
    let mut r = ValidationResult::new();
    validate_requirement("s", "nonexistent_tool", &ProbeOutcome::NotLaunched, &mut r);
    validate_requirement("s", "cargo >=1.70", &launched("cargo 1.75.0\nmore"), &mut r);
    validate_requirement("s", "cargo 1.60", &launched("cargo 1.75.0\r\nmore 1.60"), &mut r);
    validate_requirement("s", "cargo 1.75", &launched("cargo 1.75.0"), &mut r);
    assert_eq!(r.errors.len(), 2);
    assert_eq!(r.errors[0].message, "Required tool 'nonexistent_tool' is not installed or not in PATH");
    assert_eq!(r.errors[0].script.as_deref(), Some("s"));
    assert_eq!(r.errors[1].message, "Tool 'cargo' version requirement '1.60' not met. Found: cargo 1.75.0");
    assert_eq!(r.warnings.len(), 1);
    assert_eq!(
        r.warnings[0].message,
        "Tool 'cargo' found (version: cargo 1.75.0), but complex version requirement '>=1.70' validation is limited"
    );
    assert!(!r.is_valid());
}

#[test]
fn toolchain_messages() {
    let mut r = ValidationResult::new();
    validate_toolchain("s", "python:3.11", &launched("  Python 3.10.2\n"), &mut r);
    validate_toolchain("s", "python:3.10", &launched("Python 3.10.2\n"), &mut r);
    validate_toolchain("s", "python:3.11", &ProbeOutcome::NotLaunched, &mut r);
    validate_toolchain("s", "nightly-2020-01-01", &launched("stable"), &mut r);
    validate_toolchain("s", "stable", &ProbeOutcome::NotLaunched, &mut r);
    assert_eq!(r.warnings.len(), 1);
    assert_eq!(
        r.warnings[0].message,
        "Python toolchain 'python:3.11' requirement: Python found (Python 3.10.2), but version '3.11' not verified"
    );
    assert_eq!(r.errors.len(), 3);
    assert_eq!(r.errors[0].message, "Python toolchain 'python:3.11' required but Python is not installed or not in PATH");
    assert_eq!(r.errors[1].message, "Required Rust toolchain 'nightly-2020-01-01' is not installed");
    assert_eq!(r.errors[2].message, "rustup is not installed or not in PATH");
}

fn broken_manifest() -> Scripts {
    let mut m = Scripts::new();
    m.add_script("build".to_string(), Script::Default("cargo build".to_string()));
    let mut d1 = details();
    d1.includes = Some(strings(&["build", "missing1"]));
    m.add_script("script1".to_string(), Script::Inline(d1));
    let mut d2 = details();
    d2.requires = Some(strings(&["nonexistent_tool"]));
    d2.command = Some("nonexistent_tool --version".to_string());
    m.add_script("script3".to_string(), Script::Inline(d2));
    m
}

#[test]
fn validation_reports_each_broken_entry() {
    let m = broken_manifest();
    let probes = validation_probes(&m);
    assert_eq!(probes.len(), 1);
    assert!(matches!(&probes[0], Probe::Launch { tool } if tool == "nonexistent_tool"));
    let r = validate_scripts(&m, &vec![ProbeOutcome::NotLaunched]);
    assert_eq!(r.errors.len(), 2);
    assert_eq!(r.errors[0].script.as_deref(), Some("script1"));
    assert_eq!(r.errors[0].message, "Script 'script1' references non-existent script 'missing1'");
    assert_eq!(r.errors[1].script.as_deref(), Some("script3"));
    assert!(r.errors[1].message.contains("nonexistent_tool"));
    assert!(!r.is_valid());
}

#[test]
fn validation_of_a_clean_manifest_passes() {
    let mut m = Scripts::new();
    m.add_script("build".to_string(), Script::Default("cargo build".to_string()));
    m.add_script("test".to_string(), Script::Default("cargo test".to_string()));
    let mut d = details();
    d.includes = Some(strings(&["build", "test"]));
    m.add_script("all".to_string(), Script::Inline(d));
    assert!(validation_probes(&m).is_empty());
    let r = validate_scripts(&m, &vec![]);
    assert!(r.is_valid());
    assert!(r.warnings.is_empty());
}

#[test]
fn validation_twice_gives_the_same_report() {
    let m = broken_manifest();
    let a = validate_scripts(&m, &vec![ProbeOutcome::NotLaunched]);
    let b = validate_scripts(&m, &vec![ProbeOutcome::NotLaunched]);
    let msgs = |r: &ValidationResult| r.errors.iter().map(|e| e.message.clone()).collect::<Vec<_>>();
    assert_eq!(msgs(&a), msgs(&b));
    assert_eq!(a.warnings.len(), b.warnings.len());
}

#[test]
fn add_error_and_warning_accumulate() {
    let mut r = ValidationResult::new();
    assert!(r.is_valid());
    r.add_warning(None, "w".to_string());
    assert!(r.is_valid());
    r.add_error(Some("x".to_string()), "e".to_string());
    assert!(!r.is_valid());
    assert_eq!(r.errors.len(), 1);
    assert_eq!(r.warnings.len(), 1);
}

#[test]
fn durations_last_write_wins_and_total() {
    let mut d = ScriptDurations::new();
    d.record("a".to_string(), 10);
    d.record("b".to_string(), 5);
    d.record("a".to_string(), 7);
    assert_eq!(d.len(), 2);
    assert_eq!(d.entry(0), (&"a".to_string(), 7));
    assert_eq!(d.total(), 12);
    let mut big = ScriptDurations::new();
    big.record("x".to_string(), u64::MAX);
    big.record("y".to_string(), u64::MAX);
    assert_eq!(big.total(), 2 * (u64::MAX as u128));
}

#[test]
fn listing_filters_ignoring_case() {
    let mut m = Scripts::new();
    m.add_script("build".to_string(), Script::Default("cargo build".to_string()));
    let mut d = details();
    d.info = Some("Run the Tests".to_string());
    d.command = Some("cargo test".to_string());
    m.add_script("check".to_string(), Script::Inline(d));
    let all = show_rows(&m, None);
    assert_eq!(all.len(), 2);
    assert_eq!(all[1], ("check".to_string(), "Run the Tests".to_string()));
    let by_name = show_rows(&m, Some("BUILD"));
    assert_eq!(by_name, vec![("build".to_string(), String::new())]);
    let by_desc = show_rows(&m, Some("tests"));
    assert_eq!(by_desc.len(), 1);
    assert_eq!(by_desc[0].0, "check");
    assert!(show_rows(&m, Some("zzz")).is_empty());
    assert_eq!(column_widths(&all), (7, 15));
    assert_eq!(column_widths(&vec![]), (6, 11));
}

#[test]
fn shell_names() {
    assert_eq!(Shell::Bash.value_name(), "bash");
    assert_eq!(Shell::PowerShell.value_name(), "power-shell");
    assert_eq!(Shell::Zsh, Shell::Zsh);
    assert_eq!(Shell::Fish.value_name(), "fish");
}

#[test]
fn picker_labels_join_name_and_description() {
    let rows = vec![
        ("build".to_string(), String::new()),
        ("test".to_string(), "Run tests".to_string()),
    ];
    assert_eq!(picker_labels(&rows), strings(&["build", "test - Run tests"]));
}

#[test]
fn missing_script_lists_first_ten_names() {
    let names: Vec<String> = (0..12).map(|i| format!("s{}", i)).collect();
    let e = CargoScriptError::ScriptNotFound { script_name: "zzzzzzzzzzzz".to_string(), available_scripts: names.clone() };
    assert_eq!(e.listed_names(), names[..10].to_vec());
    let few = CargoScriptError::ScriptNotFound { script_name: "x".to_string(), available_scripts: strings(&["build", "test"]) };
    assert_eq!(few.listed_names(), strings(&["build", "test"]));
    assert!(CargoScriptError::IncludeCycle { script_name: "x".to_string() }.listed_names().is_empty());
}

#[test]
fn locked_binary_detection() {
    assert!(locked_binary_failure("cargo install --path .", "Access is denied. (os error 5)", true));
    assert!(locked_binary_failure("cargo install --path ./x", "failed to move file", true));
    assert!(!locked_binary_failure("cargo install --path .", "Access is denied.", false));
    assert!(!locked_binary_failure("cargo build", "Access is denied.", true));
    assert!(!locked_binary_failure("cargo install --path .", "not found", true));
}

#[test]
fn picker_rows_sorted_like_strings() {
    let names = ["b", "a", "ab", "B", "é", "", "a"];
    let rows: Vec<(String, String)> = names.iter().map(|n| (n.to_string(), format!("d{}", n))).collect();
    let sorted = sort_rows_by_name(&rows);
    let got: Vec<String> = sorted.iter().map(|r| r.0.clone()).collect();
    let mut want: Vec<String> = names.iter().map(|n| n.to_string()).collect();
    want.sort();
    assert_eq!(got, want);
    assert!(sorted.iter().all(|(n, d)| *d == format!("d{}", n)));
    assert!(text_le_str("ab", "b"));
    assert!(!text_le_str("b", "ab"));
    assert!(text_le_str("a", "a"));
}

#[test]
fn requirement_check_stops_at_first_unmet() {
    let mut req_check = RequirementCheck::new(strings(&["git", "rustup < 1.24.3"]), Some("stable".to_string()));
    assert!(matches!(req_check.next_probe(), Some(Probe::Launch { tool }) if tool == "git"));
    assert!(req_check.feed(&launched("")).is_ok());
    assert!(matches!(req_check.next_probe(), Some(Probe::Version { tool }) if tool == "rustup"));
    assert!(matches!(req_check.feed(&launched("rustup 1.26.0")), Err(CargoScriptError::ToolNotFound { .. })));

    let mut ok = RequirementCheck::new(vec![], Some("stable".to_string()));
    assert!(matches!(ok.next_probe(), Some(Probe::RustToolchains)));
    assert!(matches!(ok.feed(&launched("stable-x86_64-unknown-linux-gnu")), Ok(None)));
    assert!(ok.next_probe().is_none());

    let none = RequirementCheck::new(vec![], None);
    assert!(none.next_probe().is_none());
}

#[test]
fn python_toolchain_only_warns_during_a_run() {
    let mut py = RequirementCheck::new(vec![], Some("python:3.11".to_string()));
    assert!(matches!(py.next_probe(), Some(Probe::PythonVersion)));
    match py.feed(&launched("Python 3.10.4\n")) {
        Ok(Some(notice)) => assert_eq!(
            notice,
            "Python toolchain 'python:3.11' requirement: Python found (Python 3.10.4), but version '3.11' not verified"
        ),
        _ => panic!("a notice, not an error"),
    }
    let mut missing = RequirementCheck::new(vec![], Some("python:3.11".to_string()));
    assert!(matches!(missing.feed(&ProbeOutcome::NotLaunched), Ok(Some(_))));
    let mut fine = RequirementCheck::new(vec![], Some("python:3.11".to_string()));
    assert!(matches!(fine.feed(&launched("Python 3.11.2")), Ok(None)));
}
