//! What can go wrong, and the install hints that come with a missing tool.

use vstd::prelude::*;
use crate::distance::{distances, find_similar_scripts, is_best_three, suggestion_limit};
use crate::text::{concat, contains_str, remove_all, remove_all_str, seq_contains, seq_starts_with, starts_with_str, str_eq};

verus! {

/// Everything that stops a command of the task runner.
pub enum CargoScriptError {
    /// The manifest could not be read.
    ScriptFileNotFound { path: String, reason: String },
    /// The manifest is not valid TOML, or does not have the expected shape.
    InvalidToml { path: String, message: String, line: Option<usize> },
    /// No entry has the requested name.
    ScriptNotFound { script_name: String, available_scripts: Vec<String> },
    /// A required tool is missing, or its version does not match.
    ToolNotFound { tool: String, required_version: Option<String>, suggestion: String },
    /// A required toolchain is not installed.
    ToolchainNotFound { toolchain: String, suggestion: String },
    /// A child process could not be spawned or waited on.
    ExecutionError { script: String, command: String, reason: String },
    /// On Windows, an install command tried to replace the running binary.
    WindowsSelfReplacementError { script: String, command: String },
    /// Entries reach themselves through their pre-run lists, so running
    /// `script_name` would never end.
    IncludeCycle { script_name: String },
}

/// The install hint for a missing tool.
pub open spec fn tool_hint(tool: Seq<char>) -> Seq<char> {
    if tool == "rustup"@ {
        "Install rustup: https://rustup.rs/"@
    } else if tool == "cargo"@ {
        "Install Rust: https://www.rust-lang.org/tools/install"@
    } else if tool == "python"@ {
        "Install Python: https://www.python.org/downloads/"@
    } else if tool == "docker"@ {
        "Install Docker: https://docs.docker.com/get-docker/"@
    } else if tool == "kubectl"@ {
        "Install kubectl: https://kubernetes.io/docs/tasks/tools/"@
    } else {
        "Install "@ + tool + " from your package manager or official website"@
    }
}

/// The install hint for a missing toolchain.
pub open spec fn toolchain_hint(toolchain: Seq<char>) -> Seq<char> {
    if seq_starts_with(toolchain, "python:"@) {
        "Install Python "@ + remove_all(toolchain, "python:"@) + " using your system package manager"@
    } else {
        "Install toolchain: rustup toolchain install "@ + toolchain
    }
}

/// The error for a missing tool (or a tool whose version does not match
/// `required_version`), with an install hint.
pub fn create_tool_not_found_error(tool: &str, required_version: Option<&str>) -> (r: CargoScriptError)
    ensures
        r matches CargoScriptError::ToolNotFound { tool: t, required_version: v, suggestion } && {
            &&& t@ == tool@
            &&& suggestion@ == tool_hint(tool@)
            &&& match required_version {
                Some(rv) => v matches Some(x) && x@ == rv@,
                None => v is None,
            }
        },
{
    let suggestion = if str_eq(tool, "rustup") {
        "Install rustup: https://rustup.rs/".to_owned()
    } else if str_eq(tool, "cargo") {
        "Install Rust: https://www.rust-lang.org/tools/install".to_owned()
    } else if str_eq(tool, "python") {
        "Install Python: https://www.python.org/downloads/".to_owned()
    } else if str_eq(tool, "docker") {
        "Install Docker: https://docs.docker.com/get-docker/".to_owned()
    } else if str_eq(tool, "kubectl") {
        "Install kubectl: https://kubernetes.io/docs/tasks/tools/".to_owned()
    } else {
        let head = concat("Install ", tool);
        concat(head.as_str(), " from your package manager or official website")
    };
    let required = match required_version {
        Some(v) => Some(v.to_owned()),
        None => None,
    };
    CargoScriptError::ToolNotFound { tool: tool.to_owned(), required_version: required, suggestion }
}

/// The error for a toolchain that is not installed, with an install hint.
pub fn create_toolchain_not_found_error(toolchain: &str) -> (r: CargoScriptError)
    ensures
        r matches CargoScriptError::ToolchainNotFound { toolchain: t, suggestion } && t@ == toolchain@
            && suggestion@ == toolchain_hint(toolchain@),
{
    let suggestion = if starts_with_str(toolchain, "python:") {
        let version = remove_all_str(toolchain, "python:");
        let head = concat("Install Python ", version.as_str());
        concat(head.as_str(), " using your system package manager")
    } else {
        concat("Install toolchain: rustup toolchain install ", toolchain)
    };
    CargoScriptError::ToolchainNotFound { toolchain: toolchain.to_owned(), suggestion }
}

/// A failure to start or wait on `command` is the Windows self-replacement
/// problem: on Windows, a local-path install whose failure says that access
/// was denied or a file could not be moved.
pub open spec fn is_locked_binary_failure(command: Seq<char>, reason: Seq<char>, windows: bool) -> bool {
    &&& windows
    &&& seq_contains(command, "cargo install --path"@)
    &&& (seq_contains(reason, "Access is denied"@) || seq_contains(reason, "os error 5"@) || seq_contains(
        reason,
        "failed to move"@,
    ))
}

/// Whether a failure to start or wait on `command`, described by `reason`,
/// is the Windows self-replacement problem.
pub fn locked_binary_failure(command: &str, reason: &str, windows: bool) -> (r: bool)
    ensures
        r == is_locked_binary_failure(command@, reason@, windows),
{
    windows && contains_str(command, "cargo install --path") && (contains_str(reason, "Access is denied")
        || contains_str(reason, "os error 5") || contains_str(reason, "failed to move"))
}

impl CargoScriptError {
    /// For a missing script, the names listed when none is close: the first
    /// ten available ones. For any other error, none.
    pub fn listed_names(&self) -> (r: Vec<String>)
        ensures
            match self {
                CargoScriptError::ScriptNotFound { available_scripts, .. } => {
                    &&& r@.len() == if available_scripts@.len() < 10 { available_scripts@.len() } else { 10 }
                    &&& forall|i: int| 0 <= i < r@.len() ==> (#[trigger] r@[i])@ == available_scripts@[i]@
                },
                _ => r@.len() == 0,
            },
    {
        let mut r: Vec<String> = Vec::new();
        match self {
            CargoScriptError::ScriptNotFound { available_scripts, .. } => {
                let n = if available_scripts.len() < 10 { available_scripts.len() } else { 10 };
                let mut i: usize = 0;
                while i < n
                    invariant
                        n <= available_scripts@.len(),
                        i <= n,
                        r@.len() == i,
                        forall|j: int| 0 <= j < i ==> (#[trigger] r@[j])@ == available_scripts@[j]@,
                    decreases n - i,
                {
                    r.push(available_scripts[i].clone());
                    i = i + 1;
                }
            },
            _ => {},
        }
        r
    }

    /// For a missing script, the closest available names (see
    /// `find_similar_scripts`); for any other error, none.
    pub fn suggestions(&self) -> (r: Vec<String>)
        requires
            self matches CargoScriptError::ScriptNotFound { script_name, available_scripts } ==> {
                &&& script_name@.len() < usize::MAX
                &&& forall|i: int| 0 <= i < available_scripts@.len() ==> (#[trigger] available_scripts@[i])@.len() < usize::MAX
            },
        ensures
            match self {
                CargoScriptError::ScriptNotFound { script_name, available_scripts } => exists|idx: Seq<int>|
                    {
                        &&& is_best_three(distances(script_name@, available_scripts@), suggestion_limit(script_name@), idx)
                        &&& r@.len() == idx.len()
                        &&& forall|k: int| 0 <= k < idx.len() ==> (#[trigger] r@[k])@ == available_scripts@[idx[k]]@
                    },
                _ => r@.len() == 0,
            },
    {
        match self {
            CargoScriptError::ScriptNotFound { script_name, available_scripts } => {
                find_similar_scripts(script_name.as_str(), available_scripts)
            },
            _ => Vec::new(),
        }
    }
}

} // verus!
