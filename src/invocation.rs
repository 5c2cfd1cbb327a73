//! How a script's command becomes a process: program, arguments and
//! environment; and what a finished process means for the run.

use vstd::prelude::*;
use crate::env::{EnvVars, texts};
use crate::error::CargoScriptError;
use crate::text::{concat, contains_str, seq_contains, str_eq};

verus! {

/// A process to start: the program, its arguments, and its whole
/// environment overlay.
pub struct Invocation {
    pub program: String,
    pub args: Vec<String>,
    pub env: EnvVars,
}

/// Program and arguments of the platform's default shell running `command`.
pub open spec fn shell_call(windows: bool, command: Seq<char>) -> (Seq<char>, Seq<Seq<char>>) {
    if windows {
        ("cmd"@, seq!["/C"@, command])
    } else {
        ("sh"@, seq!["-c"@, command])
    }
}

/// The text a toolchain-pinned command runs as.
pub open spec fn toolchain_command(toolchain: Seq<char>, command: Seq<char>) -> Seq<char> {
    "cargo +"@ + toolchain + " "@ + command
}

/// Program and arguments for `command`: a toolchain wins over an
/// interpreter, and without either the platform's default shell runs it.
pub open spec fn invocation_of(
    interpreter: Option<Seq<char>>,
    command: Seq<char>,
    toolchain: Option<Seq<char>>,
    windows: bool,
) -> (Seq<char>, Seq<Seq<char>>) {
    match toolchain {
        Some(tc) => shell_call(windows, toolchain_command(tc, command)),
        None => match interpreter {
            Some(i) => if i == "powershell"@ {
                ("powershell"@, seq!["-NoProfile"@, "-Command"@, command])
            } else if i == "cmd"@ {
                ("cmd"@, seq!["/C"@, command])
            } else {
                (i, seq!["-c"@, command])
            },
            None => shell_call(windows, command),
        },
    }
}

/// The view of an optional text.
pub open spec fn opt_text(o: Option<&str>) -> Option<Seq<char>> {
    match o {
        Some(s) => Some(s@),
        None => None,
    }
}

fn args2(a: &str, b: &str) -> (r: Vec<String>)
    ensures
        texts(r@) == seq![a@, b@],
{
    let mut r: Vec<String> = Vec::new();
    r.push(a.to_owned());
    r.push(b.to_owned());
    assert(texts(r@) =~= seq![a@, b@]);
    r
}

fn shell_invocation(windows: bool, command: &str, env: EnvVars) -> (r: Invocation)
    ensures
        (r.program@, texts(r.args@)) == shell_call(windows, command@),
        r.env == env,
{
    if windows {
        Invocation { program: "cmd".to_owned(), args: args2("/C", command), env }
    } else {
        Invocation { program: "sh".to_owned(), args: args2("-c", command), env }
    }
}

/// The process that runs `command` for a script with the given interpreter
/// and toolchain, with environment `env`. `windows` tells whether the
/// platform is Windows.
pub fn build_invocation(
    interpreter: Option<&str>,
    command: &str,
    toolchain: Option<&str>,
    windows: bool,
    env: EnvVars,
) -> (r: Invocation)
    ensures
        (r.program@, texts(r.args@)) == invocation_of(opt_text(interpreter), command@, opt_text(toolchain), windows),
        r.env == env,
{
    match toolchain {
        Some(tc) => {
            let head = concat("cargo +", tc);
            let head = concat(head.as_str(), " ");
            let full = concat(head.as_str(), command);
            shell_invocation(windows, full.as_str(), env)
        },
        None => match interpreter {
            Some(i) => {
                if str_eq(i, "powershell") {
                    let mut args: Vec<String> = Vec::new();
                    args.push("-NoProfile".to_owned());
                    args.push("-Command".to_owned());
                    args.push(command.to_owned());
                    assert(texts(args@) =~= seq!["-NoProfile"@, "-Command"@, command@]);
                    Invocation { program: "powershell".to_owned(), args, env }
                } else if str_eq(i, "cmd") {
                    Invocation { program: "cmd".to_owned(), args: args2("/C", command), env }
                } else {
                    Invocation { program: i.to_owned(), args: args2("-c", command), env }
                }
            },
            None => shell_invocation(windows, command, env),
        },
    }
}

/// A toolchain takes precedence over an interpreter: with both set, the
/// command runs through the platform's default shell as
/// `cargo +<toolchain> <command>`, exactly as if no interpreter were set.
pub proof fn lemma_toolchain_precedence(interpreter: Seq<char>, command: Seq<char>, toolchain: Seq<char>, windows: bool)
    ensures
        invocation_of(Some(interpreter), command, Some(toolchain), windows) == shell_call(
            windows,
            toolchain_command(toolchain, command),
        ),
        invocation_of(Some(interpreter), command, Some(toolchain), windows) == invocation_of(
            None,
            command,
            Some(toolchain),
            windows,
        ),
{
}

/// `command` installs a package from a local path, which on Windows means
/// replacing the running binary.
pub open spec fn is_self_replacement(command: Seq<char>) -> bool {
    seq_contains(command, "cargo install"@) && seq_contains(command, "--path"@)
}

/// What a finished child process means for the run: only a failed
/// self-replacing install on Windows is an error; any other exit lets the run
/// go on.
pub fn check_exit_status(script: &str, command: &str, success: bool, windows: bool) -> (r: Result<(), CargoScriptError>)
    ensures
        r is Err <==> (!success && windows && is_self_replacement(command@)),
        r matches Err(e) ==> e matches CargoScriptError::WindowsSelfReplacementError { script: s, command: c }
            && s@ == script@ && c@ == command@,
{
    if !success && windows && contains_str(command, "cargo install") && contains_str(command, "--path") {
        Err(CargoScriptError::WindowsSelfReplacementError { script: script.to_owned(), command: command.to_owned() })
    } else {
        Ok(())
    }
}

} // verus!
