//! Requirements on tools and toolchains: which probe answers each, and what
//! the probe's outcome means.
//!
//! A requirement is `"<tool>"` (the tool must start) or
//! `"<tool> <version>"` (`<tool> --version` must start and print `<version>`).
//! A toolchain `python:<version>` is checked against Python's version output
//! and only ever warned about; any other toolchain must be listed by
//! `rustup toolchain list`.

use vstd::prelude::*;
use crate::env::texts;
use crate::error::{create_tool_not_found_error, create_toolchain_not_found_error, tool_hint, toolchain_hint, CargoScriptError};
use crate::validate::{python_missing_message, python_unverified_message};
use crate::text::{concat, contains_str, seq_contains, seq_starts_with, split_once_char, starts_with_str, trim, trimmed};

verus! {

/// A process started to learn whether a requirement holds.
pub enum Probe {
    /// Start `tool` with no arguments.
    Launch { tool: String },
    /// Run `tool --version`.
    Version { tool: String },
    /// Run `rustup toolchain list`.
    RustToolchains,
    /// Run `python --version`, or `python3 --version` where `python` does not start.
    PythonVersion,
}

/// What a probe gave: its standard output as text, or that it did not start.
pub enum ProbeOutcome {
    Launched { stdout: String },
    NotLaunched,
}

/// A probe, with texts for strings.
pub enum ProbeView {
    Launch { tool: Seq<char> },
    Version { tool: Seq<char> },
    RustToolchains,
    PythonVersion,
}

impl View for Probe {
    type V = ProbeView;

    open spec fn view(&self) -> ProbeView {
        match self {
            Probe::Launch { tool } => ProbeView::Launch { tool: tool@ },
            Probe::Version { tool } => ProbeView::Version { tool: tool@ },
            Probe::RustToolchains => ProbeView::RustToolchains,
            Probe::PythonVersion => ProbeView::PythonVersion,
        }
    }
}

impl View for ProbeOutcome {
    /// The standard output, or `None` when the probe did not start.
    type V = Option<Seq<char>>;

    open spec fn view(&self) -> Option<Seq<char>> {
        match self {
            ProbeOutcome::Launched { stdout } => Some(stdout@),
            ProbeOutcome::NotLaunched => None,
        }
    }
}

/// The tool and the version text of a requirement: split at its first space.
pub open spec fn split_requirement(req: Seq<char>) -> (Seq<char>, Option<Seq<char>>) {
    if exists|i: int| 0 <= i < req.len() && req[i] == ' ' {
        let i = choose|i: int| 0 <= i < req.len() && req[i] == ' ' && forall|j: int| 0 <= j < i ==> req[j] != ' ';
        (req.subrange(0, i), Some(req.subrange(i + 1, req.len() as int)))
    } else {
        (req, None)
    }
}

/// Splits a requirement at its first space.
pub fn parse_requirement(req: &str) -> (r: (String, Option<String>))
    ensures
        (r.0@, match r.1 { Some(v) => Some(v@), None => None }) == split_requirement(req@),
{
    match split_once_char(req, ' ') {
        Some((tool, version)) => {
            proof {
                let s = req@;
                let k = tool@.len() as int;
                assert(s[k] == ' ');
                assert forall|j: int| 0 <= j < k implies s[j] != ' ' by {
                    assert(s[j] == tool@[j]);
                }
                let c = choose|c: int| 0 <= c < s.len() && s[c] == ' ' && forall|j: int| 0 <= j < c ==> s[j] != ' ';
                assert(c == k) by {
                    if c < k { assert(s[c] == tool@[c]); }
                }
                assert(s.subrange(0, k) =~= tool@);
                assert(s.subrange(k + 1, s.len() as int) =~= version@);
            }
            (tool, Some(version))
        },
        None => (req.to_owned(), None),
    }
}

/// The probe that answers a requirement.
pub open spec fn requirement_probe_of(req: Seq<char>) -> ProbeView {
    let (tool, version) = split_requirement(req);
    match version {
        Some(_) => ProbeView::Version { tool },
        None => ProbeView::Launch { tool },
    }
}

/// The probe that answers a requirement.
pub fn requirement_probe(req: &str) -> (r: Probe)
    ensures
        r@ == requirement_probe_of(req@),
{
    let (tool, version) = parse_requirement(req);
    match version {
        Some(_) => Probe::Version { tool },
        None => Probe::Launch { tool },
    }
}

/// The probe that answers a toolchain requirement.
pub open spec fn toolchain_probe_of(toolchain: Seq<char>) -> ProbeView {
    if seq_starts_with(toolchain, "python:"@) {
        ProbeView::PythonVersion
    } else {
        ProbeView::RustToolchains
    }
}

/// The probe that answers a toolchain requirement.
pub fn toolchain_probe(toolchain: &str) -> (r: Probe)
    ensures
        r@ == toolchain_probe_of(toolchain@),
{
    if starts_with_str(toolchain, "python:") {
        Probe::PythonVersion
    } else {
        Probe::RustToolchains
    }
}

impl Probe {
    /// The program and arguments to try, in order, until one starts.
    pub fn command_lines(&self) -> (r: Vec<(String, Vec<String>)>)
        ensures
            r@.len() >= 1,
            match self@ {
                ProbeView::Launch { tool } => r@.len() == 1 && r@[0].0@ == tool && r@[0].1@.len() == 0,
                ProbeView::Version { tool } => r@.len() == 1 && r@[0].0@ == tool && texts(r@[0].1@) == seq!["--version"@],
                ProbeView::RustToolchains => r@.len() == 1 && r@[0].0@ == "rustup"@
                    && texts(r@[0].1@) == seq!["toolchain"@, "list"@],
                ProbeView::PythonVersion => r@.len() == 2 && r@[0].0@ == "python"@ && r@[1].0@ == "python3"@
                    && texts(r@[0].1@) == seq!["--version"@] && texts(r@[1].1@) == seq!["--version"@],
            },
    {
        let mut r: Vec<(String, Vec<String>)> = Vec::new();
        match self {
            Probe::Launch { tool } => {
                r.push((tool.clone(), Vec::new()));
            },
            Probe::Version { tool } => {
                let mut args: Vec<String> = Vec::new();
                args.push("--version".to_owned());
                assert(texts(args@) =~= seq!["--version"@]);
                r.push((tool.clone(), args));
            },
            Probe::RustToolchains => {
                let mut args: Vec<String> = Vec::new();
                args.push("toolchain".to_owned());
                args.push("list".to_owned());
                assert(texts(args@) =~= seq!["toolchain"@, "list"@]);
                r.push(("rustup".to_owned(), args));
            },
            Probe::PythonVersion => {
                let mut a1: Vec<String> = Vec::new();
                a1.push("--version".to_owned());
                let mut a2: Vec<String> = Vec::new();
                a2.push("--version".to_owned());
                assert(texts(a1@) =~= seq!["--version"@]);
                assert(texts(a2@) =~= seq!["--version"@]);
                r.push(("python".to_owned(), a1));
                r.push(("python3".to_owned(), a2));
            },
        }
        r
    }
}

/// A requirement holds, given what its probe gave.
pub open spec fn requirement_met(req: Seq<char>, outcome: Option<Seq<char>>) -> bool {
    match outcome {
        None => false,
        Some(out) => match split_requirement(req).1 {
            Some(v) => seq_contains(out, v),
            None => true,
        },
    }
}

/// Whether a requirement holds, given what its probe gave; when it does not,
/// the missing-tool error with its install hint.
pub fn judge_requirement(req: &str, outcome: &ProbeOutcome) -> (r: Result<(), CargoScriptError>)
    ensures
        r is Ok <==> requirement_met(req@, outcome@),
        r matches Err(e) ==> e matches CargoScriptError::ToolNotFound { tool, required_version, suggestion } && {
            &&& tool@ == split_requirement(req@).0
            &&& suggestion@ == tool_hint(tool@)
            &&& match split_requirement(req@).1 {
                Some(v) => required_version matches Some(x) && x@ == v,
                None => required_version is None,
            }
        },
{
    let (tool, version) = parse_requirement(req);
    match version {
        Some(v) => {
            let ok = match outcome {
                ProbeOutcome::Launched { stdout } => contains_str(stdout.as_str(), v.as_str()),
                ProbeOutcome::NotLaunched => false,
            };
            if ok {
                Ok(())
            } else {
                Err(create_tool_not_found_error(tool.as_str(), Some(v.as_str())))
            }
        },
        None => match outcome {
            ProbeOutcome::Launched { .. } => Ok(()),
            ProbeOutcome::NotLaunched => Err(create_tool_not_found_error(tool.as_str(), None)),
        },
    }
}

/// A toolchain requirement stops a run: a Rust toolchain that is not listed,
/// or that cannot be listed because rustup does not start. A Python
/// toolchain never stops a run.
pub open spec fn toolchain_blocks(toolchain: Seq<char>, outcome: Option<Seq<char>>) -> bool {
    !seq_starts_with(toolchain, "python:"@) && match outcome {
        None => true,
        Some(out) => !seq_contains(out, toolchain),
    }
}

/// Whether a run may go on past a toolchain requirement, given what its
/// probe gave.
pub fn judge_toolchain(toolchain: &str, outcome: &ProbeOutcome) -> (r: Result<(), CargoScriptError>)
    ensures
        r is Err <==> toolchain_blocks(toolchain@, outcome@),
        r matches Err(e) ==> match outcome@ {
            None => e matches CargoScriptError::ToolNotFound { tool, required_version, suggestion }
                && tool@ == "rustup"@ && required_version is None && suggestion@ == tool_hint("rustup"@),
            Some(_) => e matches CargoScriptError::ToolchainNotFound { toolchain: t, suggestion }
                && t@ == toolchain@ && suggestion@ == toolchain_hint(toolchain@),
        },
{
    if starts_with_str(toolchain, "python:") {
        return Ok(());
    }
    match outcome {
        ProbeOutcome::Launched { stdout } => if contains_str(stdout.as_str(), toolchain) {
            Ok(())
        } else {
            Err(create_toolchain_not_found_error(toolchain))
        },
        ProbeOutcome::NotLaunched => Err(create_tool_not_found_error("rustup", None)),
    }
}

/// The notice a run shows for a Python toolchain that its probe does not
/// confirm (a Python toolchain never stops a run); none for other toolchains.
pub open spec fn toolchain_notice_of(toolchain: Seq<char>, outcome: Option<Seq<char>>) -> Option<Seq<char>> {
    if seq_starts_with(toolchain, "python:"@) {
        let version = toolchain.subrange(7, toolchain.len() as int);
        match outcome {
            None => Some(python_missing_message(toolchain)),
            Some(out) => if seq_contains(out, version) {
                None
            } else {
                Some(python_unverified_message(toolchain, trimmed(out), version))
            },
        }
    } else {
        None
    }
}

/// The notice a run shows for a toolchain, given what its probe gave (see
/// `toolchain_notice_of`).
pub fn toolchain_notice(toolchain: &str, outcome: &ProbeOutcome) -> (r: Option<String>)
    ensures
        match r {
            Some(m) => toolchain_notice_of(toolchain@, outcome@) == Some(m@),
            None => toolchain_notice_of(toolchain@, outcome@) is None,
        },
{
    if !starts_with_str(toolchain, "python:") {
        return None;
    }
    let n = toolchain.unicode_len();
    proof { reveal_strlit("python:"); }
    let version = toolchain.substring_char(7, n);
    match outcome {
        ProbeOutcome::NotLaunched => {
            let a = concat("Python toolchain '", toolchain);
            Some(concat(a.as_str(), "' required but Python is not installed or not in PATH"))
        },
        ProbeOutcome::Launched { stdout } => {
            if contains_str(stdout.as_str(), version) {
                None
            } else {
                let found = trim(stdout.as_str());
                let a = concat("Python toolchain '", toolchain);
                let a = concat(a.as_str(), "' requirement: Python found (");
                let a = concat(a.as_str(), found.as_str());
                let a = concat(a.as_str(), "), but version '");
                let a = concat(a.as_str(), version);
                Some(concat(a.as_str(), "' not verified"))
            }
        },
    }
}

/// The probes that the requirement check of an entry asks, in order: one per required
/// tool, then one for its toolchain.
pub open spec fn requirement_probes(tools: Seq<Seq<char>>, toolchain: Option<Seq<char>>) -> Seq<ProbeView> {
    tools.map_values(|t: Seq<char>| requirement_probe_of(t)) + match toolchain {
        Some(tc) => seq![toolchain_probe_of(tc)],
        None => Seq::empty(),
    }
}

/// The requirement check of one entry before it runs: it asks one probe at a
/// time, and the first requirement that is not met stops the entry.
pub struct RequirementCheck {
    tools: Vec<String>,
    toolchain: Option<String>,
    tools_answered: usize,
    toolchain_answered: bool,
}

impl RequirementCheck {
    /// The required tools.
    pub closed spec fn tools(&self) -> Seq<Seq<char>> {
        texts(self.tools@)
    }

    /// The required toolchain.
    pub closed spec fn toolchain(&self) -> Option<Seq<char>> {
        match self.toolchain {
            Some(t) => Some(t@),
            None => None,
        }
    }

    /// How many probes have been answered.
    pub closed spec fn answered(&self) -> nat {
        self.tools_answered as nat + if self.toolchain_answered { 1nat } else { 0nat }
    }

    /// Tools are answered before the toolchain.
    pub closed spec fn wf(&self) -> bool {
        &&& self.tools_answered <= self.tools@.len()
        &&& (self.toolchain_answered ==> self.tools_answered == self.tools@.len() && self.toolchain is Some)
    }

    /// All probes of the check.
    pub open spec fn probes(&self) -> Seq<ProbeView> {
        requirement_probes(self.tools(), self.toolchain())
    }

    /// A check for `tools` and `toolchain` that has asked nothing yet.
    pub fn new(tools: Vec<String>, toolchain: Option<String>) -> (r: RequirementCheck)
        ensures
            r.tools() == texts(tools@),
            r.toolchain() == match toolchain {
                Some(t) => Some(t@),
                None => None::<Seq<char>>,
            },
            r.answered() == 0,
            r.wf(),
    {
        RequirementCheck { tools, toolchain, tools_answered: 0, toolchain_answered: false }
    }

    /// The next probe to run, or `None` when every requirement is met.
    pub fn next_probe(&self) -> (r: Option<Probe>)
        requires
            self.wf(),
        ensures
            match r {
                Some(p) => self.answered() < self.probes().len() && p@ == self.probes()[self.answered() as int],
                None => self.answered() == self.probes().len(),
            },
    {
        let n = self.tools.len();
        let i = self.tools_answered;
        if i < n {
            let p = requirement_probe(self.tools[i].as_str());
            assert(self.probes()[i as int] == requirement_probe_of(self.tools@[i as int]@));
            Some(p)
        } else if self.toolchain_answered {
            None
        } else {
            match &self.toolchain {
                Some(tc) => {
                    let p = toolchain_probe(tc.as_str());
                    assert(self.probes()[i as int] == toolchain_probe_of(tc@));
                    Some(p)
                },
                None => None,
            }
        }
    }

    /// Takes the outcome of the probe that `next_probe` gave: an error stops
    /// the entry; `Ok` lets the check go on.
    pub fn feed(&mut self, outcome: &ProbeOutcome) -> (r: Result<Option<String>, CargoScriptError>)
        requires
            old(self).wf(),
            old(self).answered() < old(self).probes().len(),
        ensures
            final(self).wf(),
            final(self).tools() == old(self).tools(),
            final(self).toolchain() == old(self).toolchain(),
            final(self).answered() == old(self).answered() + 1,
            old(self).answered() < old(self).tools().len() ==> (r is Ok <==> requirement_met(
                old(self).tools()[old(self).answered() as int],
                outcome@,
            )),
            old(self).answered() < old(self).tools().len() ==> (r matches Ok(n) ==> n is None),
            old(self).answered() == old(self).tools().len() ==> (old(self).toolchain() matches Some(tc) && (r is Err
                <==> toolchain_blocks(tc, outcome@)) && (r matches Ok(n) ==> match n {
                Some(m) => toolchain_notice_of(tc, outcome@) == Some(m@),
                None => toolchain_notice_of(tc, outcome@) is None,
            })),
    {
        let i = self.tools_answered;
        if i < self.tools.len() {
            self.tools_answered = i + 1;
            match judge_requirement(self.tools[i].as_str(), outcome) {
                Ok(()) => Ok(None),
                Err(e) => Err(e),
            }
        } else {
            self.toolchain_answered = true;
            match &self.toolchain {
                Some(tc) => match judge_toolchain(tc.as_str(), outcome) {
                    Ok(()) => Ok(toolchain_notice(tc.as_str(), outcome)),
                    Err(e) => Err(e),
                },
                None => Ok(None),
            }
        }
    }
}

} // verus!
