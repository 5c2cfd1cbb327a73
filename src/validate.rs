//! Static validation of a manifest: every reference, requirement and
//! toolchain is checked, and every problem is reported; nothing is run.
//!
//! The tools themselves are asked through probes (see
//! `crate::requirements`): `validation_probes` lists the probes a manifest
//! needs, in order, and `validate_scripts` reads their outcomes in that
//! order.

use vstd::prelude::*;
use crate::env::texts;
use crate::manifest::{Script, ScriptDetails, Scripts};
use crate::plan::opt_view;
use crate::requirements::{
    parse_requirement, requirement_probe, requirement_probe_of, split_requirement, toolchain_probe, toolchain_probe_of, Probe,
    ProbeOutcome, ProbeView,
};
use crate::text::{
    concat, contains_str, first_line, first_line_of, seq_contains, seq_starts_with, starts_with_str, trim, trimmed,
};

verus! {

/// A problem that makes a manifest invalid.
pub struct ValidationError {
    pub script: Option<String>,
    pub message: String,
}

/// A problem that is only worth knowing about.
pub struct ValidationWarning {
    pub script: Option<String>,
    pub message: String,
}

/// Everything a validation found.
pub struct ValidationResult {
    pub errors: Vec<ValidationError>,
    pub warnings: Vec<ValidationWarning>,
}

/// A problem, with texts for strings.
pub struct IssueView {
    pub script: Option<Seq<char>>,
    pub message: Seq<char>,
}

/// Errors and warnings, in the order found.
pub struct ReportView {
    pub errors: Seq<IssueView>,
    pub warnings: Seq<IssueView>,
}

impl View for ValidationResult {
    type V = ReportView;

    open spec fn view(&self) -> ReportView {
        ReportView {
            errors: self.errors@.map_values(|e: ValidationError| IssueView { script: opt_view(e.script), message: e.message@ }),
            warnings: self.warnings@.map_values(
                |w: ValidationWarning| IssueView { script: opt_view(w.script), message: w.message@ },
            ),
        }
    }
}

/// No problems.
pub open spec fn no_issues() -> ReportView {
    ReportView { errors: Seq::empty(), warnings: Seq::empty() }
}

/// The problems of `a`, then those of `b`.
pub open spec fn report_add(a: ReportView, b: ReportView) -> ReportView {
    ReportView { errors: a.errors + b.errors, warnings: a.warnings + b.warnings }
}

/// One error about `script`.
pub open spec fn one_error(script: Seq<char>, message: Seq<char>) -> ReportView {
    ReportView { errors: seq![IssueView { script: Some(script), message }], warnings: Seq::empty() }
}

/// One warning about `script`.
pub open spec fn one_warning(script: Seq<char>, message: Seq<char>) -> ReportView {
    ReportView { errors: Seq::empty(), warnings: seq![IssueView { script: Some(script), message }] }
}

impl ValidationResult {
    /// Nothing found yet.
    pub fn new() -> (r: ValidationResult)
        ensures
            r@ == no_issues(),
    {
        let r = ValidationResult { errors: Vec::new(), warnings: Vec::new() };
        assert(r@.errors =~= Seq::<IssueView>::empty());
        assert(r@.warnings =~= Seq::<IssueView>::empty());
        r
    }

    /// The manifest is valid: no errors (warnings do not count).
    pub fn is_valid(&self) -> (r: bool)
        ensures
            r == (self@.errors.len() == 0),
    {
        self.errors.len() == 0
    }

    /// Records an error.
    pub fn add_error(&mut self, script: Option<String>, message: String)
        ensures
            final(self)@.errors == old(self)@.errors.push(IssueView { script: opt_view(script), message: message@ }),
            final(self)@.warnings == old(self)@.warnings,
    {
        self.errors.push(ValidationError { script, message });
        assert(self@.errors =~= old(self)@.errors.push(IssueView { script: opt_view(script), message: message@ }));
    }

    /// Records a warning.
    pub fn add_warning(&mut self, script: Option<String>, message: String)
        ensures
            final(self)@.warnings == old(self)@.warnings.push(IssueView { script: opt_view(script), message: message@ }),
            final(self)@.errors == old(self)@.errors,
    {
        self.warnings.push(ValidationWarning { script, message });
        assert(self@.warnings =~= old(self)@.warnings.push(IssueView { script: opt_view(script), message: message@ }));
    }
}

/// Message: an entry lists a name that no entry has.
pub open spec fn missing_reference_message(script: Seq<char>, name: Seq<char>) -> Seq<char> {
    "Script '"@ + script + "' references non-existent script '"@ + name + "'"@
}

/// Message: a required tool does not start.
pub open spec fn tool_missing_message(tool: Seq<char>) -> Seq<char> {
    "Required tool '"@ + tool + "' is not installed or not in PATH"@
}

/// Message: a version range is only checked for the tool's presence.
pub open spec fn version_range_message(tool: Seq<char>, line: Seq<char>, version: Seq<char>) -> Seq<char> {
    "Tool '"@ + tool + "' found (version: "@ + line + "), but complex version requirement '"@ + version
        + "' validation is limited"@
}

/// Message: the tool's version line does not hold the required version.
pub open spec fn version_unmet_message(tool: Seq<char>, version: Seq<char>, line: Seq<char>) -> Seq<char> {
    "Tool '"@ + tool + "' version requirement '"@ + version + "' not met. Found: "@ + line
}

/// Message: Python's version output does not show the required version.
pub open spec fn python_unverified_message(toolchain: Seq<char>, found: Seq<char>, version: Seq<char>) -> Seq<char> {
    "Python toolchain '"@ + toolchain + "' requirement: Python found ("@ + found + "), but version '"@ + version
        + "' not verified"@
}

/// Message: Python does not start.
pub open spec fn python_missing_message(toolchain: Seq<char>) -> Seq<char> {
    "Python toolchain '"@ + toolchain + "' required but Python is not installed or not in PATH"@
}

/// Message: rustup does not list the toolchain.
pub open spec fn toolchain_missing_message(toolchain: Seq<char>) -> Seq<char> {
    "Required Rust toolchain '"@ + toolchain + "' is not installed"@
}

/// The problems with the names an entry lists to run first.
pub open spec fn reference_issues(script: Seq<char>, names: Seq<Seq<char>>, m: Scripts) -> ReportView
    decreases names.len(),
{
    if names.len() == 0 {
        no_issues()
    } else {
        report_add(
            reference_issues(script, names.drop_last(), m),
            if m.lookup(names.last()) is None {
                one_error(script, missing_reference_message(script, names.last()))
            } else {
                no_issues()
            },
        )
    }
}

/// A version requirement that is a range (`>=`, `<=`, `>`, `<`).
pub open spec fn is_version_range(version: Seq<char>) -> bool {
    seq_starts_with(version, ">"@) || seq_starts_with(version, "<"@)
}

/// The problems with one requirement of `script`, given what its probe gave.
pub open spec fn requirement_issues(script: Seq<char>, req: Seq<char>, outcome: Option<Seq<char>>) -> ReportView {
    let (tool, version) = split_requirement(req);
    match outcome {
        None => one_error(script, tool_missing_message(tool)),
        Some(out) => match version {
            None => no_issues(),
            Some(v) => {
                let line = first_line(out);
                if is_version_range(v) {
                    one_warning(script, version_range_message(tool, line, v))
                } else if !seq_contains(line, v) {
                    one_error(script, version_unmet_message(tool, v, line))
                } else {
                    no_issues()
                }
            },
        },
    }
}

/// The problems with the requirements of `script`; `outcomes[k]` is what
/// the probe of `reqs[k]` gave.
pub open spec fn requirements_issues(script: Seq<char>, reqs: Seq<Seq<char>>, outcomes: Seq<Option<Seq<char>>>) -> ReportView
    decreases reqs.len(),
{
    if reqs.len() == 0 {
        no_issues()
    } else {
        report_add(
            requirements_issues(script, reqs.drop_last(), outcomes),
            requirement_issues(script, reqs.last(), outcomes[reqs.len() - 1]),
        )
    }
}

/// The problems with the toolchain of `script`, given what its probe gave.
pub open spec fn toolchain_issues(script: Seq<char>, toolchain: Seq<char>, outcome: Option<Seq<char>>) -> ReportView {
    if seq_starts_with(toolchain, "python:"@) {
        let version = toolchain.subrange(7, toolchain.len() as int);
        match outcome {
            Some(out) => if !seq_contains(out, version) {
                one_warning(script, python_unverified_message(toolchain, trimmed(out), version))
            } else {
                no_issues()
            },
            None => one_error(script, python_missing_message(toolchain)),
        }
    } else {
        match outcome {
            Some(out) => if !seq_contains(out, toolchain) {
                one_error(script, toolchain_missing_message(toolchain))
            } else {
                no_issues()
            },
            None => one_error(script, "rustup is not installed or not in PATH"@),
        }
    }
}

/// The problems with the names a record entry lists to run first.
pub open spec fn listed_issues(name: Seq<char>, d: ScriptDetails, m: Scripts) -> ReportView {
    match d.includes {
        Some(l) => reference_issues(name, texts(l@), m),
        None => no_issues(),
    }
}

/// The requirements of an entry (none for a bare command).
pub open spec fn entry_requirements(s: Script) -> Seq<Seq<char>> {
    match s.details() {
        Some(d) => match d.requires {
            Some(r) => texts(r@),
            None => Seq::empty(),
        },
        None => Seq::empty(),
    }
}

/// The probes an entry needs: one per requirement, then one for its toolchain.
pub open spec fn entry_probes(s: Script) -> Seq<ProbeView> {
    entry_requirements(s).map_values(|r: Seq<char>| requirement_probe_of(r)) + match s.details() {
        Some(d) => match d.toolchain {
            Some(tc) => seq![toolchain_probe_of(tc@)],
            None => Seq::empty(),
        },
        None => Seq::empty(),
    }
}

/// The problems of the entry `s` named `name`; `outcomes` are what its
/// probes gave, in the order of `entry_probes(s)`.
pub open spec fn entry_issues(name: Seq<char>, s: Script, m: Scripts, outcomes: Seq<Option<Seq<char>>>) -> ReportView {
    match s.details() {
        None => no_issues(),
        Some(d) => {
            let refs = listed_issues(name, d, m);
            let reqs = entry_requirements(s);
            let with_reqs = report_add(refs, requirements_issues(name, reqs, outcomes));
            match d.toolchain {
                Some(tc) => report_add(with_reqs, toolchain_issues(name, tc@, outcomes[reqs.len() as int])),
                None => with_reqs,
            }
        },
    }
}

/// The probes that the entries need, entry by entry.
pub open spec fn probes_of(entries: Seq<(String, Script)>) -> Seq<ProbeView>
    decreases entries.len(),
{
    if entries.len() == 0 {
        Seq::empty()
    } else {
        probes_of(entries.drop_last()) + entry_probes(entries.last().1)
    }
}

/// The problems of the entries, entry by entry; `outcomes` are what the
/// probes of `probes_of(entries)` gave, in that order.
pub open spec fn entries_issues(m: Scripts, entries: Seq<(String, Script)>, outcomes: Seq<Option<Seq<char>>>) -> ReportView
    decreases entries.len(),
{
    if entries.len() == 0 {
        no_issues()
    } else {
        let before = entries.drop_last();
        let off = probes_of(before).len() as int;
        let last = entries.last();
        report_add(
            entries_issues(m, before, outcomes),
            entry_issues(last.0@, last.1, m, outcomes.subrange(off, off + entry_probes(last.1).len())),
        )
    }
}

/// The report of validating `m`, given what its probes gave.
pub open spec fn validation_report(m: Scripts, outcomes: Seq<Option<Seq<char>>>) -> ReportView {
    entries_issues(m, m.scripts@, outcomes)
}

/// The outcomes' views.
pub open spec fn outcomes_view(o: Seq<ProbeOutcome>) -> Seq<Option<Seq<char>>> {
    o.map_values(|x: ProbeOutcome| x@)
}

proof fn lemma_add_assoc(a: ReportView, b: ReportView, c: ReportView)
    ensures
        report_add(report_add(a, b), c) == report_add(a, report_add(b, c)),
        report_add(a, no_issues()) == a,
{
    assert(report_add(report_add(a, b), c).errors =~= report_add(a, report_add(b, c)).errors);
    assert(report_add(report_add(a, b), c).warnings =~= report_add(a, report_add(b, c)).warnings);
    assert(report_add(a, no_issues()).errors =~= a.errors);
    assert(report_add(a, no_issues()).warnings =~= a.warnings);
}

fn push_error(result: &mut ValidationResult, script: &str, message: String)
    ensures
        final(result)@ == report_add(old(result)@, one_error(script@, message@)),
{
    result.add_error(Some(script.to_owned()), message);
    assert(result@.errors =~= report_add(old(result)@, one_error(script@, message@)).errors);
    assert(result@.warnings =~= report_add(old(result)@, one_error(script@, message@)).warnings);
}

fn push_warning(result: &mut ValidationResult, script: &str, message: String)
    ensures
        final(result)@ == report_add(old(result)@, one_warning(script@, message@)),
{
    result.add_warning(Some(script.to_owned()), message);
    assert(result@.errors =~= report_add(old(result)@, one_warning(script@, message@)).errors);
    assert(result@.warnings =~= report_add(old(result)@, one_warning(script@, message@)).warnings);
}

/// The concatenation of five texts.
fn join5(a: &str, b: &str, c: &str, d: &str, e: &str) -> (r: String)
    ensures
        r@ == a@ + b@ + c@ + d@ + e@,
{
    let r = concat(a, b);
    let r = concat(r.as_str(), c);
    let r = concat(r.as_str(), d);
    concat(r.as_str(), e)
}

/// Records an error for each name in `names` that no entry of `scripts` has.
fn check_references(script_name: &str, names: &Vec<String>, scripts: &Scripts, result: &mut ValidationResult)
    requires
        scripts.wf(),
    ensures
        final(result)@ == report_add(old(result)@, reference_issues(script_name@, texts(names@), *scripts)),
{
    let ghost ns = texts(names@);
    let mut k: usize = 0;
    proof {
        assert(ns.take(0).len() == 0);
        lemma_add_assoc(old(result)@, no_issues(), no_issues());
    }
    while k < names.len()
        invariant
            scripts.wf(),
            ns == texts(names@),
            k <= names@.len(),
            result@ == report_add(old(result)@, reference_issues(script_name@, ns.take(k as int), *scripts)),
        decreases names@.len() - k,
    {
        let ghost before = result@;
        proof {
            let t = ns.take(k + 1);
            assert(t.drop_last() =~= ns.take(k as int));
            assert(t.last() == names@[k as int]@);
        }
        let missing = scripts.get(names[k].as_str()).is_none();
        if missing {
            let message = join5("Script '", script_name, "' references non-existent script '", names[k].as_str(), "'");
            push_error(result, script_name, message);
            proof {
                lemma_add_assoc(old(result)@, reference_issues(script_name@, ns.take(k as int), *scripts),
                    one_error(script_name@, missing_reference_message(script_name@, names@[k as int]@)));
            }
        } else {
            proof {
                lemma_add_assoc(old(result)@, reference_issues(script_name@, ns.take(k as int), *scripts), no_issues());
                lemma_add_assoc(reference_issues(script_name@, ns.take(k as int), *scripts), no_issues(), no_issues());
            }
        }
        k = k + 1;
    }
    assert(ns.take(k as int) =~= ns);
}

/// Records the problems with the requirement `requirement` of `script_name`,
/// given what its probe gave.
pub fn validate_requirement(script_name: &str, requirement: &str, outcome: &ProbeOutcome, result: &mut ValidationResult)
    ensures
        final(result)@ == report_add(old(result)@, requirement_issues(script_name@, requirement@, outcome@)),
{
    let (tool, version) = parse_requirement(requirement);
    match outcome {
        ProbeOutcome::NotLaunched => {
            let head = concat("Required tool '", tool.as_str());
            let message = concat(head.as_str(), "' is not installed or not in PATH");
            push_error(result, script_name, message);
        },
        ProbeOutcome::Launched { stdout } => match version {
            None => {
                proof { lemma_add_assoc(old(result)@, no_issues(), no_issues()); }
            },
            Some(v) => {
                let line = first_line_of(stdout.as_str());
                if starts_with_str(v.as_str(), ">") || starts_with_str(v.as_str(), "<") {
                    let a = join5("Tool '", tool.as_str(), "' found (version: ", line.as_str(), "), but complex version requirement '");
                    let b = concat(a.as_str(), v.as_str());
                    let message = concat(b.as_str(), "' validation is limited");
                    assert(message@ =~= version_range_message(tool@, line@, v@));
                    push_warning(result, script_name, message);
                } else if !contains_str(line.as_str(), v.as_str()) {
                    let a = join5("Tool '", tool.as_str(), "' version requirement '", v.as_str(), "' not met. Found: ");
                    let message = concat(a.as_str(), line.as_str());
                    push_error(result, script_name, message);
                } else {
                    proof { lemma_add_assoc(old(result)@, no_issues(), no_issues()); }
                }
            },
        },
    }
}

/// Records the problems with the toolchain `toolchain` of `script_name`,
/// given what its probe gave.
pub fn validate_toolchain(script_name: &str, toolchain: &str, outcome: &ProbeOutcome, result: &mut ValidationResult)
    ensures
        final(result)@ == report_add(old(result)@, toolchain_issues(script_name@, toolchain@, outcome@)),
{
    if starts_with_str(toolchain, "python:") {
        let n = toolchain.unicode_len();
        proof { reveal_strlit("python:"); }
        let version = toolchain.substring_char(7, n);
        match outcome {
            ProbeOutcome::Launched { stdout } => {
                if !contains_str(stdout.as_str(), version) {
                    let found = trim(stdout.as_str());
                    let a = join5("Python toolchain '", toolchain, "' requirement: Python found (", found.as_str(), "), but version '");
                    let b = concat(a.as_str(), version);
                    let message = concat(b.as_str(), "' not verified");
                    assert(message@ =~= python_unverified_message(toolchain@, trimmed(stdout@), version@));
                    push_warning(result, script_name, message);
                } else {
                    proof { lemma_add_assoc(old(result)@, no_issues(), no_issues()); }
                }
            },
            ProbeOutcome::NotLaunched => {
                let a = concat("Python toolchain '", toolchain);
                let message = concat(a.as_str(), "' required but Python is not installed or not in PATH");
                push_error(result, script_name, message);
            },
        }
    } else {
        match outcome {
            ProbeOutcome::Launched { stdout } => {
                if !contains_str(stdout.as_str(), toolchain) {
                    let a = concat("Required Rust toolchain '", toolchain);
                    let message = concat(a.as_str(), "' is not installed");
                    push_error(result, script_name, message);
                } else {
                    proof { lemma_add_assoc(old(result)@, no_issues(), no_issues()); }
                }
            },
            ProbeOutcome::NotLaunched => {
                push_error(result, script_name, "rustup is not installed or not in PATH".to_owned());
            },
        }
    }
}

/// Records the problems of the entry `script` named `script_name`; its
/// probes' outcomes start at `outcomes[first]`.
fn validate_script(
    script_name: &str,
    script: &Script,
    scripts: &Scripts,
    outcomes: &Vec<ProbeOutcome>,
    first: usize,
    result: &mut ValidationResult,
)
    requires
        scripts.wf(),
        first + entry_probes(*script).len() <= outcomes@.len(),
    ensures
        final(result)@ == report_add(
            old(result)@,
            entry_issues(
                script_name@,
                *script,
                *scripts,
                outcomes_view(outcomes@).subrange(first as int, first + entry_probes(*script).len()),
            ),
        ),
{
    let ghost outs = outcomes_view(outcomes@).subrange(first as int, first + entry_probes(*script).len());
    let ghost start = result@;
    let total = outcomes.len();
    match script.get_details() {
        None => {
            proof { lemma_add_assoc(start, no_issues(), no_issues()); }
        },
        Some(d) => {
            let ghost refs = listed_issues(script_name@, *d, *scripts);
            match &d.includes {
                Some(l) => check_references(script_name, l, scripts, result),
                None => {
                    proof { lemma_add_assoc(start, no_issues(), no_issues()); }
                },
            }
            let ghost reqs = entry_requirements(*script);
            let empty: Vec<String> = Vec::new();
            let list: &Vec<String> = match &d.requires {
                Some(r) => r,
                None => &empty,
            };
            assert(texts(list@) =~= reqs);
            let mut k: usize = 0;
            proof {
                assert(entry_probes(*script).len() >= reqs.len());
                assert(reqs.take(0).len() == 0);
                lemma_add_assoc(refs, no_issues(), no_issues());
            }
            while k < list.len()
                invariant
                    reqs == texts(list@),
                    total == outcomes@.len(),
                    first + entry_probes(*script).len() <= outcomes@.len(),
                    entry_probes(*script).len() >= reqs.len(),
                    outs == outcomes_view(outcomes@).subrange(first as int, first + entry_probes(*script).len()),
                    k <= list@.len(),
                    result@ == report_add(start, report_add(refs, requirements_issues(script_name@, reqs.take(k as int), outs))),
                decreases list@.len() - k,
            {
                proof {
                    let t = reqs.take(k + 1);
                    assert(t.drop_last() =~= reqs.take(k as int));
                    assert(t.last() == list@[k as int]@);
                    assert(outs[k as int] == outcomes@[first + k]@);
                    lemma_add_assoc(start, refs, requirements_issues(script_name@, reqs.take(k as int), outs));
                    lemma_add_assoc(report_add(start, refs), requirements_issues(script_name@, reqs.take(k as int), outs),
                        requirement_issues(script_name@, list@[k as int]@, outs[k as int]));
                    lemma_add_assoc(refs, requirements_issues(script_name@, reqs.take(k as int), outs),
                        requirement_issues(script_name@, list@[k as int]@, outs[k as int]));
                    lemma_add_assoc(start, refs, requirements_issues(script_name@, t, outs));
                }
                validate_requirement(script_name, list[k].as_str(), &outcomes[first + k], result);
                k = k + 1;
            }
            assert(reqs.take(k as int) =~= reqs);
            let ghost with_reqs = report_add(refs, requirements_issues(script_name@, reqs, outs));
            match &d.toolchain {
                Some(tc) => {
                    proof {
                        assert(entry_probes(*script).len() == reqs.len() + 1);
                        assert(outs[reqs.len() as int] == outcomes@[first + reqs.len()]@);
                        lemma_add_assoc(start, with_reqs, toolchain_issues(script_name@, tc@, outs[reqs.len() as int]));
                    }
                    validate_toolchain(script_name, tc.as_str(), &outcomes[first + list.len()], result);
                },
                None => {},
            }
        },
    }
}

proof fn lemma_probes_prefix(entries: Seq<(String, Script)>, j: int)
    requires
        0 <= j <= entries.len(),
    ensures
        probes_of(entries.take(j)).len() <= probes_of(entries).len(),
    decreases entries.len(),
{
    if j < entries.len() {
        assert(entries.drop_last().take(j) =~= entries.take(j));
        lemma_probes_prefix(entries.drop_last(), j);
    } else {
        assert(entries.take(j) =~= entries);
    }
}

/// The probes' views.
pub open spec fn probes_view(v: Seq<Probe>) -> Seq<ProbeView> {
    v.map_values(|p: Probe| p@)
}

/// The probes that validating `scripts` needs, in the order in which
/// `validate_scripts` reads their outcomes.
pub fn validation_probes(scripts: &Scripts) -> (r: Vec<Probe>)
    ensures
        probes_view(r@) == probes_of(scripts.scripts@),
{
    let mut r: Vec<Probe> = Vec::new();
    let mut i: usize = 0;
    while i < scripts.scripts.len()
        invariant
            i <= scripts.scripts@.len(),
            probes_view(r@) == probes_of(scripts.scripts@.take(i as int)),
        decreases scripts.scripts@.len() - i,
    {
        let ghost before = probes_view(r@);
        let script = &scripts.scripts[i].1;
        let ghost reqs = entry_requirements(*script);
        match script.get_details() {
            None => {},
            Some(d) => {
                match &d.requires {
                    Some(list) => {
                        let mut k: usize = 0;
                        while k < list.len()
                            invariant
                                reqs == texts(list@),
                                k <= list@.len(),
                                probes_view(r@).len() == before.len() + k,
                                forall|j: int| 0 <= j < before.len() ==> probes_view(r@)[j] == before[j],
                                forall|j: int| 0 <= j < k ==> probes_view(r@)[before.len() + j] == requirement_probe_of(reqs[j]),
                            decreases list@.len() - k,
                        {
                            let p = requirement_probe(list[k].as_str());
                            r.push(p);
                            proof {
                                assert(reqs[k as int] == list@[k as int]@);
                            }
                            k = k + 1;
                        }
                        assert(probes_view(r@) =~= before + reqs.map_values(|q: Seq<char>| requirement_probe_of(q)));
                    },
                    None => {
                        assert(probes_view(r@) =~= before + reqs.map_values(|q: Seq<char>| requirement_probe_of(q)));
                    },
                }
                match &d.toolchain {
                    Some(tc) => {
                        let ghost mid = probes_view(r@);
                        r.push(toolchain_probe(tc.as_str()));
                        assert(probes_view(r@) =~= mid.push(toolchain_probe_of(tc@)));
                    },
                    None => {},
                }
            },
        }
        proof {
            let t = scripts.scripts@.take(i + 1);
            assert(t.drop_last() =~= scripts.scripts@.take(i as int));
            assert(t.last() == scripts.scripts@[i as int]);
            assert(probes_view(r@) =~= before + entry_probes(*script));
        }
        i = i + 1;
    }
    assert(scripts.scripts@.take(i as int) =~= scripts.scripts@);
    r
}

/// Validates every entry of `scripts`: each name listed to run first must
/// exist, each requirement and toolchain must be met. `outcomes` are what the
/// probes of `validation_probes(scripts)` gave, in that order. Every problem
/// is recorded; none stops the validation.
pub fn validate_scripts(scripts: &Scripts, outcomes: &Vec<ProbeOutcome>) -> (r: ValidationResult)
    requires
        scripts.wf(),
        outcomes@.len() == probes_of(scripts.scripts@).len(),
    ensures
        r@ == validation_report(*scripts, outcomes_view(outcomes@)),
{
    let ghost entries = scripts.scripts@;
    let ghost outs = outcomes_view(outcomes@);
    let mut result = ValidationResult::new();
    let total = outcomes.len();
    let mut first: usize = 0;
    let mut i: usize = 0;
    while i < scripts.scripts.len()
        invariant
            scripts.wf(),
            entries == scripts.scripts@,
            outs == outcomes_view(outcomes@),
            total == outcomes@.len(),
            outcomes@.len() == probes_of(entries).len(),
            i <= entries.len(),
            first == probes_of(entries.take(i as int)).len(),
            result@ == entries_issues(*scripts, entries.take(i as int), outs),
        decreases entries.len() - i,
    {
        let entry = &scripts.scripts[i];
        proof {
            let t = entries.take(i + 1);
            assert(t.drop_last() =~= entries.take(i as int));
            assert(t.last() == entries[i as int]);
            lemma_probes_prefix(entries, i + 1);
            assert(outs.subrange(first as int, first + entry_probes(entry.1).len())
                =~= outcomes_view(outcomes@).subrange(first as int, first + entry_probes(entry.1).len()));
        }
        validate_script(entry.0.as_str(), &entry.1, scripts, outcomes, first, &mut result);
        first = first + entry_probes_len(&entry.1);
        i = i + 1;
    }
    assert(entries.take(i as int) =~= entries);
    result
}

proof fn lemma_issues_prefix(m: Scripts, entries: Seq<(String, Script)>, outcomes: Seq<Option<Seq<char>>>, j: int)
    requires
        0 <= j <= entries.len(),
    ensures
        ({
            let part = entries_issues(m, entries.take(j), outcomes);
            let whole = entries_issues(m, entries, outcomes);
            &&& part.errors.len() <= whole.errors.len()
            &&& part.warnings.len() <= whole.warnings.len()
            &&& whole.errors.take(part.errors.len() as int) == part.errors
            &&& whole.warnings.take(part.warnings.len() as int) == part.warnings
        }),
    decreases entries.len(),
{
    let whole = entries_issues(m, entries, outcomes);
    if j == entries.len() {
        assert(entries.take(j) =~= entries);
        assert(whole.errors.take(whole.errors.len() as int) =~= whole.errors);
        assert(whole.warnings.take(whole.warnings.len() as int) =~= whole.warnings);
    } else {
        assert(entries.drop_last().take(j) =~= entries.take(j));
        lemma_issues_prefix(m, entries.drop_last(), outcomes, j);
        let part = entries_issues(m, entries.take(j), outcomes);
        let mid = entries_issues(m, entries.drop_last(), outcomes);
        assert(whole.errors.take(part.errors.len() as int) =~= mid.errors.take(part.errors.len() as int));
        assert(whole.warnings.take(part.warnings.len() as int) =~= mid.warnings.take(part.warnings.len() as int));
    }
}

/// Validation reports every entry's problems: whatever the other entries
/// hold, the errors and warnings of entry `i` all stand in the report, as a
/// block of their own after those of the entries before it. So two broken
/// entries give (at least) two errors in one validation.
pub proof fn lemma_every_entry_reported(m: Scripts, outcomes: Seq<Option<Seq<char>>>, i: int)
    requires
        0 <= i < m.scripts@.len(),
    ensures
        ({
            let entries = m.scripts@;
            let report = validation_report(m, outcomes);
            let before = entries_issues(m, entries.take(i), outcomes);
            let off = probes_of(entries.take(i)).len() as int;
            let own = entry_issues(entries[i].0@, entries[i].1, m, outcomes.subrange(off, off + entry_probes(entries[i].1).len()));
            &&& report.errors.subrange(before.errors.len() as int, (before.errors.len() + own.errors.len()) as int) == own.errors
            &&& report.warnings.subrange(before.warnings.len() as int, (before.warnings.len() + own.warnings.len()) as int) == own.warnings
        }),
{
    let entries = m.scripts@;
    let t = entries.take(i + 1);
    assert(t.drop_last() =~= entries.take(i));
    assert(t.last() == entries[i]);
    lemma_issues_prefix(m, entries, outcomes, i + 1);
    let report = validation_report(m, outcomes);
    let before = entries_issues(m, entries.take(i), outcomes);
    let off = probes_of(entries.take(i)).len() as int;
    let own = entry_issues(entries[i].0@, entries[i].1, m, outcomes.subrange(off, off + entry_probes(entries[i].1).len()));
    let upto = entries_issues(m, t, outcomes);
    assert(upto == report_add(before, own));
    assert(report.errors.subrange(before.errors.len() as int, (before.errors.len() + own.errors.len()) as int)
        =~= upto.errors.subrange(before.errors.len() as int, (before.errors.len() + own.errors.len()) as int));
    assert(report.warnings.subrange(before.warnings.len() as int, (before.warnings.len() + own.warnings.len()) as int)
        =~= upto.warnings.subrange(before.warnings.len() as int, (before.warnings.len() + own.warnings.len()) as int));
}

/// Validating an unchanged manifest twice, with the tools answering the same
/// way, gives the same errors and warnings: the probes asked depend on the
/// manifest alone (see `validation_probes`), and the report on the manifest
/// and the probes' answers alone.
pub proof fn lemma_validation_repeatable(m: Scripts, first: Seq<ProbeOutcome>, second: Seq<ProbeOutcome>)
    requires
        outcomes_view(first) == outcomes_view(second),
    ensures
        validation_report(m, outcomes_view(first)) == validation_report(m, outcomes_view(second)),
{
}

/// How many probes an entry needs.
fn entry_probes_len(script: &Script) -> (r: usize)
    requires
        entry_probes(*script).len() <= usize::MAX,
    ensures
        r == entry_probes(*script).len(),
{
    match script.get_details() {
        None => 0,
        Some(d) => {
            let n = match &d.requires {
                Some(list) => list.len(),
                None => 0,
            };
            match &d.toolchain {
                Some(_) => n + 1,
                None => n,
            }
        },
    }
}

} // verus!
