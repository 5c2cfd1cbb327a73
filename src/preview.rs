//! The dry run: what running a script would do, shown and not performed.
//!
//! A preview is read off the same plan that a run follows (see
//! `crate::plan`), so both walk the same entries in the same order; a preview
//! holds no step that starts a process, and no requirement check stops it.

use vstd::prelude::*;
use crate::env::{apply_overrides, texts, EnvVars};
use crate::manifest::{Script, Scripts};
use crate::plan::{copy_opt, copy_strings, node_steps, opt_view, run_plan, steps_view, Step, StepView};

verus! {

/// One line group of a preview.
pub enum PreviewItem {
    /// The tools an entry requires (verbose only).
    Requirements { script: String, level: usize, tools: Vec<String> },
    /// The toolchain an entry uses (verbose only).
    Toolchain { level: usize, name: String },
    /// An entry's description (verbose only).
    Description { level: usize, text: String },
    /// An entry's list of scripts to run first is about to be shown; `info` is
    /// given in verbose mode only.
    IncludesHeader { script: String, level: usize, info: Option<String> },
    /// The command an entry would run, with its final environment.
    Command {
        script: String,
        level: usize,
        interpreter: Option<String>,
        toolchain: Option<String>,
        command: String,
        env: EnvVars,
    },
    /// No entry has this name: the preview fails here.
    Missing { script: String },
    /// The name is reached through a loop of pre-run lists: the preview fails here.
    Cycle { script: String },
}

/// A preview item, with texts for strings.
pub enum PreviewView {
    Requirements { script: Seq<char>, level: nat, tools: Seq<Seq<char>> },
    Toolchain { level: nat, name: Seq<char> },
    Description { level: nat, text: Seq<char> },
    IncludesHeader { script: Seq<char>, level: nat, info: Option<Seq<char>> },
    Command {
        script: Seq<char>,
        level: nat,
        interpreter: Option<Seq<char>>,
        toolchain: Option<Seq<char>>,
        command: Seq<char>,
        env: Map<Seq<char>, Seq<char>>,
    },
    Missing { script: Seq<char> },
    Cycle { script: Seq<char> },
}

impl View for PreviewItem {
    type V = PreviewView;

    open spec fn view(&self) -> PreviewView {
        match self {
            PreviewItem::Requirements { script, level, tools } => PreviewView::Requirements {
                script: script@,
                level: *level as nat,
                tools: texts(tools@),
            },
            PreviewItem::Toolchain { level, name } => PreviewView::Toolchain { level: *level as nat, name: name@ },
            PreviewItem::Description { level, text } => PreviewView::Description { level: *level as nat, text: text@ },
            PreviewItem::IncludesHeader { script, level, info } => PreviewView::IncludesHeader {
                script: script@,
                level: *level as nat,
                info: opt_view(*info),
            },
            PreviewItem::Command { script, level, interpreter, toolchain, command, env } => PreviewView::Command {
                script: script@,
                level: *level as nat,
                interpreter: opt_view(*interpreter),
                toolchain: opt_view(*toolchain),
                command: command@,
                env: env@,
            },
            PreviewItem::Missing { script } => PreviewView::Missing { script: script@ },
            PreviewItem::Cycle { script } => PreviewView::Cycle { script: script@ },
        }
    }
}

/// The views of a list of preview items.
pub open spec fn items_view(s: Seq<PreviewItem>) -> Seq<PreviewView> {
    s.map_values(|x: PreviewItem| x@)
}

/// What one step of a run shows in a preview.
pub open spec fn preview_of(s: StepView, verbose: bool) -> Seq<PreviewView> {
    match s {
        StepView::CheckRequirements { script, level, tools, toolchain, info } => {
            (if verbose && tools.len() > 0 {
                seq![PreviewView::Requirements { script, level, tools }]
            } else {
                Seq::empty()
            }) + (match toolchain {
                Some(tc) => if verbose { seq![PreviewView::Toolchain { level, name: tc }] } else { Seq::empty() },
                None => Seq::empty(),
            }) + (match info {
                Some(i) => if verbose { seq![PreviewView::Description { level, text: i }] } else { Seq::empty() },
                None => Seq::empty(),
            })
        },
        StepView::Announce { script, level, includes, info } => if includes {
            seq![PreviewView::IncludesHeader { script, level, info: if verbose { info } else { None } }]
        } else {
            Seq::empty()
        },
        StepView::Spawn { script, level, command, interpreter, toolchain, env, .. } => seq![
            PreviewView::Command { script, level, interpreter, toolchain, command, env },
        ],
        StepView::Missing { script } => seq![PreviewView::Missing { script }],
        StepView::Cycle { script } => seq![PreviewView::Cycle { script }],
        _ => Seq::empty(),
    }
}

/// What a list of steps shows in a preview, in order.
pub open spec fn preview_steps(s: Seq<StepView>, verbose: bool) -> Seq<PreviewView>
    decreases s.len(),
{
    if s.len() == 0 {
        Seq::empty()
    } else {
        preview_steps(s.drop_last(), verbose) + preview_of(s.last(), verbose)
    }
}

fn push_item(out: &mut Vec<PreviewItem>, item: PreviewItem)
    ensures
        items_view(final(out)@) == items_view(old(out)@).push(item@),
{
    out.push(item);
    assert(items_view(out@) =~= items_view(old(out)@).push(item@));
}

/// Appends what `step` shows in a preview to `out`.
fn preview_step(step: &Step, verbose: bool, out: &mut Vec<PreviewItem>)
    ensures
        items_view(final(out)@) == items_view(old(out)@) + preview_of(step@, verbose),
{
    let ghost start = items_view(out@);
    match step {
        Step::CheckRequirements { script, level, tools, toolchain, info } => {
            if verbose && tools.len() > 0 {
                push_item(out, PreviewItem::Requirements { script: script.clone(), level: *level, tools: copy_strings(tools) });
            }
            let ghost mid1 = items_view(out@);
            match toolchain {
                Some(tc) => if verbose {
                    push_item(out, PreviewItem::Toolchain { level: *level, name: tc.clone() });
                },
                None => {},
            }
            let ghost mid2 = items_view(out@);
            match info {
                Some(i) => if verbose {
                    push_item(out, PreviewItem::Description { level: *level, text: i.clone() });
                },
                None => {},
            }
            assert(items_view(out@) =~= start + preview_of(step@, verbose));
        },
        Step::Announce { script, level, includes, info } => {
            if *includes {
                let shown = if verbose { copy_opt(info) } else { None };
                push_item(out, PreviewItem::IncludesHeader { script: script.clone(), level: *level, info: shown });
            }
            assert(items_view(out@) =~= start + preview_of(step@, verbose));
        },
        Step::Spawn { script, level, command, interpreter, toolchain, invocation } => {
            push_item(out, PreviewItem::Command {
                script: script.clone(),
                level: *level,
                interpreter: copy_opt(interpreter),
                toolchain: copy_opt(toolchain),
                command: command.clone(),
                env: invocation.env.duplicate(),
            });
            assert(items_view(out@) =~= start + preview_of(step@, verbose));
        },
        Step::Missing { script } => {
            push_item(out, PreviewItem::Missing { script: script.clone() });
            assert(items_view(out@) =~= start + preview_of(step@, verbose));
        },
        Step::Cycle { script } => {
            push_item(out, PreviewItem::Cycle { script: script.clone() });
            assert(items_view(out@) =~= start + preview_of(step@, verbose));
        },
        _ => {
            assert(items_view(out@) =~= start + preview_of(step@, verbose));
        },
    }
}

/// What the steps `steps` show in a preview.
pub fn preview_plan(steps: &Vec<Step>, verbose: bool) -> (r: Vec<PreviewItem>)
    ensures
        items_view(r@) == preview_steps(steps_view(steps@), verbose),
{
    let mut out: Vec<PreviewItem> = Vec::new();
    let mut i: usize = 0;
    while i < steps.len()
        invariant
            i <= steps@.len(),
            items_view(out@) == preview_steps(steps_view(steps@.subrange(0, i as int)), verbose),
        decreases steps@.len() - i,
    {
        proof {
            let t = steps_view(steps@.subrange(0, i + 1));
            assert(t.drop_last() =~= steps_view(steps@.subrange(0, i as int)));
            assert(t.last() == steps@[i as int]@);
        }
        preview_step(&steps[i], verbose, &mut out);
        i = i + 1;
    }
    assert(steps@.subrange(0, i as int) =~= steps@);
    out
}

/// The dry run of an entry that is a bare command `command` shows that
/// command, as written, with its final environment, and nothing else: no
/// item of a preview starts a process.
pub proof fn lemma_dry_run_bare_command(m: Scripts, name: Seq<char>, overrides: Seq<Seq<char>>, verbose: bool, command: String)
    requires
        m.lookup(name) == Some(Script::Default(command)),
    ensures
        preview_steps(node_steps(m, name, overrides, false, 0), verbose) == seq![
            PreviewView::Command {
                script: name,
                level: 0,
                interpreter: None,
                toolchain: None,
                command: command@,
                env: apply_overrides(m.global_map(), overrides),
            },
        ],
{
    let steps = node_steps(m, name, overrides, false, 0);
    let i = choose|i: int| 0 <= i < m.scripts@.len() && m.scripts@[i].0@ == name;
    assert(m.scripts@.len() > 0);
    assert(steps.len() == 4);
    assert(steps.drop_last().drop_last().drop_last().drop_last() =~= Seq::<StepView>::empty());
    assert(preview_steps(Seq::<StepView>::empty(), verbose) == Seq::<PreviewView>::empty());
    assert(preview_steps(steps.drop_last().drop_last().drop_last(), verbose) =~= Seq::<PreviewView>::empty());
    assert(preview_steps(steps.drop_last().drop_last(), verbose) =~= Seq::<PreviewView>::empty());
    let cmd = PreviewView::Command {
        script: name,
        level: 0,
        interpreter: None,
        toolchain: None,
        command: command@,
        env: apply_overrides(m.global_map(), overrides),
    };
    assert(steps.drop_last().last() == steps[2]);
    assert(preview_of(steps[2], verbose) =~= seq![cmd]);
    assert(preview_steps(steps.drop_last(), verbose) =~= seq![cmd]);
    assert(preview_of(steps[3], verbose) =~= Seq::<PreviewView>::empty());
    assert(preview_steps(steps, verbose) =~= seq![
        PreviewView::Command {
            script: name,
            level: 0,
            interpreter: None,
            toolchain: None,
            command: command@,
            env: apply_overrides(m.global_map(), overrides),
        },
    ]);
}

/// The preview of running `script_name` with the command line's `NAME=VALUE`
/// overrides. A preview shows commands as written, not the program that would
/// run them, so it is the same on every platform.
pub fn dry_run_script(scripts: &Scripts, script_name: &str, env_overrides: &Vec<String>, verbose: bool) -> (r: Vec<PreviewItem>)
    requires
        scripts.wf(),
    ensures
        items_view(r@) == preview_steps(node_steps(*scripts, script_name@, texts(env_overrides@), false, 0), verbose),
{
    let steps = run_plan(scripts, script_name, env_overrides, false);
    preview_plan(&steps, verbose)
}

} // verus!
