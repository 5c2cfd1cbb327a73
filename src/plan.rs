//! The plan of a run: the steps that running a script performs, in order.
//!
//! A run walks the entry tree from the requested script. Each entry first
//! checks its requirements, then runs the entries it lists to run first, in
//! order and one level deeper, then its own command. The walk stops at the
//! first name that does not exist, and at a name reached so deep that the
//! pre-run lists must loop. Performing a step may fail (a requirement is not
//! met, a process cannot start); the steps after a failed one are not
//! performed.

use vstd::prelude::*;
use crate::env::{apply_overrides, get_final_env, texts, EnvVars};
use crate::invocation::{build_invocation, invocation_of, Invocation};
use crate::manifest::{Script, ScriptDetails, Scripts};

verus! {

/// One step of a run.
pub enum Step {
    /// Start timing `script`.
    Start { script: String, level: usize },
    /// Check the tools and the toolchain that `script` requires (`info` is
    /// its description).
    CheckRequirements { script: String, level: usize, tools: Vec<String>, toolchain: Option<String>, info: Option<String> },
    /// Tell the user that `script` runs now: its list of scripts to run
    /// first (`includes`), or its own command.
    Announce { script: String, level: usize, includes: bool, info: Option<String> },
    /// Start the process and wait for it: `command` as written, under the
    /// entry's interpreter and toolchain.
    Spawn {
        script: String,
        level: usize,
        command: String,
        interpreter: Option<String>,
        toolchain: Option<String>,
        invocation: Invocation,
    },
    /// Stop timing `script`; `timed` tells whether its duration is reported.
    Finish { script: String, timed: bool },
    /// No entry is named `script`: the run fails here.
    Missing { script: String },
    /// `script` is reached through a loop of pre-run lists: the run fails here.
    Cycle { script: String },
}

/// A step, with texts for strings.
pub enum StepView {
    Start { script: Seq<char>, level: nat },
    CheckRequirements {
        script: Seq<char>,
        level: nat,
        tools: Seq<Seq<char>>,
        toolchain: Option<Seq<char>>,
        info: Option<Seq<char>>,
    },
    Announce { script: Seq<char>, level: nat, includes: bool, info: Option<Seq<char>> },
    Spawn {
        script: Seq<char>,
        level: nat,
        command: Seq<char>,
        interpreter: Option<Seq<char>>,
        toolchain: Option<Seq<char>>,
        program: Seq<char>,
        args: Seq<Seq<char>>,
        env: Map<Seq<char>, Seq<char>>,
    },
    Finish { script: Seq<char>, timed: bool },
    Missing { script: Seq<char> },
    Cycle { script: Seq<char> },
}

/// The text of an optional string.
pub open spec fn opt_view(o: Option<String>) -> Option<Seq<char>> {
    match o {
        Some(s) => Some(s@),
        None => None,
    }
}

impl View for Step {
    type V = StepView;

    open spec fn view(&self) -> StepView {
        match self {
            Step::Start { script, level } => StepView::Start { script: script@, level: *level as nat },
            Step::CheckRequirements { script, level, tools, toolchain, info } => StepView::CheckRequirements {
                script: script@,
                level: *level as nat,
                tools: texts(tools@),
                toolchain: opt_view(*toolchain),
                info: opt_view(*info),
            },
            Step::Announce { script, level, includes, info } => StepView::Announce {
                script: script@,
                level: *level as nat,
                includes: *includes,
                info: opt_view(*info),
            },
            Step::Spawn { script, level, command, interpreter, toolchain, invocation } => StepView::Spawn {
                script: script@,
                level: *level as nat,
                command: command@,
                interpreter: opt_view(*interpreter),
                toolchain: opt_view(*toolchain),
                program: invocation.program@,
                args: texts(invocation.args@),
                env: invocation.env@,
            },
            Step::Finish { script, timed } => StepView::Finish { script: script@, timed: *timed },
            Step::Missing { script } => StepView::Missing { script: script@ },
            Step::Cycle { script } => StepView::Cycle { script: script@ },
        }
    }
}

/// The views of a list of steps.
pub open spec fn steps_view(s: Seq<Step>) -> Seq<StepView> {
    s.map_values(|x: Step| x@)
}

/// A list of steps that ends the run with a failure.
pub open spec fn failed(s: Seq<StepView>) -> bool {
    s.len() > 0 && (s.last() is Missing || s.last() is Cycle)
}

/// The map of an optional environment overlay (empty when absent).
pub open spec fn overlay_map(e: Option<EnvVars>) -> Map<Seq<char>, Seq<char>> {
    match e {
        Some(v) => v@,
        None => Map::empty(),
    }
}

/// The steps of an entry's own command, if it has one.
pub open spec fn own_steps(
    m: Scripts,
    name: Seq<char>,
    d: ScriptDetails,
    ov: Seq<Seq<char>>,
    windows: bool,
    level: nat,
) -> Seq<StepView> {
    match d.command {
        Some(c) => {
            let inv = invocation_of(opt_view(d.interpreter), c@, opt_view(d.toolchain), windows);
            seq![
                StepView::Announce { script: name, level, includes: false, info: opt_view(d.info) },
                StepView::Spawn {
                    script: name,
                    level,
                    command: c@,
                    interpreter: opt_view(d.interpreter),
                    toolchain: opt_view(d.toolchain),
                    program: inv.0,
                    args: inv.1,
                    env: apply_overrides(m.global_map().union_prefer_right(overlay_map(d.env)), ov),
                },
            ]
        },
        None => Seq::empty(),
    }
}

/// The steps of running `name` at nesting `level`, with the command line's
/// `NAME=VALUE` overrides `ov`.
pub open spec fn node_steps(m: Scripts, name: Seq<char>, ov: Seq<Seq<char>>, windows: bool, level: nat) -> Seq<StepView>
    decreases m.scripts@.len() - level, 2nat,
{
    match m.lookup(name) {
        None => seq![StepView::Missing { script: name }],
        Some(s) => if level >= m.scripts@.len() {
            seq![StepView::Cycle { script: name }]
        } else {
            match s {
                Script::Default(c) => {
                    let inv = invocation_of(None, c@, None, windows);
                    seq![
                        StepView::Start { script: name, level },
                        StepView::Announce { script: name, level, includes: false, info: None },
                        StepView::Spawn {
                            script: name,
                            level,
                            command: c@,
                            interpreter: None,
                            toolchain: None,
                            program: inv.0,
                            args: inv.1,
                            env: apply_overrides(m.global_map(), ov),
                        },
                        StepView::Finish { script: name, timed: true },
                    ]
                },
                Script::Inline(d) => detail_steps(m, name, d, ov, windows, level),
                Script::CILike { details, .. } => detail_steps(m, name, details, ov, windows, level),
            }
        },
    }
}

/// The steps of running a record entry `d` named `name`.
pub open spec fn detail_steps(
    m: Scripts,
    name: Seq<char>,
    d: ScriptDetails,
    ov: Seq<Seq<char>>,
    windows: bool,
    level: nat,
) -> Seq<StepView>
    decreases m.scripts@.len() - level, 1nat,
{
    let head = seq![
        StepView::Start { script: name, level },
        StepView::CheckRequirements {
            script: name,
            level,
            tools: match d.requires {
                Some(r) => texts(r@),
                None => Seq::empty(),
            },
            toolchain: opt_view(d.toolchain),
            info: opt_view(d.info),
        },
    ];
    let first = pre_run_steps(m, name, d, ov, windows, level);
    if failed(first) {
        head + first
    } else {
        head + first + own_steps(m, name, d, ov, windows, level) + seq![
            StepView::Finish { script: name, timed: level > 0 || d.command is Some },
        ]
    }
}

/// The steps of a record entry's pre-run list: an announcement, then each
/// listed script one level deeper, up to the first that fails.
pub open spec fn pre_run_steps(
    m: Scripts,
    name: Seq<char>,
    d: ScriptDetails,
    ov: Seq<Seq<char>>,
    windows: bool,
    level: nat,
) -> Seq<StepView>
    decreases m.scripts@.len() - level, 0nat,
{
    match d.includes {
        Some(list) => if level < m.scripts@.len() {
            seq![StepView::Announce { script: name, level, includes: true, info: opt_view(d.info) }]
                + list_steps(m, texts(list@), ov, windows, level + 1)
        } else {
            Seq::empty()
        },
        None => Seq::empty(),
    }
}

/// The steps of running each of `names` in turn at `level`, up to the first
/// that fails.
pub open spec fn list_steps(m: Scripts, names: Seq<Seq<char>>, ov: Seq<Seq<char>>, windows: bool, level: nat) -> Seq<StepView>
    decreases m.scripts@.len() - level, names.len() + 2,
{
    if names.len() == 0 || level > m.scripts@.len() {
        Seq::empty()
    } else {
        let prev = list_steps(m, names.drop_last(), ov, windows, level);
        if failed(prev) {
            prev
        } else {
            prev + node_steps(m, names.last(), ov, windows, level)
        }
    }
}

/// The commands that the steps start, in order.
pub open spec fn spawned(s: Seq<StepView>) -> Seq<Seq<char>>
    decreases s.len(),
{
    if s.len() == 0 {
        Seq::empty()
    } else {
        spawned(s.drop_last()) + match s.last() {
            StepView::Spawn { command, .. } => seq![command],
            _ => Seq::empty(),
        }
    }
}

proof fn lemma_spawned_append(a: Seq<StepView>, b: Seq<StepView>)
    ensures
        spawned(a + b) == spawned(a) + spawned(b),
    decreases b.len(),
{
    if b.len() == 0 {
        assert(a + b =~= a);
        assert(spawned(a) + spawned(b) =~= spawned(a));
    } else {
        assert((a + b).drop_last() =~= a + b.drop_last());
        lemma_spawned_append(a, b.drop_last());
        assert(spawned(a + b) =~= spawned(a) + spawned(b));
    }
}

proof fn lemma_no_spawn(s: Seq<StepView>)
    requires
        forall|i: int| 0 <= i < s.len() ==> !(#[trigger] s[i] is Spawn),
    ensures
        spawned(s) == Seq::<Seq<char>>::empty(),
    decreases s.len(),
{
    if s.len() > 0 {
        lemma_no_spawn(s.drop_last());
        assert(spawned(s) =~= Seq::<Seq<char>>::empty());
    }
}

/// Running an entry whose pre-run list is `[first, second]` runs `first`
/// fully, then `second` fully, then the entry's own command `command`: the
/// commands started are those of `first`, then those of `second`, then
/// `command`, with nothing interleaved. (When `first` or `second` fails, the
/// run stops there.)
pub proof fn lemma_pre_run_order(
    m: Scripts,
    name: Seq<char>,
    ov: Seq<Seq<char>>,
    windows: bool,
    level: nat,
    d: ScriptDetails,
    first: Seq<char>,
    second: Seq<char>,
    command: String,
)
    requires
        level < m.scripts@.len(),
        m.lookup(name) is Some,
        m.lookup(name).unwrap().details() == Some(d),
        d.includes is Some,
        texts(d.includes.unwrap()@) == seq![first, second],
        d.command == Some(command),
        !failed(node_steps(m, first, ov, windows, level + 1)),
        !failed(node_steps(m, second, ov, windows, level + 1)),
    ensures
        spawned(node_steps(m, name, ov, windows, level)) == spawned(node_steps(m, first, ov, windows, level + 1))
            + spawned(node_steps(m, second, ov, windows, level + 1)) + seq![command@],
{
    let names = seq![first, second];
    let na = node_steps(m, first, ov, windows, level + 1);
    let nb = node_steps(m, second, ov, windows, level + 1);
    assert(names.drop_last() =~= seq![first]);
    assert(seq![first].drop_last() =~= Seq::<Seq<char>>::empty());
    assert(list_steps(m, Seq::<Seq<char>>::empty(), ov, windows, level + 1) == Seq::<StepView>::empty());
    assert(Seq::<StepView>::empty() + na =~= na);
    assert(list_steps(m, seq![first], ov, windows, level + 1) == na);
    let l = list_steps(m, names, ov, windows, level + 1);
    assert(l == na + nb);
    let a = StepView::Announce { script: name, level, includes: true, info: opt_view(d.info) };
    let fl = seq![a] + l;
    assert(nb.len() > 0);
    assert(fl.last() == nb.last());
    assert(!failed(fl));
    assert(node_steps(m, name, ov, windows, level) == detail_steps(m, name, d, ov, windows, level));
    let head = seq![
        StepView::Start { script: name, level },
        StepView::CheckRequirements {
            script: name,
            level,
            tools: match d.requires {
                Some(r) => texts(r@),
                None => Seq::empty(),
            },
            toolchain: opt_view(d.toolchain),
            info: opt_view(d.info),
        },
    ];
    let own = own_steps(m, name, d, ov, windows, level);
    let fin = seq![StepView::Finish { script: name, timed: level > 0 || d.command is Some }];
    assert(detail_steps(m, name, d, ov, windows, level) == head + fl + own + fin);
    lemma_spawned_append(head + fl + own, fin);
    lemma_spawned_append(head + fl, own);
    lemma_spawned_append(head, fl);
    lemma_spawned_append(seq![a], l);
    lemma_spawned_append(na, nb);
    lemma_no_spawn(head);
    lemma_no_spawn(seq![a]);
    lemma_no_spawn(fin);
    lemma_no_spawn(seq![own[0]]);
    assert(own =~= seq![own[0]] + seq![own[1]]);
    lemma_spawned_append(seq![own[0]], seq![own[1]]);
    assert(seq![own[1]].drop_last() =~= Seq::<StepView>::empty());
    assert(spawned(Seq::<StepView>::empty()) == Seq::<Seq<char>>::empty());
    assert(own[1] matches StepView::Spawn { command: c, .. } && c == command@);
    assert(spawned(seq![own[1]]) =~= seq![command@]);
    assert(spawned(node_steps(m, name, ov, windows, level)) =~= spawned(na) + spawned(nb) + seq![command@]);
}

/// A copy of a list of strings.
pub fn copy_strings(v: &Vec<String>) -> (r: Vec<String>)
    ensures
        texts(r@) == texts(v@),
{
    let mut r: Vec<String> = Vec::new();
    let mut i: usize = 0;
    while i < v.len()
        invariant
            i <= v@.len(),
            r@.len() == i,
            forall|j: int| 0 <= j < i ==> r@[j]@ == v@[j]@,
        decreases v@.len() - i,
    {
        r.push(v[i].clone());
        i = i + 1;
    }
    assert(texts(r@) =~= texts(v@));
    r
}

/// A copy of an optional string.
pub fn copy_opt(o: &Option<String>) -> (r: Option<String>)
    ensures
        opt_view(r) == opt_view(*o),
{
    match o {
        Some(s) => Some(s.clone()),
        None => None,
    }
}

fn as_opt_str(o: &Option<String>) -> (r: Option<&str>)
    ensures
        crate::invocation::opt_text(r) == opt_view(*o),
{
    match o {
        Some(s) => Some(s.as_str()),
        None => None,
    }
}

fn push_step(out: &mut Vec<Step>, step: Step)
    ensures
        steps_view(final(out)@) == steps_view(old(out)@).push(step@),
{
    out.push(step);
    assert(steps_view(out@) =~= steps_view(old(out)@).push(step@));
}

proof fn lemma_list_steps_stuck(m: Scripts, names: Seq<Seq<char>>, ov: Seq<Seq<char>>, windows: bool, level: nat, k: int)
    requires
        0 <= k <= names.len(),
        level <= m.scripts@.len(),
        failed(list_steps(m, names.take(k), ov, windows, level)),
    ensures
        list_steps(m, names, ov, windows, level) == list_steps(m, names.take(k), ov, windows, level),
    decreases names.len(),
{
    if names.len() == k {
        assert(names.take(k) =~= names);
    } else {
        assert(names.drop_last().take(k) =~= names.take(k));
        lemma_list_steps_stuck(m, names.drop_last(), ov, windows, level, k);
    }
}

/// Appends the steps of running `name` at `level` to `out`, and tells whether
/// they end the run with a failure.
fn plan_node(
    scripts: &Scripts,
    name: &str,
    overrides: &Vec<String>,
    windows: bool,
    level: usize,
    out: &mut Vec<Step>,
) -> (r: bool)
    requires
        scripts.wf(),
        level <= scripts.scripts@.len(),
    ensures
        steps_view(final(out)@) == steps_view(old(out)@) + node_steps(*scripts, name@, texts(overrides@), windows, level as nat),
        r == failed(node_steps(*scripts, name@, texts(overrides@), windows, level as nat)),
    decreases scripts.scripts@.len() - level, 2nat,
{
    let ghost ns = node_steps(*scripts, name@, texts(overrides@), windows, level as nat);
    match scripts.get(name) {
        None => {
            push_step(out, Step::Missing { script: name.to_owned() });
            assert(steps_view(out@) =~= steps_view(old(out)@) + ns);
            true
        },
        Some(s) => {
            if level >= scripts.scripts.len() {
                push_step(out, Step::Cycle { script: name.to_owned() });
                assert(steps_view(out@) =~= steps_view(old(out)@) + ns);
                return true;
            }
            match s {
                Script::Default(c) => {
                    push_step(out, Step::Start { script: name.to_owned(), level });
                    push_step(out, Step::Announce { script: name.to_owned(), level, includes: false, info: None });
                    let global = scripts.global_vars();
                    let env = get_final_env(&global, overrides);
                    let invocation = build_invocation(None, c.as_str(), None, windows, env);
                    push_step(out, Step::Spawn {
                        script: name.to_owned(),
                        level,
                        command: c.clone(),
                        interpreter: None,
                        toolchain: None,
                        invocation,
                    });
                    push_step(out, Step::Finish { script: name.to_owned(), timed: true });
                    assert(steps_view(out@) =~= steps_view(old(out)@) + ns);
                    false
                },
                Script::Inline(d) => plan_details(scripts, name, d, overrides, windows, level, out),
                Script::CILike { details, .. } => plan_details(scripts, name, details, overrides, windows, level, out),
            }
        },
    }
}

/// Appends the steps of running each of `list` in turn at `level` to `out`,
/// up to the first that fails, and tells whether they end the run with a
/// failure.
fn plan_list(
    scripts: &Scripts,
    list: &Vec<String>,
    overrides: &Vec<String>,
    windows: bool,
    level: usize,
    out: &mut Vec<Step>,
) -> (r: bool)
    requires
        scripts.wf(),
        level <= scripts.scripts@.len(),
    ensures
        steps_view(final(out)@) == steps_view(old(out)@) + list_steps(*scripts, texts(list@), texts(overrides@), windows, level as nat),
        r == failed(list_steps(*scripts, texts(list@), texts(overrides@), windows, level as nat)),
    decreases scripts.scripts@.len() - level, 3nat,
{
    let ghost m = *scripts;
    let ghost ov = texts(overrides@);
    let ghost names = texts(list@);
    let ghost start = steps_view(out@);
    let mut k: usize = 0;
    assert(names.take(0).len() == 0);
    assert(steps_view(out@) =~= start + list_steps(m, names.take(0), ov, windows, level as nat));
    while k < list.len()
        invariant
            scripts.wf(),
            level <= scripts.scripts@.len(),
            m == *scripts,
            ov == texts(overrides@),
            names == texts(list@),
            start == steps_view(old(out)@),
            k <= list@.len(),
            steps_view(out@) == start + list_steps(m, names.take(k as int), ov, windows, level as nat),
            !failed(list_steps(m, names.take(k as int), ov, windows, level as nat)),
        decreases list@.len() - k,
    {
        let f = plan_node(scripts, list[k].as_str(), overrides, windows, level, out);
        proof {
            let t = names.take(k + 1);
            assert(t.drop_last() =~= names.take(k as int));
            assert(t.last() == list@[k as int]@);
            let child = node_steps(m, list@[k as int]@, ov, windows, level as nat);
            assert(list_steps(m, t, ov, windows, level as nat) == list_steps(m, names.take(k as int), ov, windows, level as nat) + child);
            assert(steps_view(out@) =~= start + list_steps(m, t, ov, windows, level as nat));
            if f {
                assert(child.len() > 0 && child.last() == list_steps(m, t, ov, windows, level as nat).last());
                lemma_list_steps_stuck(m, names, ov, windows, level as nat, k + 1);
            }
        }
        if f {
            assert(steps_view(out@) == start + list_steps(m, names, ov, windows, level as nat));
            return true;
        }
        k = k + 1;
    }
    assert(names.take(k as int) =~= names);
    false
}

/// Appends the steps of the record entry's own command, if any, to `out`.
fn plan_own(
    scripts: &Scripts,
    name: &str,
    d: &ScriptDetails,
    overrides: &Vec<String>,
    windows: bool,
    level: usize,
    out: &mut Vec<Step>,
)
    requires
        scripts.wf(),
        d.wf(),
    ensures
        steps_view(final(out)@) == steps_view(old(out)@) + own_steps(*scripts, name@, *d, texts(overrides@), windows, level as nat),
{
    let ghost start = steps_view(out@);
    match &d.command {
        Some(c) => {
            push_step(out, Step::Announce { script: name.to_owned(), level, includes: false, info: copy_opt(&d.info) });
            let mut env = scripts.global_vars();
            match &d.env {
                Some(e) => env.extend(e),
                None => {
                    assert(scripts.global_map().union_prefer_right(Map::empty()) =~= scripts.global_map());
                },
            }
            assert(env@ == scripts.global_map().union_prefer_right(overlay_map(d.env)));
            let final_env = get_final_env(&env, overrides);
            let invocation = build_invocation(
                as_opt_str(&d.interpreter),
                c.as_str(),
                as_opt_str(&d.toolchain),
                windows,
                final_env,
            );
            let spawn = Step::Spawn {
                script: name.to_owned(),
                level,
                command: c.clone(),
                interpreter: copy_opt(&d.interpreter),
                toolchain: copy_opt(&d.toolchain),
                invocation,
            };
            let ghost inv = invocation_of(opt_view(d.interpreter), c@, opt_view(d.toolchain), windows);
            assert(spawn@ == StepView::Spawn {
                script: name@,
                level: level as nat,
                command: c@,
                interpreter: opt_view(d.interpreter),
                toolchain: opt_view(d.toolchain),
                program: inv.0,
                args: inv.1,
                env: apply_overrides(scripts.global_map().union_prefer_right(overlay_map(d.env)), texts(overrides@)),
            });
            push_step(out, spawn);
            assert(steps_view(out@) =~= start + own_steps(*scripts, name@, *d, texts(overrides@), windows, level as nat));
        },
        None => {
            assert(steps_view(out@) =~= start + own_steps(*scripts, name@, *d, texts(overrides@), windows, level as nat));
        },
    }
}

/// Appends the steps of the record entry's pre-run list to `out`, and tells
/// whether they end the run with a failure.
fn plan_pre_run(
    scripts: &Scripts,
    name: &str,
    d: &ScriptDetails,
    overrides: &Vec<String>,
    windows: bool,
    level: usize,
    out: &mut Vec<Step>,
) -> (r: bool)
    requires
        scripts.wf(),
        level < scripts.scripts@.len(),
    ensures
        steps_view(final(out)@) == steps_view(old(out)@) + pre_run_steps(*scripts, name@, *d, texts(overrides@), windows, level as nat),
        r == failed(pre_run_steps(*scripts, name@, *d, texts(overrides@), windows, level as nat)),
    decreases scripts.scripts@.len() - level, 0nat,
{
    let ghost m = *scripts;
    let ghost ov = texts(overrides@);
    let ghost start = steps_view(out@);
    let n = scripts.scripts.len();
    match &d.includes {
        Some(list) => {
            let announce = Step::Announce { script: name.to_owned(), level, includes: true, info: copy_opt(&d.info) };
            let ghost a = announce@;
            push_step(out, announce);
            let f = plan_list(scripts, list, overrides, windows, level + 1, out);
            proof {
                let l = list_steps(m, texts(list@), ov, windows, level as nat + 1);
                let first = seq![a] + l;
                assert(first == pre_run_steps(m, name@, *d, ov, windows, level as nat));
                if l.len() > 0 {
                    assert(first.last() == l.last());
                }
                assert(failed(first) == f);
                assert(steps_view(out@) =~= start + first);
            }
            f
        },
        None => {
            assert(steps_view(out@) =~= start + pre_run_steps(m, name@, *d, ov, windows, level as nat));
            false
        },
    }
}

/// The first two steps of a record entry: start its timer, check its
/// requirements.
pub open spec fn detail_head(name: Seq<char>, d: ScriptDetails, level: nat) -> Seq<StepView> {
    seq![
        StepView::Start { script: name, level },
        StepView::CheckRequirements {
            script: name,
            level,
            tools: match d.requires {
                Some(r) => texts(r@),
                None => Seq::empty(),
            },
            toolchain: opt_view(d.toolchain),
            info: opt_view(d.info),
        },
    ]
}

proof fn lemma_detail_steps_shape(m: Scripts, name: Seq<char>, d: ScriptDetails, ov: Seq<Seq<char>>, windows: bool, level: nat)
    ensures
        ({
            let first = pre_run_steps(m, name, d, ov, windows, level);
            let all = detail_steps(m, name, d, ov, windows, level);
            if failed(first) {
                all == detail_head(name, d, level) + first
            } else {
                all == detail_head(name, d, level) + first + own_steps(m, name, d, ov, windows, level) + seq![
                    StepView::Finish { script: name, timed: level > 0 || d.command is Some },
                ]
            }
        }),
{
}

fn push_head(name: &str, d: &ScriptDetails, level: usize, out: &mut Vec<Step>)
    ensures
        steps_view(final(out)@) == steps_view(old(out)@) + detail_head(name@, *d, level as nat),
{
    let ghost start = steps_view(out@);
    push_step(out, Step::Start { script: name.to_owned(), level });
    let tools = match &d.requires {
        Some(r) => copy_strings(r),
        None => Vec::new(),
    };
    assert(d.requires is None ==> texts(tools@) =~= Seq::<Seq<char>>::empty());
    push_step(out, Step::CheckRequirements {
        script: name.to_owned(),
        level,
        tools,
        toolchain: copy_opt(&d.toolchain),
        info: copy_opt(&d.info),
    });
    assert(steps_view(out@) =~= start + detail_head(name@, *d, level as nat));
}

/// Appends the steps of running the record entry `d`, named `name`, at
/// `level` to `out`, and tells whether they end the run with a failure.
fn plan_details(
    scripts: &Scripts,
    name: &str,
    d: &ScriptDetails,
    overrides: &Vec<String>,
    windows: bool,
    level: usize,
    out: &mut Vec<Step>,
) -> (r: bool)
    requires
        scripts.wf(),
        level < scripts.scripts@.len(),
        d.wf(),
    ensures
        steps_view(final(out)@) == steps_view(old(out)@) + detail_steps(*scripts, name@, *d, texts(overrides@), windows, level as nat),
        r == failed(detail_steps(*scripts, name@, *d, texts(overrides@), windows, level as nat)),
    decreases scripts.scripts@.len() - level, 1nat,
{
    let ghost m = *scripts;
    let ghost ov = texts(overrides@);
    let ghost start = steps_view(out@);
    let ghost head = detail_head(name@, *d, level as nat);
    let ghost first = pre_run_steps(m, name@, *d, ov, windows, level as nat);
    let ghost own = own_steps(m, name@, *d, ov, windows, level as nat);
    let ghost fin = seq![StepView::Finish { script: name@, timed: level > 0 || d.command is Some }];
    proof { lemma_detail_steps_shape(m, name@, *d, ov, windows, level as nat); }
    push_head(name, d, level, out);
    let f = plan_pre_run(scripts, name, d, overrides, windows, level, out);
    if f {
        proof {
            assert(start + head + first =~= start + (head + first));
            assert(first.len() > 0);
            assert((head + first).last() == first.last());
        }
        return true;
    }
    plan_own(scripts, name, d, overrides, windows, level, out);
    let timed = level > 0 || d.command.is_some();
    push_step(out, Step::Finish { script: name.to_owned(), timed });
    proof {
        assert(start + head + first + own + fin =~= start + (head + first + own + fin));
        assert((head + first + own + fin).last() == fin[0]);
    }
    false
}

/// The steps of running `script_name` with the command line's `NAME=VALUE`
/// overrides; `windows` tells whether the platform is Windows.
pub fn run_plan(scripts: &Scripts, script_name: &str, env_overrides: &Vec<String>, windows: bool) -> (r: Vec<Step>)
    requires
        scripts.wf(),
    ensures
        steps_view(r@) == node_steps(*scripts, script_name@, texts(env_overrides@), windows, 0),
{
    let mut out: Vec<Step> = Vec::new();
    plan_node(scripts, script_name, env_overrides, windows, 0, &mut out);
    assert(steps_view(out@) =~= node_steps(*scripts, script_name@, texts(env_overrides@), windows, 0));
    out
}

} // verus!
