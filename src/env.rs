//! Environment variables as an ordered list of distinct names, viewed as a map.

use vstd::prelude::*;
use crate::text::{split_once_char, str_eq};

verus! {

/// The map that a list of (name, value) pairs denotes: a later pair for a
/// name replaces an earlier one.
pub open spec fn pairs_map(s: Seq<(String, String)>) -> Map<Seq<char>, Seq<char>>
    decreases s.len(),
{
    if s.len() == 0 {
        Map::empty()
    } else {
        pairs_map(s.drop_last()).insert(s.last().0@, s.last().1@)
    }
}

/// No two pairs share a name.
pub open spec fn distinct_names(s: Seq<(String, String)>) -> bool {
    forall|i: int, j: int| 0 <= i < s.len() && 0 <= j < s.len() && i != j ==> s[i].0@ != s[j].0@
}

proof fn lemma_pairs_map_lookup(s: Seq<(String, String)>, k: Seq<char>)
    requires
        distinct_names(s),
    ensures
        pairs_map(s).dom().contains(k) <==> exists|i: int| 0 <= i < s.len() && s[i].0@ == k,
        forall|i: int| 0 <= i < s.len() && s[i].0@ == k ==> pairs_map(s)[k] == s[i].1@,
    decreases s.len(),
{
    if s.len() > 0 {
        let t = s.drop_last();
        assert(distinct_names(t));
        lemma_pairs_map_lookup(t, k);
        if pairs_map(s).dom().contains(k) && s.last().0@ != k {
            let i = choose|i: int| 0 <= i < t.len() && t[i].0@ == k;
            assert(s[i].0@ == k);
        }
        if exists|i: int| 0 <= i < s.len() && s[i].0@ == k {
            let i = choose|i: int| 0 <= i < s.len() && s[i].0@ == k;
            if i < t.len() {
                assert(t[i].0@ == k);
            }
        }
        assert forall|i: int| 0 <= i < s.len() && s[i].0@ == k implies pairs_map(s)[k] == s[i].1@ by {
            if i < s.len() - 1 {
                assert(t[i] == s[i]);
                assert(s.last().0@ != k);
            }
        }
    }
}

proof fn lemma_pairs_map_update(s: Seq<(String, String)>, i: int, e: (String, String))
    requires
        distinct_names(s),
        0 <= i < s.len(),
        s[i].0@ == e.0@,
    ensures
        pairs_map(s.update(i, e)) == pairs_map(s).insert(e.0@, e.1@),
        distinct_names(s.update(i, e)),
    decreases s.len(),
{
    let u = s.update(i, e);
    let t = s.drop_last();
    if i == s.len() - 1 {
        assert(u.drop_last() =~= t);
        assert(pairs_map(u) =~= pairs_map(s).insert(e.0@, e.1@));
    } else {
        assert(distinct_names(t));
        lemma_pairs_map_update(t, i, e);
        assert(u.drop_last() =~= t.update(i, e));
        assert(s.last().0@ != e.0@);
        assert(pairs_map(u) =~= pairs_map(s).insert(e.0@, e.1@));
    }
}

/// A set of environment variables, each name at most once, in the order in
/// which the names were first set.
pub struct EnvVars {
    vars: Vec<(String, String)>,
}

impl View for EnvVars {
    type V = Map<Seq<char>, Seq<char>>;

    closed spec fn view(&self) -> Map<Seq<char>, Seq<char>> {
        pairs_map(self.vars@)
    }
}

impl EnvVars {
    /// The (name, value) pairs in order.
    pub closed spec fn pairs(&self) -> Seq<(String, String)> {
        self.vars@
    }

    /// Names are distinct.
    pub closed spec fn wf(&self) -> bool {
        distinct_names(self.vars@)
    }

    /// No variables.
    pub fn new() -> (r: EnvVars)
        ensures
            r.wf(),
            r@ == Map::<Seq<char>, Seq<char>>::empty(),
            r.pairs().len() == 0,
    {
        EnvVars { vars: Vec::new() }
    }

    /// Number of variables.
    pub fn len(&self) -> (r: usize)
        requires
            self.wf(),
        ensures
            r == self@.dom().len(),
            r == self.pairs().len(),
    {
        proof { self.lemma_dom(); }
        self.vars.len()
    }

    /// The name and value at position `i` of the list.
    pub fn entry(&self, i: usize) -> (r: (&String, &String))
        requires
            self.wf(),
            i < self.pairs().len(),
        ensures
            r.0@ == self.pairs()[i as int].0@,
            r.1@ == self.pairs()[i as int].1@,
            self@.dom().contains(r.0@),
            self@[r.0@] == r.1@,
    {
        proof { lemma_pairs_map_lookup(self.vars@, self.vars@[i as int].0@); }
        (&self.vars[i].0, &self.vars[i].1)
    }

    proof fn lemma_dom(&self)
        requires
            self.wf(),
        ensures
            self@.dom().finite(),
            self@.dom().len() == self.vars@.len(),
            self@.dom() == Set::new(|k: Seq<char>| exists|i: int| 0 <= i < self.vars@.len() && self.vars@[i].0@ == k),
        decreases self.vars@.len(),
    {
        lemma_dom_of(self.vars@);
    }

    /// Position of the variable `name` in the list.
    fn position(&self, name: &str) -> (r: Option<usize>)
        requires
            self.wf(),
        ensures
            match r {
                Some(i) => i < self.vars@.len() && self.vars@[i as int].0@ == name@,
                None => !self@.dom().contains(name@),
            },
    {
        proof { lemma_pairs_map_lookup(self.vars@, name@); }
        let mut i: usize = 0;
        while i < self.vars.len()
            invariant
                i <= self.vars@.len(),
                forall|j: int| 0 <= j < i ==> self.vars@[j].0@ != name@,
            decreases self.vars@.len() - i,
        {
            if str_eq(self.vars[i].0.as_str(), name) {
                return Some(i);
            }
            i = i + 1;
        }
        None
    }

    /// The value of `name`, if set.
    pub fn get(&self, name: &str) -> (r: Option<&String>)
        requires
            self.wf(),
        ensures
            match r {
                Some(v) => self@.dom().contains(name@) && self@[name@] == v@,
                None => !self@.dom().contains(name@),
            },
    {
        proof { lemma_pairs_map_lookup(self.vars@, name@); }
        match self.position(name) {
            Some(i) => Some(&self.vars[i].1),
            None => None,
        }
    }

    /// Sets `name` to `value`, replacing an earlier value of `name`.
    pub fn insert(&mut self, name: String, value: String)
        requires
            old(self).wf(),
        ensures
            final(self).wf(),
            final(self)@ == old(self)@.insert(name@, value@),
    {
        match self.position(name.as_str()) {
            Some(i) => {
                proof { lemma_pairs_map_update(self.vars@, i as int, (name, value)); }
                self.vars.set(i, (name, value));
            },
            None => {
                proof { lemma_pairs_map_lookup(self.vars@, name@); }
                let ghost before = self.vars@;
                self.vars.push((name, value));
                assert(self.vars@.drop_last() =~= before);
                assert forall|i: int, j: int|
                    0 <= i < self.vars@.len() && 0 <= j < self.vars@.len() && i != j
                    implies self.vars@[i].0@ != self.vars@[j].0@ by {
                    if i < before.len() && j < before.len() {
                        assert(before[i] == self.vars@[i] && before[j] == self.vars@[j]);
                    } else if i < before.len() {
                        assert(before[i] == self.vars@[i]);
                    } else if j < before.len() {
                        assert(before[j] == self.vars@[j]);
                    }
                }
            },
        }
    }

    /// A copy holding the same variables in the same order.
    pub fn duplicate(&self) -> (r: EnvVars)
        ensures
            r.wf(),
            r@ == self@,
    {
        let mut r = EnvVars::new();
        let mut i: usize = 0;
        while i < self.vars.len()
            invariant
                r.wf(),
                i <= self.vars@.len(),
                r@ == pairs_map(self.vars@.subrange(0, i as int)),
            decreases self.vars@.len() - i,
        {
            r.insert(self.vars[i].0.clone(), self.vars[i].1.clone());
            assert(self.vars@.subrange(0, i + 1).drop_last() =~= self.vars@.subrange(0, i as int));
            i = i + 1;
        }
        assert(self.vars@.subrange(0, i as int) =~= self.vars@);
        r
    }

    /// Sets each variable of `other`, which wins over a variable of `self`
    /// with the same name.
    pub fn extend(&mut self, other: &EnvVars)
        requires
            old(self).wf(),
            other.wf(),
        ensures
            final(self).wf(),
            final(self)@ == old(self)@.union_prefer_right(other@),
    {
        let ghost start = self@;
        let mut i: usize = 0;
        while i < other.vars.len()
            invariant
                other.wf(),
                self.wf(),
                i <= other.vars@.len(),
                self@ == start.union_prefer_right(pairs_map(other.vars@.subrange(0, i as int))),
            decreases other.vars@.len() - i,
        {
            let ghost prefix = other.vars@.subrange(0, i as int);
            self.insert(other.vars[i].0.clone(), other.vars[i].1.clone());
            assert(other.vars@.subrange(0, i + 1).drop_last() =~= prefix);
            assert(self@ =~= start.union_prefer_right(pairs_map(other.vars@.subrange(0, i + 1))));
            i = i + 1;
        }
        assert(other.vars@.subrange(0, i as int) =~= other.vars@);
    }
}

proof fn lemma_dom_of(s: Seq<(String, String)>)
    requires
        distinct_names(s),
    ensures
        pairs_map(s).dom().finite(),
        pairs_map(s).dom().len() == s.len(),
        pairs_map(s).dom() == Set::new(|k: Seq<char>| exists|i: int| 0 <= i < s.len() && s[i].0@ == k),
    decreases s.len(),
{
    if s.len() == 0 {
        assert(pairs_map(s).dom() =~= Set::new(|k: Seq<char>| exists|i: int| 0 <= i < s.len() && s[i].0@ == k));
    } else {
        let t = s.drop_last();
        assert(distinct_names(t));
        lemma_dom_of(t);
        lemma_pairs_map_lookup(t, s.last().0@);
        if pairs_map(t).dom().contains(s.last().0@) {
            let i = choose|i: int| 0 <= i < t.len() && t[i].0@ == s.last().0@;
            assert(s[i].0@ == s[s.len() - 1].0@);
        }
        assert forall|k: Seq<char>| pairs_map(s).dom().contains(k) <==> exists|i: int| 0 <= i < s.len() && s[i].0@ == k by {
            lemma_pairs_map_lookup(s, k);
        }
        assert(pairs_map(s).dom() =~= Set::new(|k: Seq<char>| exists|i: int| 0 <= i < s.len() && s[i].0@ == k));
    }
}

/// The name and value of a `NAME=VALUE` override, split at its first `=`;
/// `None` when it has no `=`.
pub open spec fn override_pair(o: Seq<char>) -> Option<(Seq<char>, Seq<char>)> {
    if exists|i: int| 0 <= i < o.len() && o[i] == '=' {
        let i = choose|i: int| 0 <= i < o.len() && o[i] == '=' && forall|j: int| 0 <= j < i ==> o[j] != '=';
        Some((o.subrange(0, i), o.subrange(i + 1, o.len() as int)))
    } else {
        None
    }
}

/// The environment a command sees: `base` with each `NAME=VALUE` override
/// applied in order. An override without `=` is ignored.
pub open spec fn apply_overrides(base: Map<Seq<char>, Seq<char>>, overrides: Seq<Seq<char>>) -> Map<Seq<char>, Seq<char>>
    decreases overrides.len(),
{
    if overrides.len() == 0 {
        base
    } else {
        let prev = apply_overrides(base, overrides.drop_last());
        match override_pair(overrides.last()) {
            Some((k, v)) => prev.insert(k, v),
            None => prev,
        }
    }
}

/// The value that the last override naming `name` gives it, if any does.
pub open spec fn last_override(overrides: Seq<Seq<char>>, name: Seq<char>) -> Option<Seq<char>>
    decreases overrides.len(),
{
    if overrides.len() == 0 {
        None
    } else {
        match override_pair(overrides.last()) {
            Some((k, v)) => if k == name {
                Some(v)
            } else {
                last_override(overrides.drop_last(), name)
            },
            None => last_override(overrides.drop_last(), name),
        }
    }
}

/// A variable's value after the overrides: the last override that names it
/// wins; without one, the value in `base` stays.
pub proof fn lemma_overrides_win(base: Map<Seq<char>, Seq<char>>, overrides: Seq<Seq<char>>, name: Seq<char>)
    ensures
        match last_override(overrides, name) {
            Some(v) => apply_overrides(base, overrides).contains_key(name) && apply_overrides(base, overrides)[name] == v,
            None => apply_overrides(base, overrides).contains_key(name) == base.contains_key(name)
                && (base.contains_key(name) ==> apply_overrides(base, overrides)[name] == base[name]),
        },
    decreases overrides.len(),
{
    if overrides.len() > 0 {
        lemma_overrides_win(base, overrides.drop_last(), name);
    }
}

/// Which layer sets a variable that a command sees: an override on the
/// command line wins over the entry's own variables, which win over the
/// global ones; a variable none of them sets is absent.
pub proof fn lemma_env_precedence(
    global: Map<Seq<char>, Seq<char>>,
    script: Map<Seq<char>, Seq<char>>,
    overrides: Seq<Seq<char>>,
    name: Seq<char>,
)
    ensures
        ({
            let env = apply_overrides(global.union_prefer_right(script), overrides);
            match last_override(overrides, name) {
                Some(v) => env.contains_key(name) && env[name] == v,
                None => if script.contains_key(name) {
                    env.contains_key(name) && env[name] == script[name]
                } else if global.contains_key(name) {
                    env.contains_key(name) && env[name] == global[name]
                } else {
                    !env.contains_key(name)
                },
            }
        }),
{
    lemma_overrides_win(global.union_prefer_right(script), overrides, name);
}

/// The texts of a list of strings.
pub open spec fn texts(v: Seq<String>) -> Seq<Seq<char>> {
    v.map_values(|s: String| s@)
}

/// The final environment of a command: `env_vars` overridden by the command
/// line's `NAME=VALUE` strings, which always win.
pub fn get_final_env(env_vars: &EnvVars, env_overrides: &Vec<String>) -> (r: EnvVars)
    requires
        env_vars.wf(),
    ensures
        r.wf(),
        r@ == apply_overrides(env_vars@, texts(env_overrides@)),
{
    let mut r = env_vars.duplicate();
    let mut i: usize = 0;
    while i < env_overrides.len()
        invariant
            r.wf(),
            i <= env_overrides@.len(),
            r@ == apply_overrides(env_vars@, texts(env_overrides@.subrange(0, i as int))),
        decreases env_overrides@.len() - i,
    {
        let ghost prefix = texts(env_overrides@.subrange(0, i as int));
        let ghost next = texts(env_overrides@.subrange(0, i + 1));
        assert(next.drop_last() =~= prefix);
        assert(next.last() == env_overrides@[i as int]@);
        let o = &env_overrides[i];
        match split_once_char(o.as_str(), '=') {
            Some((name, value)) => {
                proof {
                    let ov = o@;
                    let k = name@.len() as int;
                    assert(ov[k] == '=');
                    assert forall|j: int| 0 <= j < k implies ov[j] != '=' by {
                        assert(ov[j] == name@[j]);
                    }
                    let c = choose|c: int| 0 <= c < ov.len() && ov[c] == '=' && forall|j: int| 0 <= j < c ==> ov[j] != '=';
                    assert(c == k) by {
                        if c < k { assert(ov[c] == name@[c]); }
                        if c > k { assert(ov[k] != '='); }
                    }
                    assert(ov.subrange(0, k) =~= name@);
                    assert(ov.subrange(k + 1, ov.len() as int) =~= value@);
                    assert(override_pair(ov) == Some((name@, value@)));
                }
                r.insert(name, value);
            },
            None => {},
        }
        i = i + 1;
    }
    assert(env_overrides@.subrange(0, i as int) =~= env_overrides@);
    r
}

} // verus!
