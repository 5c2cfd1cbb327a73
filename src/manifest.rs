//! The manifest: a global environment and named script entries.

use vstd::prelude::*;
use crate::env::EnvVars;
use crate::text::str_eq;

verus! {

/// The fields of a script entry written as a record.
pub struct ScriptDetails {
    pub command: Option<String>,
    pub requires: Option<Vec<String>>,
    pub toolchain: Option<String>,
    pub info: Option<String>,
    pub env: Option<EnvVars>,
    pub includes: Option<Vec<String>>,
    pub interpreter: Option<String>,
}

/// One named entry of the manifest.
pub enum Script {
    /// A bare command, run through the default shell.
    Default(String),
    /// A record.
    Inline(ScriptDetails),
    /// A record that also names a script file, in the style of CI configurations.
    CILike { script: String, details: ScriptDetails },
}

impl ScriptDetails {
    /// Its environment overlay is well formed.
    pub open spec fn wf(&self) -> bool {
        self.env matches Some(e) ==> e.wf()
    }
}

impl Script {
    /// The record fields of an entry, if it is written as a record.
    pub open spec fn details(&self) -> Option<ScriptDetails> {
        match self {
            Script::Default(_) => None,
            Script::Inline(d) => Some(*d),
            Script::CILike { details, .. } => Some(*details),
        }
    }

    /// Its record fields, if any, are well formed.
    pub open spec fn wf(&self) -> bool {
        self.details() matches Some(d) ==> d.wf()
    }

    /// The record fields, if any.
    pub fn get_details(&self) -> (r: Option<&ScriptDetails>)
        ensures
            match r {
                Some(d) => self.details() == Some(*d),
                None => self.details().is_none(),
            },
    {
        match self {
            Script::Default(_) => None,
            Script::Inline(d) => Some(d),
            Script::CILike { details, .. } => Some(details),
        }
    }

    /// The description shown next to the name, empty when there is none.
    pub open spec fn description_text(&self) -> Seq<char> {
        match self.details() {
            Some(d) => match d.info {
                Some(i) => i@,
                None => Seq::<char>::empty(),
            },
            None => Seq::<char>::empty(),
        }
    }

    /// The description shown next to the name, empty when there is none.
    pub fn description(&self) -> (r: String)
        ensures
            r@ == self.description_text(),
    {
        match self.get_details() {
            Some(d) => match &d.info {
                Some(i) => i.clone(),
                None => String::new(),
            },
            None => String::new(),
        }
    }
}

/// Index of the entry named `name`.
pub open spec fn index_of(entries: Seq<(String, Script)>, name: Seq<char>) -> Option<int> {
    if exists|i: int| 0 <= i < entries.len() && entries[i].0@ == name {
        Some(choose|i: int| 0 <= i < entries.len() && entries[i].0@ == name)
    } else {
        None
    }
}

/// The names of the entries, in order.
pub open spec fn names_of(entries: Seq<(String, Script)>) -> Seq<Seq<char>> {
    entries.map_values(|e: (String, Script)| e.0@)
}

/// A parsed manifest.
pub struct Scripts {
    /// Variables set for every script.
    pub global_env: Option<EnvVars>,
    /// The entries by name.
    pub scripts: Vec<(String, Script)>,
}

impl Scripts {
    /// Names are distinct and every environment is well formed.
    pub open spec fn wf(&self) -> bool {
        &&& (self.global_env matches Some(e) ==> e.wf())
        &&& forall|i: int, j: int|
            0 <= i < self.scripts@.len() && 0 <= j < self.scripts@.len() && i != j
                ==> self.scripts@[i].0@ != self.scripts@[j].0@
        &&& forall|i: int| 0 <= i < self.scripts@.len() ==> (#[trigger] self.scripts@[i]).1.wf()
    }

    /// The entry named `name`.
    pub open spec fn lookup(&self, name: Seq<char>) -> Option<Script> {
        match index_of(self.scripts@, name) {
            Some(i) => Some(self.scripts@[i].1),
            None => None,
        }
    }

    /// The global variables as a map (empty when absent).
    pub open spec fn global_map(&self) -> Map<Seq<char>, Seq<char>> {
        match self.global_env {
            Some(e) => e@,
            None => Map::empty(),
        }
    }

    /// A manifest with no variables and no entries.
    pub fn new() -> (r: Scripts)
        ensures
            r.wf(),
            r.scripts@.len() == 0,
            r.global_env.is_none(),
    {
        Scripts { global_env: None, scripts: Vec::new() }
    }

    /// Position of the entry named `name`.
    pub fn position(&self, name: &str) -> (r: Option<usize>)
        requires
            self.wf(),
        ensures
            r matches Some(i) ==> index_of(self.scripts@, name@) == Some(i as int),
            r is None ==> index_of(self.scripts@, name@) is None,
    {
        let mut i: usize = 0;
        while i < self.scripts.len()
            invariant
                self.wf(),
                i <= self.scripts@.len(),
                forall|j: int| 0 <= j < i ==> self.scripts@[j].0@ != name@,
            decreases self.scripts@.len() - i,
        {
            if str_eq(self.scripts[i].0.as_str(), name) {
                proof {
                    let k = choose|k: int| 0 <= k < self.scripts@.len() && self.scripts@[k].0@ == name@;
                    assert(k == i);
                }
                return Some(i);
            }
            i = i + 1;
        }
        None
    }

    /// The entry named `name`.
    pub fn get(&self, name: &str) -> (r: Option<&Script>)
        requires
            self.wf(),
        ensures
            match r {
                Some(s) => self.lookup(name@) == Some(*s),
                None => self.lookup(name@).is_none(),
            },
    {
        match self.position(name) {
            Some(i) => Some(&self.scripts[i].1),
            None => None,
        }
    }

    /// Adds the entry `name`, replacing an entry of the same name.
    pub fn add_script(&mut self, name: String, script: Script)
        requires
            old(self).wf(),
            script.wf(),
        ensures
            final(self).wf(),
            final(self).global_env == old(self).global_env,
            final(self).lookup(name@) == Some(script),
            forall|n: Seq<char>| n != name@ ==> final(self).lookup(n) == old(self).lookup(n),
    {
        let ghost before = self.scripts@;
        match self.position(name.as_str()) {
            Some(i) => {
                self.scripts.set(i, (name, script));
                proof {
                    assert(self.scripts@[i as int].0@ == name@);
                    let k = choose|k: int| 0 <= k < self.scripts@.len() && self.scripts@[k].0@ == name@;
                    assert(k == i);
                    assert forall|n: Seq<char>| n != name@ implies self.lookup(n) == old(self).lookup(n) by {
                        if index_of(before, n) is Some {
                            let k = choose|k: int| 0 <= k < before.len() && before[k].0@ == n;
                            assert(self.scripts@[k].0@ == n);
                            let k2 = choose|k2: int| 0 <= k2 < self.scripts@.len() && self.scripts@[k2].0@ == n;
                            assert(k2 == k);
                        } else {
                            assert forall|k: int| 0 <= k < self.scripts@.len() implies self.scripts@[k].0@ != n by {
                                if k != i { assert(self.scripts@[k] == before[k]); }
                            }
                        }
                    }
                }
            },
            None => {
                self.scripts.push((name, script));
                proof {
                    let last = before.len() as int;
                    assert(self.scripts@[last].0@ == name@);
                    let k = choose|k: int| 0 <= k < self.scripts@.len() && self.scripts@[k].0@ == name@;
                    assert(k == last) by {
                        if k < last { assert(before[k].0@ == name@); }
                    }
                    assert forall|n: Seq<char>| n != name@ implies self.lookup(n) == old(self).lookup(n) by {
                        if index_of(before, n) is Some {
                            let k = choose|k: int| 0 <= k < before.len() && before[k].0@ == n;
                            assert(self.scripts@[k].0@ == n);
                            let k2 = choose|k2: int| 0 <= k2 < self.scripts@.len() && self.scripts@[k2].0@ == n;
                            assert(k2 == k) by {
                                if k2 < last { assert(before[k2].0@ == n); }
                            }
                        } else {
                            assert forall|k: int| 0 <= k < self.scripts@.len() implies self.scripts@[k].0@ != n by {
                                if k < last { assert(self.scripts@[k] == before[k]); }
                            }
                        }
                    }
                }
            },
        }
    }

    /// The names of all entries, in order.
    pub fn script_names(&self) -> (r: Vec<String>)
        ensures
            r@.map_values(|s: String| s@) == names_of(self.scripts@),
    {
        let mut r: Vec<String> = Vec::new();
        let mut i: usize = 0;
        while i < self.scripts.len()
            invariant
                i <= self.scripts@.len(),
                r@.len() == i,
                forall|j: int| 0 <= j < i ==> r@[j]@ == self.scripts@[j].0@,
            decreases self.scripts@.len() - i,
        {
            let name = self.scripts[i].0.clone();
            r.push(name);
            i = i + 1;
        }
        assert(r@.map_values(|s: String| s@) =~= names_of(self.scripts@));
        r
    }

    /// The global variables (empty when absent).
    pub fn global_vars(&self) -> (r: EnvVars)
        requires
            self.wf(),
        ensures
            r.wf(),
            r@ == self.global_map(),
    {
        match &self.global_env {
            Some(e) => e.duplicate(),
            None => EnvVars::new(),
        }
    }
}

} // verus!
