//! Running times of scripts, for the report after a run.

use vstd::prelude::*;
use crate::text::str_eq;

verus! {

/// The sum of the durations in a list.
pub open spec fn total_of(s: Seq<(String, u64)>) -> int
    decreases s.len(),
{
    if s.len() == 0 {
        0
    } else {
        total_of(s.drop_last()) + s.last().1
    }
}

/// Some pair in `s` is named `name`.
pub open spec fn has_name(s: Seq<(String, u64)>, name: Seq<char>) -> bool {
    exists|i: int| 0 <= i < s.len() && s[i].0@ == name
}

/// Running times by script name, in nanoseconds. A name is kept once: a
/// later time for the same name replaces the earlier one.
pub struct ScriptDurations {
    entries: Vec<(String, u64)>,
}

impl ScriptDurations {
    /// The (name, nanoseconds) pairs, in the order the names were first recorded.
    pub closed spec fn pairs(&self) -> Seq<(String, u64)> {
        self.entries@
    }

    /// Names are distinct.
    pub closed spec fn wf(&self) -> bool {
        forall|i: int, j: int|
            0 <= i < self.entries@.len() && 0 <= j < self.entries@.len() && i != j ==> self.entries@[i].0@
                != self.entries@[j].0@
    }

    /// Nothing recorded.
    pub fn new() -> (r: ScriptDurations)
        ensures
            r.wf(),
            r.pairs().len() == 0,
    {
        ScriptDurations { entries: Vec::new() }
    }

    /// Number of names recorded.
    pub fn len(&self) -> (r: usize)
        ensures
            r == self.pairs().len(),
    {
        self.entries.len()
    }

    /// The name and time at position `i`.
    pub fn entry(&self, i: usize) -> (r: (&String, u64))
        requires
            i < self.pairs().len(),
        ensures
            r.0@ == self.pairs()[i as int].0@,
            r.1 == self.pairs()[i as int].1,
    {
        (&self.entries[i].0, self.entries[i].1)
    }

    /// Records `nanos` for `name`, replacing an earlier time for `name`.
    pub fn record(&mut self, name: String, nanos: u64)
        requires
            old(self).wf(),
        ensures
            final(self).wf(),
            final(self).pairs().len() == old(self).pairs().len() + if has_name(old(self).pairs(), name@) {
                0int
            } else {
                1int
            },
            exists|i: int| 0 <= i < final(self).pairs().len() && final(self).pairs()[i].0@ == name@
                && final(self).pairs()[i].1 == nanos,
            forall|i: int| 0 <= i < old(self).pairs().len() && old(self).pairs()[i].0@ != name@
                ==> final(self).pairs()[i] == old(self).pairs()[i],
            forall|i: int| 0 <= i < final(self).pairs().len() && final(self).pairs()[i].0@ != name@
                ==> exists|j: int| 0 <= j < old(self).pairs().len() && old(self).pairs()[j] == final(self).pairs()[i],
    {
        let mut i: usize = 0;
        while i < self.entries.len()
            invariant
                self.wf(),
                self.entries@ == old(self).entries@,
                i <= self.entries@.len(),
                forall|j: int| 0 <= j < i ==> self.entries@[j].0@ != name@,
            decreases self.entries@.len() - i,
        {
            if str_eq(self.entries[i].0.as_str(), name.as_str()) {
                let ghost n = name@;
                assert(n == name@);
                self.entries.set(i, (name, nanos));
                assert(self.entries@[i as int].0@ == n);
                assert forall|a: int, b: int|
                    0 <= a < self.entries@.len() && 0 <= b < self.entries@.len() && a != b
                    implies self.entries@[a].0@ != self.entries@[b].0@ by {
                    if a != i && b != i {
                        assert(self.entries@[a] == old(self).entries@[a]);
                        assert(self.entries@[b] == old(self).entries@[b]);
                    } else if a == i {
                        assert(old(self).entries@[i as int].0@ == n);
                        assert(self.entries@[b] == old(self).entries@[b]);
                    } else {
                        assert(old(self).entries@[i as int].0@ == n);
                        assert(self.entries@[a] == old(self).entries@[a]);
                    }
                }
                assert forall|k: int| 0 <= k < self.pairs().len() && self.pairs()[k].0@ != n
                    implies exists|j: int| 0 <= j < old(self).pairs().len() && old(self).pairs()[j] == self.pairs()[k] by {
                    assert(k != i);
                    assert(old(self).pairs()[k] == self.pairs()[k]);
                }
                assert(self.pairs()[i as int].0@ == n && self.pairs()[i as int].1 == nanos);
                assert(old(self).pairs()[i as int].0@ == n);
                return;
            }
            i = i + 1;
        }
        let ghost n = name@;
        self.entries.push((name, nanos));
        let last = self.entries.len() - 1;
        assert(self.entries@[last as int].0@ == n);
        assert forall|k: int| 0 <= k < self.pairs().len() && self.pairs()[k].0@ != n
            implies exists|j: int| 0 <= j < old(self).pairs().len() && old(self).pairs()[j] == self.pairs()[k] by {
            assert(k < last);
            assert(old(self).pairs()[k] == self.pairs()[k]);
        }
        assert(self.pairs()[last as int].0@ == n && self.pairs()[last as int].1 == nanos);
    }

    /// The sum of the recorded times, in nanoseconds.
    pub fn total(&self) -> (r: u128)
        ensures
            r == total_of(self.pairs()),
    {
        let mut sum: u128 = 0;
        let mut i: usize = 0;
        while i < self.entries.len()
            invariant
                i <= self.entries@.len(),
                sum == total_of(self.entries@.subrange(0, i as int)),
                sum <= i * (u64::MAX as int),
            decreases self.entries@.len() - i,
        {
            proof {
                assert(self.entries@.subrange(0, i + 1).drop_last() =~= self.entries@.subrange(0, i as int));
                assert((i + 1) * (u64::MAX as int) == i * (u64::MAX as int) + u64::MAX) by (nonlinear_arith);
                assert(i * (u64::MAX as int) + u64::MAX <= u128::MAX) by (nonlinear_arith)
                    requires i <= usize::MAX;
            }
            sum = sum + self.entries[i].1 as u128;
            i = i + 1;
        }
        assert(self.entries@.subrange(0, i as int) =~= self.entries@);
        sum
    }
}

} // verus!
