//! The table of scripts that `show` prints: which entries, and how wide.

use vstd::prelude::*;
use crate::manifest::{Script, Scripts};
use crate::text::{concat, contains_str, seq_contains};

verus! {

/// What `str::to_lowercase` gives for `s`.
pub uninterp spec fn lowercase(s: Seq<char>) -> Seq<char>;

/// Relies on `str::to_lowercase`: the result depends on the characters of
/// `s` alone.
#[verifier::external_body]
fn to_lower(s: &str) -> (r: String)
    ensures
        r@ == lowercase(s@),
{
    s.to_lowercase()
}

/// Whether a lower-cased pattern occurs in a lower-cased name or description.
pub fn matches_folded(name: &str, info: Option<&str>, pattern: &str) -> (r: bool)
    ensures
        r == (seq_contains(name@, pattern@) || (info matches Some(i) && seq_contains(i@, pattern@))),
{
    if contains_str(name, pattern) {
        return true;
    }
    match info {
        Some(i) => contains_str(i, pattern),
        None => false,
    }
}

/// The filter `pattern` selects an entry: it occurs in the name or in the
/// description, ignoring case.
pub open spec fn selects(pattern: Seq<char>, name: Seq<char>, s: Script) -> bool {
    seq_contains(lowercase(name), lowercase(pattern)) || (s.details() matches Some(d) && d.info matches Some(i)
        && seq_contains(lowercase(i@), lowercase(pattern)))
}

/// The (name, description) rows listed for the entries, in order; with a
/// filter, only the entries it selects.
pub open spec fn shown_rows(entries: Seq<(String, Script)>, filter: Option<Seq<char>>) -> Seq<(Seq<char>, Seq<char>)>
    decreases entries.len(),
{
    if entries.len() == 0 {
        Seq::empty()
    } else {
        let last = entries.last();
        shown_rows(entries.drop_last(), filter) + if filter matches Some(p) && !selects(p, last.0@, last.1) {
            Seq::empty()
        } else {
            seq![(last.0@, last.1.description_text())]
        }
    }
}

/// The (name, description) rows of the entries that `filter` selects (all
/// of them without a filter), in manifest order.
pub fn show_rows(scripts: &Scripts, filter: Option<&str>) -> (r: Vec<(String, String)>)
    ensures
        r@.map_values(|x: (String, String)| (x.0@, x.1@)) == shown_rows(
            scripts.scripts@,
            match filter {
                Some(p) => Some(p@),
                None => None,
            },
        ),
{
    let ghost f = match filter {
        Some(p) => Some(p@),
        None => None,
    };
    let lower_pattern = match filter {
        Some(p) => Some(to_lower(p)),
        None => None,
    };
    let mut r: Vec<(String, String)> = Vec::new();
    let mut i: usize = 0;
    while i < scripts.scripts.len()
        invariant
            i <= scripts.scripts@.len(),
            f == match filter {
                Some(p) => Some(p@),
                None => None::<Seq<char>>,
            },
            match filter {
                Some(p) => lower_pattern matches Some(lp) && lp@ == lowercase(p@),
                None => lower_pattern is None,
            },
            r@.map_values(|x: (String, String)| (x.0@, x.1@)) == shown_rows(scripts.scripts@.take(i as int), f),
        decreases scripts.scripts@.len() - i,
    {
        let ghost before = r@;
        let (name, script) = (&scripts.scripts[i].0, &scripts.scripts[i].1);
        let keep = match &lower_pattern {
            None => true,
            Some(lp) => {
                let lower_name = to_lower(name.as_str());
                let lower_info = match script.get_details() {
                    Some(d) => match &d.info {
                        Some(info) => Some(to_lower(info.as_str())),
                        None => None,
                    },
                    None => None,
                };
                let info_str: Option<&str> = match &lower_info {
                    Some(x) => Some(x.as_str()),
                    None => None,
                };
                matches_folded(lower_name.as_str(), info_str, lp.as_str())
            },
        };
        proof {
            let t = scripts.scripts@.take(i + 1);
            assert(t.drop_last() =~= scripts.scripts@.take(i as int));
            assert(t.last() == scripts.scripts@[i as int]);
        }
        if keep {
            r.push((name.clone(), script.description()));
        }
        assert(r@.map_values(|x: (String, String)| (x.0@, x.1@)) =~= shown_rows(scripts.scripts@.take(i + 1), f));
        i = i + 1;
    }
    assert(scripts.scripts@.take(i as int) =~= scripts.scripts@);
    r
}

/// `a` sorts no later than `b`: compared character by character by code
/// point, a prefix first (the order of `String`).
pub open spec fn text_le(a: Seq<char>, b: Seq<char>) -> bool
    decreases a.len(),
{
    if a.len() == 0 {
        true
    } else if b.len() == 0 {
        false
    } else if (a[0] as u32) != (b[0] as u32) {
        (a[0] as u32) < (b[0] as u32)
    } else {
        text_le(a.drop_first(), b.drop_first())
    }
}

proof fn lemma_text_le_total(a: Seq<char>, b: Seq<char>)
    ensures
        text_le(a, b) || text_le(b, a),
    decreases a.len(),
{
    if a.len() > 0 && b.len() > 0 && (a[0] as u32) == (b[0] as u32) {
        lemma_text_le_total(a.drop_first(), b.drop_first());
    }
}

proof fn lemma_text_le_trans(a: Seq<char>, b: Seq<char>, c: Seq<char>)
    requires
        text_le(a, b),
        text_le(b, c),
    ensures
        text_le(a, c),
    decreases a.len(),
{
    if a.len() > 0 && b.len() > 0 && c.len() > 0 && (a[0] as u32) == (b[0] as u32) && (b[0] as u32) == (c[0] as u32) {
        lemma_text_le_trans(a.drop_first(), b.drop_first(), c.drop_first());
    }
}

/// Whether `a` sorts no later than `b` (see `text_le`).
pub fn text_le_str(a: &str, b: &str) -> (r: bool)
    ensures
        r == text_le(a@, b@),
{
    let n = a.unicode_len();
    let m = b.unicode_len();
    let mut i: usize = 0;
    assert(a@.skip(0) =~= a@ && b@.skip(0) =~= b@);
    while i < n && i < m && (a.get_char(i) as u32) == (b.get_char(i) as u32)
        invariant
            n == a@.len(),
            m == b@.len(),
            i <= n,
            i <= m,
            text_le(a@, b@) == text_le(a@.skip(i as int), b@.skip(i as int)),
        decreases n - i,
    {
        proof {
            assert(a@.skip(i as int).drop_first() =~= a@.skip(i + 1));
            assert(b@.skip(i as int).drop_first() =~= b@.skip(i + 1));
        }
        i = i + 1;
    }
    if i == n {
        true
    } else if i == m {
        false
    } else {
        (a.get_char(i) as u32) < (b.get_char(i) as u32)
    }
}

/// The rows are in order of name.
pub open spec fn sorted_by_name(rows: Seq<(String, String)>) -> bool {
    forall|i: int, j: int| 0 <= i < j < rows.len() ==> text_le(rows[i].0@, rows[j].0@)
}

/// The same rows, in order of name.
pub fn sort_rows_by_name(rows: &Vec<(String, String)>) -> (r: Vec<(String, String)>)
    ensures
        r@.to_multiset() == rows@.to_multiset(),
        sorted_by_name(r@),
{
    broadcast use vstd::seq_lib::to_multiset_build, vstd::seq_lib::to_multiset_insert;

    let mut r: Vec<(String, String)> = Vec::new();
    let mut i: usize = 0;
    proof {
        assert(rows@.take(0) =~= Seq::<(String, String)>::empty());
        assert(r@ =~= Seq::<(String, String)>::empty());
    }
    while i < rows.len()
        invariant
            i <= rows@.len(),
            r@.to_multiset() == rows@.take(i as int).to_multiset(),
            sorted_by_name(r@),
        decreases rows@.len() - i,
    {
        let x = (rows[i].0.clone(), rows[i].1.clone());
        assert(x == rows@[i as int]);
        let mut k: usize = 0;
        while k < r.len() && text_le_str(r[k].0.as_str(), x.0.as_str())
            invariant
                k <= r@.len(),
                forall|j: int| 0 <= j < k ==> text_le(r@[j].0@, x.0@),
            decreases r@.len() - k,
        {
            k = k + 1;
        }
        let ghost before = r@;
        proof {
            if k < before.len() {
                lemma_text_le_total(x.0@, before[k as int].0@);
                assert forall|j: int| k <= j < before.len() implies text_le(x.0@, before[j].0@) by {
                    if j > k {
                        lemma_text_le_trans(x.0@, before[k as int].0@, before[j].0@);
                    }
                }
            }
        }
        r.insert(k, x);
        proof {
            assert(r@ == before.insert(k as int, x));
            assert forall|a: int, b: int| 0 <= a < b < r@.len() implies text_le(r@[a].0@, r@[b].0@) by {
                if b < k {
                    assert(r@[a] == before[a] && r@[b] == before[b]);
                } else if b == k {
                    assert(r@[a] == before[a]);
                } else if a == k {
                    assert(r@[b] == before[b - 1]);
                } else if a < k {
                    assert(r@[a] == before[a] && r@[b] == before[b - 1]);
                    lemma_text_le_trans(before[a].0@, x.0@, before[b - 1].0@);
                } else {
                    assert(r@[a] == before[a - 1] && r@[b] == before[b - 1]);
                }
            }
            assert(rows@.take(i + 1) =~= rows@.take(i as int).push(rows@[i as int]));
            vstd::seq_lib::to_multiset_insert(before, k as int, x);
            vstd::seq_lib::to_multiset_build(rows@.take(i as int), rows@[i as int]);
        }
        i = i + 1;
    }
    assert(rows@.take(i as int) =~= rows@);
    r
}

/// The label of a row in the script picker: the name, followed by
/// `" - "` and the description when there is one.
pub open spec fn picker_label(name: Seq<char>, description: Seq<char>) -> Seq<char> {
    if description.len() == 0 {
        name
    } else {
        name + " - "@ + description
    }
}

/// The picker labels of the rows, in order.
pub fn picker_labels(rows: &Vec<(String, String)>) -> (r: Vec<String>)
    ensures
        r@.len() == rows@.len(),
        forall|i: int| 0 <= i < rows@.len() ==> (#[trigger] r@[i])@ == picker_label(rows@[i].0@, rows@[i].1@),
{
    let mut r: Vec<String> = Vec::new();
    let mut i: usize = 0;
    while i < rows.len()
        invariant
            i <= rows@.len(),
            r@.len() == i,
            forall|j: int| 0 <= j < i ==> (#[trigger] r@[j])@ == picker_label(rows@[j].0@, rows@[j].1@),
        decreases rows@.len() - i,
    {
        let name = rows[i].0.as_str();
        let desc = rows[i].1.as_str();
        let label = if desc.unicode_len() == 0 {
            name.to_owned()
        } else {
            let head = concat(name, " - ");
            concat(head.as_str(), desc)
        };
        r.push(label);
        i = i + 1;
    }
    r
}

/// The widest of `floor` and each text's length plus two.
pub open spec fn column_width(texts: Seq<Seq<char>>, floor: nat) -> nat
    decreases texts.len(),
{
    if texts.len() == 0 {
        floor
    } else {
        let w = column_width(texts.drop_last(), floor);
        if texts.last().len() + 2 > w {
            (texts.last().len() + 2) as nat
        } else {
            w
        }
    }
}

/// The widths of the name and description columns: each at least as wide as
/// its heading ("Script", "Description") and two wider than its widest text.
pub fn column_widths(rows: &Vec<(String, String)>) -> (r: (usize, usize))
    requires
        forall|i: int| 0 <= i < rows@.len() ==> (#[trigger] rows@[i]).0@.len() + 2 <= usize::MAX && rows@[i].1@.len() + 2 <= usize::MAX,
    ensures
        r.0 == column_width(rows@.map_values(|x: (String, String)| x.0@), 6),
        r.1 == column_width(rows@.map_values(|x: (String, String)| x.1@), 11),
{
    let ghost names = rows@.map_values(|x: (String, String)| x.0@);
    let ghost descs = rows@.map_values(|x: (String, String)| x.1@);
    let mut w0: usize = 6;
    let mut w1: usize = 11;
    let mut i: usize = 0;
    while i < rows.len()
        invariant
            forall|i: int| 0 <= i < rows@.len() ==> (#[trigger] rows@[i]).0@.len() + 2 <= usize::MAX && rows@[i].1@.len() + 2 <= usize::MAX,
            names == rows@.map_values(|x: (String, String)| x.0@),
            descs == rows@.map_values(|x: (String, String)| x.1@),
            i <= rows@.len(),
            w0 == column_width(names.take(i as int), 6),
            w1 == column_width(descs.take(i as int), 11),
        decreases rows@.len() - i,
    {
        proof {
            assert(names.take(i + 1).drop_last() =~= names.take(i as int));
            assert(descs.take(i + 1).drop_last() =~= descs.take(i as int));
            assert(rows@[i as int].0@.len() + 2 <= usize::MAX);
        }
        let a = rows[i].0.as_str().unicode_len() + 2;
        let b = rows[i].1.as_str().unicode_len() + 2;
        if a > w0 {
            w0 = a;
        }
        if b > w1 {
            w1 = b;
        }
        i = i + 1;
    }
    assert(names.take(i as int) =~= names);
    assert(descs.take(i as int) =~= descs);
    (w0, w1)
}

} // verus!
