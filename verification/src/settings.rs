//! Key-value settings and the INI text they are read from.
//!
//! The text is a list of lines `key = value`. Comment lines start with `;` or
//! `#`, section headers with `[`; both are passed over, so all keys share one
//! flat name space. A value ends at an inline comment. Keys are made lower case,
//! and a later line with the same key replaces the earlier one.

use crate::text::{
    chars_of, cut, find, lemma_cut_append, lowercase, lowered, same_text, string_of, trim, trimmed,
    Stop,
};
use vstd::prelude::*;
use vstd::slice::slice_subrange;

verus! {

/// Settings by their keys. No key occurs twice.
pub struct Settings {
    entries: Vec<(String, String)>,
}

/// Where a key stands among entries.
spec fn holds(e: Seq<(String, String)>, i: int, k: Seq<char>) -> bool {
    0 <= i < e.len() && e[i].0@ == k
}

/// Whether no key occurs twice.
spec fn distinct(e: Seq<(String, String)>) -> bool {
    forall|i: int, j: int, k: Seq<char>| #[trigger]
        holds(e, i, k) && #[trigger] holds(e, j, k) ==> i == j
}

/// What entries map each key to.
spec fn mapped(e: Seq<(String, String)>) -> Map<Seq<char>, Seq<char>> {
    Map::new(
        |k: Seq<char>| exists|i: int| holds(e, i, k),
        |k: Seq<char>| e[choose|i: int| holds(e, i, k)].1@,
    )
}

impl View for Settings {
    type V = Map<Seq<char>, Seq<char>>;

    closed spec fn view(&self) -> Map<Seq<char>, Seq<char>> {
        mapped(self.entries@)
    }
}

/// The value under a key, if there is one.
pub open spec fn lookup(m: Map<Seq<char>, Seq<char>>, k: Seq<char>) -> Option<Seq<char>> {
    if m.contains_key(k) {
        Some(m[k])
    } else {
        None
    }
}

impl Settings {
    #[verifier::type_invariant]
    spec fn wf(self) -> bool {
        distinct(self.entries@)
    }

    /// No settings.
    pub fn new() -> (r: Settings)
        ensures
            r@ == Map::<Seq<char>, Seq<char>>::empty(),
    {
        let entries: Vec<(String, String)> = Vec::new();
        assert(mapped(entries@) =~= Map::empty());
        Settings { entries }
    }

    /// Where a key stands; the number of entries when it is not there.
    fn position(&self, key: &str) -> (i: usize)
        ensures
            i <= self.entries@.len(),
            i < self.entries@.len() ==> holds(self.entries@, i as int, key@),
            i == self.entries@.len() ==> forall|j: int| !#[trigger]
                holds(self.entries@, j, key@),
    {
        let mut i: usize = 0;
        while i < self.entries.len()
            invariant
                i <= self.entries@.len(),
                forall|j: int| j < i ==> !#[trigger] holds(self.entries@, j, key@),
            decreases self.entries.len() - i,
        {
            if same_text(self.entries[i].0.as_str(), key) {
                return i;
            }
            i += 1;
        }
        i
    }

    /// Sets the value under a key.
    pub fn insert(&mut self, key: String, value: String)
        ensures
            final(self)@ == old(self)@.insert(key@, value@),
    {
        proof {
            use_type_invariant(&*self);
        }
        let i: usize = self.position(key.as_str());
        let ghost before = self.entries@;
        let ghost k = key@;
        let ghost v = value@;
        let mut entries: Vec<(String, String)> = Vec::new();
        std::mem::swap(&mut entries, &mut self.entries);
        if i < entries.len() {
            entries.set(i, (key, value));
        } else {
            entries.push((key, value));
        }
        proof {
            let after = entries@;
            assert(forall|j: int, x: Seq<char>|
                j != i ==> (#[trigger] holds(after, j, x) <==> holds(before, j, x)));
            assert(forall|x: Seq<char>| #[trigger] holds(after, i as int, x) <==> x == k);
            assert(distinct(after));
            assert forall|x: Seq<char>| mapped(after).contains_key(x) == mapped(before).insert(
                k,
                v,
            ).contains_key(x) by {
                if x == k {
                    assert(holds(after, i as int, x));
                } else if mapped(before).contains_key(x) {
                    let j = choose|j: int| holds(before, j, x);
                    assert(j != i);
                    assert(holds(after, j, x));
                }
            }
            assert forall|x: Seq<char>| #[trigger] mapped(after).contains_key(x) implies mapped(
                after,
            )[x] == mapped(before).insert(k, v)[x] by {
                let j = choose|j: int| holds(after, j, x);
                if x == k {
                    assert(holds(after, i as int, x));
                } else {
                    assert(holds(before, j, x));
                    let h = choose|h: int| holds(before, h, x);
                    assert(holds(before, h, x));
                }
            }
            assert(mapped(after) =~= mapped(before).insert(k, v));
        }
        self.entries = entries;
    }

    /// The value under a key.
    pub fn get(&self, key: &str) -> (r: Option<&String>)
        ensures
            match r {
                Some(v) => lookup(self@, key@) == Some(v@),
                None => lookup(self@, key@) is None,
            },
    {
        proof {
            use_type_invariant(self);
        }
        let i: usize = self.position(key);
        if i < self.entries.len() {
            assert(holds(self.entries@, i as int, key@));
            Some(&self.entries[i].1)
        } else {
            None
        }
    }
}

// ============================== INI text ===============================

/// What one line adds to the settings before it.
pub open spec fn after_line(m: Map<Seq<char>, Seq<char>>, line: Seq<char>) -> Map<
    Seq<char>,
    Seq<char>,
> {
    let l = trimmed(line);
    let e = cut(l, Stop::Equals) as int;
    if l.len() == 0 || l[0] == ';' || l[0] == '#' || l[0] == '[' || e >= l.len() {
        m
    } else {
        let rest = l.skip(e + 1);
        m.insert(
            lowered(trimmed(l.take(e))),
            trimmed(rest.take(cut(rest, Stop::Comment) as int)),
        )
    }
}

/// The settings after all the lines of a text.
pub open spec fn after_text(m: Map<Seq<char>, Seq<char>>, s: Seq<char>) -> Map<Seq<char>, Seq<char>>
    decreases s.len(),
{
    let k = cut(s, Stop::Newline) as int;
    if k >= s.len() {
        after_line(m, s)
    } else {
        after_text(after_line(m, s.take(k)), s.skip(k + 1))
    }
}

/// The settings that a text spells.
pub open spec fn ini_of(s: Seq<char>) -> Map<Seq<char>, Seq<char>> {
    after_text(Map::empty(), s)
}

/// Takes in one line.
fn parse_line(map: &mut Settings, line: &[char])
    ensures
        final(map)@ == after_line(old(map)@, line@),
{
    let l: &[char] = trim(line);
    if l.len() == 0 || l[0] == ';' || l[0] == '#' || l[0] == '[' {
        return;
    }
    let e: usize = find(l, Stop::Equals);
    if e == l.len() {
        return;
    }
    let name: &[char] = slice_subrange(l, 0, e);
    let rest: &[char] = slice_subrange(l, e + 1, l.len());
    assert(name@ =~= l@.take(e as int));
    assert(rest@ =~= l@.skip(e + 1));
    let c: usize = find(rest, Stop::Comment);
    let value: &[char] = slice_subrange(rest, 0, c);
    assert(value@ =~= rest@.take(c as int));
    let key: Vec<char> = lowercase(trim(name));
    map.insert(string_of(key.as_slice()), string_of(trim(value)));
}

/// Reads settings from INI text.
pub fn parse_ini(text: &str) -> (r: Settings)
    ensures
        r@ == ini_of(text@),
{
    let chars: Vec<char> = chars_of(text);
    let s: &[char] = chars.as_slice();
    let mut map: Settings = Settings::new();
    let mut p: usize = 0;
    assert(s@.skip(0) =~= s@);
    loop
        invariant
            p <= s@.len(),
            ini_of(s@) == after_text(map@, s@.skip(p as int)),
        ensures
            map@ == ini_of(s@),
        decreases s@.len() - p,
    {
        let rest: &[char] = slice_subrange(s, p, s.len());
        assert(rest@ =~= s@.skip(p as int));
        let k: usize = find(rest, Stop::Newline);
        if k == rest.len() {
            parse_line(&mut map, rest);
            break;
        }
        let line: &[char] = slice_subrange(rest, 0, k);
        assert(line@ =~= rest@.take(k as int));
        parse_line(&mut map, line);
        assert(s@.skip(p as int).skip(k + 1) =~= s@.skip(p + k + 1));
        p = p + k + 1;
    }
    map
}

// ================================= laws =================================

/// The lines of a text take effect one after the other: what stands below overrides
/// what stands above, key by key.
pub proof fn law_later_lines_override(m: Map<Seq<char>, Seq<char>>, a: Seq<char>, b: Seq<char>)
    ensures
        after_text(m, a + seq!['\n'] + b) == after_text(after_text(m, a), b),
    decreases a.len(),
{
    let k = cut(a, Stop::Newline) as int;
    let nl = seq!['\n'];
    let all = a + nl + b;
    lemma_cut_append(a, nl + b, Stop::Newline);
    assert(a + (nl + b) =~= all);
    assert((nl + b)[0] == '\n');
    if k < a.len() {
        law_later_lines_override(after_line(m, a.take(k)), a.skip(k + 1), b);
        assert(all.take(k) =~= a.take(k));
        assert(all.skip(k + 1) =~= a.skip(k + 1) + nl + b);
    } else {
        assert(all.take(k) =~= a);
        assert(all.skip(k + 1) =~= b);
    }
}

/// Comment lines, section headers, blank lines and lines without `=` have no effect.
pub proof fn law_other_lines_are_passed_over(m: Map<Seq<char>, Seq<char>>, line: Seq<char>)
    requires
        ({
            let l = trimmed(line);
            l.len() == 0 || l[0] == ';' || l[0] == '#' || l[0] == '[' || cut(l, Stop::Equals)
                == l.len()
        }),
    ensures
        after_line(m, line) == m,
{
}

} // verus!
