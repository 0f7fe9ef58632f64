//! Dotted module names (`sub.module`) and their path components.
use vstd::prelude::*;

use crate::text::{chars_of, string_from_chars};

verus! {

/// The dotted name of a module, e.g. `sub.mod` for the file `sub/mod.frisbee`.
#[derive(Debug, Clone, PartialEq, Eq, Hash)]
pub struct ModuleAlias(String);

/// `parts` joined with `.` between consecutive items.
pub open spec fn join_with_dots(parts: Seq<Seq<char>>) -> Seq<char>
    decreases parts.len(),
{
    if parts.len() == 0 {
        Seq::empty()
    } else if parts.len() == 1 {
        parts[0]
    } else {
        join_with_dots(parts.drop_last()) + seq!['.'] + parts.last()
    }
}

/// `s` cut at every `.`; a text without dots is a single part.
pub open spec fn split_at_dots(s: Seq<char>) -> Seq<Seq<char>>
    decreases s.len(),
{
    if s.len() == 0 {
        seq![Seq::empty()]
    } else {
        let prev = split_at_dots(s.drop_last());
        if s.last() == '.' {
            prev.push(Seq::empty())
        } else {
            prev.update(prev.len() - 1, prev.last().push(s.last()))
        }
    }
}

pub open spec fn has_no_dot(s: Seq<char>) -> bool {
    forall|i: int| 0 <= i < s.len() ==> s[i] != '.'
}

impl View for ModuleAlias {
    type V = Seq<char>;

    closed spec fn view(&self) -> Seq<char> {
        self.0@
    }
}

proof fn lemma_split_nonempty(s: Seq<char>)
    ensures
        split_at_dots(s).len() >= 1,
    decreases s.len(),
{
    if s.len() > 0 {
        lemma_split_nonempty(s.drop_last());
    }
}

/// Appending dot-free text only extends the last part.
proof fn lemma_split_append_plain(s: Seq<char>, x: Seq<char>)
    requires
        has_no_dot(x),
    ensures
        split_at_dots(s + x) == ({
            let p = split_at_dots(s);
            p.update(p.len() - 1, p.last() + x)
        }),
    decreases x.len(),
{
    lemma_split_nonempty(s);
    if x.len() == 0 {
        assert(s + x =~= s);
        let p = split_at_dots(s);
        assert(p.last() + x =~= p.last());
        assert(p.update(p.len() - 1, p.last() + x) =~= p);
    } else {
        let y = x.drop_last();
        lemma_split_append_plain(s, y);
        assert((s + x).drop_last() =~= s + y);
        assert((s + x).last() == x.last());
        let p = split_at_dots(s);
        let q = split_at_dots(s + y);
        lemma_split_nonempty(s + y);
        assert(q.last() == p.last() + y);
        assert(q.last().push(x.last()) =~= p.last() + x);
        assert(q.update(q.len() - 1, q.last().push(x.last())) =~= p.update(p.len() - 1, p.last() + x));
    }
}

/// Cutting a dotted join gives back its parts.
pub proof fn lemma_split_join(parts: Seq<Seq<char>>)
    requires
        parts.len() >= 1,
        forall|i: int| 0 <= i < parts.len() ==> has_no_dot(#[trigger] parts[i]),
    ensures
        split_at_dots(join_with_dots(parts)) == parts,
    decreases parts.len(),
{
    if parts.len() == 1 {
        let e: Seq<char> = Seq::empty();
        assert(e + parts[0] =~= parts[0]);
        lemma_split_append_plain(e, parts[0]);
        assert(split_at_dots(e) =~= seq![e]);
        assert(parts =~= seq![parts[0]]);
        assert(seq![e].update(0, e + parts[0]) =~= parts);
    } else {
        let init = parts.drop_last();
        assert forall|i: int| 0 <= i < init.len() implies has_no_dot(#[trigger] init[i]) by {
            assert(init[i] == parts[i]);
        }
        lemma_split_join(init);
        let j = join_with_dots(init);
        let jd = j + seq!['.'];
        assert(jd.drop_last() =~= j);
        assert(split_at_dots(jd) == split_at_dots(j).push(Seq::empty()));
        assert(has_no_dot(parts.last()));
        lemma_split_append_plain(jd, parts.last());
        let p = split_at_dots(jd);
        assert(p.last() + parts.last() =~= parts.last());
        assert(p.update(p.len() - 1, p.last() + parts.last()) =~= parts);
    }
}

/// Whether no character of `s` is a dot.
pub fn no_dot_in(s: &str) -> (r: bool)
    ensures
        r == has_no_dot(s@),
{
    let cs = crate::text::chars_of(s);
    let mut i: usize = 0;
    while i < cs.len()
        invariant
            i <= cs@.len(),
            cs@ == s@,
            forall|j: int| 0 <= j < i ==> cs@[j] != '.',
        decreases cs@.len() - i,
    {
        if cs[i] == '.' {
            return false;
        }
        i = i + 1;
    }
    true
}

impl ModuleAlias {
    /// The alias for a module path, e.g. `["sub", "mod"]` gives `sub.mod`.
    /// No component may contain a dot.
    pub fn new(path: &[String]) -> (alias: ModuleAlias)
        requires
            forall|i: int| 0 <= i < path@.len() ==> has_no_dot(#[trigger] path@[i]@),
        ensures
            alias@ == join_with_dots(path@.map_values(|p: String| p@)),
    {
        let ghost parts = path@.map_values(|p: String| p@);
        let mut joined: Vec<char> = Vec::new();
        let mut i: usize = 0;
        while i < path.len()
            invariant
                i <= path@.len(),
                parts == path@.map_values(|p: String| p@),
                joined@ == join_with_dots(parts.take(i as int)),
            decreases path@.len() - i,
        {
            let part = chars_of(path[i].as_str());
            let ghost before = joined@;
            if i > 0 {
                joined.push('.');
            }
            crate::text::extend_chars(&mut joined, part.as_slice());
            i = i + 1;
            proof {
                let t = parts.take(i as int);
                assert(t.drop_last() =~= parts.take(i - 1));
                assert(t.last() == path@[i - 1]@);
                if i == 1 {
                    assert(before =~= Seq::<char>::empty());
                    assert(joined@ =~= t[0]);
                } else {
                    assert(joined@ =~= before + seq!['.'] + t.last());
                }
            }
        }
        assert(parts.take(path@.len() as int) =~= parts);
        ModuleAlias(string_from_chars(joined.as_slice()))
    }

    /// The alias of the standard library.
    pub fn std_module() -> (alias: ModuleAlias)
        ensures
            alias@ == seq!['s', 't', 'd'],
    {
        let s = "std";
        proof {
            reveal_strlit("std");
        }
        ModuleAlias(s.to_owned())
    }

    /// The path components of the alias (the alias cut at every dot).
    pub fn to_path(&self) -> (path: Vec<String>)
        ensures
            path@.map_values(|p: String| p@) == split_at_dots(self@),
    {
        let chars = chars_of(self.0.as_str());
        let mut done: Vec<String> = Vec::new();
        let mut current: Vec<char> = Vec::new();
        let mut i: usize = 0;
        while i < chars.len()
            invariant
                i <= chars@.len(),
                chars@ == self@,
                split_at_dots(chars@.take(i as int)) == done@.map_values(|p: String| p@).push(current@),
            decreases chars@.len() - i,
        {
            let c = chars[i];
            let ghost t = chars@.take(i as int + 1);
            assert(t.drop_last() =~= chars@.take(i as int));
            if c == '.' {
                let part = string_from_chars(current.as_slice());
                done.push(part);
                current = Vec::new();
                assert(done@.map_values(|p: String| p@) =~= split_at_dots(chars@.take(i as int)));
                assert(split_at_dots(t) =~= done@.map_values(|p: String| p@).push(current@));
            } else {
                current.push(c);
                assert(split_at_dots(t) =~= done@.map_values(|p: String| p@).push(current@));
            }
            i = i + 1;
        }
        assert(chars@.take(chars@.len() as int) =~= chars@);
        let last = string_from_chars(current.as_slice());
        done.push(last);
        assert(done@.map_values(|p: String| p@) =~= split_at_dots(self@));
        done
    }

    /// The alias as text.
    pub fn as_string(&self) -> (s: String)
        ensures
            s@ == self@,
    {
        self.0.clone()
    }

    /// A copy of the alias.
    pub fn clone_alias(&self) -> (r: ModuleAlias)
        ensures
            r@ == self@,
    {
        ModuleAlias(self.0.clone())
    }

    /// Two aliases name the same module.
    pub fn same_as(&self, other: &ModuleAlias) -> (r: bool)
        ensures
            r == (self@ == other@),
    {
        self.0 == other.0
    }
}

/// The path of a module alias built from a non-empty dot-free path is that path.
pub proof fn law_alias_path_roundtrip(path: Seq<Seq<char>>)
    requires
        path.len() >= 1,
        forall|i: int| 0 <= i < path.len() ==> has_no_dot(#[trigger] path[i]),
    ensures
        split_at_dots(join_with_dots(path)) == path,
{
    lemma_split_join(path);
}

} // verus!
