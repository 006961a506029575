//! Paths as sequences of name components.
//!
//! The engine never parses separator characters: the surrounding
//! application splits a real filesystem path into components and joins
//! them back. A path's view is the sequence of its components' views.

use vstd::prelude::*;
use crate::category::opt_str_view;

verus! {

/// The index of the last `.` in `name`, or `-1` if there is none.
pub open spec fn last_dot(name: Seq<char>) -> int
    decreases name.len(),
{
    if name.len() == 0 {
        -1
    } else if name[name.len() - 1] == '.' {
        name.len() - 1
    } else {
        last_dot(name.drop_last())
    }
}

/// The extension of a file name: the part after the last `.`, or nothing
/// when the name has no `.`, or only a leading one (a dotfile).
pub open spec fn spec_extension(name: Seq<char>) -> Option<Seq<char>> {
    let d = last_dot(name);
    if d <= 0 {
        None
    } else {
        Some(name.subrange(d + 1, name.len() as int))
    }
}

pub proof fn lemma_last_dot_at(name: Seq<char>, k: int)
    requires
        0 <= k < name.len(),
        name[k] == '.',
        forall|j: int| k < j < name.len() ==> name[j] != '.',
    ensures
        last_dot(name) == k,
    decreases name.len(),
{
    if k < name.len() - 1 {
        let shorter = name.drop_last();
        assert(forall|j: int| k < j < shorter.len() ==> shorter[j] != '.');
        lemma_last_dot_at(shorter, k);
    }
}

pub proof fn lemma_no_dot(name: Seq<char>)
    requires
        forall|j: int| 0 <= j < name.len() ==> name[j] != '.',
    ensures
        last_dot(name) == -1,
    decreases name.len(),
{
    if name.len() > 0 {
        let shorter = name.drop_last();
        assert(forall|j: int| 0 <= j < shorter.len() ==> shorter[j] != '.');
        lemma_no_dot(shorter);
    }
}

/// Exact (case-sensitive) string equality.
pub fn str_eq(a: &str, b: &str) -> (r: bool)
    ensures
        r == (a@ == b@),
{
    let na = a.unicode_len();
    let nb = b.unicode_len();
    if na != nb {
        return false;
    }
    for i in 0..na
        invariant
            na == a@.len(),
            nb == b@.len(),
            na == nb,
            forall|j: int| 0 <= j < i ==> a@[j] == b@[j],
    {
        if a.get_char(i) != b.get_char(i) {
            assert(a@[i as int] != b@[i as int]);
            return false;
        }
    }
    proof {
        assert(a@ =~= b@);
    }
    true
}

/// The extension of `name`, as the original filesystem treats it: the
/// part after the last `.`, absent for dotless names and plain dotfiles.
pub fn extension_of(name: &str) -> (r: Option<&str>)
    ensures
        opt_str_view(r) == spec_extension(name@),
{
    let n = name.unicode_len();
    let mut i = n;
    while i > 0
        invariant
            i <= n,
            n == name@.len(),
            forall|j: int| i <= j < n ==> name@[j] != '.',
        decreases i,
    {
        i = i - 1;
        let c = name.get_char(i);
        if c == '.' {
            proof {
                lemma_last_dot_at(name@, i as int);
            }
            if i == 0 {
                return None;
            }
            let ext = name.substring_char(i + 1, n);
            return Some(ext);
        }
    }
    proof {
        lemma_no_dot(name@);
    }
    None
}

/// The extension of a path's final component, if any.
pub open spec fn spec_path_extension(p: Seq<Seq<char>>) -> Option<Seq<char>> {
    if p.len() == 0 {
        None
    } else {
        spec_extension(p.last())
    }
}

/// The in-progress marker: a file whose extension is exactly `tmp` is
/// still being written and is never moved, neither by the live-event
/// path nor by a sweep.
pub open spec fn spec_transient(p: Seq<Seq<char>>) -> bool {
    spec_path_extension(p) == Some("tmp"@)
}

/// A filesystem path, represented as its name components in order.
#[derive(Debug)]
pub struct FilePath {
    pub parts: Vec<String>,
}

impl View for FilePath {
    type V = Seq<Seq<char>>;

    open spec fn view(&self) -> Seq<Seq<char>> {
        self.parts.deep_view()
    }
}

impl FilePath {
    /// The empty path (no components).
    pub fn empty() -> (r: FilePath)
        ensures
            r@ == Seq::<Seq<char>>::empty(),
    {
        let r = FilePath { parts: Vec::new() };
        proof {
            assert(r@ =~= Seq::<Seq<char>>::empty());
        }
        r
    }

    /// An exact copy of this path.
    pub fn duplicate(&self) -> (r: FilePath)
        ensures
            r@ == self@,
    {
        let parts = self.parts.clone();
        proof {
            assert(forall|i: int|
                0 <= i < self.parts@.len() ==> parts@[i] == self.parts@[i]) by {
                assert(forall|i: int|
                    0 <= i < self.parts@.len() ==> cloned::<String>(self.parts@[i], parts@[i]));
            }
            assert(parts.deep_view() =~= self.parts.deep_view());
        }
        FilePath { parts }
    }

    /// The path extended by one more component.
    pub fn child(&self, name: &str) -> (r: FilePath)
        ensures
            r@ == self@.push(name@),
    {
        let mut parts = self.parts.clone();
        proof {
            assert(forall|i: int|
                0 <= i < self.parts@.len() ==> parts@[i] == self.parts@[i]) by {
                assert(forall|i: int|
                    0 <= i < self.parts@.len() ==> cloned::<String>(self.parts@[i], parts@[i]));
            }
        }
        parts.push(String::from_str(name));
        let r = FilePath { parts };
        proof {
            assert(r@ =~= self@.push(name@));
        }
        r
    }

    /// The path's final component, if it has one.
    pub fn file_name(&self) -> (r: Option<&String>)
        ensures
            match r {
                Some(name) => self@.len() > 0 && name@ == self@.last(),
                None => self@.len() == 0,
            },
    {
        if self.parts.len() == 0 {
            None
        } else {
            Some(&self.parts[self.parts.len() - 1])
        }
    }

    /// Component-wise equality of two paths.
    pub fn equals(&self, other: &FilePath) -> (r: bool)
        ensures
            r == (self@ == other@),
    {
        if self.parts.len() != other.parts.len() {
            assert(self@.len() != other@.len());
            return false;
        }
        let n = self.parts.len();
        for i in 0..n
            invariant
                n == self.parts.len(),
                n == other.parts.len(),
                forall|j: int| 0 <= j < i ==> self@[j] == other@[j],
        {
            if !(self.parts[i] == other.parts[i]) {
                assert(self@[i as int] != other@[i as int]);
                return false;
            }
        }
        proof {
            assert(self@ =~= other@);
        }
        true
    }

    /// The extension of the path's final component.
    pub fn path_extension(&self) -> (r: Option<&str>)
        ensures
            opt_str_view(r) == spec_path_extension(self@),
    {
        if self.parts.len() == 0 {
            return None;
        }
        let name = &self.parts[self.parts.len() - 1];
        extension_of(name.as_str())
    }

    /// Whether the path's final component carries the in-progress
    /// marker extension (the match is exact, not case-insensitive).
    pub fn is_transient(&self) -> (r: bool)
        ensures
            r == spec_transient(self@),
    {
        match self.path_extension() {
            Some(e) => str_eq(e, "tmp"),
            None => false,
        }
    }

    /// Whether `prefix` is a (not necessarily proper) prefix of this path.
    pub fn starts_with(&self, prefix: &FilePath) -> (r: bool)
        ensures
            r == prefix@.is_prefix_of(self@),
    {
        if prefix.parts.len() > self.parts.len() {
            assert(!prefix@.is_prefix_of(self@));
            return false;
        }
        let n = prefix.parts.len();
        for i in 0..n
            invariant
                n == prefix.parts.len(),
                n <= self.parts.len(),
                forall|j: int| 0 <= j < i ==> prefix@[j] == self@[j],
        {
            if !(prefix.parts[i] == self.parts[i]) {
                assert(prefix@[i as int] != self@[i as int]);
                assert(!prefix@.is_prefix_of(self@));
                return false;
            }
        }
        proof {
            assert(prefix@ =~= self@.subrange(0, prefix@.len() as int));
        }
        true
    }
}

} // verus!
