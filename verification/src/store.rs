//! Monotonic process-wide stores: CommonJS resolutions and the registry of
//! type-checked root sets. Both only ever grow, so "once true, always true"
//! holds by construction: neither offers a removal operation.

use vstd::prelude::*;
use crate::options::TsTypeLib;
use crate::strutil::str_eq;

verus! {

/// The view of a list of specifiers: their character sequences.
pub open spec fn views_of(v: Seq<String>) -> Seq<Seq<char>> {
    v.map_values(|s: String| s@)
}

/// A monotonic set of specifiers known to require CommonJS-to-ESM
/// translation. Entries are added, never removed.
#[derive(Debug)]
pub struct CjsResolutionStore {
    pub entries: Vec<String>,
}

impl CjsResolutionStore {
    /// Whether `s` is recorded as a CommonJS resolution.
    pub open spec fn spec_contains(self, s: Seq<char>) -> bool {
        exists|i: int| 0 <= i < self.entries@.len() && self.entries@[i]@ == s
    }

    /// An empty store.
    pub fn new() -> (r: CjsResolutionStore)
        ensures
            forall|s: Seq<char>| !r.spec_contains(s),
    {
        CjsResolutionStore { entries: Vec::new() }
    }

    /// Membership test.
    pub fn contains(&self, s: &str) -> (r: bool)
        ensures
            r == self.spec_contains(s@),
    {
        let mut i: usize = 0;
        while i < self.entries.len()
            invariant
                i <= self.entries@.len(),
                forall|j: int| 0 <= j < i ==> self.entries@[j]@ != s@,
            decreases self.entries@.len() - i,
        {
            if str_eq(self.entries[i].as_str(), s) {
                return true;
            }
            i += 1;
        }
        false
    }

    /// Records `s`; existing membership is never lost.
    pub fn insert(&mut self, s: String)
        ensures
            final(self).spec_contains(s@),
            forall|t: Seq<char>| old(self).spec_contains(t) ==> final(self).spec_contains(t),
            forall|t: Seq<char>|
                final(self).spec_contains(t) ==> old(self).spec_contains(t) || t == s@,
    {
        if !self.contains(s.as_str()) {
            let ghost prev = self.entries@;
            self.entries.push(s);
            proof {
                assert(self.entries@[prev.len() as int]@ == s@);
                assert(forall|t: Seq<char>| old(self).spec_contains(t) ==> self.spec_contains(t))
                    by {
                    assert forall|t: Seq<char>| old(self).spec_contains(t) implies self
                        .spec_contains(t) by {
                        let i = choose|i: int| 0 <= i < prev.len() && prev[i]@ == t;
                        assert(self.entries@[i]@ == t);
                    };
                };
            }
        }
    }
}

/// One registered checked root set.
#[derive(Debug)]
pub struct CheckedRoots {
    pub roots: Vec<String>,
    pub lib: TsTypeLib,
}

/// A monotonic registry of (root-specifier-set, library-variant) pairs that
/// have already passed type checking. Once registered, a pair is never
/// re-checked unless explicitly forced by the caller.
#[derive(Debug)]
pub struct TypeCheckedRegistry {
    pub entries: Vec<CheckedRoots>,
}

impl TypeCheckedRegistry {
    /// Whether the pair `(roots, lib)` is registered as checked.
    pub open spec fn spec_contains(self, roots: Seq<Seq<char>>, lib: TsTypeLib) -> bool {
        exists|i: int|
            0 <= i < self.entries@.len() && views_of(self.entries@[i].roots@) == roots
                && self.entries@[i].lib == lib
    }

    /// An empty registry.
    pub fn new() -> (r: TypeCheckedRegistry)
        ensures
            forall|roots: Seq<Seq<char>>, lib: TsTypeLib| !r.spec_contains(roots, lib),
    {
        TypeCheckedRegistry { entries: Vec::new() }
    }

    /// Membership test for `(roots, lib)`.
    pub fn is_type_checked(&self, roots: &Vec<String>, lib: TsTypeLib) -> (r: bool)
        ensures
            r == self.spec_contains(views_of(roots@), lib),
    {
        let mut i: usize = 0;
        while i < self.entries.len()
            invariant
                i <= self.entries@.len(),
                forall|j: int|
                    0 <= j < i ==> !(views_of(self.entries@[j].roots@) == views_of(roots@)
                        && self.entries@[j].lib == lib),
            decreases self.entries@.len() - i,
        {
            if self.entries[i].lib == lib && vec_str_eq(&self.entries[i].roots, roots) {
                return true;
            }
            i += 1;
        }
        false
    }

    /// Registers `(roots, lib)` as checked; existing registrations are kept.
    pub fn set_type_checked(&mut self, roots: Vec<String>, lib: TsTypeLib)
        ensures
            final(self).spec_contains(views_of(roots@), lib),
            forall|r: Seq<Seq<char>>, l: TsTypeLib|
                old(self).spec_contains(r, l) ==> final(self).spec_contains(r, l),
            forall|r: Seq<Seq<char>>, l: TsTypeLib|
                final(self).spec_contains(r, l) ==> old(self).spec_contains(r, l) || (r
                    == views_of(roots@) && l == lib),
    {
        if !self.is_type_checked(&roots, lib) {
            let ghost prev = self.entries@;
            self.entries.push(CheckedRoots { roots, lib });
            proof {
                assert(self.entries@[prev.len() as int].roots@ == roots@);
                assert forall|r: Seq<Seq<char>>, l: TsTypeLib|
                    old(self).spec_contains(r, l) implies self.spec_contains(r, l) by {
                    let i = choose|i: int|
                        0 <= i < prev.len() && views_of(prev[i].roots@) == r && prev[i].lib == l;
                    assert(views_of(self.entries@[i].roots@) == r && self.entries@[i].lib == l);
                };
            }
        }
    }
}

/// The cache of parsed sources: the specifiers whose parsed form is held in
/// memory. An entry is created when a module is parsed during graph build and
/// evicted right after code is emitted for it.
#[derive(Debug)]
pub struct ParsedSourceCache {
    pub entries: Vec<String>,
}

impl ParsedSourceCache {
    /// Whether a parsed form of `s` is held.
    pub open spec fn spec_contains(self, s: Seq<char>) -> bool {
        exists|i: int| 0 <= i < self.entries@.len() && self.entries@[i]@ == s
    }

    /// An empty cache.
    pub fn new() -> (r: ParsedSourceCache)
        ensures
            forall|s: Seq<char>| !r.spec_contains(s),
    {
        ParsedSourceCache { entries: Vec::new() }
    }

    /// Records that a parsed form of `s` is held.
    pub fn insert(&mut self, s: String)
        ensures
            final(self).spec_contains(s@),
            forall|t: Seq<char>| old(self).spec_contains(t) ==> final(self).spec_contains(t),
            forall|t: Seq<char>|
                final(self).spec_contains(t) ==> old(self).spec_contains(t) || t == s@,
    {
        let ghost prev = self.entries@;
        self.entries.push(s);
        proof {
            assert(self.entries@[prev.len() as int]@ == s@);
            assert forall|t: Seq<char>| old(self).spec_contains(t) implies self.spec_contains(t)
                by {
                let i = choose|i: int| 0 <= i < prev.len() && prev[i]@ == t;
                assert(self.entries@[i]@ == t);
            };
        }
    }

    /// Frees the parsed form of `s`; every other entry is kept.
    pub fn free(&mut self, s: &str)
        ensures
            !final(self).spec_contains(s@),
            forall|t: Seq<char>|
                final(self).spec_contains(t) <==> old(self).spec_contains(t) && t != s@,
    {
        let mut kept: Vec<String> = Vec::new();
        let mut i: usize = 0;
        while i < self.entries.len()
            invariant
                i <= self.entries@.len(),
                forall|k: int|
                    0 <= k < kept@.len() ==> kept@[k]@ != s@ && exists|j: int|
                        0 <= j < i && self.entries@[j]@ == kept@[k]@,
                forall|j: int|
                    0 <= j < i && self.entries@[j]@ != s@ ==> exists|k: int|
                        0 <= k < kept@.len() && kept@[k]@ == self.entries@[j]@,
            decreases self.entries@.len() - i,
        {
            if !str_eq(self.entries[i].as_str(), s) {
                let ghost prevk = kept@;
                kept.push(self.entries[i].clone());
                proof {
                    assert(kept@[prevk.len() as int]@ == self.entries@[i as int]@);
                    assert(forall|k: int| 0 <= k < prevk.len() ==> kept@[k] == prevk[k]);
                }
            }
            i += 1;
        }
        self.entries = kept;
        proof {
            assert forall|t: Seq<char>| self.spec_contains(t) implies old(self).spec_contains(t)
                && t != s@ by {
                let k = choose|k: int| 0 <= k < self.entries@.len() && self.entries@[k]@ == t;
                let j = choose|j: int|
                    0 <= j < old(self).entries@.len() && old(self).entries@[j]@
                        == self.entries@[k]@;
                assert(old(self).entries@[j]@ == t);
            };
            assert forall|t: Seq<char>| old(self).spec_contains(t) && t != s@ implies self
                .spec_contains(t) by {
                let j = choose|j: int|
                    0 <= j < old(self).entries@.len() && old(self).entries@[j]@ == t;
                let k = choose|k: int|
                    0 <= k < self.entries@.len() && self.entries@[k]@ == old(self).entries@[j]@;
                assert(self.entries@[k]@ == t);
            };
        }
    }
}

/// Element-wise equality of two specifier lists.
pub fn vec_str_eq(a: &Vec<String>, b: &Vec<String>) -> (r: bool)
    ensures
        r == (views_of(a@) == views_of(b@)),
{
    if a.len() != b.len() {
        proof {
            assert(views_of(a@).len() != views_of(b@).len());
        }
        return false;
    }
    let mut i: usize = 0;
    while i < a.len()
        invariant
            i <= a@.len(),
            a@.len() == b@.len(),
            forall|j: int| 0 <= j < i ==> a@[j]@ == b@[j]@,
        decreases a@.len() - i,
    {
        if !str_eq(a[i].as_str(), b[i].as_str()) {
            proof {
                assert(views_of(a@)[i as int] == a@[i as int]@);
                assert(views_of(b@)[i as int] == b@[i as int]@);
            }
            return false;
        }
        i += 1;
    }
    proof {
        assert(views_of(a@) =~= views_of(b@));
    }
    true
}

} // verus!
