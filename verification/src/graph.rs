//! The module graph: a mapping from specifier to module with resolved
//! dependency edges. Once committed, a graph snapshot is never mutated;
//! builders extend a private working copy and publish it whole.

use vstd::prelude::*;
use crate::media::MediaType;
use crate::strutil::str_eq;

verus! {

/// The recorded outcome of resolving one import specifier.
#[derive(Debug, PartialEq, Eq)]
pub enum Resolution {
    /// The import resolved to a target specifier.
    Resolved { specifier: String },
    /// Resolution failed with a diagnostic; set once during graph build.
    Erred { diagnostic: String },
    /// The import was never resolved.
    Unresolved,
}

/// An edge from an ESM module's import specifier string to its resolution.
#[derive(Debug, PartialEq, Eq)]
pub struct Dependency {
    /// The import specifier as written in the source.
    pub import: String,
    /// The resolution recorded for the executable code path.
    pub resolution: Resolution,
}

impl Clone for Resolution {
    fn clone(&self) -> (res: Self)
        ensures
            res == *self,
    {
        match self {
            Resolution::Resolved { specifier } => Resolution::Resolved {
                specifier: specifier.clone(),
            },
            Resolution::Erred { diagnostic } => Resolution::Erred {
                diagnostic: diagnostic.clone(),
            },
            Resolution::Unresolved => Resolution::Unresolved,
        }
    }
}

impl Clone for Dependency {
    fn clone(&self) -> (res: Self)
        ensures
            res == *self,
    {
        Dependency { import: self.import.clone(), resolution: self.resolution.clone() }
    }
}

/// Clones a dependency list, element for element.
pub fn clone_dependencies(v: &Vec<Dependency>) -> (r: Vec<Dependency>)
    ensures
        r@ == v@,
{
    let mut r: Vec<Dependency> = Vec::new();
    let mut i: usize = 0;
    while i < v.len()
        invariant
            i <= v@.len(),
            r@ =~= v@.subrange(0, i as int),
        decreases v@.len() - i,
    {
        r.push(v[i].clone());
        proof {
            assert(r@ =~= v@.subrange(0, i + 1));
        }
        i += 1;
    }
    proof {
        assert(r@ =~= v@);
    }
    r
}

/// A module held by the graph: a closed union dispatched by pattern match.
#[derive(Debug, PartialEq, Eq)]
pub enum Module {
    /// A standard module with static imports.
    Esm {
        specifier: String,
        source: String,
        media_type: MediaType,
        dependencies: Vec<Dependency>,
    },
    /// A JSON module.
    Json { specifier: String, source: String, media_type: MediaType },
    /// A resolved package-name+version reference.
    Npm { specifier: String, nv_reference: String },
    /// An engine-provided builtin.
    Node { specifier: String, module_name: String },
    /// Resolved outside the graph; opaque here.
    External { specifier: String },
}

impl Module {
    /// The specifier keying this module in the graph.
    pub open spec fn key(self) -> Seq<char> {
        match self {
            Module::Esm { specifier, .. } => specifier@,
            Module::Json { specifier, .. } => specifier@,
            Module::Npm { specifier, .. } => specifier@,
            Module::Node { specifier, .. } => specifier@,
            Module::External { specifier } => specifier@,
        }
    }

    /// Borrows the specifier keying this module.
    pub fn specifier(&self) -> (r: &String)
        ensures
            r@ == self.key(),
    {
        match self {
            Module::Esm { specifier, .. } => specifier,
            Module::Json { specifier, .. } => specifier,
            Module::Npm { specifier, .. } => specifier,
            Module::Node { specifier, .. } => specifier,
            Module::External { specifier } => specifier,
        }
    }
}

/// Whether the module list holds a module keyed `s`.
pub open spec fn seq_contains_key(ms: Seq<Module>, s: Seq<char>) -> bool {
    exists|i: int| 0 <= i < ms.len() && ms[i].key() == s
}

/// The module keyed `s`, when present; unique under `seq_wf`.
pub open spec fn seq_get(ms: Seq<Module>, s: Seq<char>) -> Option<Module> {
    if seq_contains_key(ms, s) {
        Some(ms[choose|i: int| 0 <= i < ms.len() && ms[i].key() == s])
    } else {
        None
    }
}

/// Well-formedness of a module list: specifiers key at most one module each.
pub open spec fn seq_wf(ms: Seq<Module>) -> bool {
    forall|i: int, j: int| 0 <= i < j < ms.len() ==> ms[i].key() != ms[j].key()
}

/// Under `seq_wf`, the module at any position is the one its key retrieves.
pub proof fn lemma_seq_get_at(ms: Seq<Module>, i: int)
    requires
        seq_wf(ms),
        0 <= i < ms.len(),
    ensures
        seq_get(ms, ms[i].key()) == Some(ms[i]),
{
    let s = ms[i].key();
    assert(seq_contains_key(ms, s));
    let j = choose|j: int| 0 <= j < ms.len() && ms[j].key() == s;
    if i != j {
        assert(ms[i].key() != ms[j].key());
    }
}

/// A well-formed prefix stays well-formed, and keys absent from the whole
/// list are absent from the prefix.
pub proof fn lemma_seq_wf_prefix(a: Seq<Module>, b: Seq<Module>)
    requires
        seq_wf(a + b),
    ensures
        seq_wf(a),
        seq_wf(b),
        forall|s: Seq<char>|
            seq_contains_key(a, s) || seq_contains_key(b, s) <==> seq_contains_key(a + b, s),
        forall|s: Seq<char>| seq_contains_key(a, s) ==> !seq_contains_key(b, s),
{
    assert(forall|i: int| 0 <= i < a.len() ==> (a + b)[i] == a[i]);
    assert(forall|i: int| 0 <= i < b.len() ==> (a + b)[a.len() + i] == b[i]);
    assert forall|s: Seq<char>| seq_contains_key(a + b, s) implies seq_contains_key(a, s)
        || seq_contains_key(b, s) by {
        let i = choose|i: int| 0 <= i < (a + b).len() && (a + b)[i].key() == s;
        if i < a.len() {
            assert(a[i].key() == s);
        } else {
            assert(b[i - a.len()].key() == s);
        }
    };
    assert forall|s: Seq<char>| seq_contains_key(a, s) implies !seq_contains_key(b, s) by {
        let i = choose|i: int| 0 <= i < a.len() && a[i].key() == s;
        if seq_contains_key(b, s) {
            let j = choose|j: int| 0 <= j < b.len() && b[j].key() == s;
            assert((a + b)[i].key() == (a + b)[a.len() + j].key());
        }
    };
}

/// A mapping from specifier to module. Specifiers are unique keys.
#[derive(Debug, PartialEq, Eq)]
pub struct ModuleGraph {
    pub modules: Vec<Module>,
}

impl ModuleGraph {
    /// Whether a module with specifier `s` is present.
    pub open spec fn contains_key(self, s: Seq<char>) -> bool {
        seq_contains_key(self.modules@, s)
    }

    /// The module keyed by `s`, when present.
    pub open spec fn spec_get(self, s: Seq<char>) -> Option<Module> {
        seq_get(self.modules@, s)
    }

    /// Well-formedness: specifiers key at most one module each.
    pub open spec fn wf(self) -> bool {
        seq_wf(self.modules@)
    }

    /// An empty graph.
    pub fn new() -> (r: ModuleGraph)
        ensures
            r.wf(),
            r.modules@.len() == 0,
            forall|s: Seq<char>| !r.contains_key(s),
    {
        ModuleGraph { modules: Vec::new() }
    }

    /// The number of modules held.
    pub fn len(&self) -> (r: usize)
        ensures
            r == self.modules@.len(),
    {
        self.modules.len()
    }

    /// Looks the specifier up.
    pub fn get(&self, specifier: &str) -> (r: Option<&Module>)
        requires
            self.wf(),
        ensures
            match r {
                Some(m) => self.spec_get(specifier@) == Some(*m),
                None => !self.contains_key(specifier@),
            },
    {
        search_modules(&self.modules, specifier)
    }
}

/// Linear search of a module list by key.
pub fn search_modules<'a>(ms: &'a Vec<Module>, specifier: &str) -> (r: Option<&'a Module>)
    requires
        seq_wf(ms@),
    ensures
        match r {
            Some(m) => seq_get(ms@, specifier@) == Some(*m),
            None => !seq_contains_key(ms@, specifier@),
        },
{
    let mut i: usize = 0;
    while i < ms.len()
        invariant
            i <= ms@.len(),
            seq_wf(ms@),
            forall|j: int| 0 <= j < i ==> ms@[j].key() != specifier@,
        decreases ms@.len() - i,
    {
        if str_eq(ms[i].specifier().as_str(), specifier) {
            proof {
                lemma_seq_get_at(ms@, i as int);
            }
            return Some(&ms[i]);
        }
        i += 1;
    }
    None
}

} // verus!
