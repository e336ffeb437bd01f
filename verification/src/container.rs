//! The shared graph container: single-writer transactional updates through a
//! permit, lock-free reads of the last committed snapshot, and the registry
//! of type-checked root sets.

use vstd::prelude::*;
use crate::graph::Module;
use crate::graph::ModuleGraph;
use crate::graph::lemma_seq_get_at;
use crate::graph::lemma_seq_wf_prefix;
use crate::graph::search_modules;
use crate::graph::seq_contains_key;
use crate::graph::seq_get;
use crate::graph::seq_wf;
use crate::options::TsTypeLib;
use crate::store::TypeCheckedRegistry;
use crate::store::views_of;

verus! {

/// Owns the shared module graph. Readers take the committed snapshot;
/// a writer extends a private working copy under an exclusive permit and
/// publishes it whole at commit.
#[derive(Debug)]
pub struct ModuleGraphContainer {
    pub module_graph: ModuleGraph,
    pub type_checked: TypeCheckedRegistry,
    pub update_in_progress: bool,
}

/// An exclusive write handle: the modules added so far, over a ghost record
/// of the graph the permit was opened on. Nothing becomes visible to readers
/// before `commit`; a dropped permit publishes nothing.
pub struct GraphUpdatePermit {
    pub additions: Vec<Module>,
    pub base: Ghost<ModuleGraph>,
}

impl GraphUpdatePermit {
    /// The permit's working graph: the base it was opened on, extended by
    /// the additions.
    pub open spec fn working(self) -> Seq<Module> {
        self.base@.modules@ + self.additions@
    }

    /// The permit is coherent with the container it was opened on.
    pub open spec fn opened_on(self, c: ModuleGraphContainer) -> bool {
        &&& self.base@ == c.module_graph
        &&& c.update_in_progress
        &&& seq_wf(self.working())
    }

    /// Looks a specifier up in the working graph.
    pub fn get_working<'a>(&'a self, c: &'a ModuleGraphContainer, specifier: &str) -> (r: Option<
        &'a Module,
    >)
        requires
            self.opened_on(*c),
        ensures
            match r {
                Some(m) => seq_get(self.working(), specifier@) == Some(*m),
                None => !seq_contains_key(self.working(), specifier@),
            },
    {
        proof {
            lemma_seq_wf_prefix(self.base@.modules@, self.additions@);
        }
        let in_base = c.module_graph.get(specifier);
        match in_base {
            Some(m) => {
                proof {
                    let i = choose|i: int|
                        0 <= i < self.base@.modules@.len() && self.base@.modules@[i].key()
                            == specifier@;
                    assert(self.working()[i] == self.base@.modules@[i]);
                    lemma_seq_get_at(self.working(), i);
                }
                Some(m)
            },
            None => {
                let r = search_modules(&self.additions, specifier);
                proof {
                    match r {
                        Some(m) => {
                            let i = choose|i: int|
                                0 <= i < self.additions@.len() && self.additions@[i].key()
                                    == specifier@;
                            assert(self.working()[self.base@.modules@.len() + i]
                                == self.additions@[i]);
                            lemma_seq_get_at(
                                self.working(),
                                self.base@.modules@.len() + i,
                            );
                        },
                        None => {
                            assert(!seq_contains_key(self.working(), specifier@));
                        },
                    }
                }
                r
            },
        }
    }

    /// Adds a module under a fresh specifier to the private working copy.
    /// Readers of the container observe nothing of it yet.
    pub fn insert(&mut self, m: Module)
        requires
            seq_wf(old(self).working()),
            !seq_contains_key(old(self).working(), m.key()),
        ensures
            final(self).base == old(self).base,
            final(self).working() == old(self).working().push(m),
            seq_wf(final(self).working()),
            seq_get(final(self).working(), m.key()) == Some(m),
            forall|s: Seq<char>|
                seq_contains_key(old(self).working(), s) ==> seq_get(
                    final(self).working(),
                    s,
                ) == seq_get(old(self).working(), s),
            forall|s: Seq<char>|
                seq_contains_key(final(self).working(), s) <==> seq_contains_key(
                    old(self).working(),
                    s,
                ) || s == m.key(),
    {
        let ghost prev = self.working();
        self.additions.push(m);
        proof {
            assert(self.working() =~= prev.push(m));
            assert forall|i: int, j: int| 0 <= i < j < self.working().len() implies self.working()[
                i
            ].key() != self.working()[j].key() by {
                if j < prev.len() {
                    assert(self.working()[i] == prev[i] && self.working()[j] == prev[j]);
                } else {
                    assert(self.working()[j] == m);
                    assert(self.working()[i] == prev[i]);
                    if prev[i].key() == m.key() {
                        assert(seq_contains_key(prev, m.key()));
                    }
                }
            };
            lemma_seq_get_at(self.working(), prev.len() as int);
            assert forall|s: Seq<char>| seq_contains_key(prev, s) implies seq_get(
                self.working(),
                s,
            ) == seq_get(prev, s) by {
                let i = choose|i: int| 0 <= i < prev.len() && prev[i].key() == s;
                assert(self.working()[i] == prev[i]);
                lemma_seq_get_at(self.working(), i);
                lemma_seq_get_at(prev, i);
            };
            assert forall|s: Seq<char>| seq_contains_key(self.working(), s) implies
                seq_contains_key(prev, s) || s == m.key() by {
                let i = choose|i: int|
                    0 <= i < self.working().len() && self.working()[i].key() == s;
                if i < prev.len() {
                    assert(prev[i].key() == s);
                }
            };
        }
    }

    /// Atomically publishes the working graph and releases exclusivity.
    pub fn commit(self, c: &mut ModuleGraphContainer)
        requires
            self.opened_on(*old(c)),
        ensures
            final(c).module_graph.modules@ == self.working(),
            final(c).module_graph.wf(),
            !final(c).update_in_progress,
            final(c).type_checked == old(c).type_checked,
    {
        let GraphUpdatePermit { mut additions, base } = self;
        c.module_graph.modules.append(&mut additions);
        c.update_in_progress = false;
    }

    /// Discards the permit: the previously committed graph stays untouched
    /// and exclusivity is released.
    pub fn abandon(self, c: &mut ModuleGraphContainer)
        requires
            old(c).update_in_progress,
        ensures
            final(c).module_graph == old(c).module_graph,
            !final(c).update_in_progress,
            final(c).type_checked == old(c).type_checked,
    {
        c.update_in_progress = false;
    }
}

impl ModuleGraphContainer {
    /// Graph well-formedness carried by the container.
    pub open spec fn wf(self) -> bool {
        self.module_graph.wf()
    }

    /// A container holding the empty graph and an empty registry.
    pub fn new() -> (r: ModuleGraphContainer)
        ensures
            r.wf(),
            !r.update_in_progress,
            r.module_graph.modules@.len() == 0,
            forall|roots: Seq<Seq<char>>, lib: TsTypeLib| !r.type_checked.spec_contains(roots, lib),
    {
        ModuleGraphContainer {
            module_graph: ModuleGraph::new(),
            type_checked: TypeCheckedRegistry::new(),
            update_in_progress: false,
        }
    }

    /// Suspends until no other permit is outstanding, then hands out an
    /// exclusive handle over a working copy of the current graph. Here the
    /// exclusivity is enforced by the precondition; a caller holding the
    /// permit is the single writer.
    pub fn acquire_update_permit(&mut self) -> (p: GraphUpdatePermit)
        requires
            !old(self).update_in_progress,
            old(self).wf(),
        ensures
            final(self).module_graph == old(self).module_graph,
            final(self).type_checked == old(self).type_checked,
            final(self).update_in_progress,
            p.opened_on(*final(self)),
            p.additions@.len() == 0,
            p.working() == old(self).module_graph.modules@,
    {
        self.update_in_progress = true;
        let p = GraphUpdatePermit { additions: Vec::new(), base: Ghost(self.module_graph) };
        proof {
            assert(p.working() =~= self.module_graph.modules@);
        }
        p
    }

    /// The current committed snapshot: lock-free, never a partial graph.
    pub fn graph(&self) -> (r: &ModuleGraph)
        ensures
            *r == self.module_graph,
    {
        &self.module_graph
    }

    /// Whether `(roots, lib)` has already been type checked.
    pub fn is_type_checked(&self, roots: &Vec<String>, lib: TsTypeLib) -> (r: bool)
        ensures
            r == self.type_checked.spec_contains(views_of(roots@), lib),
    {
        self.type_checked.is_type_checked(roots, lib)
    }

    /// Registers `(roots, lib)` as type checked; idempotent, monotonic, and
    /// without effect on the committed graph.
    pub fn set_type_checked(&mut self, roots: Vec<String>, lib: TsTypeLib)
        ensures
            final(self).type_checked.spec_contains(views_of(roots@), lib),
            forall|r: Seq<Seq<char>>, l: TsTypeLib|
                old(self).type_checked.spec_contains(r, l) ==> final(self).type_checked
                    .spec_contains(r, l),
            forall|r: Seq<Seq<char>>, l: TsTypeLib|
                final(self).type_checked.spec_contains(r, l) ==> old(self).type_checked
                    .spec_contains(r, l) || (r == views_of(roots@) && l == lib),
            final(self).module_graph == old(self).module_graph,
            final(self).update_in_progress == old(self).update_in_progress,
    {
        self.type_checked.set_type_checked(roots, lib);
    }
}

/// Atomic visibility: while an update permit is outstanding, readers observe
/// the graph committed before the permit was acquired, however far the
/// working copy has grown; commit publishes the whole working graph in one
/// step; a discarded permit publishes nothing.
pub proof fn lemma_atomic_visibility(
    pre: ModuleGraphContainer,
    mid: ModuleGraphContainer,
    p: GraphUpdatePermit,
    committed: ModuleGraphContainer,
    discarded: ModuleGraphContainer,
)
    requires
        !pre.update_in_progress,
        mid.module_graph == pre.module_graph,
        mid.update_in_progress,
        p.opened_on(mid),
        committed.module_graph.modules@ == p.working(),
        discarded.module_graph == mid.module_graph,
    ensures
        forall|s: Seq<char>|
            mid.module_graph.spec_get(s) == pre.module_graph.spec_get(s),
        forall|s: Seq<char>|
            committed.module_graph.contains_key(s) <==> pre.module_graph.contains_key(s)
                || seq_contains_key(p.additions@, s),
        forall|s: Seq<char>|
            discarded.module_graph.spec_get(s) == pre.module_graph.spec_get(s),
{
    lemma_seq_wf_prefix(p.base@.modules@, p.additions@);
}

} // verus!
