//! Preparation of module loads: transitive graph build from the content
//! source's fetches, resolution validation, lockfile integrity gating, the
//! atomic commit, and type-check gating over the monotonic registry.

use vstd::prelude::*;
use crate::container::GraphUpdatePermit;
use crate::container::ModuleGraphContainer;
use crate::graph::Dependency;
use crate::graph::Module;
use crate::graph::Resolution;
use crate::graph::clone_dependencies;
use crate::graph::seq_contains_key;
use crate::graph::seq_get;
use crate::loader::UrlParseOutcome;
use crate::loader::clone_strings;
use crate::media::MediaType;
use crate::options::PermissionsContainer;
use crate::options::TsTypeLib;
use crate::options::TypeCheckMode;
use crate::store::views_of;
use crate::strutil::str_eq;

verus! {

/// The lockfile collaborator's outcome for one preparation: integrity
/// verification of every resolved module, then persisting newly resolved
/// entries.
#[derive(Debug)]
pub enum LockfileOutcome {
    /// Every recorded integrity hash matched and the merged lockfile was
    /// written back.
    Verified,
    /// A content hash mismatched; fatal, never silently accepted.
    Mismatch { message: String },
    /// Writing the merged lockfile back failed.
    WriteFailed { message: String },
}

/// The outside type checker's verdict over a graph segment.
#[derive(Debug)]
pub enum CheckOutcome {
    Passed,
    Diagnostics { message: String },
}

/// What the content source and analyzer produced for one fetched specifier.
#[derive(Debug)]
pub enum FetchedModule {
    Esm { media_type: MediaType, source: String, dependencies: Vec<Dependency> },
    Json { source: String },
    Npm { nv_reference: String },
    Node { module_name: String },
    External,
    /// The content source found nothing under this specifier.
    Missing,
}

/// One fetched specifier with its outcome.
#[derive(Debug)]
pub struct FetchEntry {
    pub specifier: String,
    pub module: FetchedModule,
}

/// The transcript of the concurrent fetch phase: what the content source
/// answered for each specifier the build asked for.
#[derive(Debug)]
pub struct FetchTable {
    pub entries: Vec<FetchEntry>,
}

/// Whether the fetch transcript holds a found module under `s`.
pub open spec fn spec_entry_found(table: FetchTable, s: Seq<char>) -> bool {
    exists|i: int|
        0 <= i < table.entries@.len() && table.entries@[i].specifier@ == s && !(
        table.entries@[i].module matches FetchedModule::Missing)
}

/// The graph module recorded for a fetched outcome.
pub open spec fn spec_module_matches_entry(m: Module, s: Seq<char>, f: FetchedModule) -> bool {
    match f {
        FetchedModule::Esm { media_type, source, dependencies } => m matches Module::Esm {
            specifier,
            source: src,
            media_type: mt,
            dependencies: deps,
        } && specifier@ == s && src@ == source@ && mt == media_type && deps@ == dependencies@,
        FetchedModule::Json { source } => m matches Module::Json {
            specifier,
            source: src,
            media_type,
        } && specifier@ == s && src@ == source@ && media_type == MediaType::Json,
        FetchedModule::Npm { nv_reference } => m matches Module::Npm { specifier, nv_reference: nv }
            && specifier@ == s && nv@ == nv_reference@,
        FetchedModule::Node { module_name } => m matches Module::Node { specifier, module_name: n }
            && specifier@ == s && n@ == module_name@,
        FetchedModule::External => m matches Module::External { specifier } && specifier@ == s,
        FetchedModule::Missing => false,
    }
}

/// Whether `m` records some entry of the fetch transcript.
pub open spec fn spec_module_from_table(table: FetchTable, m: Module) -> bool {
    exists|i: int|
        0 <= i < table.entries@.len() && table.entries@[i].specifier@ == m.key()
            && spec_module_matches_entry(m, m.key(), table.entries@[i].module)
}

/// Whether `m` carries a dependency whose resolution erred.
pub open spec fn spec_module_any_erred(m: Module) -> bool {
    m matches Module::Esm { dependencies, .. } && exists|i: int|
        0 <= i < dependencies@.len() && (#[trigger] dependencies@[i].resolution
            matches Resolution::Erred { .. })
}

/// Whether `m` carries a dependency whose resolution erred with `d`.
pub open spec fn spec_module_erred(m: Module, d: Seq<char>) -> bool {
    m matches Module::Esm { dependencies, .. } && exists|i: int|
        0 <= i < dependencies@.len() && (match #[trigger] dependencies@[i].resolution {
            Resolution::Erred { diagnostic } => diagnostic@ == d,
            _ => false,
        })
}

/// Whether a fetched outcome carries no erred dependency.
pub open spec fn spec_entry_not_erred(f: FetchedModule) -> bool {
    match f {
        FetchedModule::Esm { dependencies, .. } => forall|i: int|
            0 <= i < dependencies@.len() ==> !(#[trigger] dependencies@[i].resolution
                matches Resolution::Erred { .. }),
        _ => true,
    }
}

/// Every present resolution target of `m` stands in `seg`.
pub open spec fn spec_deps_in(ms: Seq<Module>, m: Module, seg: Seq<Seq<char>>) -> bool {
    match m {
        Module::Esm { dependencies, .. } => forall|i: int|
            0 <= i < dependencies@.len() ==> (match #[trigger] dependencies@[i].resolution {
                Resolution::Resolved { specifier } => seq_contains_key(ms, specifier@)
                    ==> seg.contains(specifier@),
                _ => true,
            }),
        _ => true,
    }
}

/// Whether the module keyed `s`, if any, keeps its present resolution
/// targets inside `seg`.
pub open spec fn spec_member_closed(ms: Seq<Module>, s: Seq<char>, seg: Seq<Seq<char>>) -> bool {
    match seq_get(ms, s) {
        Some(m) => spec_deps_in(ms, m, seg),
        None => true,
    }
}

/// A validated graph segment: it holds every root present in the graph,
/// each member stands in the graph without an erred import, and membership
/// is closed under present resolution targets. Such a set contains the
/// whole transitive closure of the roots, so no module reachable from a
/// root carries an erred resolution.
pub open spec fn spec_validated_segment(
    ms: Seq<Module>,
    roots: Seq<Seq<char>>,
    seg: Seq<Seq<char>>,
) -> bool {
    &&& forall|k: int|
        0 <= k < roots.len() && seq_contains_key(ms, roots[k]) ==> seg.contains(roots[k])
    &&& forall|j: int|
        0 <= j < seg.len() ==> (#[trigger] seq_get(ms, seg[j]) matches Some(m)
            && !spec_module_any_erred(m) && spec_deps_in(ms, m, seg))
}

/// A duplicate-free list of keys of `ms` is no longer than `ms`.
proof fn lemma_key_list_bound(ms: Seq<Module>, keys: Seq<Seq<char>>)
    requires
        keys.no_duplicates(),
        forall|j: int| 0 <= j < keys.len() ==> seq_contains_key(ms, keys[j]),
    ensures
        keys.len() <= ms.len(),
{
    let f = |s: Seq<char>| choose|i: int| 0 <= i < ms.len() && ms[i].key() == s;
    let idxs = keys.map_values(f);
    assert forall|j: int| 0 <= j < idxs.len() implies 0 <= #[trigger] idxs[j] < ms.len() && ms[
        idxs[j]
    ].key() == keys[j] by {
        assert(seq_contains_key(ms, keys[j]));
    };
    assert(idxs.no_duplicates()) by {
        assert forall|i: int, j: int| 0 <= i < j < idxs.len() implies idxs[i] != idxs[j] by {
            assert(ms[idxs[i]].key() == keys[i]);
            assert(ms[idxs[j]].key() == keys[j]);
            assert(keys[i] != keys[j]);
        };
    };
    idxs.unique_seq_to_set();
    vstd::set_lib::lemma_int_range(0, ms.len() as int);
    assert(idxs.to_set().subset_of(vstd::set_lib::set_int_range(0, ms.len() as int))) by {
        assert forall|x: int| idxs.to_set().contains(x) implies vstd::set_lib::set_int_range(
            0,
            ms.len() as int,
        ).contains(x) by {
            let j = choose|j: int| 0 <= j < idxs.len() && idxs[j] == x;
            assert(0 <= idxs[j] < ms.len());
        };
    };
    vstd::set_lib::lemma_len_subset(
        idxs.to_set(),
        vstd::set_lib::set_int_range(0, ms.len() as int),
    );
}

/// Pushing a fresh specifier keeps the views duplicate-free and keeps every
/// earlier view contained.
proof fn lemma_push_keeps(prev: Seq<String>, now: Seq<String>, x: Seq<char>)
    requires
        views_of(now) == views_of(prev).push(x),
        !views_of(prev).contains(x),
        views_of(prev).no_duplicates(),
    ensures
        views_of(now).no_duplicates(),
        forall|t: Seq<char>| views_of(prev).contains(t) ==> views_of(now).contains(t),
        views_of(now).contains(x),
{
    assert forall|a: int, b: int| 0 <= a < b < views_of(now).len() implies views_of(now)[a]
        != views_of(now)[b] by {
        if b == views_of(prev).len() {
            if views_of(now)[a] == x {
                assert(views_of(prev)[a] == x);
            }
        } else {
            assert(views_of(now)[a] == views_of(prev)[a]);
            assert(views_of(now)[b] == views_of(prev)[b]);
        }
    };
    assert forall|t: Seq<char>| views_of(prev).contains(t) implies views_of(now).contains(t) by {
        let i = choose|i: int| 0 <= i < views_of(prev).len() && views_of(prev)[i] == t;
        assert(views_of(now)[i] == t);
    };
    assert(views_of(now)[views_of(prev).len() as int] == x);
}

/// Views of a list of specifiers contain exactly the views its elements
/// hold.
proof fn lemma_views_contains(v: Seq<String>, s: Seq<char>)
    ensures
        views_of(v).contains(s) <==> exists|i: int| 0 <= i < v.len() && v[i]@ == s,
{
    if views_of(v).contains(s) {
        let i = choose|i: int| 0 <= i < views_of(v).len() && views_of(v)[i] == s;
        assert(v[i]@ == s);
    }
    if exists|i: int| 0 <= i < v.len() && v[i]@ == s {
        let i = choose|i: int| 0 <= i < v.len() && v[i]@ == s;
        assert(views_of(v)[i] == s);
    }
}

/// A preparation failure.
#[derive(Debug)]
pub enum PrepareError {
    /// A root specifier was neither in the graph nor found by the content
    /// source.
    MissingRoot { specifier: String },
    /// An import reachable from a root carries an erred resolution; the
    /// whole preparation aborts, nothing is published.
    Resolution { diagnostic: String },
    /// A lockfile integrity hash mismatched; fatal.
    Integrity { message: String },
    /// The merged lockfile could not be written back.
    LockfileWrite { message: String },
    /// The type checker reported diagnostics; the built graph stays
    /// committed but the roots are not registered as checked.
    TypeCheck { message: String },
    /// A root file path could not be resolved into a URL.
    UriParse { message: String },
}

/// What one successful preparation reports back.
#[derive(Clone, Copy, Debug, PartialEq, Eq, Structural)]
pub struct PrepareOutcome {
    /// Whether this call invoked the outside type checker.
    pub checker_invoked: bool,
    /// Whether the checker was asked to reload: only on an explicit reload
    /// with at least one root not present before the build.
    pub checker_reload: bool,
}

/// The configuration a preparer is built over.
#[derive(Clone, Copy, Debug, PartialEq, Eq, Structural)]
pub struct PrepareOptions {
    pub type_check_mode: TypeCheckMode,
    pub reload_flag: bool,
    pub has_lockfile: bool,
    /// The type library main-thread roots are checked against.
    pub lib_window: TsTypeLib,
}

/// The container frame every preparation leaves: no permit outstanding and
/// a well-formed published graph.
pub open spec fn spec_prepare_frame(post: ModuleGraphContainer) -> bool {
    &&& !post.update_in_progress
    &&& post.wf()
}

/// How a preparation may change the registry of checked root sets: it only
/// grows, and only by the pair this call was made for.
pub open spec fn spec_prepare_registry(
    pre: ModuleGraphContainer,
    post: ModuleGraphContainer,
    roots: Seq<Seq<char>>,
    lib: TsTypeLib,
) -> bool {
    &&& forall|rt: Seq<Seq<char>>, l: TsTypeLib|
        pre.type_checked.spec_contains(rt, l) ==> post.type_checked.spec_contains(rt, l)
    &&& forall|rt: Seq<Seq<char>>, l: TsTypeLib|
        post.type_checked.spec_contains(rt, l) ==> pre.type_checked.spec_contains(rt, l) || (rt
            == roots && l == lib)
}

/// What each result of a preparation means for the published graph, the
/// registry and the consulted collaborators.
pub open spec fn spec_prepare_result(
    options: PrepareOptions,
    pre: ModuleGraphContainer,
    post: ModuleGraphContainer,
    roots: Seq<Seq<char>>,
    lib: TsTypeLib,
    table: FetchTable,
    lockfile: LockfileOutcome,
    check: CheckOutcome,
    r: Result<PrepareOutcome, PrepareError>,
) -> bool {
    match r {
        Ok(out) => {
            &&& forall|s: Seq<char>|
                pre.module_graph.contains_key(s) ==> post.module_graph.spec_get(s)
                    == pre.module_graph.spec_get(s)
            &&& forall|k: int| 0 <= k < roots.len() ==> post.module_graph.contains_key(roots[k])
            &&& forall|s: Seq<char>|
                post.module_graph.contains_key(s) ==> pre.module_graph.contains_key(s)
                    || spec_entry_found(table, s)
            &&& forall|s: Seq<char>|
                post.module_graph.contains_key(s) && !pre.module_graph.contains_key(s) ==> (
                #[trigger] post.module_graph.spec_get(s) matches Some(m)
                    && spec_module_from_table(table, m))
            &&& forall|i: int|
                0 <= i < table.entries@.len() && !(table.entries@[i].module
                    matches FetchedModule::Missing) ==> post.module_graph.contains_key(
                    table.entries@[i].specifier@,
                )
            &&& exists|segv: Seq<Seq<char>>|
                spec_validated_segment(post.module_graph.modules@, roots, segv)
            &&& out.checker_invoked == (options.type_check_mode != TypeCheckMode::Disabled
                && !pre.type_checked.spec_contains(roots, lib))
            &&& out.checker_invoked ==> (check matches CheckOutcome::Passed)
            &&& options.type_check_mode != TypeCheckMode::Disabled
                ==> post.type_checked.spec_contains(roots, lib)
            &&& options.has_lockfile ==> (lockfile matches LockfileOutcome::Verified)
            &&& out.checker_invoked ==> out.checker_reload == (options.reload_flag && !(forall|
                k: int,
            | 0 <= k < roots.len() ==> pre.module_graph.contains_key(roots[k])))
        },
        Err(e) => {
            &&& post.type_checked == pre.type_checked
            &&& match e {
                PrepareError::MissingRoot { specifier } => {
                    &&& post.module_graph == pre.module_graph
                    &&& exists|k: int| 0 <= k < roots.len() && roots[k] == specifier@
                    &&& !pre.module_graph.contains_key(specifier@)
                    &&& !spec_entry_found(table, specifier@)
                },
                PrepareError::Resolution { diagnostic } => {
                    &&& post.module_graph == pre.module_graph
                    &&& exists|m: Module|
                        ((exists|i: int|
                            0 <= i < pre.module_graph.modules@.len() && pre.module_graph.modules@[i]
                                == m) || spec_module_from_table(table, m)) && spec_module_erred(
                            m,
                            diagnostic@,
                        )
                },
                PrepareError::Integrity { message } => {
                    &&& post.module_graph == pre.module_graph
                    &&& options.has_lockfile
                    &&& lockfile matches LockfileOutcome::Mismatch { message: mm } && mm@
                        == message@
                },
                PrepareError::LockfileWrite { message } => {
                    &&& post.module_graph == pre.module_graph
                    &&& options.has_lockfile
                    &&& lockfile matches LockfileOutcome::WriteFailed { message: mm } && mm@
                        == message@
                },
                PrepareError::TypeCheck { message } => {
                    &&& check matches CheckOutcome::Diagnostics { message: mm } && mm@ == message@
                    &&& options.type_check_mode != TypeCheckMode::Disabled
                    &&& !pre.type_checked.spec_contains(roots, lib)
                    &&& forall|s: Seq<char>|
                        pre.module_graph.contains_key(s) ==> post.module_graph.spec_get(s)
                            == pre.module_graph.spec_get(s)
                    &&& forall|k: int|
                        0 <= k < roots.len() ==> post.module_graph.contains_key(roots[k])
                    &&& forall|i: int|
                        0 <= i < table.entries@.len() && !(table.entries@[i].module
                            matches FetchedModule::Missing) ==> post.module_graph.contains_key(
                            table.entries@[i].specifier@,
                        )
                    &&& exists|segv: Seq<Seq<char>>|
                        spec_validated_segment(post.module_graph.modules@, roots, segv)
                },
                PrepareError::UriParse { .. } => false,
            }
        },
    }
}

/// The full behaviour of one preparation, from the container state before
/// the call to the one after it.
pub open spec fn spec_prepare_relation(
    options: PrepareOptions,
    pre: ModuleGraphContainer,
    post: ModuleGraphContainer,
    roots: Seq<Seq<char>>,
    lib: TsTypeLib,
    table: FetchTable,
    lockfile: LockfileOutcome,
    check: CheckOutcome,
    r: Result<PrepareOutcome, PrepareError>,
) -> bool {
    &&& spec_prepare_frame(post)
    &&& spec_prepare_registry(pre, post, roots, lib)
    &&& spec_prepare_result(options, pre, post, roots, lib, table, lockfile, check, r)
    &&& spec_prepare_premise(options, pre, roots, lib, table, lockfile, check) ==> r is Ok
}

/// The conditions under which a preparation owes success: every root is in
/// the graph or found by the content source, no known module carries an
/// erred resolution, the lockfile (when configured) verifies and persists,
/// and the checker (when it must run) passes.
pub open spec fn spec_prepare_premise(
    options: PrepareOptions,
    pre: ModuleGraphContainer,
    roots: Seq<Seq<char>>,
    lib: TsTypeLib,
    table: FetchTable,
    lockfile: LockfileOutcome,
    check: CheckOutcome,
) -> bool {
    &&& forall|k: int|
        0 <= k < roots.len() ==> pre.module_graph.contains_key(roots[k]) || spec_entry_found(
            table,
            roots[k],
        )
    &&& forall|i: int|
        0 <= i < pre.module_graph.modules@.len() ==> !spec_module_any_erred(
            pre.module_graph.modules@[i],
        )
    &&& forall|i: int|
        0 <= i < table.entries@.len() ==> spec_entry_not_erred(table.entries@[i].module)
    &&& options.has_lockfile ==> (lockfile matches LockfileOutcome::Verified)
    &&& (options.type_check_mode != TypeCheckMode::Disabled && !pre.type_checked.spec_contains(
        roots,
        lib,
    )) ==> (check matches CheckOutcome::Passed)
}

/// Records every found fetch into the working graph, keeping everything
/// already there, then demands that every root is present.
fn build_graph(
    permit: &mut GraphUpdatePermit,
    container: &ModuleGraphContainer,
    roots: &Vec<String>,
    table: &FetchTable,
) -> (r: Result<(), PrepareError>)
    requires
        old(permit).opened_on(*container),
    ensures
        final(permit).base == old(permit).base,
        final(permit).opened_on(*container),
        forall|s: Seq<char>|
            seq_contains_key(old(permit).working(), s) ==> seq_get(final(permit).working(), s)
                == seq_get(old(permit).working(), s),
        forall|s: Seq<char>|
            seq_contains_key(final(permit).working(), s) ==> seq_contains_key(
                old(permit).working(),
                s,
            ) || spec_entry_found(*table, s),
        forall|s: Seq<char>|
            seq_contains_key(final(permit).working(), s) && !seq_contains_key(
                old(permit).working(),
                s,
            ) ==> (seq_get(final(permit).working(), s) matches Some(m) && spec_module_from_table(
                *table,
                m,
            )),
        forall|i: int|
            0 <= i < table.entries@.len() && !(table.entries@[i].module
                matches FetchedModule::Missing) ==> seq_contains_key(
                final(permit).working(),
                table.entries@[i].specifier@,
            ),
        match r {
            Ok(u) => forall|k: int|
                0 <= k < roots@.len() ==> seq_contains_key(final(permit).working(), roots@[k]@),
            Err(e) => e matches PrepareError::MissingRoot { specifier } && !seq_contains_key(
                final(permit).working(),
                specifier@,
            ) && exists|k: int| 0 <= k < roots@.len() && roots@[k]@ == specifier@,
        },
{
    let mut i: usize = 0;
    while i < table.entries.len()
        invariant
            i <= table.entries@.len(),
            permit.base == old(permit).base,
            permit.opened_on(*container),
            forall|s: Seq<char>|
                seq_contains_key(old(permit).working(), s) ==> seq_get(permit.working(), s)
                    == seq_get(old(permit).working(), s),
            forall|s: Seq<char>|
                seq_contains_key(permit.working(), s) ==> seq_contains_key(
                    old(permit).working(),
                    s,
                ) || spec_entry_found(*table, s),
            forall|s: Seq<char>|
                seq_contains_key(permit.working(), s) && !seq_contains_key(
                    old(permit).working(),
                    s,
                ) ==> (seq_get(permit.working(), s) matches Some(m) && spec_module_from_table(
                    *table,
                    m,
                )),
            forall|j: int|
                0 <= j < i && !(table.entries@[j].module matches FetchedModule::Missing)
                    ==> seq_contains_key(permit.working(), table.entries@[j].specifier@),
        decreases table.entries@.len() - i,
    {
        let entry = &table.entries[i];
        let already = permit.get_working(container, entry.specifier.as_str());
        let present = already.is_some();
        if !present {
            let m_opt: Option<Module> = match &entry.module {
                FetchedModule::Esm { media_type, source, dependencies } => Some(
                    Module::Esm {
                        specifier: entry.specifier.clone(),
                        source: source.clone(),
                        media_type: *media_type,
                        dependencies: clone_dependencies(dependencies),
                    },
                ),
                FetchedModule::Json { source } => Some(
                    Module::Json {
                        specifier: entry.specifier.clone(),
                        source: source.clone(),
                        media_type: MediaType::Json,
                    },
                ),
                FetchedModule::Npm { nv_reference } => Some(
                    Module::Npm {
                        specifier: entry.specifier.clone(),
                        nv_reference: nv_reference.clone(),
                    },
                ),
                FetchedModule::Node { module_name } => Some(
                    Module::Node {
                        specifier: entry.specifier.clone(),
                        module_name: module_name.clone(),
                    },
                ),
                FetchedModule::External => Some(
                    Module::External { specifier: entry.specifier.clone() },
                ),
                FetchedModule::Missing => None,
            };
            if let Some(m) = m_opt {
                proof {
                    assert(m.key() == entry.specifier@);
                    assert(spec_module_matches_entry(m, m.key(), table.entries@[i as int].module));
                }
                permit.insert(m);
            }
        }
        i += 1;
    }
    let mut k: usize = 0;
    while k < roots.len()
        invariant
            k <= roots@.len(),
            permit.base == old(permit).base,
            permit.opened_on(*container),
            forall|s: Seq<char>|
                seq_contains_key(old(permit).working(), s) ==> seq_get(permit.working(), s)
                    == seq_get(old(permit).working(), s),
            forall|s: Seq<char>|
                seq_contains_key(permit.working(), s) ==> seq_contains_key(
                    old(permit).working(),
                    s,
                ) || spec_entry_found(*table, s),
            forall|s: Seq<char>|
                seq_contains_key(permit.working(), s) && !seq_contains_key(
                    old(permit).working(),
                    s,
                ) ==> (seq_get(permit.working(), s) matches Some(m) && spec_module_from_table(
                    *table,
                    m,
                )),
            forall|j: int|
                0 <= j < table.entries@.len() && !(table.entries@[j].module
                    matches FetchedModule::Missing) ==> seq_contains_key(
                    permit.working(),
                    table.entries@[j].specifier@,
                ),
            forall|j: int| 0 <= j < k ==> seq_contains_key(permit.working(), roots@[j]@),
        decreases roots@.len() - k,
    {
        if permit.get_working(container, roots[k].as_str()).is_none() {
            return Err(PrepareError::MissingRoot { specifier: roots[k].clone() });
        }
        k += 1;
    }
    Ok(())
}

/// Whether the specifier list holds `s`.
fn vec_contains_str(v: &Vec<String>, s: &str) -> (r: bool)
    ensures
        r == exists|i: int| 0 <= i < v@.len() && v@[i]@ == s@,
{
    let mut i: usize = 0;
    while i < v.len()
        invariant
            i <= v@.len(),
            forall|j: int| 0 <= j < i ==> v@[j]@ != s@,
        decreases v@.len() - i,
    {
        if str_eq(v[i].as_str(), s) {
            return true;
        }
        i += 1;
    }
    false
}

/// Restricts the working graph to the transitive closure of the roots: the
/// graph segment the type checker is scoped to and the validation walks.
/// The returned specifiers key working modules, cover every root present in
/// the working graph, and are closed under present resolution targets.
fn compute_segment(
    permit: &GraphUpdatePermit,
    container: &ModuleGraphContainer,
    roots: &Vec<String>,
) -> (r: Vec<String>)
    requires
        permit.opened_on(*container),
    ensures
        forall|k: int| 0 <= k < r@.len() ==> seq_contains_key(permit.working(), r@[k]@),
        forall|k: int|
            0 <= k < roots@.len() && seq_contains_key(permit.working(), roots@[k]@) ==> views_of(
                r@,
            ).contains(roots@[k]@),
        forall|j: int|
            0 <= j < r@.len() ==> spec_member_closed(permit.working(), r@[j]@, views_of(r@)),
{
    let mut seen: Vec<String> = Vec::new();
    let mut k: usize = 0;
    while k < roots.len()
        invariant
            k <= roots@.len(),
            permit.opened_on(*container),
            views_of(seen@).no_duplicates(),
            forall|j: int| 0 <= j < seen@.len() ==> seq_contains_key(permit.working(), seen@[j]@),
            forall|j: int|
                0 <= j < k && seq_contains_key(permit.working(), roots@[j]@) ==> views_of(
                    seen@,
                ).contains(roots@[j]@),
        decreases roots@.len() - k,
    {
        let root = roots[k].clone();
        let present = permit.get_working(container, root.as_str()).is_some();
        let already = vec_contains_str(&seen, root.as_str());
        if present && !already {
            let ghost prev = seen@;
            proof {
                lemma_views_contains(prev, root@);
            }
            seen.push(root);
            proof {
                assert(forall|j: int| 0 <= j < prev.len() ==> seen@[j] == prev[j]);
                assert(seen@[prev.len() as int]@ == roots@[k as int]@);
                assert(views_of(seen@) =~= views_of(prev).push(roots@[k as int]@));
                lemma_push_keeps(prev, seen@, roots@[k as int]@);
            }
        } else {
            proof {
                if seq_contains_key(permit.working(), roots@[k as int]@) {
                    assert(present && already);
                    lemma_views_contains(seen@, roots@[k as int]@);
                }
            }
        }
        k += 1;
    }
    proof {
        lemma_key_list_bound(permit.working(), views_of(seen@));
    }
    loop
        invariant
            permit.opened_on(*container),
            views_of(seen@).no_duplicates(),
            seen@.len() <= permit.working().len(),
            forall|j: int| 0 <= j < seen@.len() ==> seq_contains_key(permit.working(), seen@[j]@),
            forall|j: int|
                0 <= j < roots@.len() && seq_contains_key(permit.working(), roots@[j]@)
                    ==> views_of(seen@).contains(roots@[j]@),
        ensures
            forall|j: int| 0 <= j < seen@.len() ==> seq_contains_key(permit.working(), seen@[j]@),
            forall|j: int|
                0 <= j < roots@.len() && seq_contains_key(permit.working(), roots@[j]@)
                    ==> views_of(seen@).contains(roots@[j]@),
            forall|j: int|
                0 <= j < seen@.len() ==> spec_member_closed(
                    permit.working(),
                    seen@[j]@,
                    views_of(seen@),
                ),
        decreases permit.working().len() + 1 - seen@.len(),
    {
        let n = seen.len();
        let mut changed = false;
        let mut j: usize = 0;
        while j < n
            invariant
                j <= n,
                n <= seen@.len(),
                permit.opened_on(*container),
                views_of(seen@).no_duplicates(),
                seen@.len() <= permit.working().len(),
                forall|w: int|
                    0 <= w < seen@.len() ==> seq_contains_key(permit.working(), seen@[w]@),
                forall|w: int|
                    0 <= w < roots@.len() && seq_contains_key(permit.working(), roots@[w]@)
                        ==> views_of(seen@).contains(roots@[w]@),
                changed ==> n < seen@.len(),
                !changed ==> seen@.len() == n,
                !changed ==> forall|j2: int|
                    0 <= j2 < j ==> spec_member_closed(
                        permit.working(),
                        seen@[j2]@,
                        views_of(seen@),
                    ),
            decreases n - j,
        {
            let current = seen[j].clone();
            if let Some(m) = permit.get_working(container, current.as_str()) {
                if let Module::Esm { dependencies, .. } = m {
                    let mut d: usize = 0;
                    while d < dependencies.len()
                        invariant
                            d <= dependencies@.len(),
                            j < n,
                            n <= seen@.len(),
                            permit.opened_on(*container),
                            views_of(seen@).no_duplicates(),
                            seen@.len() <= permit.working().len(),
                            current@ == seen@[j as int]@,
                            seq_get(permit.working(), current@) == Some(*m),
                            (match *m {
                                Module::Esm { dependencies: dd, .. } => dd@ == dependencies@,
                                _ => false,
                            }),
                            forall|w: int|
                                0 <= w < seen@.len() ==> seq_contains_key(
                                    permit.working(),
                                    seen@[w]@,
                                ),
                            forall|w: int|
                                0 <= w < roots@.len() && seq_contains_key(
                                    permit.working(),
                                    roots@[w]@,
                                ) ==> views_of(seen@).contains(roots@[w]@),
                            changed ==> n < seen@.len(),
                            !changed ==> seen@.len() == n,
                            !changed ==> forall|j2: int|
                                0 <= j2 < j ==> spec_member_closed(
                                    permit.working(),
                                    seen@[j2]@,
                                    views_of(seen@),
                                ),
                            !changed ==> forall|x: int|
                                0 <= x < d ==> (match #[trigger] dependencies@[x].resolution {
                                    Resolution::Resolved { specifier } => seq_contains_key(
                                        permit.working(),
                                        specifier@,
                                    ) ==> views_of(seen@).contains(specifier@),
                                    _ => true,
                                }),
                        decreases dependencies@.len() - d,
                    {
                        if let Resolution::Resolved { specifier: target } = &dependencies[
                            d
                        ].resolution {
                            let target_owned = target.clone();
                            let present = permit.get_working(
                                container,
                                target_owned.as_str(),
                            ).is_some();
                            let already = vec_contains_str(&seen, target_owned.as_str());
                            if present && !already {
                                let ghost prev = seen@;
                                proof {
                                    lemma_views_contains(prev, target_owned@);
                                }
                                seen.push(target_owned);
                                changed = true;
                                proof {
                                    assert(forall|w: int|
                                        0 <= w < prev.len() ==> seen@[w] == prev[w]);
                                    let ghost t = seen@[prev.len() as int]@;
                                    assert(views_of(seen@) =~= views_of(prev).push(t));
                                    assert(seq_contains_key(permit.working(), t));
                                    lemma_push_keeps(prev, seen@, t);
                                    assert forall|w: int|
                                        0 <= w < roots@.len() && seq_contains_key(
                                            permit.working(),
                                            roots@[w]@,
                                        ) implies views_of(seen@).contains(roots@[w]@) by {
                                        assert(views_of(prev).contains(roots@[w]@));
                                        let i = choose|i: int|
                                            0 <= i < views_of(prev).len() && views_of(prev)[i]
                                                == roots@[w]@;
                                        assert(views_of(seen@)[i] == roots@[w]@);
                                    };
                                    lemma_key_list_bound(permit.working(), views_of(seen@));
                                }
                            } else {
                                proof {
                                    if seq_contains_key(permit.working(), target_owned@) {
                                        assert(present && already);
                                        lemma_views_contains(seen@, target_owned@);
                                    }
                                }
                            }
                        }
                        d += 1;
                    }
                }
            }
            j += 1;
            proof {
                if !changed {
                    assert forall|j2: int| 0 <= j2 < j implies spec_member_closed(
                        permit.working(),
                        seen@[j2]@,
                        views_of(seen@),
                    ) by {
                        if j2 == j - 1 {
                            match seq_get(permit.working(), seen@[j2]@) {
                                Some(mm) => {
                                    assert(spec_deps_in(permit.working(), mm, views_of(seen@)));
                                },
                                None => {},
                            }
                        }
                    };
                }
            }
        }
        if !changed {
            break;
        }
    }
    seen
}

/// Walks the segment for imports whose resolution erred; the first erred
/// diagnostic aborts the whole preparation.
fn validate_segment(
    permit: &GraphUpdatePermit,
    container: &ModuleGraphContainer,
    seg: &Vec<String>,
) -> (r: Option<String>)
    requires
        permit.opened_on(*container),
        forall|k: int| 0 <= k < seg@.len() ==> seq_contains_key(permit.working(), seg@[k]@),
    ensures
        match r {
            Some(d) => exists|k: int|
                0 <= k < seg@.len() && (#[trigger] seq_get(permit.working(), seg@[k]@)
                    matches Some(m) && spec_module_erred(m, d@)),
            None => forall|k: int|
                0 <= k < seg@.len() ==> (#[trigger] seq_get(permit.working(), seg@[k]@)
                    matches Some(m) && !spec_module_any_erred(m)),
        },
{
    let mut k: usize = 0;
    while k < seg.len()
        invariant
            k <= seg@.len(),
            permit.opened_on(*container),
            forall|j: int| 0 <= j < seg@.len() ==> seq_contains_key(permit.working(), seg@[j]@),
            forall|j: int|
                0 <= j < k ==> (#[trigger] seq_get(permit.working(), seg@[j]@) matches Some(m)
                    && !spec_module_any_erred(m)),
        decreases seg@.len() - k,
    {
        let current = seg[k].clone();
        if let Some(m) = permit.get_working(container, current.as_str()) {
            if let Module::Esm { dependencies, .. } = m {
                let mut d: usize = 0;
                while d < dependencies.len()
                    invariant
                        d <= dependencies@.len(),
                        k < seg@.len(),
                        seq_get(permit.working(), seg@[k as int]@) == Some(*m),
                        (match *m {
                            Module::Esm { dependencies: dd, .. } => dd@ == dependencies@,
                            _ => false,
                        }),
                        forall|x: int|
                            0 <= x < d ==> !(#[trigger] dependencies@[x].resolution
                                matches Resolution::Erred { .. }),
                    decreases dependencies@.len() - d,
                {
                    if let Resolution::Erred { diagnostic } = &dependencies[d].resolution {
                        proof {
                            assert(#[trigger] dependencies@[d as int].resolution
                                matches Resolution::Erred { .. });
                            assert(spec_module_erred(*m, diagnostic@));
                        }
                        return Some(diagnostic.clone());
                    }
                    d += 1;
                }
            }
        }
        k += 1;
    }
    None
}

/// Packages the relation for a preparation that aborted on an erred
/// resolution, publishing nothing.
proof fn lemma_relation_resolution_exit(
    options: PrepareOptions,
    pre: ModuleGraphContainer,
    post: ModuleGraphContainer,
    roots: Seq<Seq<char>>,
    lib: TsTypeLib,
    table: FetchTable,
    lockfile: LockfileOutcome,
    check: CheckOutcome,
    d: Seq<char>,
    r: Result<PrepareOutcome, PrepareError>,
)
    requires
        spec_prepare_frame(post),
        post.module_graph == pre.module_graph,
        post.type_checked == pre.type_checked,
        r matches Err(PrepareError::Resolution { diagnostic }) && diagnostic@ == d,
        exists|m: Module|
            ((exists|i: int|
                0 <= i < pre.module_graph.modules@.len() && pre.module_graph.modules@[i] == m)
                || spec_module_from_table(table, m)) && spec_module_erred(m, d),
        !spec_prepare_premise(options, pre, roots, lib, table, lockfile, check),
    ensures
        spec_prepare_relation(options, pre, post, roots, lib, table, lockfile, check, r),
{
}

/// Packages the relation for a preparation that aborted on a missing root,
/// publishing nothing.
proof fn lemma_relation_missing_root_exit(
    options: PrepareOptions,
    pre: ModuleGraphContainer,
    post: ModuleGraphContainer,
    roots: Seq<Seq<char>>,
    lib: TsTypeLib,
    table: FetchTable,
    lockfile: LockfileOutcome,
    check: CheckOutcome,
    sp: Seq<char>,
    r: Result<PrepareOutcome, PrepareError>,
)
    requires
        spec_prepare_frame(post),
        post.module_graph == pre.module_graph,
        post.type_checked == pre.type_checked,
        r matches Err(PrepareError::MissingRoot { specifier }) && specifier@ == sp,
        exists|k: int| 0 <= k < roots.len() && roots[k] == sp,
        !pre.module_graph.contains_key(sp),
        !spec_entry_found(table, sp),
        !spec_prepare_premise(options, pre, roots, lib, table, lockfile, check),
    ensures
        spec_prepare_relation(options, pre, post, roots, lib, table, lockfile, check, r),
{
}

/// Packages the relation for a successful preparation.
proof fn lemma_relation_ok_exit(
    options: PrepareOptions,
    pre: ModuleGraphContainer,
    post: ModuleGraphContainer,
    roots: Seq<Seq<char>>,
    lib: TsTypeLib,
    table: FetchTable,
    lockfile: LockfileOutcome,
    check: CheckOutcome,
    out: PrepareOutcome,
)
    requires
        spec_prepare_frame(post),
        spec_prepare_registry(pre, post, roots, lib),
        forall|s: Seq<char>|
            pre.module_graph.contains_key(s) ==> post.module_graph.spec_get(s)
                == pre.module_graph.spec_get(s),
        forall|k: int| 0 <= k < roots.len() ==> post.module_graph.contains_key(roots[k]),
        forall|s: Seq<char>|
            post.module_graph.contains_key(s) ==> pre.module_graph.contains_key(s)
                || spec_entry_found(table, s),
        forall|s: Seq<char>|
            post.module_graph.contains_key(s) && !pre.module_graph.contains_key(s) ==> (
            #[trigger] post.module_graph.spec_get(s) matches Some(m) && spec_module_from_table(
                table,
                m,
            )),
        forall|i: int|
            0 <= i < table.entries@.len() && !(table.entries@[i].module
                matches FetchedModule::Missing) ==> post.module_graph.contains_key(
                table.entries@[i].specifier@,
            ),
        exists|segv: Seq<Seq<char>>|
            spec_validated_segment(post.module_graph.modules@, roots, segv),
        out.checker_invoked == (options.type_check_mode != TypeCheckMode::Disabled
            && !pre.type_checked.spec_contains(roots, lib)),
        out.checker_invoked ==> (check matches CheckOutcome::Passed),
        options.type_check_mode != TypeCheckMode::Disabled ==> post.type_checked.spec_contains(
            roots,
            lib,
        ),
        options.has_lockfile ==> (lockfile matches LockfileOutcome::Verified),
        out.checker_invoked ==> out.checker_reload == (options.reload_flag && !(forall|k: int|
            0 <= k < roots.len() ==> pre.module_graph.contains_key(roots[k]))),
    ensures
        spec_prepare_relation(
            options,
            pre,
            post,
            roots,
            lib,
            table,
            lockfile,
            check,
            Ok(out),
        ),
{
}

/// Packages the relation for a preparation that the type checker rejected:
/// the built graph stays committed, nothing is registered.
proof fn lemma_relation_type_check_exit(
    options: PrepareOptions,
    pre: ModuleGraphContainer,
    post: ModuleGraphContainer,
    roots: Seq<Seq<char>>,
    lib: TsTypeLib,
    table: FetchTable,
    lockfile: LockfileOutcome,
    check: CheckOutcome,
    msg: Seq<char>,
    r: Result<PrepareOutcome, PrepareError>,
)
    requires
        spec_prepare_frame(post),
        post.type_checked == pre.type_checked,
        r matches Err(PrepareError::TypeCheck { message }) && message@ == msg,
        check matches CheckOutcome::Diagnostics { message } && message@ == msg,
        options.type_check_mode != TypeCheckMode::Disabled,
        !pre.type_checked.spec_contains(roots, lib),
        forall|s: Seq<char>|
            pre.module_graph.contains_key(s) ==> post.module_graph.spec_get(s)
                == pre.module_graph.spec_get(s),
        forall|k: int| 0 <= k < roots.len() ==> post.module_graph.contains_key(roots[k]),
        forall|i: int|
            0 <= i < table.entries@.len() && !(table.entries@[i].module
                matches FetchedModule::Missing) ==> post.module_graph.contains_key(
                table.entries@[i].specifier@,
            ),
        exists|segv: Seq<Seq<char>>|
            spec_validated_segment(post.module_graph.modules@, roots, segv),
    ensures
        spec_prepare_relation(options, pre, post, roots, lib, table, lockfile, check, r),
{
}

/// Keys of the base working copy stay present through a build.
proof fn lemma_preserved_contains(base: Seq<Module>, post: Seq<Module>)
    requires
        forall|s: Seq<char>|
            seq_contains_key(base, s) ==> seq_get(post, s) == seq_get(base, s),
    ensures
        forall|s: Seq<char>| seq_contains_key(base, s) ==> seq_contains_key(post, s),
{
    assert forall|s: Seq<char>| seq_contains_key(base, s) implies seq_contains_key(post, s) by {
        assert(seq_get(post, s) == seq_get(base, s));
        assert(seq_get(base, s) matches Some(_));
    };
}

/// The module a key retrieves is a member of the list.
proof fn lemma_get_is_member(ms: Seq<Module>, s: Seq<char>, m: Module)
    requires
        seq_get(ms, s) == Some(m),
    ensures
        exists|i: int| 0 <= i < ms.len() && ms[i] == m,
{
    assert(seq_contains_key(ms, s));
    let i = choose|i: int| 0 <= i < ms.len() && ms[i].key() == s;
    assert(ms[i] == m);
}

/// An erred diagnostic witnesses an erred dependency.
proof fn lemma_erred_any(m: Module, d: Seq<char>)
    requires
        spec_module_erred(m, d),
    ensures
        spec_module_any_erred(m),
{
    match m {
        Module::Esm { dependencies, .. } => {
            let i = choose|i: int|
                0 <= i < dependencies@.len() && (match #[trigger] dependencies@[i].resolution {
                    Resolution::Erred { diagnostic } => diagnostic@ == d,
                    _ => false,
                });
            assert(#[trigger] dependencies@[i].resolution matches Resolution::Erred { .. });
        },
        _ => {},
    }
}

/// A member of an erred-free module list is erred-free.
proof fn lemma_member_not_erred(ms: Seq<Module>, m: Module)
    requires
        exists|i: int| 0 <= i < ms.len() && ms[i] == m,
        forall|i: int| 0 <= i < ms.len() ==> !spec_module_any_erred(ms[i]),
    ensures
        !spec_module_any_erred(m),
{
    let i = choose|i: int| 0 <= i < ms.len() && ms[i] == m;
    assert(!spec_module_any_erred(ms[i]));
}

/// A module recorded from an erred-free fetch transcript is erred-free.
proof fn lemma_table_module_not_erred(table: FetchTable, m: Module)
    requires
        spec_module_from_table(table, m),
        forall|i: int|
            0 <= i < table.entries@.len() ==> spec_entry_not_erred(table.entries@[i].module),
    ensures
        !spec_module_any_erred(m),
{
    let i = choose|i: int|
        0 <= i < table.entries@.len() && table.entries@[i].specifier@ == m.key()
            && spec_module_matches_entry(m, m.key(), table.entries@[i].module);
    assert(spec_entry_not_erred(table.entries@[i].module));
    if spec_module_any_erred(m) {
        match m {
            Module::Esm { dependencies, .. } => {
                match table.entries@[i].module {
                    FetchedModule::Esm { dependencies: tdeps, .. } => {
                        let x = choose|x: int|
                            0 <= x < dependencies@.len() && (
                            #[trigger] dependencies@[x].resolution matches Resolution::Erred {
                                ..
                            });
                        assert(dependencies@ == tdeps@);
                        assert(#[trigger] tdeps@[x].resolution matches Resolution::Erred { .. });
                        assert(!(tdeps@[x].resolution matches Resolution::Erred { .. }));
                    },
                    _ => {
                        assert(!spec_module_matches_entry(
                            m,
                            m.key(),
                            table.entries@[i].module,
                        ));
                    },
                }
            },
            _ => {},
        }
    }
}

/// Prepares module loads: builds the graph, validates it, verifies the
/// lockfile, commits, and gates type checking.
#[derive(Debug)]
pub struct ModuleLoadPreparer {
    pub options: PrepareOptions,
}

impl ModuleLoadPreparer {
    /// A preparer over the given configuration.
    pub fn new(options: PrepareOptions) -> (r: ModuleLoadPreparer)
        ensures
            r.options == options,
    {
        ModuleLoadPreparer { options }
    }

    /// Must be called for a module (or a static importer of it) before the
    /// engine may load it. Builds the graph transitively from `roots` out
    /// of the fetch transcript under an exclusive permit, validates every
    /// reachable resolution, verifies and persists the lockfile, publishes
    /// the graph in one step, and invokes the type checker once per
    /// `(roots, lib)` pair. No partial graph is ever visible: a failing
    /// preparation before commit leaves the published graph untouched.
    #[verifier::rlimit(100)]
    pub fn prepare_module_load(
        &self,
        container: &mut ModuleGraphContainer,
        roots: &Vec<String>,
        is_dynamic: bool,
        lib: TsTypeLib,
        root_permissions: PermissionsContainer,
        dynamic_permissions: PermissionsContainer,
        fetches: &FetchTable,
        lockfile: &LockfileOutcome,
        check: &CheckOutcome,
    ) -> (r: Result<PrepareOutcome, PrepareError>)
        requires
            !old(container).update_in_progress,
            old(container).wf(),
        ensures
            !final(container).update_in_progress,
            final(container).wf(),
            spec_prepare_relation(
                self.options,
                *old(container),
                *final(container),
                views_of(roots@),
                lib,
                *fetches,
                *lockfile,
                *check,
                r,
            ),
    {
        let mut all_roots_present = true;
        let mut k: usize = 0;
        while k < roots.len()
            invariant
                k <= roots@.len(),
                container == old(container),
                container.wf(),
                !container.update_in_progress,
                forall|j: int| 0 <= j < roots@.len() ==> views_of(roots@)[j] == roots@[j]@,
                all_roots_present ==> (forall|j: int|
                    0 <= j < k ==> container.module_graph.contains_key(views_of(roots@)[j])),
                !all_roots_present ==> (exists|j: int|
                    0 <= j < k && !container.module_graph.contains_key(views_of(roots@)[j])),
            decreases roots@.len() - k,
        {
            match container.graph().get(roots[k].as_str()) {
                None => {
                    proof {
                        assert(!container.module_graph.contains_key(views_of(roots@)[k as int]));
                    }
                    all_roots_present = false;
                },
                Some(_m) => {
                    proof {
                        assert(container.module_graph.contains_key(views_of(roots@)[k as int]));
                    }
                },
            }
            k += 1;
        }
        proof {
            lemma_roots_views(roots@);
            if !all_roots_present {
                let j = choose|j: int|
                    0 <= j < roots@.len() && !container.module_graph.contains_key(
                        views_of(roots@)[j],
                    );
                assert(!(forall|q: int|
                    0 <= q < views_of(roots@).len() ==> container.module_graph.contains_key(
                        views_of(roots@)[q],
                    ))) by {
                    if (forall|q: int|
                        0 <= q < views_of(roots@).len() ==> container.module_graph.contains_key(
                            views_of(roots@)[q],
                        )) {
                        assert(container.module_graph.contains_key(views_of(roots@)[j]));
                    }
                };
            }
            assert(all_roots_present == (forall|q: int|
                0 <= q < views_of(roots@).len() ==> container.module_graph.contains_key(
                    views_of(roots@)[q],
                )));
        }
        let mut permit = container.acquire_update_permit();
        let ghost base = permit.working();
        match build_graph(&mut permit, container, roots, fetches) {
            Err(e) => {
                let ghost built = permit.working();
                proof {
                    lemma_roots_views(roots@);
                    lemma_preserved_contains(base, built);
                }
                permit.abandon(container);
                proof {
                    assert(base == old(container).module_graph.modules@);
                    match &e {
                        PrepareError::MissingRoot { specifier } => {
                            assert(!seq_contains_key(base, specifier@));
                            let kk = choose|kk: int|
                                0 <= kk < roots@.len() && roots@[kk]@ == specifier@;
                            assert(views_of(roots@)[kk] == specifier@);
                            assert(exists|k2: int|
                                0 <= k2 < views_of(roots@).len() && views_of(roots@)[k2]
                                    == specifier@);
                            assert(!spec_entry_found(*fetches, specifier@)) by {
                                if spec_entry_found(*fetches, specifier@) {
                                    let i = choose|i: int|
                                        0 <= i < fetches.entries@.len()
                                            && fetches.entries@[i].specifier@ == specifier@ && !(
                                        fetches.entries@[i].module matches FetchedModule::Missing);
                                    assert(seq_contains_key(built, specifier@));
                                }
                            };
                            if spec_prepare_premise(
                                self.options,
                                *old(container),
                                views_of(roots@),
                                lib,
                                *fetches,
                                *lockfile,
                                *check,
                            ) {
                                let k = choose|k: int|
                                    0 <= k < roots@.len() && roots@[k]@ == specifier@;
                                assert(views_of(roots@)[k] == specifier@);
                                assert(old(container).module_graph.contains_key(
                                    views_of(roots@)[k],
                                ) || spec_entry_found(*fetches, views_of(roots@)[k]));
                                assert(false);
                            }
                            lemma_relation_missing_root_exit(
                                self.options,
                                *old(container),
                                *container,
                                views_of(roots@),
                                lib,
                                *fetches,
                                *lockfile,
                                *check,
                                specifier@,
                                Err(e),
                            );
                        },
                        _ => {
                            assert(false);
                        },
                    }
                }
                return Err(e);
            },
            Ok(_u) => {},
        }
        let seg = compute_segment(&permit, container, roots);
        let validation = validate_segment(&permit, container, &seg);
        if let Some(diagnostic) = validation {
            let ghost built = permit.working();
            proof {
                lemma_roots_views(roots@);
                lemma_preserved_contains(base, built);
            }
            permit.abandon(container);
            proof {
                assert(base == old(container).module_graph.modules@);
                let k = choose|k: int|
                    0 <= k < seg@.len() && (#[trigger] seq_get(built, seg@[k]@) matches Some(m)
                        && spec_module_erred(m, diagnostic@));
                match seq_get(built, seg@[k]@) {
                    Some(m) => {
                        lemma_erred_any(m, diagnostic@);
                        if seq_contains_key(base, seg@[k]@) {
                            assert(seq_get(built, seg@[k]@) == seq_get(base, seg@[k]@));
                            lemma_get_is_member(base, seg@[k]@, m);
                        } else {
                            assert(spec_module_from_table(*fetches, m));
                        }
                        assert(((exists|i: int|
                            0 <= i < old(container).module_graph.modules@.len() && old(
                                container,
                            ).module_graph.modules@[i] == m) || spec_module_from_table(
                            *fetches,
                            m,
                        )) && spec_module_erred(m, diagnostic@));
                        if spec_prepare_premise(
                            self.options,
                            *old(container),
                            views_of(roots@),
                            lib,
                            *fetches,
                            *lockfile,
                            *check,
                        ) {
                            if seq_contains_key(base, seg@[k]@) {
                                lemma_member_not_erred(base, m);
                            } else {
                                lemma_table_module_not_erred(*fetches, m);
                            }
                            assert(false);
                        }
                    },
                    None => {
                        assert(false);
                    },
                }
            }
            let ghost dview = diagnostic@;
            let err = PrepareError::Resolution { diagnostic };
            proof {
                lemma_relation_resolution_exit(
                    self.options,
                    *old(container),
                    *container,
                    views_of(roots@),
                    lib,
                    *fetches,
                    *lockfile,
                    *check,
                    dview,
                    Err(err),
                );
            }
            return Err(err);
        }
        if self.options.has_lockfile {
            match lockfile {
                LockfileOutcome::Mismatch { message } => {
                    permit.abandon(container);
                    return Err(PrepareError::Integrity { message: message.clone() });
                },
                LockfileOutcome::WriteFailed { message } => {
                    permit.abandon(container);
                    return Err(PrepareError::LockfileWrite { message: message.clone() });
                },
                LockfileOutcome::Verified => {},
            }
        }
        let ghost built = permit.working();
        permit.commit(container);
        proof {
            lemma_roots_views(roots@);
            lemma_preserved_contains(base, built);
            assert(container.module_graph.modules@ == built);
            assert forall|s: Seq<char>|
                old(container).module_graph.contains_key(s) implies container.module_graph
                .spec_get(s) == old(container).module_graph.spec_get(s) by {
                assert(seq_get(built, s) == seq_get(base, s));
            };
            assert(spec_validated_segment(
                container.module_graph.modules@,
                views_of(roots@),
                views_of(seg@),
            )) by {
                assert forall|k2: int|
                    0 <= k2 < views_of(roots@).len() && seq_contains_key(
                        built,
                        views_of(roots@)[k2],
                    ) implies views_of(seg@).contains(views_of(roots@)[k2]) by {
                    assert(views_of(roots@)[k2] == roots@[k2]@);
                };
                assert forall|j: int| 0 <= j < views_of(seg@).len() implies (#[trigger] seq_get(
                    built,
                    views_of(seg@)[j],
                ) matches Some(m) && !spec_module_any_erred(m) && spec_deps_in(
                    built,
                    m,
                    views_of(seg@),
                )) by {
                    assert(views_of(seg@)[j] == seg@[j]@);
                    assert(spec_member_closed(built, seg@[j]@, views_of(seg@)));
                    assert(seq_get(built, seg@[j]@) matches Some(m) && !spec_module_any_erred(m));
                };
            };
        }
        let mut checker_invoked = false;
        let mut checker_reload = false;
        if !matches!(self.options.type_check_mode, TypeCheckMode::Disabled)
            && !container.is_type_checked(roots, lib) {
            checker_invoked = true;
            checker_reload = self.options.reload_flag && !all_roots_present;
            match check {
                CheckOutcome::Diagnostics { message } => {
                    return Err(PrepareError::TypeCheck { message: message.clone() });
                },
                CheckOutcome::Passed => {
                    container.set_type_checked(clone_strings(roots), lib);
                },
            }
        }
        let out = PrepareOutcome { checker_invoked, checker_reload };
        proof {
            lemma_relation_ok_exit(
                self.options,
                *old(container),
                *container,
                views_of(roots@),
                lib,
                *fetches,
                *lockfile,
                *check,
                out,
            );
        }
        Ok(out)
    }
}

/// The URL views of a list of parsed root files.
pub open spec fn spec_parsed_views(files: Seq<UrlParseOutcome>) -> Seq<Seq<char>> {
    files.map_values(
        |f: UrlParseOutcome|
            match f {
                UrlParseOutcome::Parsed { url } => url@,
                UrlParseOutcome::Failed { .. } => Seq::<char>::empty(),
            },
    )
}

impl ModuleLoadPreparer {
    /// Helper around `prepare_module_load` that prepares and type checks
    /// the provided files, resolved against the working directory by the
    /// caller, under the window library and all-granting permissions. The
    /// first file that failed to resolve aborts with its message.
    pub fn load_and_type_check_files(
        &self,
        container: &mut ModuleGraphContainer,
        files: &Vec<UrlParseOutcome>,
        fetches: &FetchTable,
        lockfile: &LockfileOutcome,
        check: &CheckOutcome,
    ) -> (r: Result<PrepareOutcome, PrepareError>)
        requires
            !old(container).update_in_progress,
            old(container).wf(),
        ensures
            !final(container).update_in_progress,
            final(container).wf(),
            (exists|i: int|
                0 <= i < files@.len() && (#[trigger] files@[i])
                    matches UrlParseOutcome::Failed { .. }) ==> (
            r matches Err(PrepareError::UriParse { .. }) && *final(container) == *old(
                container,
            )),
            (forall|i: int|
                0 <= i < files@.len() ==> (#[trigger] files@[i])
                    matches UrlParseOutcome::Parsed { .. })
                ==> spec_prepare_relation(
                self.options,
                *old(container),
                *final(container),
                spec_parsed_views(files@),
                self.options.lib_window,
                *fetches,
                *lockfile,
                *check,
                r,
            ),
    {
        let mut specifiers: Vec<String> = Vec::new();
        let mut i: usize = 0;
        while i < files.len()
            invariant
                i <= files@.len(),
                container == old(container),
                !container.update_in_progress,
                container.wf(),
                forall|j: int|
                    0 <= j < i ==> (#[trigger] files@[j]) matches UrlParseOutcome::Parsed { .. },
                views_of(specifiers@) =~= spec_parsed_views(files@).subrange(0, i as int),
            decreases files@.len() - i,
        {
            match &files[i] {
                UrlParseOutcome::Parsed { url } => {
                    let ghost prevv = views_of(specifiers@);
                    specifiers.push(url.clone());
                    proof {
                        assert(spec_parsed_views(files@)[i as int] == url@);
                        assert(views_of(specifiers@) =~= prevv.push(url@));
                        assert(views_of(specifiers@) =~= spec_parsed_views(files@).subrange(
                            0,
                            i + 1,
                        ));
                    }
                },
                UrlParseOutcome::Failed { message } => {
                    return Err(PrepareError::UriParse { message: message.clone() });
                },
            }
            i += 1;
        }
        proof {
            assert(views_of(specifiers@) =~= spec_parsed_views(files@));
        }
        let r = self.prepare_module_load(
            container,
            &specifiers,
            false,
            self.options.lib_window,
            PermissionsContainer::allow_all(),
            PermissionsContainer::allow_all(),
            fetches,
            lockfile,
            check,
        );
        r
    }
}

/// Idempotent check-gating: after a successful preparation of `(roots,
/// lib)`, a second preparation of the same pair never invokes the type
/// checker again, whatever fetches, lockfile answers or checker verdicts
/// either call saw.
pub proof fn lemma_idempotent_check_gating(
    options: PrepareOptions,
    c0: ModuleGraphContainer,
    c1: ModuleGraphContainer,
    c2: ModuleGraphContainer,
    roots: Seq<Seq<char>>,
    lib: TsTypeLib,
    table1: FetchTable,
    table2: FetchTable,
    lockfile1: LockfileOutcome,
    lockfile2: LockfileOutcome,
    check1: CheckOutcome,
    check2: CheckOutcome,
    out1: PrepareOutcome,
    out2: PrepareOutcome,
)
    requires
        spec_prepare_relation(options, c0, c1, roots, lib, table1, lockfile1, check1, Ok(out1)),
        spec_prepare_relation(options, c1, c2, roots, lib, table2, lockfile2, check2, Ok(out2)),
    ensures
        options.type_check_mode != TypeCheckMode::Disabled ==> !out2.checker_invoked,
        options.type_check_mode == TypeCheckMode::Disabled ==> !out2.checker_invoked,
        !out2.checker_invoked,
{
}

/// The views of a specifier list, indexwise.
proof fn lemma_roots_views(roots: Seq<String>)
    ensures
        views_of(roots).len() == roots.len(),
        forall|k: int| 0 <= k < roots.len() ==> views_of(roots)[k] == roots[k]@,
{
}

} // verus!
