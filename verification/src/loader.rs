//! The runtime-facing module loader: layered import resolution and on-demand
//! loading of ready-to-run source text.
//!
//! The outside collaborators (the Node resolver, the generic import-map-aware
//! resolver, the emitter, the CommonJS translator, the disk) answer queries
//! that the engine poses around this library; one call's answers are handed
//! in as an environment value, and every contract holds for every answer.

use vstd::prelude::*;
use vstd::string::*;
use crate::container::ModuleGraphContainer;
use crate::graph::Dependency;
use crate::graph::Module;
use crate::graph::ModuleGraph;
use crate::graph::Resolution;
use crate::graph::seq_get;
use crate::media::MediaType;
use crate::media::media_type_for_specifier;
use crate::media::spec_media_type_for_specifier;
use crate::options::PermissionsContainer;
use crate::options::ResolutionKind;
use crate::options::TsTypeLib;
use crate::options::select_permissions;
use crate::store::CjsResolutionStore;
use crate::store::ParsedSourceCache;
use crate::store::views_of;
use crate::strutil::is_prefix_of;
use crate::strutil::str_eq;
use crate::strutil::str_starts_with;
use crate::strutil::str_strip_prefix;

verus! {

/// Outcome of normalizing a referrer string into a URL; the parse itself is
/// the engine's, outside the library.
#[derive(Debug)]
pub enum UrlParseOutcome {
    Parsed { url: String },
    Failed { message: String },
}

/// The Node resolver's answer to one resolution query.
#[derive(Debug)]
pub enum NodeAnswer {
    /// The resolver itself failed.
    Failed { message: String },
    /// The resolver found nothing.
    Missing,
    /// An ES module on disk.
    Esm { url: String },
    /// A CommonJS module on disk; the loader must remember this.
    CommonJs { url: String },
    /// An engine-provided builtin.
    BuiltIn { name: String },
}

/// The generic import-map-aware resolver's answer.
#[derive(Debug)]
pub enum GenericAnswer {
    Resolved { url: String },
    Erred { message: String },
}

/// The outside answers one `resolve` call may consult, each the reply to the
/// single query this call can pose on that channel.
#[derive(Debug)]
pub struct ResolveEnv {
    /// Outcome of resolving the referrer string against the working
    /// directory.
    pub referrer_url: UrlParseOutcome,
    /// The Node resolver's answer for (specifier, referrer).
    pub node_answer: NodeAnswer,
    /// The Node resolver's answer for a graph-recorded package reference.
    pub npm_reference_answer: NodeAnswer,
    /// The Node resolver's answer for a package requirement parsed out of
    /// the specifier in interactive mode.
    pub npm_requirement_answer: NodeAnswer,
    /// The generic resolver's answer for (specifier, referrer).
    pub generic_answer: GenericAnswer,
    /// Whether the raw specifier parses as an absolute URL.
    pub specifier_parses_as_url: bool,
}

/// A failure while handling a Node resolver answer.
#[derive(Debug)]
pub enum NodeError {
    Failed { message: String },
    NotFound,
    UnknownBuiltin { name: String },
}

/// A resolution failure, carrying the failing specifier and referrer for
/// diagnostic context.
#[derive(Debug)]
pub enum ResolveError {
    /// Node resolution inside an npm realm failed.
    Node { error: NodeError, specifier: String, referrer: String },
    /// Node resolution of a graph-recorded package reference failed.
    NpmReference { error: NodeError, nv_reference: String },
    /// Node resolution of an interactively parsed requirement failed.
    NpmRequirement { error: NodeError, reference: String },
    /// The graph recorded a resolution diagnostic for this import.
    GraphDiagnostic { diagnostic: String },
    /// An explicit builtin specifier names no known builtin.
    UnknownBuiltin { name: String },
    /// The referrer could not be normalized into a URL.
    ReferrerParse { message: String },
    /// The generic resolver failed.
    Generic { message: String },
}

/// What an `Ok` answer from the Node resolver handling must hold.
pub open spec fn spec_node_ok(builtins: Seq<Seq<char>>, a: NodeAnswer, u: Seq<char>) -> bool {
    match a {
        NodeAnswer::Esm { url } => u == url@,
        NodeAnswer::CommonJs { url } => u == url@,
        NodeAnswer::BuiltIn { name } => builtins.contains(name@) && u == "node:"@ + name@,
        _ => false,
    }
}

/// What an `Err` answer from the Node resolver handling must hold.
pub open spec fn spec_node_err(builtins: Seq<Seq<char>>, a: NodeAnswer, e: NodeError) -> bool {
    match a {
        NodeAnswer::Failed { message } => e matches NodeError::Failed { message: m } && m@
            == message@,
        NodeAnswer::Missing => e matches NodeError::NotFound,
        NodeAnswer::BuiltIn { name } => !builtins.contains(name@) && (e
            matches NodeError::UnknownBuiltin { name: n } && n@ == name@),
        _ => false,
    }
}

/// Resolution of an explicit builtin name: known names map into the builtin
/// namespace, unknown ones are a hard error.
pub open spec fn spec_builtin_result(
    builtins: Seq<Seq<char>>,
    name: Seq<char>,
    r: Result<String, ResolveError>,
) -> bool {
    if builtins.contains(name) {
        r matches Ok(u) && u@ == "node:"@ + name
    } else {
        r matches Err(ResolveError::UnknownBuiltin { name: n }) && n@ == name
    }
}

/// The synthetic node-modules-style remapping of an externally resolved
/// specifier. Real deployments place it under the local package directory;
/// the library marks the remapping in the specifier itself.
pub open spec fn spec_node_modules_remap(s: Seq<char>) -> Seq<char> {
    "node-modules:"@ + s
}

/// Maps a builtin module name into the builtin namespace, or fails on an
/// unknown name.
pub fn resolve_builtin_node_module(builtins: &Vec<String>, name: &str) -> (r: Result<
    String,
    NodeError,
>)
    ensures
        match r {
            Ok(u) => views_of(builtins@).contains(name@) && u@ == "node:"@ + name@,
            Err(e) => !views_of(builtins@).contains(name@) && (e
                matches NodeError::UnknownBuiltin { name: n } && n@ == name@),
        },
{
    let mut i: usize = 0;
    while i < builtins.len()
        invariant
            i <= builtins@.len(),
            forall|j: int| 0 <= j < i ==> builtins@[j]@ != name@,
        decreases builtins@.len() - i,
    {
        if str_eq(builtins[i].as_str(), name) {
            let mut u = String::from_str("node:");
            u.append(name);
            proof {
                assert(views_of(builtins@)[i as int] == name@);
            }
            return Ok(u);
        }
        i += 1;
    }
    proof {
        assert forall|j: int| 0 <= j < views_of(builtins@).len() implies views_of(builtins@)[j]
            != name@ by {
            assert(views_of(builtins@)[j] == builtins@[j]@);
        };
    }
    Err(NodeError::UnknownBuiltin { name: String::from_str(name) })
}

/// Handles a Node resolver answer: a CommonJS answer is recorded in the
/// monotonic store before its URL is returned, a builtin answer is mapped
/// into the builtin namespace, and a missing answer is an error.
pub fn handle_node_resolve_result(
    cjs: &mut CjsResolutionStore,
    builtins: &Vec<String>,
    answer: &NodeAnswer,
) -> (r: Result<String, NodeError>)
    ensures
        match r {
            Ok(u) => spec_node_ok(views_of(builtins@), *answer, u@),
            Err(e) => spec_node_err(views_of(builtins@), *answer, e),
        },
        forall|t: Seq<char>| old(cjs).spec_contains(t) ==> final(cjs).spec_contains(t),
        forall|t: Seq<char>|
            final(cjs).spec_contains(t) ==> old(cjs).spec_contains(t) || (answer
                matches NodeAnswer::CommonJs { url } && t == url@),
        answer matches NodeAnswer::CommonJs { url } ==> final(cjs).spec_contains(url@),
{
    match answer {
        NodeAnswer::Failed { message } => Err(
            NodeError::Failed { message: String::from_str(message.as_str()) },
        ),
        NodeAnswer::Missing => Err(NodeError::NotFound),
        NodeAnswer::Esm { url } => Ok(String::from_str(url.as_str())),
        NodeAnswer::CommonJs { url } => {
            cjs.insert(String::from_str(url.as_str()));
            Ok(String::from_str(url.as_str()))
        },
        NodeAnswer::BuiltIn { name } => {
            match resolve_builtin_node_module(builtins, name.as_str()) {
                Ok(u) => Ok(u),
                Err(e) => Err(e),
            }
        },
    }
}

/// The first dependency edge recorded under `import`, if any.
pub open spec fn spec_find_dep(deps: Seq<Dependency>, import: Seq<char>) -> Option<Dependency>
    decreases deps.len(),
{
    if deps.len() == 0 {
        None
    } else if deps[0].import@ == import {
        Some(deps[0])
    } else {
        spec_find_dep(deps.skip(1), import)
    }
}

/// Skipping a prefix without a match leaves the found edge unchanged.
proof fn lemma_find_dep_skip(deps: Seq<Dependency>, import: Seq<char>, i: int)
    requires
        0 <= i <= deps.len(),
        forall|j: int| 0 <= j < i ==> deps[j].import@ != import,
    ensures
        spec_find_dep(deps, import) == spec_find_dep(deps.skip(i), import),
    decreases i,
{
    if i > 0 {
        assert(deps[0].import@ != import);
        assert(deps.skip(1).skip(i - 1) =~= deps.skip(i));
        assert(forall|j: int| 0 <= j < i - 1 ==> deps.skip(1)[j].import@ != import);
        lemma_find_dep_skip(deps.skip(1), import, i - 1);
        assert(spec_find_dep(deps, import) == spec_find_dep(deps.skip(1), import));
    } else {
        assert(deps.skip(0) =~= deps);
    }
}

/// Finds the dependency edge recorded under `import`.
pub fn find_dependency<'a>(deps: &'a Vec<Dependency>, import: &str) -> (r: Option<&'a Dependency>)
    ensures
        match r {
            Some(d) => spec_find_dep(deps@, import@) == Some(*d),
            None => spec_find_dep(deps@, import@) is None,
        },
{
    let mut i: usize = 0;
    while i < deps.len()
        invariant
            i <= deps@.len(),
            forall|j: int| 0 <= j < i ==> deps@[j].import@ != import@,
        decreases deps@.len() - i,
    {
        if str_eq(deps[i].import.as_str(), import) {
            proof {
                lemma_find_dep_skip(deps@, import@, i as int);
                assert(deps@.skip(i as int)[0] == deps@[i as int]);
            }
            return Some(&deps[i]);
        }
        i += 1;
    }
    proof {
        lemma_find_dep_skip(deps@, import@, deps@.len() as int);
        assert(deps@.skip(deps@.len() as int) =~= Seq::<Dependency>::empty());
    }
    None
}

/// The configuration snapshot the loader is built from.
#[derive(Debug)]
pub struct ProcState {
    /// The type library for main-thread execution.
    pub lib_window: TsTypeLib,
    /// The type library for worker execution.
    pub lib_worker: TsTypeLib,
    /// Whether the process runs an interactive session.
    pub is_repl: bool,
    /// Whether an interactive debugger is attached.
    pub is_inspecting: bool,
    /// The specifiers lying inside an npm-compatible package realm.
    pub npm_realm: Vec<String>,
    /// The engine's builtin module names.
    pub builtins: Vec<String>,
}

/// Clones a list of specifiers.
pub fn clone_strings(v: &Vec<String>) -> (r: Vec<String>)
    ensures
        r@ == v@,
{
    let mut r: Vec<String> = Vec::new();
    let mut i: usize = 0;
    while i < v.len()
        invariant
            i <= v@.len(),
            r@ =~= v@.subrange(0, i as int),
        decreases v@.len() - i,
    {
        r.push(v[i].clone());
        proof {
            assert(r@ =~= v@.subrange(0, i + 1));
        }
        i += 1;
    }
    proof {
        assert(r@ =~= v@);
    }
    r
}

/// The engine-facing module loader.
#[derive(Debug)]
pub struct CliModuleLoader {
    /// The type library this loader checks roots against.
    pub lib: TsTypeLib,
    /// Permissions used to resolve the static imports of the worker.
    pub root_permissions: PermissionsContainer,
    /// Permissions used to resolve dynamic imports.
    pub dynamic_permissions: PermissionsContainer,
    /// Whether the process runs an interactive session.
    pub is_repl: bool,
    /// Whether an interactive debugger is attached.
    pub is_inspecting: bool,
    /// The specifiers lying inside an npm-compatible package realm.
    pub npm_realm: Vec<String>,
    /// The engine's builtin module names.
    pub builtins: Vec<String>,
}

impl CliModuleLoader {
    /// Whether `s` lies inside an npm-compatible package realm.
    pub open spec fn spec_in_npm_realm(self, s: Seq<char>) -> bool {
        views_of(self.npm_realm@).contains(s)
    }

    /// The builtin names as character sequences.
    pub open spec fn builtins_view(self) -> Seq<Seq<char>> {
        views_of(self.builtins@)
    }

    /// A loader for the main thread, checking against the window library.
    pub fn new(
        ps: &ProcState,
        root_permissions: PermissionsContainer,
        dynamic_permissions: PermissionsContainer,
    ) -> (r: CliModuleLoader)
        ensures
            r.lib == ps.lib_window,
            r.root_permissions == root_permissions,
            r.dynamic_permissions == dynamic_permissions,
            r.is_repl == ps.is_repl,
            r.is_inspecting == ps.is_inspecting,
            r.npm_realm@ == ps.npm_realm@,
            r.builtins@ == ps.builtins@,
    {
        CliModuleLoader {
            lib: ps.lib_window,
            root_permissions,
            dynamic_permissions,
            is_repl: ps.is_repl,
            is_inspecting: ps.is_inspecting,
            npm_realm: clone_strings(&ps.npm_realm),
            builtins: clone_strings(&ps.builtins),
        }
    }

    /// A loader for a worker, checking against the worker library.
    pub fn new_for_worker(
        ps: &ProcState,
        root_permissions: PermissionsContainer,
        dynamic_permissions: PermissionsContainer,
    ) -> (r: CliModuleLoader)
        ensures
            r.lib == ps.lib_worker,
            r.root_permissions == root_permissions,
            r.dynamic_permissions == dynamic_permissions,
            r.is_repl == ps.is_repl,
            r.is_inspecting == ps.is_inspecting,
            r.npm_realm@ == ps.npm_realm@,
            r.builtins@ == ps.builtins@,
    {
        CliModuleLoader {
            lib: ps.lib_worker,
            root_permissions,
            dynamic_permissions,
            is_repl: ps.is_repl,
            is_inspecting: ps.is_inspecting,
            npm_realm: clone_strings(&ps.npm_realm),
            builtins: clone_strings(&ps.builtins),
        }
    }

    /// Membership test against the npm realm.
    pub fn in_npm_realm(&self, s: &str) -> (r: bool)
        ensures
            r == self.spec_in_npm_realm(s@),
    {
        let mut i: usize = 0;
        while i < self.npm_realm.len()
            invariant
                i <= self.npm_realm@.len(),
                forall|j: int| 0 <= j < i ==> self.npm_realm@[j]@ != s@,
            decreases self.npm_realm@.len() - i,
        {
            if str_eq(self.npm_realm[i].as_str(), s) {
                proof {
                    assert(views_of(self.npm_realm@)[i as int] == s@);
                }
                return true;
            }
            i += 1;
        }
        proof {
            assert forall|j: int| 0 <= j < views_of(self.npm_realm@).len() implies views_of(
                self.npm_realm@,
            )[j] != s@ by {
                assert(views_of(self.npm_realm@)[j] == self.npm_realm@[j]@);
            };
        }
        false
    }
}

} // verus!

verus! {

/// The package requirement that the outside parser extracts from a
/// specifier, when the specifier is a well-formed package requirement
/// reference: a function of the characters alone.
pub uninterp spec fn npm_req_reference_of(s: Seq<char>) -> Option<Seq<char>>;

/// Relies on deno_semver's NpmPackageReqReference::from_str: parsing
/// succeeds or fails on the specifier's characters alone, and an input
/// without the package scheme prefix "npm:" is always rejected.
#[verifier::external_body]
fn parse_npm_req_reference(s: &str) -> (r: Option<String>)
    ensures
        match r {
            Some(refstr) => npm_req_reference_of(s@) == Some(refstr@),
            None => npm_req_reference_of(s@) is None,
        },
        !is_prefix_of("npm:"@, s@) ==> r is None,
{
    deno_semver::npm::NpmPackageReqReference::from_str(s).ok().map(|r| r.to_string())
}

/// The candidate an interactive session retries package-requirement parsing
/// on: the generic resolver's result, or the raw specifier when the generic
/// resolver failed but the specifier itself is an absolute URL.
pub open spec fn spec_repl_candidate(env: ResolveEnv, specifier: Seq<char>) -> Option<Seq<char>> {
    match env.generic_answer {
        GenericAnswer::Resolved { url } => Some(url@),
        GenericAnswer::Erred { .. } => if env.specifier_parses_as_url {
            Some(specifier)
        } else {
            Option::None
        },
    }
}

/// The resolution edge the graph records for `import` out of `referrer`.
pub open spec fn spec_graph_edge(
    graph: ModuleGraph,
    referrer: Seq<char>,
    import: Seq<char>,
) -> Option<Resolution> {
    match graph.spec_get(referrer) {
        Some(Module::Esm { dependencies, .. }) => match spec_find_dep(dependencies@, import) {
            Some(d) => Some(d.resolution),
            None => Option::None,
        },
        _ => Option::None,
    }
}

/// The npm-realm outcome: the Node resolver's answer handled directly, with
/// failing answers wrapped in the specifier/referrer context.
pub open spec fn spec_realm_outcome(
    builtins: Seq<Seq<char>>,
    answer: NodeAnswer,
    specifier: Seq<char>,
    referrer_url: Seq<char>,
    r: Result<String, ResolveError>,
) -> bool {
    match r {
        Ok(u) => spec_node_ok(builtins, answer, u@),
        Err(ResolveError::Node { error, specifier: sp, referrer: rf }) => spec_node_err(
            builtins,
            answer,
            error,
        ) && sp@ == specifier && rf@ == referrer_url,
        Err(_) => false,
    }
}

/// The outcome of resolving an interactively parsed package requirement.
pub open spec fn spec_requirement_outcome(
    builtins: Seq<Seq<char>>,
    answer: NodeAnswer,
    refstr: Seq<char>,
    r: Result<String, ResolveError>,
) -> bool {
    match r {
        Ok(u) => spec_node_ok(builtins, answer, u@),
        Err(ResolveError::NpmRequirement { error, reference }) => spec_node_err(
            builtins,
            answer,
            error,
        ) && reference@ == refstr,
        Err(_) => false,
    }
}

/// The outcome of dispatching a graph-recorded resolution target on the
/// target module's kind.
pub open spec fn spec_target_outcome(
    cfg: CliModuleLoader,
    graph: ModuleGraph,
    env: ResolveEnv,
    target: Seq<char>,
    r: Result<String, ResolveError>,
) -> bool {
    match graph.spec_get(target) {
        Some(Module::Npm { nv_reference, .. }) => match r {
            Ok(u) => spec_node_ok(cfg.builtins_view(), env.npm_reference_answer, u@),
            Err(ResolveError::NpmReference { error, nv_reference: nv }) => spec_node_err(
                cfg.builtins_view(),
                env.npm_reference_answer,
                error,
            ) && nv@ == nv_reference@,
            Err(_) => false,
        },
        Some(Module::Node { module_name, .. }) => spec_builtin_result(
            cfg.builtins_view(),
            module_name@,
            r,
        ),
        Some(Module::Esm { specifier, .. }) => r matches Ok(u) && u@ == specifier@,
        Some(Module::Json { specifier, .. }) => r matches Ok(u) && u@ == specifier@,
        Some(Module::External { specifier }) => r matches Ok(u) && u@ == spec_node_modules_remap(
            specifier@,
        ),
        None => r matches Ok(u) && u@ == target,
    }
}

/// The outcome of the steps below the graph: the explicit builtin prefix,
/// the referrer-parse error, the interactive package-requirement retry, and
/// finally the generic resolver.
pub open spec fn spec_fallthrough_outcome(
    cfg: CliModuleLoader,
    env: ResolveEnv,
    specifier: Seq<char>,
    referrer: Seq<char>,
    r: Result<String, ResolveError>,
) -> bool {
    if is_prefix_of("node:"@, specifier) {
        spec_builtin_result(cfg.builtins_view(), specifier.skip(5), r)
    } else if !(referrer.len() == 0 && cfg.is_repl) && env.referrer_url matches
        UrlParseOutcome::Failed { .. } {
        match (env.referrer_url, r) {
            (
                UrlParseOutcome::Failed { message },
                Err(ResolveError::ReferrerParse { message: m }),
            ) => m@ == message@,
            _ => false,
        }
    } else {
        match (if cfg.is_repl {
            spec_repl_candidate(env, specifier)
        } else {
            Option::None
        }) {
            Some(c) => match npm_req_reference_of(c) {
                Some(refstr) => spec_requirement_outcome(
                    cfg.builtins_view(),
                    env.npm_requirement_answer,
                    refstr,
                    r,
                ),
                None => spec_generic_outcome(env, r),
            },
            None => spec_generic_outcome(env, r),
        }
    }
}

/// The generic resolver's answer passed through.
pub open spec fn spec_generic_outcome(env: ResolveEnv, r: Result<String, ResolveError>) -> bool {
    match (env.generic_answer, r) {
        (GenericAnswer::Resolved { url }, Ok(u)) => u@ == url@,
        (GenericAnswer::Erred { message }, Err(ResolveError::Generic { message: m })) => m@
            == message@,
        _ => false,
    }
}

/// The whole layered resolution outcome, by strict precedence: an npm-realm
/// referrer delegates entirely to the Node resolver; then a statically
/// recorded graph edge decides; then the explicit builtin prefix; then the
/// referrer-parse error; then the interactive retry; finally the generic
/// resolver.
pub open spec fn spec_resolve_outcome(
    cfg: CliModuleLoader,
    graph: ModuleGraph,
    env: ResolveEnv,
    specifier: Seq<char>,
    referrer: Seq<char>,
    r: Result<String, ResolveError>,
) -> bool {
    match env.referrer_url {
        UrlParseOutcome::Parsed { url } => {
            if cfg.spec_in_npm_realm(url@) {
                spec_realm_outcome(cfg.builtins_view(), env.node_answer, specifier, url@, r)
            } else {
                match spec_graph_edge(graph, url@, specifier) {
                    Some(Resolution::Resolved { specifier: target }) => spec_target_outcome(
                        cfg,
                        graph,
                        env,
                        target@,
                        r,
                    ),
                    Some(Resolution::Erred { diagnostic }) => r matches Err(
                        ResolveError::GraphDiagnostic { diagnostic: d },
                    ) && d@ == diagnostic@,
                    _ => spec_fallthrough_outcome(cfg, env, specifier, referrer, r),
                }
            }
        },
        UrlParseOutcome::Failed { .. } => spec_fallthrough_outcome(cfg, env, specifier, referrer, r),
    }
}

/// The synthetic node-modules-style remapping, executable form.
pub fn node_modules_remap(s: &str) -> (r: String)
    ensures
        r@ == spec_node_modules_remap(s@),
{
    let mut r = String::from_str("node-modules:");
    r.append(s);
    r
}

impl CliModuleLoader {
    /// Dispatches a graph-recorded resolution target on the kind of the
    /// module it names in the graph.
    fn resolve_graph_target(
        &self,
        graph: &ModuleGraph,
        cjs: &mut CjsResolutionStore,
        env: &ResolveEnv,
        target: &str,
    ) -> (r: Result<String, ResolveError>)
        requires
            graph.wf(),
        ensures
            spec_target_outcome(*self, *graph, *env, target@, r),
            forall|t: Seq<char>| old(cjs).spec_contains(t) ==> final(cjs).spec_contains(t),
            forall|t: Seq<char>|
                final(cjs).spec_contains(t) ==> old(cjs).spec_contains(t) || (
                env.npm_reference_answer matches NodeAnswer::CommonJs { url } && t == url@),
    {
        match graph.get(target) {
            Some(m) => match m {
                Module::Npm { nv_reference, .. } => {
                    match handle_node_resolve_result(cjs, &self.builtins, &env.npm_reference_answer)
                    {
                        Ok(u) => Ok(u),
                        Err(e) => Err(
                            ResolveError::NpmReference {
                                error: e,
                                nv_reference: nv_reference.clone(),
                            },
                        ),
                    }
                },
                Module::Node { module_name, .. } => {
                    match resolve_builtin_node_module(&self.builtins, module_name.as_str()) {
                        Ok(u) => Ok(u),
                        Err(e) => match e {
                            NodeError::UnknownBuiltin { name } => Err(
                                ResolveError::UnknownBuiltin { name },
                            ),
                            // the builtin resolver only fails with an
                            // unknown name; this arm is provably dead
                            _ => Err(
                                ResolveError::UnknownBuiltin {
                                    name: String::from_str(module_name.as_str()),
                                },
                            ),
                        },
                    }
                },
                Module::Esm { specifier, .. } => Ok(specifier.clone()),
                Module::Json { specifier, .. } => Ok(specifier.clone()),
                Module::External { specifier } => Ok(node_modules_remap(specifier.as_str())),
            },
            None => Ok(String::from_str(target)),
        }
    }

    /// The steps below the npm realm and the graph: builtin prefix,
    /// referrer-parse error, interactive package-requirement retry, generic
    /// resolution.
    fn resolve_fallthrough(
        &self,
        cjs: &mut CjsResolutionStore,
        env: &ResolveEnv,
        specifier: &str,
        referrer: &str,
    ) -> (r: Result<String, ResolveError>)
        ensures
            spec_fallthrough_outcome(*self, *env, specifier@, referrer@, r),
            forall|t: Seq<char>| old(cjs).spec_contains(t) ==> final(cjs).spec_contains(t),
            forall|t: Seq<char>|
                final(cjs).spec_contains(t) ==> old(cjs).spec_contains(t) || (
                env.npm_requirement_answer matches NodeAnswer::CommonJs { url } && t == url@),
    {
        if str_starts_with(specifier, "node:") {
            proof {
                reveal_strlit("node:");
            }
            let name = str_strip_prefix(specifier, "node:").unwrap();
            proof {
                assert(name@ =~= specifier@.skip(5));
            }
            return match resolve_builtin_node_module(&self.builtins, name) {
                Ok(u) => Ok(u),
                Err(e) => match e {
                    NodeError::UnknownBuiltin { name: n } => Err(
                        ResolveError::UnknownBuiltin { name: n },
                    ),
                    // the builtin resolver only fails with an unknown name;
                    // this arm is provably dead
                    _ => Err(ResolveError::UnknownBuiltin { name: String::from_str(name) }),
                },
            };
        }
        if !(referrer.is_empty() && self.is_repl) {
            if let UrlParseOutcome::Failed { message } = &env.referrer_url {
                return Err(ResolveError::ReferrerParse { message: message.clone() });
            }
        }
        if self.is_repl {
            let candidate: Option<&str> = match &env.generic_answer {
                GenericAnswer::Resolved { url } => Some(url.as_str()),
                GenericAnswer::Erred { .. } => if env.specifier_parses_as_url {
                    Some(specifier)
                } else {
                    None
                },
            };
            if let Some(c) = candidate {
                if let Some(reference) = parse_npm_req_reference(c) {
                    return match handle_node_resolve_result(
                        cjs,
                        &self.builtins,
                        &env.npm_requirement_answer,
                    ) {
                        Ok(u) => Ok(u),
                        Err(e) => Err(ResolveError::NpmRequirement { error: e, reference }),
                    };
                }
            }
        }
        match &env.generic_answer {
            GenericAnswer::Resolved { url } => Ok(url.clone()),
            GenericAnswer::Erred { message } => Err(
                ResolveError::Generic { message: message.clone() },
            ),
        }
    }

    /// Resolves `specifier` from `referrer` through the layered strategy of
    /// `spec_resolve_outcome`. `kind` names the import site whose permission
    /// snapshot the outside resolvers consult; their answers arrive in
    /// `env`.
    /// The CommonJS store only ever grows, and only by a URL one of the
    /// consulted Node answers tagged CommonJS.
    pub fn resolve(
        &self,
        container: &ModuleGraphContainer,
        cjs: &mut CjsResolutionStore,
        env: &ResolveEnv,
        specifier: &str,
        referrer: &str,
        kind: ResolutionKind,
    ) -> (r: Result<String, ResolveError>)
        requires
            container.wf(),
        ensures
            spec_resolve_outcome(*self, container.module_graph, *env, specifier@, referrer@, r),
            forall|t: Seq<char>| old(cjs).spec_contains(t) ==> final(cjs).spec_contains(t),
            forall|t: Seq<char>|
                final(cjs).spec_contains(t) ==> old(cjs).spec_contains(t) || (env.node_answer
                    matches NodeAnswer::CommonJs { url } && t == url@) || (
                env.npm_reference_answer matches NodeAnswer::CommonJs { url } && t == url@) || (
                env.npm_requirement_answer matches NodeAnswer::CommonJs { url } && t == url@),
    {
        if let UrlParseOutcome::Parsed { url } = &env.referrer_url {
            if self.in_npm_realm(url.as_str()) {
                return match handle_node_resolve_result(cjs, &self.builtins, &env.node_answer) {
                    Ok(u) => Ok(u),
                    Err(e) => Err(
                        ResolveError::Node {
                            error: e,
                            specifier: String::from_str(specifier),
                            referrer: url.clone(),
                        },
                    ),
                };
            }
            let graph = container.graph();
            if let Some(m) = graph.get(url.as_str()) {
                if let Module::Esm { dependencies, .. } = m {
                    if let Some(dep) = find_dependency(dependencies, specifier) {
                        match &dep.resolution {
                            Resolution::Resolved { specifier: target } => {
                                return self.resolve_graph_target(
                                    graph,
                                    cjs,
                                    env,
                                    target.as_str(),
                                );
                            },
                            Resolution::Erred { diagnostic } => {
                                return Err(
                                    ResolveError::GraphDiagnostic {
                                        diagnostic: diagnostic.clone(),
                                    },
                                );
                            },
                            Resolution::Unresolved => {},
                        }
                    }
                }
            }
        }
        self.resolve_fallthrough(cjs, env, specifier, referrer)
    }
}

} // verus!

verus! {

/// Where the last line of `s` starts: the position after the last newline,
/// or the start of `s` when it holds none.
pub open spec fn spec_last_line_start(s: Seq<char>) -> int
    decreases s.len(),
{
    if s.len() == 0 {
        0
    } else if s[s.len() - 1] == '\n' {
        s.len() as int
    } else {
        spec_last_line_start(s.take(s.len() - 1))
    }
}

/// Bounds and character facts about the last line's start.
pub proof fn lemma_last_line_start(s: Seq<char>)
    ensures
        0 <= spec_last_line_start(s) <= s.len(),
        forall|j: int| spec_last_line_start(s) <= j < s.len() ==> s[j] != '\n',
        spec_last_line_start(s) > 0 ==> s[spec_last_line_start(s) - 1] == '\n',
    decreases s.len(),
{
    if s.len() == 0 {
    } else if s[s.len() - 1] == '\n' {
    } else {
        lemma_last_line_start(s.take(s.len() - 1));
        assert(forall|j: int|
            0 <= j < s.len() - 1 ==> s.take(s.len() - 1)[j] == s[j]);
    }
}

/// The inline source-map marker a trailing line carries.
pub open spec fn spec_source_map_marker() -> Seq<char> {
    "//# sourceMappingURL="@
}

/// The inline source-map payload carried by the code's last line, if any.
pub open spec fn spec_source_map_line(s: Seq<char>) -> Option<Seq<char>> {
    let line = s.subrange(spec_last_line_start(s), s.len() as int);
    if is_prefix_of(spec_source_map_marker(), line) {
        Some(line.skip(spec_source_map_marker().len() as int))
    } else {
        Option::None
    }
}

/// The code with a trailing inline source-map line removed; code without
/// one is kept unchanged.
pub open spec fn spec_code_without_source_map(s: Seq<char>) -> Seq<char> {
    let k = spec_last_line_start(s);
    if is_prefix_of(spec_source_map_marker(), s.subrange(k, s.len() as int)) {
        s.take(k)
    } else {
        s
    }
}

/// Finds where the last line starts.
fn last_line_start(s: &str) -> (k: usize)
    ensures
        k == spec_last_line_start(s@),
        k <= s@.len(),
{
    let n = s.unicode_len();
    let mut i = n;
    proof {
        assert(s@.take(n as int) =~= s@);
    }
    while i > 0
        invariant
            i <= n,
            n == s@.len(),
            spec_last_line_start(s@) == spec_last_line_start(s@.take(i as int)),
        decreases i,
    {
        if s.get_char(i - 1) == '\n' {
            proof {
                assert(s@.take(i as int)[i - 1] == '\n');
            }
            return i;
        }
        proof {
            assert(s@.take(i as int)[i - 1] != '\n');
            assert(s@.take(i as int).take(i - 1) =~= s@.take(i - 1));
        }
        i -= 1;
    }
    proof {
        assert(s@.take(0) =~= Seq::<char>::empty());
    }
    0
}

/// Strips a trailing inline source-map line from the code; memory kept low
/// when no debugger will ever consult the map.
pub fn code_without_source_map(code: String) -> (r: String)
    ensures
        r@ == spec_code_without_source_map(code@),
{
    let k = last_line_start(code.as_str());
    let n = code.as_str().unicode_len();
    let line = code.as_str().substring_char(k, n);
    if str_starts_with(line, "//# sourceMappingURL=") {
        let kept = code.as_str().substring_char(0, k);
        proof {
            assert(code@.subrange(0, spec_last_line_start(code@)) =~= code@.take(
                spec_last_line_start(code@),
            ));
        }
        String::from_str(kept)
    } else {
        code
    }
}

/// Extracts the inline source-map payload from emitted code, if its last
/// line carries one.
pub fn source_map_from_code(code: &str) -> (r: Option<String>)
    ensures
        match r {
            Some(m) => spec_source_map_line(code@) == Some(m@),
            None => spec_source_map_line(code@) is None,
        },
{
    let k = last_line_start(code);
    let n = code.unicode_len();
    let line = code.substring_char(k, n);
    match str_strip_prefix(line, "//# sourceMappingURL=") {
        Some(rest) => {
            proof {
                assert(line@.subrange(
                    spec_source_map_marker().len() as int,
                    line@.len() as int,
                ) =~= line@.skip(spec_source_map_marker().len() as int));
            }
            Some(String::from_str(rest))
        },
        None => None,
    }
}

/// Source-map gating: stripped code carries no inline source map at all, so
/// with no debugger attached the engine never receives one; with a debugger
/// attached the loader returns the emitted code unchanged.
pub proof fn lemma_stripped_code_has_no_source_map(s: Seq<char>)
    ensures
        spec_source_map_line(spec_code_without_source_map(s)) is None,
{
    reveal_strlit("//# sourceMappingURL=");
    let k = spec_last_line_start(s);
    lemma_last_line_start(s);
    if is_prefix_of(spec_source_map_marker(), s.subrange(k, s.len() as int)) {
        let r = s.take(k);
        lemma_last_line_start(r);
        if k > 0 {
            assert(r[k - 1] == s[k - 1]);
            assert(spec_last_line_start(r) == k);
        }
        assert(r.subrange(spec_last_line_start(r), r.len() as int) =~= Seq::<char>::empty());
        assert(spec_source_map_marker().len() > 0);
    }
}

} // verus!

verus! {

/// The disk's answer to reading an npm-realm file.
#[derive(Debug)]
pub enum DiskAnswer {
    Read { code: String },
    ReadFailed { message: String },
}

/// The CommonJS/ESM interop translator's answer.
#[derive(Debug)]
pub enum TranslateAnswer {
    Translated { code: String },
    TranslateFailed { message: String },
}

/// The emitter's answer for one transpilation.
#[derive(Debug)]
pub enum EmitAnswer {
    Emitted { code: String },
    EmitFailed { message: String },
}

/// The outside answers one `load` call may consult.
#[derive(Debug)]
pub struct LoadEnv {
    /// The raw text read from disk for an npm-realm specifier.
    pub disk: DiskAnswer,
    /// The CommonJS-to-ESM translation of that text.
    pub translate_cjs: TranslateAnswer,
    /// That text with the minimal Node-compatible globals injected.
    pub esm_globals: TranslateAnswer,
    /// The transpiled code for a TypeScript-flavored graph module.
    pub emit: EmitAnswer,
}

/// The module-type tag the engine receives.
#[derive(Clone, Copy, Debug, PartialEq, Eq, Structural)]
pub enum ModuleType {
    Json,
    JavaScript,
}

/// Code produced for one module before engine packaging.
#[derive(Debug)]
pub struct ModuleCodeSource {
    pub code: String,
    pub found_url: String,
    pub media_type: MediaType,
}

/// What the engine receives from a load: code text, the final
/// (redirect-resolved) specifier, and a module-type tag.
#[derive(Debug)]
pub struct ModuleSource {
    pub module_type: ModuleType,
    pub code: String,
    pub specifier: String,
    pub found_url: String,
}

/// A load failure.
#[derive(Debug)]
pub enum LoadError {
    /// The specifier is absent from the graph and outside any npm realm:
    /// a missing prior preparation, a programming defect.
    Unprepared { specifier: String, referrer: Option<String> },
    /// An internal media type reached the load path: an invariant
    /// violation, fatal and not user-recoverable.
    InternalMediaType { media_type: MediaType, specifier: String },
    /// The emitter failed.
    Emit { message: String },
    /// Reading an npm-realm file from disk failed; propagated, not retried.
    Disk { specifier: String, referrer: Option<String>, message: String },
    /// The interop translation failed.
    Translate { message: String },
}

/// Matching of an optional referrer carried in an error against the one the
/// call was given.
pub open spec fn opt_str_match(carried: Option<String>, given: Option<Seq<char>>) -> bool {
    match (carried, given) {
        (Option::None, Option::None) => true,
        (Some(a), Some(b)) => a@ == b,
        _ => false,
    }
}

/// The code, final URL and media type a prepared-module load yields, when
/// it succeeds: raw source for JSON and plain scripts, empty code for
/// type declarations, the emitter's answer for TypeScript-flavored sources.
pub open spec fn spec_prepared_value(graph: ModuleGraph, env: LoadEnv, s: Seq<char>) -> Option<
    (Seq<char>, Seq<char>, MediaType),
> {
    match seq_get(graph.modules@, s) {
        Some(Module::Json { source, specifier: found, media_type }) => Some(
            (source@, found@, media_type),
        ),
        Some(Module::Esm { source, specifier: found, media_type, .. }) => {
            if media_type.is_passthrough() {
                Some((source@, found@, media_type))
            } else if media_type.is_declaration() {
                Some((Seq::<char>::empty(), found@, media_type))
            } else if media_type.is_emittable() {
                match env.emit {
                    EmitAnswer::Emitted { code } => Some((code@, found@, media_type)),
                    EmitAnswer::EmitFailed { .. } => Option::None,
                }
            } else {
                Option::None
            }
        },
        _ => Option::None,
    }
}

/// The error a prepared-module load yields, when it fails.
pub open spec fn spec_prepared_error(
    graph: ModuleGraph,
    env: LoadEnv,
    s: Seq<char>,
    referrer: Option<Seq<char>>,
    e: LoadError,
) -> bool {
    match seq_get(graph.modules@, s) {
        Some(Module::Esm { specifier: found, media_type, .. }) => {
            if media_type.is_emittable() {
                env.emit matches EmitAnswer::EmitFailed { message } && e
                    matches LoadError::Emit { message: m } && m@ == message@
            } else if media_type.is_internal() {
                e matches LoadError::InternalMediaType { media_type: mt, specifier: sp } && mt
                    == media_type && sp@ == found@
            } else {
                false
            }
        },
        Some(Module::Json { .. }) => false,
        _ => e matches LoadError::Unprepared { specifier: sp, referrer: rf } && sp@ == s
            && opt_str_match(rf, referrer),
    }
}

/// The whole prepared-load outcome.
pub open spec fn spec_prepared_outcome(
    graph: ModuleGraph,
    env: LoadEnv,
    s: Seq<char>,
    referrer: Option<Seq<char>>,
    r: Result<ModuleCodeSource, LoadError>,
) -> bool {
    match r {
        Ok(cs) => spec_prepared_value(graph, env, s) == Some(
            (cs.code@, cs.found_url@, cs.media_type),
        ),
        Err(e) => spec_prepared_error(graph, env, s, referrer, e),
    }
}

/// The view of an optional referrer argument.
pub open spec fn spec_opt_view(o: Option<&String>) -> Option<Seq<char>> {
    match o {
        Some(s) => Some(s@),
        Option::None => Option::None,
    }
}

/// The engine packaging of produced code: the module-type tag follows the
/// media type, and the inline source map is stripped unless a debugger is
/// attached.
pub open spec fn spec_module_source(
    cfg: CliModuleLoader,
    media: MediaType,
    code: Seq<char>,
    specifier: Seq<char>,
    found: Seq<char>,
    r: Result<ModuleSource, LoadError>,
) -> bool {
    r matches Ok(ms) && ms.module_type == (if media.is_json() {
        ModuleType::Json
    } else {
        ModuleType::JavaScript
    }) && ms.specifier@ == specifier && ms.found_url@ == found && ms.code@ == (
    if cfg.is_inspecting {
        code
    } else {
        spec_code_without_source_map(code)
    })
}

/// The whole synchronous load outcome: an npm-realm specifier is read from
/// disk and translated (as CommonJS when so recorded, else with plain
/// Node globals), any other specifier must already stand in the graph.
pub open spec fn spec_load_sync_outcome(
    cfg: CliModuleLoader,
    graph: ModuleGraph,
    cjs: CjsResolutionStore,
    env: LoadEnv,
    specifier: Seq<char>,
    referrer: Option<Seq<char>>,
    r: Result<ModuleSource, LoadError>,
) -> bool {
    if cfg.spec_in_npm_realm(specifier) {
        match env.disk {
            DiskAnswer::ReadFailed { message } => r matches Err(
                LoadError::Disk { specifier: sp, referrer: rf, message: m },
            ) && sp@ == specifier && m@ == message@ && opt_str_match(rf, referrer),
            DiskAnswer::Read { .. } => {
                let translated = if cjs.spec_contains(specifier) {
                    env.translate_cjs
                } else {
                    env.esm_globals
                };
                match translated {
                    TranslateAnswer::TranslateFailed { message } => r matches Err(
                        LoadError::Translate { message: m },
                    ) && m@ == message@,
                    TranslateAnswer::Translated { code } => spec_module_source(
                        cfg,
                        spec_media_type_for_specifier(specifier),
                        code@,
                        specifier,
                        specifier,
                        r,
                    ),
                }
            },
        }
    } else {
        match spec_prepared_value(graph, env, specifier) {
            Some((code, found, media)) => spec_module_source(
                cfg,
                media,
                code,
                specifier,
                found,
                r,
            ),
            Option::None => r matches Err(e) && spec_prepared_error(
                graph,
                env,
                specifier,
                referrer,
                e,
            ),
        }
    }
}

impl CliModuleLoader {
    /// Loads a module that a prior preparation placed in the graph. A JSON
    /// module and plain scripts yield their raw source, a type declaration
    /// yields empty code, TypeScript-flavored sources yield the emitter's
    /// answer, and a missing module is a hard error naming the specifier.
    /// After producing code for a graph module, its parsed form is evicted
    /// from the cache.
    pub fn load_prepared_module(
        &self,
        container: &ModuleGraphContainer,
        cache: &mut ParsedSourceCache,
        env: &LoadEnv,
        specifier: &str,
        maybe_referrer: Option<&String>,
    ) -> (r: Result<ModuleCodeSource, LoadError>)
        requires
            container.wf(),
            !is_prefix_of("node:"@, specifier@),
        ensures
            spec_prepared_outcome(
                container.module_graph,
                *env,
                specifier@,
                spec_opt_view(maybe_referrer),
                r,
            ),
            r is Ok && (seq_get(container.module_graph.modules@, specifier@) matches Some(
                Module::Esm { .. },
            )) ==> forall|t: Seq<char>|
                final(cache).spec_contains(t) <==> old(cache).spec_contains(t) && t != specifier@,
            !(r is Ok && (seq_get(container.module_graph.modules@, specifier@) matches Some(
                Module::Esm { .. },
            ))) ==> *final(cache) == *old(cache),
    {
        let graph = container.graph();
        match graph.get(specifier) {
            Some(m) => match m {
                Module::Json { source, specifier: found, media_type } => {
                    // a JSON module was never parsed into an AST, so there
                    // is nothing to evict
                    Ok(
                        ModuleCodeSource {
                            code: source.clone(),
                            found_url: found.clone(),
                            media_type: *media_type,
                        },
                    )
                },
                Module::Esm { source, specifier: found, media_type, .. } => {
                    let code: String = match media_type {
                        MediaType::JavaScript
                        | MediaType::Unknown
                        | MediaType::Cjs
                        | MediaType::Mjs
                        | MediaType::Json => source.clone(),
                        MediaType::Dts | MediaType::Dmts | MediaType::Dcts => String::new(),
                        MediaType::TypeScript
                        | MediaType::Mts
                        | MediaType::Cts
                        | MediaType::Jsx
                        | MediaType::Tsx => {
                            match &env.emit {
                                EmitAnswer::Emitted { code } => code.clone(),
                                EmitAnswer::EmitFailed { message } => {
                                    return Err(LoadError::Emit { message: message.clone() });
                                },
                            }
                        },
                        _ => {
                            return Err(
                                LoadError::InternalMediaType {
                                    media_type: *media_type,
                                    specifier: found.clone(),
                                },
                            );
                        },
                    };
                    let cs = ModuleCodeSource {
                        code,
                        found_url: found.clone(),
                        media_type: *media_type,
                    };
                    cache.free(specifier);
                    Ok(cs)
                },
                _ => Err(
                    LoadError::Unprepared {
                        specifier: String::from_str(specifier),
                        referrer: match maybe_referrer {
                            Some(s) => Some(s.clone()),
                            None => None,
                        },
                    },
                ),
            },
            None => Err(
                LoadError::Unprepared {
                    specifier: String::from_str(specifier),
                    referrer: match maybe_referrer {
                        Some(s) => Some(s.clone()),
                        None => None,
                    },
                },
            ),
        }
    }

    /// The synchronous load behind the engine's asynchronous loading hook:
    /// the module was already fetched during preparation, so no suspension
    /// ever occurs. `is_dynamic` names the import site whose permission
    /// snapshot the outside translator consults; its answers arrive in
    /// `env`. The engine wraps this in an immediately-resolving adapter.
    pub fn load_sync(
        &self,
        container: &ModuleGraphContainer,
        cjs: &CjsResolutionStore,
        cache: &mut ParsedSourceCache,
        env: &LoadEnv,
        specifier: &str,
        maybe_referrer: Option<&String>,
        is_dynamic: bool,
    ) -> (r: Result<ModuleSource, LoadError>)
        requires
            container.wf(),
            !is_prefix_of("node:"@, specifier@),
        ensures
            spec_load_sync_outcome(
                *self,
                container.module_graph,
                *cjs,
                *env,
                specifier@,
                spec_opt_view(maybe_referrer),
                r,
            ),
            self.spec_in_npm_realm(specifier@) ==> *final(cache) == *old(cache),
            !self.spec_in_npm_realm(specifier@) && r is Ok && (seq_get(
                container.module_graph.modules@,
                specifier@,
            ) matches Some(Module::Esm { .. })) ==> forall|t: Seq<char>|
                final(cache).spec_contains(t) <==> old(cache).spec_contains(t) && t != specifier@,
            !self.spec_in_npm_realm(specifier@) && !(r is Ok && (seq_get(
                container.module_graph.modules@,
                specifier@,
            ) matches Some(Module::Esm { .. }))) ==> *final(cache) == *old(cache),
    {
        let code_source: ModuleCodeSource = if self.in_npm_realm(specifier) {
            match &env.disk {
                DiskAnswer::ReadFailed { message } => {
                    return Err(
                        LoadError::Disk {
                            specifier: String::from_str(specifier),
                            referrer: match maybe_referrer {
                                Some(s) => Some(s.clone()),
                                None => None,
                            },
                            message: message.clone(),
                        },
                    );
                },
                DiskAnswer::Read { .. } => {
                    let translated = if cjs.contains(specifier) {
                        &env.translate_cjs
                    } else {
                        &env.esm_globals
                    };
                    match translated {
                        TranslateAnswer::TranslateFailed { message } => {
                            return Err(LoadError::Translate { message: message.clone() });
                        },
                        TranslateAnswer::Translated { code } => ModuleCodeSource {
                            code: code.clone(),
                            found_url: String::from_str(specifier),
                            media_type: media_type_for_specifier(specifier),
                        },
                    }
                },
            }
        } else {
            match self.load_prepared_module(container, cache, env, specifier, maybe_referrer) {
                Ok(cs) => cs,
                Err(e) => {
                    return Err(e);
                },
            }
        };
        let code = if self.is_inspecting {
            code_source.code
        } else {
            code_without_source_map(code_source.code)
        };
        Ok(
            ModuleSource {
                module_type: match code_source.media_type {
                    MediaType::Json => ModuleType::Json,
                    _ => ModuleType::JavaScript,
                },
                code,
                specifier: String::from_str(specifier),
                found_url: code_source.found_url,
            },
        )
    }
}

} // verus!

verus! {

/// What a source-line lookup returns: the literal line when in range, and a
/// descriptive warning string (never a failure) when the requested line
/// lies at or beyond the file's line count.
pub open spec fn spec_source_line(source: Seq<char>, n: int, r: Option<String>) -> bool {
    let lines = crate::strutil::spec_split_lines(source);
    if n < lines.len() {
        r matches Some(l) && l@ == lines[n]
    } else {
        r matches Some(l) && l@ == spec_out_of_range_warning(n)
    }
}

/// The warning an out-of-range source-line request yields, naming the
/// one-based offending line.
pub open spec fn spec_out_of_range_warning(n: int) -> Seq<char> {
    "Warning Couldn't format source line: Line "@ + crate::strutil::spec_decimal((n + 1) as nat)
        + " is out of bounds (source may have changed at runtime)"@
}

/// Whether a specifier's scheme can carry emitted code.
pub open spec fn spec_emit_capable_scheme(s: Seq<char>) -> bool {
    ||| is_prefix_of("wasm:"@, s)
    ||| is_prefix_of("file:"@, s)
    ||| is_prefix_of("http:"@, s)
    ||| is_prefix_of("https:"@, s)
    ||| is_prefix_of("data:"@, s)
    ||| is_prefix_of("blob:"@, s)
}

impl CliModuleLoader {
    /// Returns the literal source line of a graph-held file, or a warning
    /// string for an out-of-range line; diagnostic rendering never fails on
    /// a present module.
    pub fn get_source_line(
        &self,
        container: &ModuleGraphContainer,
        file_name: &str,
        line_number: usize,
    ) -> (r: Option<String>)
        requires
            container.wf(),
        ensures
            match seq_get(container.module_graph.modules@, file_name@) {
                Some(Module::Esm { source, .. }) => spec_source_line(
                    source@,
                    line_number as int,
                    r,
                ),
                Some(Module::Json { source, .. }) => spec_source_line(
                    source@,
                    line_number as int,
                    r,
                ),
                _ => r is None,
            },
    {
        let graph = container.graph();
        let source: &String = match graph.get(file_name) {
            Some(Module::Esm { source, .. }) => source,
            Some(Module::Json { source, .. }) => source,
            _ => {
                return None;
            },
        };
        let lines = crate::strutil::split_lines(source.as_str());
        if line_number < lines.len() {
            proof {
                assert(lines@.map_values(|t: String| t@)[line_number as int]
                    == lines@[line_number as int]@);
            }
            Some(lines[line_number].clone())
        } else {
            let mut w = String::from_str("Warning Couldn't format source line: Line ");
            let num = crate::strutil::decimal_string((line_number as u128) + 1);
            w.append(num.as_str());
            w.append(" is out of bounds (source may have changed at runtime)");
            Some(w)
        }
    }

    /// Re-derives the inline source map of an emitted file by re-running the
    /// prepared-module load path, restricted to schemes that can carry
    /// emitted code; other schemes yield nothing.
    pub fn get_source_map(
        &self,
        container: &ModuleGraphContainer,
        cache: &mut ParsedSourceCache,
        env: &LoadEnv,
        file_name: &str,
    ) -> (r: Option<String>)
        requires
            container.wf(),
        ensures
            !spec_emit_capable_scheme(file_name@) ==> r is None,
            spec_emit_capable_scheme(file_name@) ==> match spec_prepared_value(
                container.module_graph,
                *env,
                file_name@,
            ) {
                Some((code, found, media)) => match spec_source_map_line(code) {
                    Some(m) => r matches Some(x) && x@ == m,
                    Option::None => r is None,
                },
                Option::None => r is None,
            },
    {
        let scheme_ok = crate::strutil::has_scheme(file_name, "wasm") || crate::strutil::has_scheme(
            file_name,
            "file",
        ) || crate::strutil::has_scheme(file_name, "http") || crate::strutil::has_scheme(
            file_name,
            "https",
        ) || crate::strutil::has_scheme(file_name, "data") || crate::strutil::has_scheme(
            file_name,
            "blob",
        );
        proof {
            reveal_strlit("node:");
            reveal_strlit("wasm");
            reveal_strlit("wasm:");
            reveal_strlit("file");
            reveal_strlit("file:");
            reveal_strlit("http");
            reveal_strlit("http:");
            reveal_strlit("https");
            reveal_strlit("https:");
            reveal_strlit("data");
            reveal_strlit("data:");
            reveal_strlit("blob");
            reveal_strlit("blob:");
            assert(("wasm"@.push(':')) =~= "wasm:"@);
            assert(("file"@.push(':')) =~= "file:"@);
            assert(("http"@.push(':')) =~= "http:"@);
            assert(("https"@.push(':')) =~= "https:"@);
            assert(("data"@.push(':')) =~= "data:"@);
            assert(("blob"@.push(':')) =~= "blob:"@);
            assert(scheme_ok == spec_emit_capable_scheme(file_name@));
        }
        if !scheme_ok {
            return None;
        }
        proof {
            if is_prefix_of("node:"@, file_name@) {
                assert(file_name@.subrange(0, 5)[0] == file_name@[0]);
                assert(file_name@[0] == 'n');
                if is_prefix_of("wasm:"@, file_name@) {
                    assert(file_name@.subrange(0, 5)[0] == file_name@[0]);
                }
                if is_prefix_of("file:"@, file_name@) {
                    assert(file_name@.subrange(0, 5)[0] == file_name@[0]);
                }
                if is_prefix_of("http:"@, file_name@) {
                    assert(file_name@.subrange(0, 5)[0] == file_name@[0]);
                }
                if is_prefix_of("https:"@, file_name@) {
                    assert(file_name@.subrange(0, 6)[0] == file_name@[0]);
                }
                if is_prefix_of("data:"@, file_name@) {
                    assert(file_name@.subrange(0, 5)[0] == file_name@[0]);
                }
                if is_prefix_of("blob:"@, file_name@) {
                    assert(file_name@.subrange(0, 5)[0] == file_name@[0]);
                }
            }
        }
        match self.load_prepared_module(container, cache, env, file_name, None) {
            Ok(cs) => source_map_from_code(cs.code.as_str()),
            Err(_) => None,
        }
    }

    /// Decides what a preparation request for `specifier` must do before the
    /// engine may load it: an npm-realm specifier needs none, any other
    /// becomes the single root of a preparation under this loader's library
    /// and the permission snapshot matching the import site.
    pub fn prepare_load(&self, specifier: &str, is_dynamic: bool) -> (r: PrepareLoadPlan)
        ensures
            self.spec_in_npm_realm(specifier@) ==> r matches PrepareLoadPlan::NoPreparation,
            !self.spec_in_npm_realm(specifier@) ==> (match r {
                PrepareLoadPlan::Prepare {
                    roots,
                    is_dynamic: d,
                    lib,
                    root_permissions,
                    dynamic_permissions,
                } => views_of(roots@) == seq![specifier@] && d == is_dynamic && lib == self.lib
                    && root_permissions == crate::options::spec_selected_permissions(
                    is_dynamic,
                    self.root_permissions,
                    self.dynamic_permissions,
                ) && dynamic_permissions == self.dynamic_permissions,
                _ => false,
            }),
    {
        if self.in_npm_realm(specifier) {
            PrepareLoadPlan::NoPreparation
        } else {
            let mut roots: Vec<String> = Vec::new();
            roots.push(String::from_str(specifier));
            proof {
                assert(views_of(roots@) =~= seq![specifier@]);
            }
            PrepareLoadPlan::Prepare {
                roots,
                is_dynamic,
                lib: self.lib,
                root_permissions: select_permissions(
                    is_dynamic,
                    &self.root_permissions,
                    &self.dynamic_permissions,
                ),
                dynamic_permissions: self.dynamic_permissions,
            }
        }
    }
}

/// What must happen before the engine may load a specifier.
#[derive(Debug)]
pub enum PrepareLoadPlan {
    /// An npm-realm specifier is loadable directly from disk.
    NoPreparation,
    /// Anything else must first be prepared with these arguments.
    Prepare {
        roots: Vec<String>,
        is_dynamic: bool,
        lib: TsTypeLib,
        root_permissions: PermissionsContainer,
        dynamic_permissions: PermissionsContainer,
    },
}

/// Shape-and-view agreement of two resolution results.
pub open spec fn spec_result_agrees(
    r1: Result<String, ResolveError>,
    r2: Result<String, ResolveError>,
) -> bool {
    match (r1, r2) {
        (Ok(a), Ok(b)) => a@ == b@,
        (Err(e1), Err(e2)) => spec_resolve_error_agrees(e1, e2),
        _ => false,
    }
}

/// Shape-and-view agreement of two resolution errors.
pub open spec fn spec_resolve_error_agrees(e1: ResolveError, e2: ResolveError) -> bool {
    match (e1, e2) {
        (
            ResolveError::Node { error: a, specifier: s1, referrer: r1 },
            ResolveError::Node { error: b, specifier: s2, referrer: r2 },
        ) => spec_node_error_agrees(a, b) && s1@ == s2@ && r1@ == r2@,
        _ => false,
    }
}

/// Shape-and-view agreement of two Node resolution errors.
pub open spec fn spec_node_error_agrees(a: NodeError, b: NodeError) -> bool {
    match (a, b) {
        (NodeError::Failed { message: m1 }, NodeError::Failed { message: m2 }) => m1@ == m2@,
        (NodeError::NotFound, NodeError::NotFound) => true,
        (NodeError::UnknownBuiltin { name: n1 }, NodeError::UnknownBuiltin { name: n2 }) => n1@
            == n2@,
        _ => false,
    }
}

/// Resolution precedence: for a referrer inside an npm realm the outcome is
/// fixed by the Node resolver's answer alone. Two calls whose environments
/// agree on that answer agree on the outcome, whatever their graphs,
/// import-map entries or generic-resolver answers: the generic resolver is
/// never consulted.
pub proof fn lemma_npm_realm_precedence(
    cfg: CliModuleLoader,
    graph1: ModuleGraph,
    graph2: ModuleGraph,
    env1: ResolveEnv,
    env2: ResolveEnv,
    specifier: Seq<char>,
    referrer: Seq<char>,
    url: Seq<char>,
    r1: Result<String, ResolveError>,
    r2: Result<String, ResolveError>,
)
    requires
        env1.referrer_url matches UrlParseOutcome::Parsed { url: u } && u@ == url,
        env2.referrer_url matches UrlParseOutcome::Parsed { url: u } && u@ == url,
        cfg.spec_in_npm_realm(url),
        env1.node_answer == env2.node_answer,
        spec_resolve_outcome(cfg, graph1, env1, specifier, referrer, r1),
        spec_resolve_outcome(cfg, graph2, env2, specifier, referrer, r2),
    ensures
        spec_result_agrees(r1, r2),
{
}

/// Resolving an explicit builtin-namespace specifier always yields the
/// builtin resolution when neither an npm-realm referrer nor a recorded
/// graph edge takes precedence (and those two roads lead to the same
/// builtin through the Node resolver's own builtin answer and the graph's
/// Node module, exercised by the tests).
pub proof fn lemma_builtin_specifier(
    cfg: CliModuleLoader,
    graph: ModuleGraph,
    env: ResolveEnv,
    specifier: Seq<char>,
    referrer: Seq<char>,
    r: Result<String, ResolveError>,
)
    requires
        is_prefix_of("node:"@, specifier),
        spec_resolve_outcome(cfg, graph, env, specifier, referrer, r),
        match env.referrer_url {
            UrlParseOutcome::Parsed { url } => !cfg.spec_in_npm_realm(url@) && match spec_graph_edge(
                graph,
                url@,
                specifier,
            ) {
                Some(Resolution::Resolved { .. }) => false,
                Some(Resolution::Erred { .. }) => false,
                _ => true,
            },
            UrlParseOutcome::Failed { .. } => false,
        },
    ensures
        spec_builtin_result(cfg.builtins_view(), specifier.skip(5), r),
{
}

/// CJS stickiness: a specifier once recorded as CommonJS is still recorded
/// after any later growth of the store, and every npm-realm load of it goes
/// through the CommonJS-to-ESM translation, never the plain ES-module
/// handling.
pub proof fn lemma_cjs_stickiness(
    cfg: CliModuleLoader,
    graph: ModuleGraph,
    cjs_then: CjsResolutionStore,
    cjs_now: CjsResolutionStore,
    env: LoadEnv,
    specifier: Seq<char>,
    referrer: Option<Seq<char>>,
    r: Result<ModuleSource, LoadError>,
)
    requires
        cjs_then.spec_contains(specifier),
        forall|t: Seq<char>| cjs_then.spec_contains(t) ==> cjs_now.spec_contains(t),
        cfg.spec_in_npm_realm(specifier),
        env.disk matches DiskAnswer::Read { .. },
        spec_load_sync_outcome(cfg, graph, cjs_now, env, specifier, referrer, r),
    ensures
        cjs_now.spec_contains(specifier),
        match (env.translate_cjs, r) {
            (TranslateAnswer::Translated { code }, Ok(ms)) => ms.code@ == (if cfg.is_inspecting {
                code@
            } else {
                spec_code_without_source_map(code@)
            }),
            (
                TranslateAnswer::TranslateFailed { message },
                Err(LoadError::Translate { message: m }),
            ) => m@ == message@,
            _ => false,
        },
{
}

} // verus!
