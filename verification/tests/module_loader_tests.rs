use module_loader::container::ModuleGraphContainer;
use module_loader::graph::Dependency;
use module_loader::graph::Module;
use module_loader::graph::ModuleGraph;
use module_loader::graph::Resolution;
use module_loader::loader::CliModuleLoader;
use module_loader::loader::DiskAnswer;
use module_loader::loader::EmitAnswer;
use module_loader::loader::GenericAnswer;
use module_loader::loader::LoadEnv;
use module_loader::loader::LoadError;
use module_loader::loader::ModuleType;
use module_loader::loader::NodeAnswer;
use module_loader::loader::PrepareLoadPlan;
use module_loader::loader::ProcState;
use module_loader::loader::ResolveEnv;
use module_loader::loader::ResolveError;
use module_loader::loader::TranslateAnswer;
use module_loader::loader::UrlParseOutcome;
use module_loader::loader::code_without_source_map;
use module_loader::loader::handle_node_resolve_result;
use module_loader::loader::resolve_builtin_node_module;
use module_loader::media::MediaType;
use module_loader::media::media_type_for_specifier;
use module_loader::options::PermissionsContainer;
use module_loader::options::ResolutionKind;
use module_loader::options::TsTypeLib;
use module_loader::options::TypeCheckMode;
use module_loader::prepare::CheckOutcome;
use module_loader::prepare::FetchEntry;
use module_loader::prepare::FetchTable;
use module_loader::prepare::FetchedModule;
use module_loader::prepare::LockfileOutcome;
use module_loader::prepare::ModuleLoadPreparer;
use module_loader::prepare::PrepareError;
use module_loader::prepare::PrepareOptions;
use module_loader::store::CjsResolutionStore;
use module_loader::store::ParsedSourceCache;

fn s(x: &str) -> String {
    x.to_string()
}

fn proc_state(is_repl: bool, is_inspecting: bool, npm_realm: Vec<&str>) -> ProcState {
    ProcState {
        lib_window: TsTypeLib::Window,
        lib_worker: TsTypeLib::Worker,
        is_repl,
        is_inspecting,
        npm_realm: npm_realm.into_iter().map(s).collect(),
        builtins: vec![s("fs"), s("path"), s("os"), s("http"), s("url"), s("util")],
    }
}

fn loader(is_repl: bool, is_inspecting: bool, npm_realm: Vec<&str>) -> CliModuleLoader {
    CliModuleLoader::new(
        &proc_state(is_repl, is_inspecting, npm_realm),
        PermissionsContainer::allow_all(),
        PermissionsContainer { allows_all: false },
    )
}

fn env_with_referrer(referrer: &str) -> ResolveEnv {
    ResolveEnv {
        referrer_url: UrlParseOutcome::Parsed { url: s(referrer) },
        node_answer: NodeAnswer::Missing,
        npm_reference_answer: NodeAnswer::Missing,
        npm_requirement_answer: NodeAnswer::Missing,
        generic_answer: GenericAnswer::Erred {
            message: s("no import map entry"),
        },
        specifier_parses_as_url: false,
    }
}

fn load_env() -> LoadEnv {
    LoadEnv {
        disk: DiskAnswer::Read { code: s("module.exports = 1;") },
        translate_cjs: TranslateAnswer::Translated { code: s("translated cjs") },
        esm_globals: TranslateAnswer::Translated { code: s("esm with globals") },
        emit: EmitAnswer::Emitted { code: s("emitted js") },
    }
}

fn esm(specifier: &str, source: &str, media: MediaType, deps: Vec<Dependency>) -> Module {
    Module::Esm {
        specifier: s(specifier),
        source: s(source),
        media_type: media,
        dependencies: deps,
    }
}

fn dep(import: &str, resolution: Resolution) -> Dependency {
    Dependency { import: s(import), resolution }
}

fn graph_with(modules: Vec<Module>) -> ModuleGraphContainer {
    let mut c = ModuleGraphContainer::new();
    let permit_modules = modules;
    let mut permit = c.acquire_update_permit();
    for m in permit_modules {
        if permit.get_working(&c, m.specifier().as_str()).is_none() {
            permit.insert(m);
        }
    }
    permit.commit(&mut c);
    c
}

// --- resolution ---

#[test]
fn builtin_specifier_resolves_from_plain_referrer() {
    let l = loader(false, false, vec![]);
    let c = ModuleGraphContainer::new();
    let mut cjs = CjsResolutionStore::new();
    let env = env_with_referrer("file:///main.ts");
    let r = l.resolve(&c, &mut cjs, &env, "node:fs", "file:///main.ts", ResolutionKind::Import);
    assert_eq!(r.unwrap(), s("node:fs"));
}

#[test]
fn builtin_specifier_resolves_from_unparsable_referrer() {
    let l = loader(false, false, vec![]);
    let c = ModuleGraphContainer::new();
    let mut cjs = CjsResolutionStore::new();
    let mut env = env_with_referrer("");
    env.referrer_url = UrlParseOutcome::Failed { message: s("relative URL without a base") };
    let r = l.resolve(&c, &mut cjs, &env, "node:fs", "", ResolutionKind::Import);
    assert_eq!(r.unwrap(), s("node:fs"));
}

#[test]
fn builtin_specifier_resolves_from_npm_realm_referrer() {
    let l = loader(false, false, vec!["file:///node_modules/pkg/index.js"]);
    let c = ModuleGraphContainer::new();
    let mut cjs = CjsResolutionStore::new();
    let mut env = env_with_referrer("file:///node_modules/pkg/index.js");
    env.node_answer = NodeAnswer::BuiltIn { name: s("fs") };
    let r = l.resolve(
        &c,
        &mut cjs,
        &env,
        "node:fs",
        "file:///node_modules/pkg/index.js",
        ResolutionKind::Import,
    );
    assert_eq!(r.unwrap(), s("node:fs"));
}

#[test]
fn unknown_builtin_is_hard_error() {
    let l = loader(false, false, vec![]);
    let c = ModuleGraphContainer::new();
    let mut cjs = CjsResolutionStore::new();
    let env = env_with_referrer("file:///main.ts");
    let r = l.resolve(&c, &mut cjs, &env, "node:nope", "file:///main.ts", ResolutionKind::Import);
    match r {
        Err(ResolveError::UnknownBuiltin { name }) => assert_eq!(name, s("nope")),
        other => panic!("expected unknown builtin, got {:?}", other),
    }
}

#[test]
fn npm_realm_referrer_skips_generic_resolver() {
    // The generic resolver has an answer, but an npm-realm referrer must
    // never consult it.
    let l = loader(false, false, vec!["file:///node_modules/pkg/index.js"]);
    let c = ModuleGraphContainer::new();
    let mut cjs = CjsResolutionStore::new();
    let mut env = env_with_referrer("file:///node_modules/pkg/index.js");
    env.generic_answer = GenericAnswer::Resolved { url: s("file:///import-map-hit.js") };
    env.node_answer = NodeAnswer::Esm { url: s("file:///node_modules/dep/lib.js") };
    let r = l.resolve(
        &c,
        &mut cjs,
        &env,
        "dep",
        "file:///node_modules/pkg/index.js",
        ResolutionKind::Import,
    );
    assert_eq!(r.unwrap(), s("file:///node_modules/dep/lib.js"));
}

#[test]
fn npm_realm_commonjs_answer_is_recorded() {
    let l = loader(false, false, vec!["file:///node_modules/pkg/index.js"]);
    let c = ModuleGraphContainer::new();
    let mut cjs = CjsResolutionStore::new();
    let mut env = env_with_referrer("file:///node_modules/pkg/index.js");
    env.node_answer = NodeAnswer::CommonJs { url: s("file:///node_modules/dep/lib.cjs") };
    let r = l.resolve(
        &c,
        &mut cjs,
        &env,
        "dep",
        "file:///node_modules/pkg/index.js",
        ResolutionKind::Import,
    );
    assert_eq!(r.unwrap(), s("file:///node_modules/dep/lib.cjs"));
    assert!(cjs.contains("file:///node_modules/dep/lib.cjs"));
}

#[test]
fn npm_realm_node_failure_carries_context() {
    let l = loader(false, false, vec!["file:///node_modules/pkg/index.js"]);
    let c = ModuleGraphContainer::new();
    let mut cjs = CjsResolutionStore::new();
    let mut env = env_with_referrer("file:///node_modules/pkg/index.js");
    env.node_answer = NodeAnswer::Missing;
    let r = l.resolve(
        &c,
        &mut cjs,
        &env,
        "dep",
        "file:///node_modules/pkg/index.js",
        ResolutionKind::Import,
    );
    match r {
        Err(ResolveError::Node { specifier, referrer, .. }) => {
            assert_eq!(specifier, s("dep"));
            assert_eq!(referrer, s("file:///node_modules/pkg/index.js"));
        }
        other => panic!("expected node error, got {:?}", other),
    }
}

#[test]
fn graph_edge_to_esm_module_resolves_to_its_specifier() {
    let main = esm(
        "file:///main.ts",
        "import './util.ts';",
        MediaType::TypeScript,
        vec![dep("./util.ts", Resolution::Resolved { specifier: s("file:///util.ts") })],
    );
    let util = esm("file:///util.ts", "export const x = 1;", MediaType::TypeScript, vec![]);
    let c = graph_with(vec![main, util]);
    let l = loader(false, false, vec![]);
    let mut cjs = CjsResolutionStore::new();
    let env = env_with_referrer("file:///main.ts");
    let r = l.resolve(&c, &mut cjs, &env, "./util.ts", "file:///main.ts", ResolutionKind::Import);
    assert_eq!(r.unwrap(), s("file:///util.ts"));
}

#[test]
fn graph_edge_with_absent_target_passes_specifier_through() {
    let main = esm(
        "file:///main.ts",
        "import 'https://example.com/x.ts';",
        MediaType::TypeScript,
        vec![dep(
            "https://example.com/x.ts",
            Resolution::Resolved { specifier: s("https://example.com/x.ts") },
        )],
    );
    let c = graph_with(vec![main]);
    let l = loader(false, false, vec![]);
    let mut cjs = CjsResolutionStore::new();
    let env = env_with_referrer("file:///main.ts");
    let r = l.resolve(
        &c,
        &mut cjs,
        &env,
        "https://example.com/x.ts",
        "file:///main.ts",
        ResolutionKind::Import,
    );
    assert_eq!(r.unwrap(), s("https://example.com/x.ts"));
}

#[test]
fn graph_edge_to_external_module_is_remapped() {
    let main = esm(
        "file:///main.ts",
        "import 'ext';",
        MediaType::TypeScript,
        vec![dep("ext", Resolution::Resolved { specifier: s("https://reg.example/ext.js") })],
    );
    let ext = Module::External { specifier: s("https://reg.example/ext.js") };
    let c = graph_with(vec![main, ext]);
    let l = loader(false, false, vec![]);
    let mut cjs = CjsResolutionStore::new();
    let env = env_with_referrer("file:///main.ts");
    let r = l.resolve(&c, &mut cjs, &env, "ext", "file:///main.ts", ResolutionKind::Import);
    assert_eq!(r.unwrap(), s("node-modules:https://reg.example/ext.js"));
}

#[test]
fn graph_edge_to_node_module_maps_to_builtin() {
    let main = esm(
        "file:///main.ts",
        "import 'node:path';",
        MediaType::TypeScript,
        vec![dep("node:path", Resolution::Resolved { specifier: s("node:path") })],
    );
    let node = Module::Node { specifier: s("node:path"), module_name: s("path") };
    let c = graph_with(vec![main, node]);
    let l = loader(false, false, vec![]);
    let mut cjs = CjsResolutionStore::new();
    let env = env_with_referrer("file:///main.ts");
    let r = l.resolve(&c, &mut cjs, &env, "node:path", "file:///main.ts", ResolutionKind::Import);
    assert_eq!(r.unwrap(), s("node:path"));
}

#[test]
fn graph_erred_edge_surfaces_diagnostic() {
    let main = esm(
        "file:///main.ts",
        "import './gone.ts';",
        MediaType::TypeScript,
        vec![dep("./gone.ts", Resolution::Erred { diagnostic: s("Module not found \"./gone.ts\".") })],
    );
    let c = graph_with(vec![main]);
    let l = loader(false, false, vec![]);
    let mut cjs = CjsResolutionStore::new();
    let env = env_with_referrer("file:///main.ts");
    let r = l.resolve(&c, &mut cjs, &env, "./gone.ts", "file:///main.ts", ResolutionKind::Import);
    match r {
        Err(ResolveError::GraphDiagnostic { diagnostic }) => {
            assert_eq!(diagnostic, s("Module not found \"./gone.ts\"."));
        }
        other => panic!("expected graph diagnostic, got {:?}", other),
    }
}

#[test]
fn generic_resolution_passes_through() {
    let l = loader(false, false, vec![]);
    let c = ModuleGraphContainer::new();
    let mut cjs = CjsResolutionStore::new();
    let mut env = env_with_referrer("file:///main.ts");
    env.generic_answer = GenericAnswer::Resolved { url: s("file:///lib/util.ts") };
    let r = l.resolve(&c, &mut cjs, &env, "./util.ts", "file:///main.ts", ResolutionKind::Import);
    assert_eq!(r.unwrap(), s("file:///lib/util.ts"));
}

#[test]
fn generic_resolution_failure_is_an_error() {
    let l = loader(false, false, vec![]);
    let c = ModuleGraphContainer::new();
    let mut cjs = CjsResolutionStore::new();
    let env = env_with_referrer("file:///main.ts");
    let r = l.resolve(&c, &mut cjs, &env, "missing", "file:///main.ts", ResolutionKind::Import);
    match r {
        Err(ResolveError::Generic { message }) => assert_eq!(message, s("no import map entry")),
        other => panic!("expected generic error, got {:?}", other),
    }
}

#[test]
fn unparsable_referrer_fails_outside_interactive_mode() {
    let l = loader(false, false, vec![]);
    let c = ModuleGraphContainer::new();
    let mut cjs = CjsResolutionStore::new();
    let mut env = env_with_referrer("");
    env.referrer_url = UrlParseOutcome::Failed { message: s("invalid referrer") };
    let r = l.resolve(&c, &mut cjs, &env, "./x.ts", "not a url", ResolutionKind::Import);
    match r {
        Err(ResolveError::ReferrerParse { message }) => assert_eq!(message, s("invalid referrer")),
        other => panic!("expected referrer parse error, got {:?}", other),
    }
}

#[test]
fn repl_retries_package_requirement_on_generic_failure() {
    // The generic resolver fails; the raw specifier parses as a package
    // requirement reference, so the Node resolver's requirement path wins.
    let l = loader(true, false, vec![]);
    let c = ModuleGraphContainer::new();
    let mut cjs = CjsResolutionStore::new();
    let mut env = env_with_referrer("file:///repl.ts");
    env.specifier_parses_as_url = true;
    env.npm_requirement_answer =
        NodeAnswer::Esm { url: s("file:///node_modules/chalk/index.js") };
    let r = l.resolve(&c, &mut cjs, &env, "npm:chalk@5", "file:///repl.ts", ResolutionKind::Import);
    assert_eq!(r.unwrap(), s("file:///node_modules/chalk/index.js"));
}

#[test]
fn repl_plain_specifier_still_reports_generic_failure() {
    // Not a package requirement reference, so the interactive retry does
    // not apply and the generic failure stands.
    let l = loader(true, false, vec![]);
    let c = ModuleGraphContainer::new();
    let mut cjs = CjsResolutionStore::new();
    let mut env = env_with_referrer("file:///repl.ts");
    env.specifier_parses_as_url = true;
    env.npm_requirement_answer =
        NodeAnswer::Esm { url: s("file:///node_modules/chalk/index.js") };
    let r = l.resolve(&c, &mut cjs, &env, "file:///x.ts", "file:///repl.ts", ResolutionKind::Import);
    match r {
        Err(ResolveError::Generic { .. }) => {}
        other => panic!("expected generic error, got {:?}", other),
    }
}

#[test]
fn handle_node_resolve_records_commonjs_and_maps_builtins() {
    let builtins = vec![s("fs")];
    let mut cjs = CjsResolutionStore::new();
    let r = handle_node_resolve_result(
        &mut cjs,
        &builtins,
        &NodeAnswer::CommonJs { url: s("file:///a.cjs") },
    );
    assert_eq!(r.unwrap(), s("file:///a.cjs"));
    assert!(cjs.contains("file:///a.cjs"));
    let r = handle_node_resolve_result(&mut cjs, &builtins, &NodeAnswer::BuiltIn { name: s("fs") });
    assert_eq!(r.unwrap(), s("node:fs"));
    let r = handle_node_resolve_result(&mut cjs, &builtins, &NodeAnswer::Missing);
    assert!(r.is_err());
}

#[test]
fn resolve_builtin_rejects_unknown_names() {
    let builtins = vec![s("fs"), s("path")];
    assert_eq!(resolve_builtin_node_module(&builtins, "path").unwrap(), s("node:path"));
    assert!(resolve_builtin_node_module(&builtins, "child_process").is_err());
}

// --- loading ---

#[test]
fn declaration_media_loads_as_empty_code() {
    let m = esm("file:///types.d.ts", "export type X = number;", MediaType::Dts, vec![]);
    let c = graph_with(vec![m]);
    let l = loader(false, false, vec![]);
    let mut cache = ParsedSourceCache::new();
    let r = l.load_prepared_module(&c, &mut cache, &load_env(), "file:///types.d.ts", None);
    let cs = r.unwrap();
    assert_eq!(cs.code, s(""));
    assert_eq!(cs.media_type, MediaType::Dts);
}

#[test]
fn plain_javascript_loads_raw_source() {
    let m = esm("file:///a.js", "console.log(1);", MediaType::JavaScript, vec![]);
    let c = graph_with(vec![m]);
    let l = loader(false, false, vec![]);
    let mut cache = ParsedSourceCache::new();
    let r = l.load_prepared_module(&c, &mut cache, &load_env(), "file:///a.js", None);
    assert_eq!(r.unwrap().code, s("console.log(1);"));
}

#[test]
fn json_module_loads_raw_source_tagged_json() {
    let m = Module::Json {
        specifier: s("file:///data.json"),
        source: s("{\"a\":1}"),
        media_type: MediaType::Json,
    };
    let c = graph_with(vec![m]);
    let l = loader(false, false, vec![]);
    let cjs = CjsResolutionStore::new();
    let mut cache = ParsedSourceCache::new();
    let r = l.load_sync(&c, &cjs, &mut cache, &load_env(), "file:///data.json", None, false);
    let ms = r.unwrap();
    assert_eq!(ms.module_type, ModuleType::Json);
    assert_eq!(ms.code, s("{\"a\":1}"));
}

#[test]
fn json_load_keeps_the_parsed_source_cache() {
    // only ES modules were ever parsed, so a JSON load evicts nothing
    let m = Module::Json {
        specifier: s("file:///data.json"),
        source: s("{}"),
        media_type: MediaType::Json,
    };
    let c = graph_with(vec![m]);
    let l = loader(false, false, vec![]);
    let mut cache = ParsedSourceCache::new();
    cache.insert(s("file:///data.json"));
    let r = l.load_prepared_module(&c, &mut cache, &load_env(), "file:///data.json", None);
    assert!(r.is_ok());
    let mut held = false;
    for e in &cache.entries {
        if e == "file:///data.json" {
            held = true;
        }
    }
    assert!(held);
}

#[test]
fn failed_load_keeps_the_parsed_source_cache() {
    let m = esm("file:///a.ts", "const x: number = 1;", MediaType::TypeScript, vec![]);
    let c = graph_with(vec![m]);
    let l = loader(false, false, vec![]);
    let mut cache = ParsedSourceCache::new();
    cache.insert(s("file:///a.ts"));
    let mut env = load_env();
    env.emit = EmitAnswer::EmitFailed { message: s("emit exploded") };
    let r = l.load_prepared_module(&c, &mut cache, &env, "file:///a.ts", None);
    assert!(r.is_err());
    let mut held = false;
    for e in &cache.entries {
        if e == "file:///a.ts" {
            held = true;
        }
    }
    assert!(held);
}

#[test]
fn typescript_module_loads_emitted_code() {
    let m = esm("file:///a.ts", "const x: number = 1;", MediaType::TypeScript, vec![]);
    let c = graph_with(vec![m]);
    let l = loader(false, false, vec![]);
    let mut cache = ParsedSourceCache::new();
    cache.insert(s("file:///a.ts"));
    let r = l.load_prepared_module(&c, &mut cache, &load_env(), "file:///a.ts", None);
    assert_eq!(r.unwrap().code, s("emitted js"));
    // the parsed form is evicted after emission
    let mut held = false;
    for e in &cache.entries {
        if e == "file:///a.ts" {
            held = true;
        }
    }
    assert!(!held);
}

#[test]
fn emit_failure_propagates() {
    let m = esm("file:///a.ts", "const x: number = 1;", MediaType::TypeScript, vec![]);
    let c = graph_with(vec![m]);
    let l = loader(false, false, vec![]);
    let mut cache = ParsedSourceCache::new();
    let mut env = load_env();
    env.emit = EmitAnswer::EmitFailed { message: s("emit exploded") };
    let r = l.load_prepared_module(&c, &mut cache, &env, "file:///a.ts", None);
    match r {
        Err(LoadError::Emit { message }) => assert_eq!(message, s("emit exploded")),
        other => panic!("expected emit error, got {:?}", other),
    }
}

#[test]
fn internal_media_type_is_invariant_violation() {
    let m = esm("file:///style.css", "body {}", MediaType::Css, vec![]);
    let c = graph_with(vec![m]);
    let l = loader(false, false, vec![]);
    let mut cache = ParsedSourceCache::new();
    let r = l.load_prepared_module(&c, &mut cache, &load_env(), "file:///style.css", None);
    match r {
        Err(LoadError::InternalMediaType { media_type, specifier }) => {
            assert_eq!(media_type, MediaType::Css);
            assert_eq!(specifier, s("file:///style.css"));
        }
        other => panic!("expected invariant violation, got {:?}", other),
    }
}

#[test]
fn missing_module_error_names_specifier() {
    let c = ModuleGraphContainer::new();
    let l = loader(false, false, vec![]);
    let cjs = CjsResolutionStore::new();
    let mut cache = ParsedSourceCache::new();
    let referrer = s("file:///main.ts");
    let r = l.load_sync(
        &c,
        &cjs,
        &mut cache,
        &load_env(),
        "file:///never-prepared.ts",
        Some(&referrer),
        false,
    );
    match r {
        Err(LoadError::Unprepared { specifier, referrer }) => {
            assert_eq!(specifier, s("file:///never-prepared.ts"));
            assert_eq!(referrer, Some(s("file:///main.ts")));
        }
        other => panic!("expected unprepared error, got {:?}", other),
    }
}

#[test]
fn cjs_marked_specifier_is_translated_as_commonjs() {
    let realm = "file:///node_modules/pkg/index.js";
    let l = loader(false, false, vec![realm]);
    let c = ModuleGraphContainer::new();
    let mut cjs = CjsResolutionStore::new();
    cjs.insert(s(realm));
    let mut cache = ParsedSourceCache::new();
    let r = l.load_sync(&c, &cjs, &mut cache, &load_env(), realm, None, false);
    assert_eq!(r.unwrap().code, s("translated cjs"));
    // still CommonJS on a later load: the store never forgets
    let r = l.load_sync(&c, &cjs, &mut cache, &load_env(), realm, None, true);
    assert_eq!(r.unwrap().code, s("translated cjs"));
}

#[test]
fn unmarked_npm_realm_specifier_gets_plain_node_globals() {
    let realm = "file:///node_modules/pkg/esm.mjs";
    let l = loader(false, false, vec![realm]);
    let c = ModuleGraphContainer::new();
    let cjs = CjsResolutionStore::new();
    let mut cache = ParsedSourceCache::new();
    let r = l.load_sync(&c, &cjs, &mut cache, &load_env(), realm, None, false);
    assert_eq!(r.unwrap().code, s("esm with globals"));
}

#[test]
fn npm_realm_disk_failure_propagates() {
    let realm = "file:///node_modules/pkg/index.js";
    let l = loader(false, false, vec![realm]);
    let c = ModuleGraphContainer::new();
    let cjs = CjsResolutionStore::new();
    let mut cache = ParsedSourceCache::new();
    let mut env = load_env();
    env.disk = DiskAnswer::ReadFailed { message: s("permission denied") };
    let r = l.load_sync(&c, &cjs, &mut cache, &env, realm, None, false);
    match r {
        Err(LoadError::Disk { specifier, message, .. }) => {
            assert_eq!(specifier, s(realm));
            assert_eq!(message, s("permission denied"));
        }
        other => panic!("expected disk error, got {:?}", other),
    }
}

#[test]
fn translate_failure_propagates() {
    let realm = "file:///node_modules/pkg/index.js";
    let l = loader(false, false, vec![realm]);
    let c = ModuleGraphContainer::new();
    let cjs = CjsResolutionStore::new();
    let mut cache = ParsedSourceCache::new();
    let mut env = load_env();
    env.esm_globals = TranslateAnswer::TranslateFailed { message: s("bad syntax") };
    let r = l.load_sync(&c, &cjs, &mut cache, &env, realm, None, false);
    match r {
        Err(LoadError::Translate { message }) => assert_eq!(message, s("bad syntax")),
        other => panic!("expected translate error, got {:?}", other),
    }
}

#[test]
fn source_map_stripped_without_debugger() {
    let m = esm("file:///a.ts", "const x: number = 1;", MediaType::TypeScript, vec![]);
    let c = graph_with(vec![m]);
    let l = loader(false, false, vec![]);
    let cjs = CjsResolutionStore::new();
    let mut cache = ParsedSourceCache::new();
    let mut env = load_env();
    env.emit = EmitAnswer::Emitted {
        code: s("var x = 1;\n//# sourceMappingURL=data:application/json;base64,eyJ2IjozfQ=="),
    };
    let r = l.load_sync(&c, &cjs, &mut cache, &env, "file:///a.ts", None, false);
    assert_eq!(r.unwrap().code, s("var x = 1;\n"));
}

#[test]
fn source_map_kept_byte_identical_with_debugger() {
    let m = esm("file:///a.ts", "const x: number = 1;", MediaType::TypeScript, vec![]);
    let c = graph_with(vec![m]);
    let l = loader(false, true, vec![]);
    let cjs = CjsResolutionStore::new();
    let mut cache = ParsedSourceCache::new();
    let emitted = s("var x = 1;\n//# sourceMappingURL=data:application/json;base64,eyJ2IjozfQ==");
    let mut env = load_env();
    env.emit = EmitAnswer::Emitted { code: emitted.clone() };
    let r = l.load_sync(&c, &cjs, &mut cache, &env, "file:///a.ts", None, false);
    assert_eq!(r.unwrap().code, emitted);
}

#[test]
fn code_without_source_map_keeps_plain_code() {
    assert_eq!(code_without_source_map(s("var x = 1;")), s("var x = 1;"));
    assert_eq!(
        code_without_source_map(s("a\n//# sourceMappingURL=x\nb")),
        s("a\n//# sourceMappingURL=x\nb")
    );
    assert_eq!(code_without_source_map(s("//# sourceMappingURL=x")), s(""));
}

#[test]
fn get_source_map_respects_schemes() {
    let m = esm("file:///a.ts", "const x: number = 1;", MediaType::TypeScript, vec![]);
    let c = graph_with(vec![m]);
    let l = loader(false, false, vec![]);
    let mut cache = ParsedSourceCache::new();
    let mut env = load_env();
    env.emit = EmitAnswer::Emitted { code: s("var x = 1;\n//# sourceMappingURL=abc") };
    let r = l.get_source_map(&c, &mut cache, &env, "file:///a.ts");
    assert_eq!(r, Some(s("abc")));
    let r = l.get_source_map(&c, &mut cache, &env, "unknown:///a.ts");
    assert_eq!(r, None);
}

// --- diagnostics ---

#[test]
fn source_line_lookup_returns_literal_line() {
    let m = esm("file:///a.ts", "line zero\nline one\nline two", MediaType::TypeScript, vec![]);
    let c = graph_with(vec![m]);
    let l = loader(false, false, vec![]);
    assert_eq!(l.get_source_line(&c, "file:///a.ts", 1), Some(s("line one")));
    assert_eq!(l.get_source_line(&c, "file:///a.ts", 0), Some(s("line zero")));
}

#[test]
fn out_of_range_line_lookup_returns_warning() {
    let m = esm("file:///a.ts", "only line", MediaType::TypeScript, vec![]);
    let c = graph_with(vec![m]);
    let l = loader(false, false, vec![]);
    let r = l.get_source_line(&c, "file:///a.ts", 7).unwrap();
    assert_eq!(
        r,
        s("Warning Couldn't format source line: Line 8 is out of bounds (source may have changed at runtime)")
    );
    let r = l.get_source_line(&c, "file:///a.ts", 122).unwrap();
    assert!(r.contains("Line 123 is out of bounds"));
    // a file absent from the graph yields nothing, still no failure
    assert_eq!(l.get_source_line(&c, "file:///other.ts", 0), None);
}

#[test]
fn trailing_newline_counts_as_final_empty_line() {
    let m = esm("file:///a.ts", "one\n", MediaType::TypeScript, vec![]);
    let c = graph_with(vec![m]);
    let l = loader(false, false, vec![]);
    assert_eq!(l.get_source_line(&c, "file:///a.ts", 1), Some(s("")));
}

// --- media type detection ---

#[test]
fn media_type_detection_follows_path_extension() {
    assert_eq!(media_type_for_specifier("file:///a/mod.ts"), MediaType::TypeScript);
    assert_eq!(media_type_for_specifier("file:///a/mod.d.ts"), MediaType::Dts);
    assert_eq!(media_type_for_specifier("file:///a/mod.tsx"), MediaType::Tsx);
    assert_eq!(media_type_for_specifier("file:///a/data.json"), MediaType::Json);
    assert_eq!(media_type_for_specifier("file:///a/mod.cjs"), MediaType::Cjs);
    assert_eq!(media_type_for_specifier("file:///a/mod.mjs"), MediaType::Mjs);
    assert_eq!(media_type_for_specifier("file:///a/noext"), MediaType::Unknown);
}

// --- container ---

#[test]
fn readers_never_observe_a_partial_update() {
    let mut c = ModuleGraphContainer::new();
    let mut permit = c.acquire_update_permit();
    permit.insert(esm("file:///a.ts", "a", MediaType::TypeScript, vec![]));
    permit.insert(esm("file:///b.ts", "b", MediaType::TypeScript, vec![]));
    // the reader still sees the empty committed snapshot
    assert_eq!(c.graph().len(), 0);
    permit.commit(&mut c);
    // after commit the whole update is visible at once
    assert_eq!(c.graph().len(), 2);
    assert!(c.graph().get("file:///a.ts").is_some());
    assert!(c.graph().get("file:///b.ts").is_some());
}

#[test]
fn discarded_permit_publishes_nothing() {
    let mut c = ModuleGraphContainer::new();
    let mut permit = c.acquire_update_permit();
    permit.insert(esm("file:///a.ts", "a", MediaType::TypeScript, vec![]));
    permit.abandon(&mut c);
    assert_eq!(c.graph().len(), 0);
    // the container is usable again afterwards
    let permit = c.acquire_update_permit();
    permit.commit(&mut c);
}

#[test]
fn type_checked_registry_is_per_pair() {
    let mut c = ModuleGraphContainer::new();
    let roots = vec![s("file:///main.ts")];
    assert!(!c.is_type_checked(&roots, TsTypeLib::Window));
    c.set_type_checked(roots.clone(), TsTypeLib::Window);
    assert!(c.is_type_checked(&roots, TsTypeLib::Window));
    assert!(!c.is_type_checked(&roots, TsTypeLib::Worker));
    assert!(!c.is_type_checked(&vec![s("file:///other.ts")], TsTypeLib::Window));
}

// --- preparation ---

fn options(mode: TypeCheckMode, has_lockfile: bool) -> PrepareOptions {
    PrepareOptions {
        type_check_mode: mode,
        reload_flag: false,
        has_lockfile,
        lib_window: TsTypeLib::Window,
    }
}

fn fetch_table(entries: Vec<(&str, FetchedModule)>) -> FetchTable {
    FetchTable {
        entries: entries
            .into_iter()
            .map(|(sp, module)| FetchEntry { specifier: s(sp), module })
            .collect(),
    }
}

fn main_and_util_table() -> FetchTable {
    fetch_table(vec![
        (
            "file:///main.ts",
            FetchedModule::Esm {
                media_type: MediaType::TypeScript,
                source: s("import './util.ts';"),
                dependencies: vec![dep(
                    "./util.ts",
                    Resolution::Resolved { specifier: s("file:///util.ts") },
                )],
            },
        ),
        (
            "file:///util.ts",
            FetchedModule::Esm {
                media_type: MediaType::TypeScript,
                source: s("export const x: string = 1;"),
                dependencies: vec![],
            },
        ),
    ])
}

fn prepare(
    preparer: &ModuleLoadPreparer,
    c: &mut ModuleGraphContainer,
    roots: Vec<&str>,
    table: &FetchTable,
    lockfile: &LockfileOutcome,
    check: &CheckOutcome,
) -> Result<module_loader::prepare::PrepareOutcome, PrepareError> {
    preparer.prepare_module_load(
        c,
        &roots.into_iter().map(s).collect::<Vec<String>>(),
        false,
        TsTypeLib::Window,
        PermissionsContainer::allow_all(),
        PermissionsContainer::allow_all(),
        table,
        lockfile,
        check,
    )
}

#[test]
fn type_error_aborts_preparation_before_any_load() {
    let preparer = ModuleLoadPreparer::new(options(TypeCheckMode::All, false));
    let mut c = ModuleGraphContainer::new();
    let table = main_and_util_table();
    let check = CheckOutcome::Diagnostics {
        message: s("TS2322: Type 'number' is not assignable to type 'string'."),
    };
    let r = prepare(&preparer, &mut c, vec!["file:///main.ts"], &table, &LockfileOutcome::Verified, &check);
    match r {
        Err(PrepareError::TypeCheck { message }) => assert!(message.contains("TS2322")),
        other => panic!("expected type check failure, got {:?}", other),
    }
    // the pair is not registered as checked
    assert!(!c.is_type_checked(&vec![s("file:///main.ts")], TsTypeLib::Window));
}

#[test]
fn second_preparation_skips_the_checker() {
    let preparer = ModuleLoadPreparer::new(options(TypeCheckMode::All, false));
    let mut c = ModuleGraphContainer::new();
    let table = main_and_util_table();
    let out1 = prepare(
        &preparer,
        &mut c,
        vec!["file:///main.ts"],
        &table,
        &LockfileOutcome::Verified,
        &CheckOutcome::Passed,
    )
    .unwrap();
    assert!(out1.checker_invoked);
    let out2 = prepare(
        &preparer,
        &mut c,
        vec!["file:///main.ts"],
        &table,
        &LockfileOutcome::Verified,
        &CheckOutcome::Passed,
    )
    .unwrap();
    assert!(!out2.checker_invoked);
}

#[test]
fn reload_passes_through_only_for_roots_not_yet_present() {
    let preparer = ModuleLoadPreparer::new(PrepareOptions {
        type_check_mode: TypeCheckMode::All,
        reload_flag: true,
        has_lockfile: false,
        lib_window: TsTypeLib::Window,
    });
    let mut c = ModuleGraphContainer::new();
    let table = main_and_util_table();
    // first preparation: the root is new, so the explicit reload reaches
    // the checker
    let out1 = prepare(
        &preparer,
        &mut c,
        vec!["file:///main.ts"],
        &table,
        &LockfileOutcome::Verified,
        &CheckOutcome::Passed,
    )
    .unwrap();
    assert!(out1.checker_invoked);
    assert!(out1.checker_reload);
    // second preparation under the worker library: the same roots were all
    // present before the build, so no reload is passed on
    let out2 = preparer
        .prepare_module_load(
            &mut c,
            &vec![s("file:///main.ts")],
            false,
            TsTypeLib::Worker,
            PermissionsContainer::allow_all(),
            PermissionsContainer::allow_all(),
            &table,
            &LockfileOutcome::Verified,
            &CheckOutcome::Passed,
        )
        .unwrap();
    assert!(out2.checker_invoked);
    assert!(!out2.checker_reload);
}

#[test]
fn disabled_checking_never_invokes_the_checker() {
    let preparer = ModuleLoadPreparer::new(options(TypeCheckMode::Disabled, false));
    let mut c = ModuleGraphContainer::new();
    let table = main_and_util_table();
    let out = prepare(
        &preparer,
        &mut c,
        vec!["file:///main.ts"],
        &table,
        &LockfileOutcome::Verified,
        &CheckOutcome::Passed,
    )
    .unwrap();
    assert!(!out.checker_invoked);
    assert!(!c.is_type_checked(&vec![s("file:///main.ts")], TsTypeLib::Window));
}

#[test]
fn successful_preparation_publishes_the_graph() {
    let preparer = ModuleLoadPreparer::new(options(TypeCheckMode::Disabled, false));
    let mut c = ModuleGraphContainer::new();
    let table = main_and_util_table();
    prepare(
        &preparer,
        &mut c,
        vec!["file:///main.ts"],
        &table,
        &LockfileOutcome::Verified,
        &CheckOutcome::Passed,
    )
    .unwrap();
    assert!(c.graph().get("file:///main.ts").is_some());
    assert!(c.graph().get("file:///util.ts").is_some());
}

#[test]
fn missing_root_aborts_and_publishes_nothing() {
    let preparer = ModuleLoadPreparer::new(options(TypeCheckMode::Disabled, false));
    let mut c = ModuleGraphContainer::new();
    let table = fetch_table(vec![]);
    let r = prepare(
        &preparer,
        &mut c,
        vec!["file:///absent.ts"],
        &table,
        &LockfileOutcome::Verified,
        &CheckOutcome::Passed,
    );
    match r {
        Err(PrepareError::MissingRoot { specifier }) => {
            assert_eq!(specifier, s("file:///absent.ts"));
        }
        other => panic!("expected missing root, got {:?}", other),
    }
    assert_eq!(c.graph().len(), 0);
}

#[test]
fn erred_resolution_aborts_and_publishes_nothing() {
    let preparer = ModuleLoadPreparer::new(options(TypeCheckMode::Disabled, false));
    let mut c = ModuleGraphContainer::new();
    let table = fetch_table(vec![(
        "file:///main.ts",
        FetchedModule::Esm {
            media_type: MediaType::TypeScript,
            source: s("import './gone.ts';"),
            dependencies: vec![dep(
                "./gone.ts",
                Resolution::Erred { diagnostic: s("Module not found \"./gone.ts\".") },
            )],
        },
    )]);
    let r = prepare(
        &preparer,
        &mut c,
        vec!["file:///main.ts"],
        &table,
        &LockfileOutcome::Verified,
        &CheckOutcome::Passed,
    );
    match r {
        Err(PrepareError::Resolution { diagnostic }) => {
            assert_eq!(diagnostic, s("Module not found \"./gone.ts\"."));
        }
        other => panic!("expected resolution failure, got {:?}", other),
    }
    assert_eq!(c.graph().len(), 0);
}

#[test]
fn lockfile_mismatch_is_fatal_and_publishes_nothing() {
    let preparer = ModuleLoadPreparer::new(options(TypeCheckMode::Disabled, true));
    let mut c = ModuleGraphContainer::new();
    let table = main_and_util_table();
    let r = prepare(
        &preparer,
        &mut c,
        vec!["file:///main.ts"],
        &table,
        &LockfileOutcome::Mismatch { message: s("integrity checksum mismatch for file:///util.ts") },
        &CheckOutcome::Passed,
    );
    match r {
        Err(PrepareError::Integrity { message }) => assert!(message.contains("mismatch")),
        other => panic!("expected integrity failure, got {:?}", other),
    }
    assert_eq!(c.graph().len(), 0);
}

#[test]
fn lockfile_write_failure_aborts() {
    let preparer = ModuleLoadPreparer::new(options(TypeCheckMode::Disabled, true));
    let mut c = ModuleGraphContainer::new();
    let table = main_and_util_table();
    let r = prepare(
        &preparer,
        &mut c,
        vec!["file:///main.ts"],
        &table,
        &LockfileOutcome::WriteFailed { message: s("read-only file system") },
        &CheckOutcome::Passed,
    );
    match r {
        Err(PrepareError::LockfileWrite { message }) => {
            assert_eq!(message, s("read-only file system"));
        }
        other => panic!("expected lockfile write failure, got {:?}", other),
    }
}

#[test]
fn load_and_type_check_files_reports_bad_path() {
    let preparer = ModuleLoadPreparer::new(options(TypeCheckMode::Disabled, false));
    let mut c = ModuleGraphContainer::new();
    let files = vec![
        UrlParseOutcome::Parsed { url: s("file:///main.ts") },
        UrlParseOutcome::Failed { message: s("invalid path") },
    ];
    let r = preparer.load_and_type_check_files(
        &mut c,
        &files,
        &fetch_table(vec![]),
        &LockfileOutcome::Verified,
        &CheckOutcome::Passed,
    );
    match r {
        Err(PrepareError::UriParse { message }) => assert_eq!(message, s("invalid path")),
        other => panic!("expected path error, got {:?}", other),
    }
}

#[test]
fn load_and_type_check_files_prepares_resolved_files() {
    let preparer = ModuleLoadPreparer::new(options(TypeCheckMode::All, false));
    let mut c = ModuleGraphContainer::new();
    let files = vec![UrlParseOutcome::Parsed { url: s("file:///main.ts") }];
    let out = preparer
        .load_and_type_check_files(
            &mut c,
            &files,
            &main_and_util_table(),
            &LockfileOutcome::Verified,
            &CheckOutcome::Passed,
        )
        .unwrap();
    assert!(out.checker_invoked);
    assert!(c.is_type_checked(&vec![s("file:///main.ts")], TsTypeLib::Window));
}

// --- prepare-load planning ---

#[test]
fn npm_realm_specifier_needs_no_preparation() {
    let l = loader(false, false, vec!["file:///node_modules/pkg/index.js"]);
    match l.prepare_load("file:///node_modules/pkg/index.js", false) {
        PrepareLoadPlan::NoPreparation => {}
        other => panic!("expected no preparation, got {:?}", other),
    }
}

#[test]
fn other_specifiers_become_single_root_preparations() {
    let l = loader(false, false, vec![]);
    match l.prepare_load("file:///main.ts", true) {
        PrepareLoadPlan::Prepare { roots, is_dynamic, lib, root_permissions, .. } => {
            assert_eq!(roots, vec![s("file:///main.ts")]);
            assert!(is_dynamic);
            assert_eq!(lib, TsTypeLib::Window);
            // dynamic imports carry the dynamic permission snapshot
            assert!(!root_permissions.allows_all);
        }
        other => panic!("expected preparation plan, got {:?}", other),
    }
}

#[test]
fn worker_loader_uses_worker_library() {
    let ps = proc_state(false, false, vec![]);
    let l = CliModuleLoader::new_for_worker(
        &ps,
        PermissionsContainer::allow_all(),
        PermissionsContainer::allow_all(),
    );
    assert_eq!(l.lib, TsTypeLib::Worker);
}

#[test]
fn graph_reads_find_inserted_modules() {
    let mut g = ModuleGraph::new();
    assert!(g.get("file:///a.ts").is_none());
    let _ = &mut g;
    let c = graph_with(vec![esm("file:///a.ts", "a", MediaType::TypeScript, vec![])]);
    match c.graph().get("file:///a.ts") {
        Some(Module::Esm { source, .. }) => assert_eq!(source, &s("a")),
        other => panic!("expected module, got {:?}", other),
    }
}
