use bundler_core::builtins::{
    BannerConfig, HtmlPluginConfig, Minification, MinificationCondition, MinificationConditions,
    RawBuiltins, RawMinification, RawMinificationCondition, RawMinificationConditions,
};
use bundler_core::compilation::{Compilation, MakeParam};
use bundler_core::compiler::Compiler;
use bundler_core::error::CoreError;
use bundler_core::fs::{FsError, MemoryFileSystem, WritableFileSystem};
use bundler_core::options::{
    CompilerOptions, EntryOptions, IncrementalRebuild, Optimization, OutputOptions, ResolveOptions,
    SideEffects, TreeShaking,
};
use bundler_core::plugin::{EntryPlugin, HookKind, Plugin, PluginDriver};
use bundler_core::resolver::ResolverFactory;

fn builtins(tree_shaking: TreeShaking, no_emit_assets: bool) -> bundler_core::builtins::Builtins {
    bundler_core::builtins::Builtins {
        minify_options: None,
        preset_env: None,
        define: Vec::new(),
        provide: Vec::new(),
        tree_shaking,
        react: bundler_core::builtins::ReactOptions { runtime: None },
        decorator: None,
        no_emit_assets,
        dev_friendly_split_chunks: false,
        emotion: None,
        plugin_import: None,
        relay: None,
        code_generation: None,
    }
}

fn options(
    clean: bool,
    tree_shaking: TreeShaking,
    side_effects: SideEffects,
    incremental: IncrementalRebuild,
) -> CompilerOptions {
    CompilerOptions {
        output: OutputOptions {
            path: String::from("out"),
            clean,
            enabled_library_types: None,
        },
        resolve: ResolveOptions { side_effect_free_requests: Vec::new() },
        optimization: Optimization { side_effects },
        builtins: builtins(tree_shaking, false),
        incremental_rebuild: incremental,
    }
}

fn entry(name: &str, request: &str) -> Plugin {
    Plugin::Entry(EntryPlugin::new(
        String::from(name),
        String::from(request),
        EntryOptions { runtime: None },
    ))
}

#[test]
fn condition_string_ok() {
    let raw = RawMinificationCondition {
        kind: String::from("string"),
        string_matcher: Some(String::from("foo")),
        regexp_matcher: None,
    };
    let c = MinificationCondition::try_from(raw).unwrap();
    assert_eq!(c, MinificationCondition::Text(String::from("foo")));
}

#[test]
fn condition_string_missing_matcher() {
    let raw = RawMinificationCondition {
        kind: String::from("string"),
        string_matcher: None,
        regexp_matcher: None,
    };
    assert_eq!(
        MinificationCondition::try_from(raw).unwrap_err(),
        CoreError::MissingStringMatcher
    );
}

#[test]
fn condition_regexp_missing_matcher() {
    let raw = RawMinificationCondition {
        kind: String::from("regexp"),
        string_matcher: None,
        regexp_matcher: None,
    };
    assert_eq!(
        MinificationCondition::try_from(raw).unwrap_err(),
        CoreError::MissingRegexpMatcher
    );
}

#[test]
fn condition_unknown_kind() {
    let raw = RawMinificationCondition {
        kind: String::from("glob"),
        string_matcher: Some(String::from("x")),
        regexp_matcher: None,
    };
    assert_eq!(
        MinificationCondition::try_from(raw).unwrap_err(),
        CoreError::UnknownConditionKind
    );
}

#[test]
fn conditions_array_first_error_wins() {
    let raw = RawMinificationConditions {
        kind: String::from("array"),
        string_matcher: None,
        regexp_matcher: None,
        array_matcher: Some(vec![
            RawMinificationCondition {
                kind: String::from("string"),
                string_matcher: Some(String::from("a")),
                regexp_matcher: None,
            },
            RawMinificationCondition {
                kind: String::from("regexp"),
                string_matcher: None,
                regexp_matcher: None,
            },
        ]),
    };
    assert_eq!(
        MinificationConditions::try_from(raw).unwrap_err(),
        CoreError::MissingRegexpMatcher
    );
}

#[test]
fn minification_converts_fields() {
    let raw = RawMinification {
        passes: 2,
        drop_console: true,
        pure_funcs: vec![String::from("console.log")],
        extract_comments: None,
        test: Some(RawMinificationConditions {
            kind: String::from("string"),
            string_matcher: Some(String::from("src/")),
            regexp_matcher: None,
            array_matcher: None,
        }),
        included: None,
        exclude: None,
    };
    let m = Minification::try_from(raw).unwrap();
    assert_eq!(m.passes, 2);
    assert!(m.drop_console);
    assert_eq!(m.test, Some(MinificationConditions::Text(String::from("src/"))));
    assert_eq!(m.included, None);
}

#[test]
fn raw_builtins_apply_registers_plugins_in_order() {
    let raw = RawBuiltins {
        html: Some(vec![HtmlPluginConfig { template: None, title: Some(String::from("t")) }]),
        css: None,
        postcss: None,
        minify_options: None,
        preset_env: None,
        define: Vec::new(),
        provide: Vec::new(),
        tree_shaking: String::from("true"),
        progress: None,
        react: bundler_core::builtins::ReactOptions { runtime: None },
        decorator: None,
        no_emit_assets: false,
        emotion: Some(String::from("{\"sourceMap\": true}")),
        dev_friendly_split_chunks: true,
        copy: None,
        banner: Some(vec![BannerConfig { banner: String::from("hi"), footer: false }]),
        plugin_import: None,
        relay: None,
        code_generation: None,
    };
    let mut plugins: Vec<Plugin> = Vec::new();
    let b = raw.apply(&mut plugins).unwrap();
    assert_eq!(plugins.len(), 3);
    assert!(matches!(plugins[0], Plugin::Html(_)));
    assert!(matches!(plugins[1], Plugin::DevFriendlySplitChunks));
    assert!(matches!(plugins[2], Plugin::Banner(_)));
    assert_eq!(b.tree_shaking, TreeShaking::Enabled);
    assert!(b.emotion.is_some());
}

#[test]
fn raw_builtins_apply_rejects_bad_emotion_json() {
    let raw = RawBuiltins {
        html: None,
        css: None,
        postcss: None,
        minify_options: None,
        preset_env: None,
        define: Vec::new(),
        provide: Vec::new(),
        tree_shaking: String::from("false"),
        progress: None,
        react: bundler_core::builtins::ReactOptions { runtime: None },
        decorator: None,
        no_emit_assets: false,
        emotion: Some(String::from("{not json")),
        dev_friendly_split_chunks: false,
        copy: None,
        banner: None,
        plugin_import: None,
        relay: None,
        code_generation: None,
    };
    let mut plugins: Vec<Plugin> = Vec::new();
    assert_eq!(raw.apply(&mut plugins).unwrap_err(), CoreError::InvalidEmotionOptions);
}

#[test]
fn strip_query_splits_at_first_question_mark() {
    assert_eq!(bundler_core::paths::strip_query("main.js?v=1"), "main.js");
    assert_eq!(bundler_core::paths::strip_query("main.js"), "main.js");
    assert_eq!(bundler_core::paths::strip_query("?x"), "");
}

#[test]
fn full_clean_removes_everything_under_output() {
    let inc = IncrementalRebuild { make: false, emit_asset: true };
    let mut fs = MemoryFileSystem::new();
    fs.write("out/junk.js", &vec![1u8]).unwrap();
    fs.write("elsewhere.txt", &vec![2u8]).unwrap();
    let mut compiler = Compiler::new(
        options(true, TreeShaking::Disabled, SideEffects::Disabled, inc),
        Vec::new(),
        fs,
    );
    compiler.emit_assets().unwrap();
    assert!(compiler.output_filesystem.read_file(&String::from("out/junk.js")).is_none());
    assert!(compiler.output_filesystem.read_file(&String::from("elsewhere.txt")).is_some());
}

#[test]
fn stale_files_are_pruned_and_nothing_else() {
    let inc = IncrementalRebuild { make: false, emit_asset: true };
    let mut fs = MemoryFileSystem::new();
    fs.write("out/old.js", &vec![1u8]).unwrap();
    fs.write("out/external.txt", &vec![2u8]).unwrap();
    let mut compiler = Compiler::new(
        options(true, TreeShaking::Disabled, SideEffects::Disabled, inc),
        Vec::new(),
        fs,
    );
    compiler.emitted_asset_versions.insert(String::from("old.js"), String::from("v1"));
    compiler.emit_assets().unwrap();
    assert!(compiler.output_filesystem.read_file(&String::from("out/old.js")).is_none());
    assert!(compiler.output_filesystem.read_file(&String::from("out/external.txt")).is_some());
}

#[test]
fn build_emits_entry_asset() {
    let inc = IncrementalRebuild { make: false, emit_asset: true };
    let mut compiler = Compiler::new(
        options(true, TreeShaking::Disabled, SideEffects::Disabled, inc),
        vec![entry("main", "index.js")],
        MemoryFileSystem::new(),
    );
    compiler.run().unwrap();
    let content = compiler.output_filesystem.read_file(&String::from("out/index.js")).unwrap();
    assert_eq!(content, "index.js".as_bytes());
    assert_eq!(compiler.output_filesystem.write_count(), 1);
}

#[test]
fn idempotent_rebuild_performs_zero_writes() {
    let inc = IncrementalRebuild { make: false, emit_asset: true };
    let mut compiler = Compiler::new(
        options(true, TreeShaking::Disabled, SideEffects::Disabled, inc),
        vec![entry("main", "index.js")],
        MemoryFileSystem::new(),
    );
    compiler.build().unwrap();
    let writes_after_first = compiler.output_filesystem.write_count();
    let first = compiler
        .output_filesystem
        .read_file(&String::from("out/index.js"))
        .unwrap()
        .clone();
    compiler.build().unwrap();
    assert_eq!(compiler.output_filesystem.write_count(), writes_after_first);
    let second = compiler.output_filesystem.read_file(&String::from("out/index.js")).unwrap();
    assert_eq!(&first, second);
}

#[test]
fn entry_registered_exactly_once() {
    let mut driver = PluginDriver::new(vec![entry("main", "index.js")]);
    let mut comp = Compilation::new(true, 0);
    let mut param = MakeParam::ForceBuildDeps(Vec::new());
    driver.run_make_hook(&mut comp, &mut param).unwrap();
    assert!(comp.entries.get(&String::from("main")).is_some());
    assert_eq!(comp.module_graph.dependencies.len(), 1);
    match &param {
        MakeParam::ForceBuildDeps(v) => assert_eq!(v.len(), 1),
        MakeParam::FreshBuild => panic!("unexpected variant"),
    }
    // a later incremental generation must not add a duplicate
    let mut comp2 = Compilation::new(true, 1);
    let mut param2 = MakeParam::ForceBuildDeps(Vec::new());
    driver.run_make_hook(&mut comp2, &mut param2).unwrap();
    assert!(comp2.entries.get(&String::from("main")).is_none());
    assert_eq!(comp2.module_graph.dependencies.len(), 0);
}

#[test]
fn tree_shaking_gate_and_narrowing() {
    let inc = IncrementalRebuild { make: false, emit_asset: false };
    // gate off: no analysis, include everything
    let mut off = Compiler::new(
        options(false, TreeShaking::Disabled, SideEffects::Disabled, inc),
        vec![entry("main", "index.js")],
        MemoryFileSystem::new(),
    );
    off.build().unwrap();
    assert_eq!(off.compilation.used_symbol_ref.len(), 0);
    assert_eq!(off.compilation.included_module_ids.len(), 1);
    // gate on, narrowing on: analysis runs, entry targets stay included
    let mut on = Compiler::new(
        options(false, TreeShaking::Enabled, SideEffects::Enabled, inc),
        vec![entry("main", "index.js")],
        MemoryFileSystem::new(),
    );
    on.build().unwrap();
    assert_eq!(on.compilation.used_symbol_ref.len(), 1);
    assert_eq!(on.compilation.included_module_ids.len(), 1);
}

#[test]
fn analysis_narrows_side_effect_free_non_entries() {
    let mut resolver = ResolverFactory::new(vec![String::from("side.js")]);
    let mut comp = Compilation::new(false, 0);
    let entry_dep = comp
        .module_graph
        .add_dependency(bundler_core::compilation::Dependency { request: String::from("index.js") });
    comp.add_entry(entry_dep, String::from("main"), EntryOptions { runtime: None });
    let side_dep = comp
        .module_graph
        .add_dependency(bundler_core::compilation::Dependency { request: String::from("side.js") });
    comp.force_build(&vec![(entry_dep, None), (side_dep, None)], &mut resolver);
    let (analysis, diagnostics) = comp.optimize_dependency();
    assert_eq!(diagnostics.len(), 0);
    assert_eq!(analysis.used_symbol_ref.len(), 2);
    assert_eq!(analysis.side_effects_free_modules.len(), 1);
    // the side-effect-free non-entry module is dropped from the narrowed set
    assert_eq!(analysis.included_module_ids.len(), 1);
}

#[test]
fn hook_error_short_circuits_later_plugins() {
    let noop = Plugin::Html(HtmlPluginConfig { template: None, title: None });
    let failing = Plugin::Failing(HookKind::Emit, String::from("boom"));
    let mut driver = PluginDriver::new(vec![noop.clone(), failing, noop]);
    let r = driver.run_hook(HookKind::Emit);
    assert_eq!(r.unwrap_err(), CoreError::Plugin(String::from("boom")));
    assert_eq!(driver.calls, vec![1, 1, 0]);
    // a hook nobody fails reaches every plugin
    driver.run_hook(HookKind::Done).unwrap();
    assert_eq!(driver.calls, vec![2, 2, 1]);
}

#[test]
fn failing_write_does_not_stop_sibling_writes() {
    let inc = IncrementalRebuild { make: false, emit_asset: true };
    let fs = MemoryFileSystem::with_fail_paths(vec![String::from("out/b.js")]);
    let mut compiler = Compiler::new(
        options(false, TreeShaking::Disabled, SideEffects::Disabled, inc),
        vec![entry("a", "a.js"), entry("b", "b.js"), entry("c", "c.js")],
        fs,
    );
    let r = compiler.build();
    assert_eq!(r.unwrap_err(), CoreError::Io(FsError::Denied));
    assert!(compiler.output_filesystem.read_file(&String::from("out/a.js")).is_some());
    assert!(compiler.output_filesystem.read_file(&String::from("out/b.js")).is_none());
    assert!(compiler.output_filesystem.read_file(&String::from("out/c.js")).is_some());
}

#[test]
fn query_suffix_is_stripped_on_disk_but_tracked_in_versions() {
    let inc = IncrementalRebuild { make: false, emit_asset: true };
    let mut compiler = Compiler::new(
        options(false, TreeShaking::Disabled, SideEffects::Disabled, inc),
        vec![entry("main", "app.js?v=1")],
        MemoryFileSystem::new(),
    );
    compiler.build().unwrap();
    assert!(compiler.output_filesystem.read_file(&String::from("out/app.js")).is_some());
    assert!(compiler
        .emitted_asset_versions
        .get(&String::from("app.js?v=1"))
        .is_some());
}

#[test]
fn failed_hook_error_surfaces_from_build() {
    let inc = IncrementalRebuild { make: false, emit_asset: false };
    let mut compiler = Compiler::new(
        options(false, TreeShaking::Disabled, SideEffects::Disabled, inc),
        vec![
            entry("main", "index.js"),
            Plugin::Failing(HookKind::Finish, String::from("finish refused")),
        ],
        MemoryFileSystem::new(),
    );
    let r = compiler.build();
    assert_eq!(r.unwrap_err(), CoreError::Plugin(String::from("finish refused")));
    // the build never reached emission or the done hook
    assert!(!compiler.cache.idle);
    assert!(compiler.emitted_asset_versions.get(&String::from("index.js")).is_none());
}

#[test]
fn cache_brackets_the_build() {
    let inc = IncrementalRebuild { make: false, emit_asset: false };
    let mut compiler = Compiler::new(
        options(false, TreeShaking::Disabled, SideEffects::Disabled, inc),
        Vec::new(),
        MemoryFileSystem::new(),
    );
    assert!(compiler.cache.idle);
    compiler.build().unwrap();
    assert!(compiler.cache.idle);
    assert_eq!(compiler.cache.finished_builds, 1);
}
