//! The top-level build state machine: owns one live `Compilation`, the
//! plugin driver, the cache and the output filesystem, and drives a build
//! through its phases. Asset emission diffs output against the versions
//! recorded by the previous build to avoid redundant writes.

use vstd::prelude::*;

use crate::cache::Cache;
use crate::compilation::{Compilation, CompilationAsset, MakeParam};
use crate::error::CoreError;
use crate::fs::WritableFileSystem;
use crate::options::CompilerOptions;
use crate::paths::{join_path, parent_dir, path_under, spec_join, spec_parent, spec_strip_query,
    strip_query};
use crate::plugin::{spec_first_fail, spec_hook_error, HookKind, Plugin, PluginDriver};
use crate::resolver::ResolverFactory;
use crate::table::{str_lookup, StrTable};

verus! {

/// The event fired once per physically written asset.
#[derive(Debug)]
pub struct AssetEmittedArgs {
    pub filename: String,
    pub output_path: String,
    pub target_path: String,
    pub source: Vec<u8>,
}

/// Whether a prior version string lets the writer skip an asset: it must
/// exist, be non-empty, and match the current version exactly.
pub open spec fn spec_skip_write(old_version: Option<String>, version: Seq<char>) -> bool {
    match old_version {
        Some(v) => v@ == version && v@.len() > 0,
        None => false,
    }
}

/// Whether the asset under `name` must be physically written.
pub open spec fn spec_needs_write(
    versions: StrTable<String>,
    name: Seq<char>,
    a: CompilationAsset,
) -> bool {
    a.source is Some && !spec_skip_write(versions.spec_lookup(name), a.version@)
}

/// Whether `p` is the on-disk target of some asset that must be written.
pub open spec fn spec_write_target(
    versions: StrTable<String>,
    assets: StrTable<CompilationAsset>,
    out: Seq<char>,
    p: Seq<char>,
) -> bool {
    exists|j: int|
        0 <= j < assets.items().len() && spec_needs_write(
            versions,
            #[trigger] assets.items()[j].0@,
            assets.items()[j].1,
        ) && p == spec_join(out, spec_strip_query(assets.items()[j].0@))
}

/// A previously emitted filename that no current asset accounts for.
pub open spec fn spec_stale_name(
    versions: StrTable<String>,
    assets: StrTable<CompilationAsset>,
    k: Seq<char>,
) -> bool {
    versions.contains_key(k) && !assets.contains_key(k)
}

/// Whether emission may touch the file at `p`: a full clean of the output
/// directory, the removal of a stale file, or the write of a changed asset.
pub open spec fn spec_emit_touched(
    versions: StrTable<String>,
    assets: StrTable<CompilationAsset>,
    out: Seq<char>,
    clean: bool,
    p: Seq<char>,
) -> bool {
    ||| (clean && versions.items().len() == 0 && path_under(p, out))
    ||| (clean && versions.items().len() > 0 && (exists|k: Seq<char>|
        #[trigger] spec_stale_name(versions, assets, k) && p == spec_join(out, k)))
    ||| spec_write_target(versions, assets, out, p)
}

/// The on-disk path of the `j`-th asset.
pub open spec fn spec_asset_path(
    assets: StrTable<CompilationAsset>,
    out: Seq<char>,
    j: int,
) -> Seq<char> {
    spec_join(out, spec_strip_query(assets.items()[j].0@))
}

/// Every file of `m1` is in `m2` with the same content.
pub open spec fn spec_submap(m1: Map<Seq<char>, Seq<u8>>, m2: Map<Seq<char>, Seq<u8>>) -> bool {
    forall|p: Seq<char>|
        #[trigger] m1.dom().contains(p) ==> m2.dom().contains(p) && m1[p] == m2[p]
}

/// The two file maps agree at `p`: same presence, same content.
pub open spec fn spec_files_agree(
    m1: Map<Seq<char>, Seq<u8>>,
    m2: Map<Seq<char>, Seq<u8>>,
    p: Seq<char>,
) -> bool {
    m1.dom().contains(p) == m2.dom().contains(p) && (m1.dom().contains(p) ==> m1[p] == m2[p])
}

/// The version recorded for `k` after emission, when tracking is on.
pub open spec fn spec_version_of(
    assets: StrTable<CompilationAsset>,
    k: Seq<char>,
) -> Option<String> {
    match assets.spec_lookup(k) {
        Some(a) => Some(a.version),
        None => None,
    }
}

/// Everything emission does to the file store and the version map,
/// independent of the reported result: untouched files keep, the version map
/// is refreshed exactly when the write loop was reached, refused paths keep,
/// stale files are pruned, a full clean empties the output, and every
/// accepted write lands even when a sibling fails.
pub open spec fn spec_emission_effects<T: WritableFileSystem>(
    fs_pre: T,
    fs_post: T,
    versions_pre: StrTable<String>,
    versions_post: StrTable<String>,
    assets: StrTable<CompilationAsset>,
    out: Seq<char>,
    clean: bool,
    inc: bool,
    ps: Seq<Plugin>,
) -> bool {
    let reaches = spec_first_fail(ps, HookKind::Emit) == ps.len() && ((clean
        && versions_pre.items().len() == 0) ==> fs_pre.io_ok(out));
    &&& (forall|p: Seq<char>|
        !spec_emit_touched(versions_pre, assets, out, clean, p) ==> spec_files_agree(
            fs_pre.files(),
            fs_post.files(),
            p,
        ))
    &&& (reaches && inc ==> forall|k: Seq<char>|
        versions_post.spec_lookup(k) == spec_version_of(assets, k))
    &&& (reaches && !inc ==> versions_post.items().len() == 0)
    &&& (!reaches ==> versions_post == versions_pre)
    &&& (forall|p: Seq<char>| #![trigger fs_pre.io_ok(p)]
        !(clean && versions_pre.items().len() == 0 && path_under(p, out)) && !fs_pre.io_ok(p)
            ==> spec_files_agree(fs_pre.files(), fs_post.files(), p))
    &&& (clean && versions_pre.items().len() > 0 ==> forall|k: Seq<char>|
        spec_stale_name(versions_pre, assets, k) && fs_pre.files().contains_key(
            spec_join(out, k),
        ) && fs_pre.io_ok(spec_join(out, k)) && !spec_write_target(
            versions_pre,
            assets,
            out,
            spec_join(out, k),
        ) ==> !fs_post.files().contains_key(spec_join(out, k)))
    &&& (clean && versions_pre.items().len() == 0 && fs_pre.io_ok(out) ==> forall|p: Seq<char>|
        path_under(p, out) && !spec_write_target(versions_pre, assets, out, p)
            ==> !fs_post.files().contains_key(p))
    &&& (reaches ==> forall|j: int|
        0 <= j < assets.items().len() && spec_needs_write(
            versions_pre,
            #[trigger] assets.items()[j].0@,
            assets.items()[j].1,
        ) && fs_pre.io_ok(spec_parent(spec_asset_path(assets, out, j))) && fs_pre.io_ok(
            spec_asset_path(assets, out, j),
        ) && (forall|j2: int|
            j < j2 < assets.items().len() && spec_needs_write(
                versions_pre,
                #[trigger] assets.items()[j2].0@,
                assets.items()[j2].1,
            ) ==> spec_asset_path(assets, out, j2) != spec_asset_path(assets, out, j))
            ==> fs_post.files().contains_key(spec_asset_path(assets, out, j))
            && fs_post.files()[spec_asset_path(assets, out, j)] == assets.items()[j].1.source->0@)
}

/// The top-level compiler: constructed once, then `build` may be called
/// repeatedly; each build replaces the compilation wholesale while the
/// cache, resolver factory and version map live on.
pub struct Compiler<T: WritableFileSystem> {
    pub options: CompilerOptions,
    pub output_filesystem: T,
    pub compilation: Compilation,
    pub plugin_driver: PluginDriver,
    pub resolver_factory: ResolverFactory,
    pub cache: Cache,
    /// Emitted filename to content-version string, across rebuilds.
    pub emitted_asset_versions: StrTable<String>,
    /// How many builds have started; zero marks the first generation.
    pub build_generation: u64,
}

impl<T: WritableFileSystem> Compiler<T> {
    pub open spec fn wf(&self) -> bool {
        &&& self.output_filesystem.inv()
        &&& self.emitted_asset_versions.wf()
        &&& self.compilation.wf()
        &&& self.plugin_driver.wf()
    }

    pub fn new(options: CompilerOptions, plugins: Vec<Plugin>, output_filesystem: T) -> (r: Self)
        requires
            output_filesystem.inv(),
        ensures
            r.wf(),
            r.options == options,
            r.output_filesystem == output_filesystem,
            r.plugin_driver.plugins == plugins,
            r.emitted_asset_versions.items().len() == 0,
            r.cache.idle,
            r.build_generation == 0,
            r.compilation.entries.items().len() == 0,
            r.compilation.assets.items().len() == 0,
            r.compilation.module_graph.dependencies.items().len() == 0,
            r.compilation.module_graph.modules.items().len() == 0,
            r.compilation.module_graph.resolve_edges.items().len() == 0,
            r.compilation.diagnostics@.len() == 0,
            r.compilation.emitted_assets@.len() == 0,
            r.compilation.build_generation == 0,
            r.compilation.incremental_make == options.incremental_rebuild.make,
            r.resolver_factory.side_effect_free_requests@.len()
                == options.resolve.side_effect_free_requests@.len(),
            forall|i: int|
                0 <= i < options.resolve.side_effect_free_requests@.len()
                    ==> r.resolver_factory.side_effect_free_requests@[i]@
                    == #[trigger] options.resolve.side_effect_free_requests@[i]@,
            forall|i: int|
                0 <= i < r.plugin_driver.calls@.len() ==> r.plugin_driver.calls@[i] == 0,
    {
        let resolver_factory = ResolverFactory::new(
            crate::builtins::clone_string_vec(&options.resolve.side_effect_free_requests),
        );
        let plugin_driver = PluginDriver::new(plugins);
        let cache = Cache::new();
        let compilation = Compilation::new(options.incremental_rebuild.make, 0);
        Compiler {
            options,
            compilation,
            output_filesystem,
            plugin_driver,
            resolver_factory,
            cache,
            emitted_asset_versions: StrTable::new(),
            build_generation: 0,
        }
    }

    /// Write one asset: strip any query suffix from the filename, create the
    /// parent directory, write the content, record the emission and fire the
    /// asset-emitted event. An asset without a source is not written.
    fn emit_asset(&mut self, filename: &String, asset: &CompilationAsset) -> (r: Result<
        (),
        CoreError,
    >)
        requires
            old(self).wf(),
        ensures
            final(self).wf(),
            final(self).options == old(self).options,
            final(self).compilation.assets == old(self).compilation.assets,
            final(self).compilation.entries == old(self).compilation.entries,
            final(self).compilation.module_graph == old(self).compilation.module_graph,
            final(self).compilation.diagnostics == old(self).compilation.diagnostics,
            final(self).compilation.included_module_ids == old(
                self,
            ).compilation.included_module_ids,
            final(self).compilation.incremental_make == old(self).compilation.incremental_make,
            final(self).compilation.build_generation == old(self).compilation.build_generation,
            final(self).compilation.used_symbol_ref == old(self).compilation.used_symbol_ref,
            final(self).compilation.side_effects_free_modules == old(
                self,
            ).compilation.side_effects_free_modules,
            final(self).compilation.bailout_module_identifiers == old(
                self,
            ).compilation.bailout_module_identifiers,
            final(self).compilation.module_item_map == old(self).compilation.module_item_map,
            final(self).emitted_asset_versions == old(self).emitted_asset_versions,
            final(self).plugin_driver.plugins == old(self).plugin_driver.plugins,
            final(self).plugin_driver.diagnostics == old(self).plugin_driver.diagnostics,
            final(self).resolver_factory == old(self).resolver_factory,
            final(self).cache == old(self).cache,
            final(self).build_generation == old(self).build_generation,
            forall|p: Seq<char>|
                final(self).output_filesystem.io_ok(p) == old(self).output_filesystem.io_ok(p),
            asset.source is None ==> r is Ok && final(self).output_filesystem.files() == old(
                self,
            ).output_filesystem.files() && final(self).compilation.emitted_assets == old(
                self,
            ).compilation.emitted_assets,
            asset.source is Some ==> ({
                let path = spec_join(
                    old(self).options.output.path@,
                    spec_strip_query(filename@),
                );
                let written = old(self).output_filesystem.io_ok(spec_parent(path)) && old(
                    self,
                ).output_filesystem.io_ok(path);
                &&& (r is Ok <==> written && spec_first_fail(
                    old(self).plugin_driver.plugins@,
                    HookKind::AssetEmitted,
                ) == old(self).plugin_driver.plugins@.len())
                &&& (written ==> final(self).output_filesystem.files() == old(
                    self,
                ).output_filesystem.files().insert(path, asset.source->0@))
                &&& (!written ==> final(self).output_filesystem.files() == old(
                    self,
                ).output_filesystem.files() && r == Err::<(), CoreError>(
                    CoreError::Io(crate::fs::FsError::Denied),
                ) && final(self).compilation.emitted_assets == old(
                    self,
                ).compilation.emitted_assets)
                &&& (written ==> final(self).compilation.emitted_assets@.len() == old(
                    self,
                ).compilation.emitted_assets@.len() + 1 && (forall|i: int|
                    0 <= i < old(self).compilation.emitted_assets@.len() ==> final(self).compilation.emitted_assets@[i] == old(
                        self,
                    ).compilation.emitted_assets@[i]) && final(self).compilation.emitted_assets@.last()@ == spec_strip_query(filename@))
                &&& (written && r is Err ==> Some(r->Err_0) == spec_hook_error(
                    old(self).plugin_driver.plugins@[spec_first_fail(
                        old(self).plugin_driver.plugins@,
                        HookKind::AssetEmitted,
                    )],
                    HookKind::AssetEmitted,
                ))
            }),
    {
        let source = match asset.get_source() {
            None => {
                return Ok(());
            }
            Some(s) => s,
        };
        let stripped = strip_query(filename.as_str());
        let file_path = join_path(&self.options.output.path, stripped);
        proof {
            reveal_strlit("/");
            assert(file_path@[self.options.output.path@.len() as int] == '/');
        }
        let parent = parent_dir(file_path.as_str());
        match self.output_filesystem.create_dir_all(parent) {
            Ok(()) => {}
            Err(e) => {
                return Err(CoreError::Io(e));
            }
        }
        match self.output_filesystem.write(file_path.as_str(), source) {
            Ok(()) => {}
            Err(e) => {
                return Err(CoreError::Io(e));
            }
        }
        self.compilation.emitted_assets.push(stripped.to_owned());
        let args = AssetEmittedArgs {
            filename: stripped.to_owned(),
            output_path: self.options.output.path.clone(),
            target_path: file_path,
            source: vstd::slice::slice_to_vec(source.as_slice()),
        };
        self.asset_emitted(&args)
    }

    /// One compile pass: make, finish-make and finish hooks, the
    /// conservative include-everything default, the optional analysis gate,
    /// seal, the after-compile hook, and the drain of plugin diagnostics.
    /// Analysis runs exactly when tree shaking is on or the output declares
    /// a strict-module library type; the inclusion set is narrowed exactly
    /// when tree shaking and the side-effects optimization are both on.
    pub fn compile(&mut self, params: MakeParam) -> (r: Result<(), CoreError>)
        requires
            old(self).wf(),
            old(self).compilation.module_graph.next_dependency_id as int + old(
                self,
            ).plugin_driver.plugins@.len() <= u64::MAX,
            old(self).compilation.module_graph.next_module_id as int
                + crate::compilation::spec_force_list(params).len() + old(
                self,
            ).plugin_driver.plugins@.len() + old(self).compilation.entries.items().len()
                <= u64::MAX,
        ensures
            final(self).wf(),
            final(self).options == old(self).options,
            final(self).cache == old(self).cache,
            final(self).build_generation == old(self).build_generation,
            final(self).emitted_asset_versions == old(self).emitted_asset_versions,
            final(self).output_filesystem == old(self).output_filesystem,
            final(self).plugin_driver.plugins == old(self).plugin_driver.plugins,
            final(self).compilation.build_generation == old(self).compilation.build_generation,
            final(self).compilation.incremental_make == old(self).compilation.incremental_make,
            final(self).resolver_factory.side_effect_free_requests == old(
                self,
            ).resolver_factory.side_effect_free_requests,
            r is Ok <==> ({
                let ps = old(self).plugin_driver.plugins@;
                &&& spec_first_fail(ps, HookKind::Make) == ps.len()
                &&& spec_first_fail(ps, HookKind::FinishMake) == ps.len()
                &&& spec_first_fail(ps, HookKind::Finish) == ps.len()
                &&& spec_first_fail(ps, HookKind::AfterCompile) == ps.len()
            }),
            r is Ok ==> ({
                let gate = old(self).options.builtins.tree_shaking.spec_enable() || old(
                    self,
                ).options.output.spec_has_module_library_type();
                let narrow = old(self).options.builtins.tree_shaking.spec_enable() && old(
                    self,
                ).options.optimization.side_effects.spec_is_enable();
                let items = final(self).compilation.module_graph.modules.items();
                &&& (gate ==> final(self).compilation.used_symbol_ref@
                    == crate::compilation::spec_all_ids(items) && final(self).compilation.side_effects_free_modules@ == crate::compilation::spec_sef_ids(items)
                    && final(self).compilation.bailout_module_identifiers@.len() == 0 && final(self).compilation.module_item_map.items().len() == 0)
                &&& (!gate ==> final(self).compilation.used_symbol_ref@ == old(
                    self,
                ).compilation.used_symbol_ref@ && final(self).compilation.side_effects_free_modules@
                    == old(self).compilation.side_effects_free_modules@ && final(self).compilation.bailout_module_identifiers@ == old(
                    self,
                ).compilation.bailout_module_identifiers@ && final(self).compilation.module_item_map.items() == old(
                    self,
                ).compilation.module_item_map.items())
                &&& final(self).compilation.included_module_ids@ == (if gate && narrow {
                    crate::compilation::spec_narrowed_ids(
                        final(self).compilation.entries.items(),
                        final(self).compilation.module_graph.resolve_edges,
                        items,
                    )
                } else {
                    crate::compilation::spec_all_ids(items)
                })
            }),
            // the sealed assets: one per included module, over what was there
            r is Ok ==> forall|k: Seq<char>|
                final(self).compilation.assets.contains_key(k) <==> (old(
                    self,
                ).compilation.assets.contains_key(k) || crate::compilation::spec_sealed_name(
                    final(self).compilation.included_module_ids@,
                    final(self).compilation.module_graph.modules,
                    k,
                )),
            r is Ok ==> forall|k: Seq<char>|
                crate::compilation::spec_sealed_name(
                    final(self).compilation.included_module_ids@,
                    final(self).compilation.module_graph.modules,
                    k,
                ) ==> (#[trigger] final(self).compilation.assets.spec_lookup(k) matches Some(a)
                    && crate::compilation::spec_sealed_asset(
                    final(self).compilation.included_module_ids@,
                    final(self).compilation.module_graph.modules,
                    k,
                    a,
                )),
            r is Ok ==> final(self).plugin_driver.diagnostics@.len() == 0,
            // the make hook's entry registrations, carried up
            r is Ok && !old(self).compilation.spec_skip_entries() ==> ({
                let ps = old(self).plugin_driver.plugins@;
                let start = old(self).compilation.module_graph.next_dependency_id;
                &&& final(self).compilation.module_graph.dependencies.items() == old(
                    self,
                ).compilation.module_graph.dependencies.items() + crate::plugin::spec_entry_deps(
                    ps,
                    ps.len() as int,
                    start,
                )
                &&& (forall|nm: Seq<char>|
                    final(self).compilation.entries.spec_lookup(nm) == (
                    match crate::plugin::spec_entry_binding(ps, ps.len() as int, start, nm) {
                        Some(d) => Some(d),
                        None => old(self).compilation.entries.spec_lookup(nm),
                    }))
            }),
            r is Ok && old(self).compilation.spec_skip_entries() ==> final(self).compilation.entries == old(self).compilation.entries && final(self).compilation.module_graph.dependencies == old(
                self,
            ).compilation.module_graph.dependencies,
            // resolutions and modules are kept, and new ones have the
            // resolver's shape
            forall|d: u64|
                old(self).compilation.module_graph.resolve_edges.contains_key(d) ==> final(self).compilation.module_graph.resolve_edges.spec_lookup(d) == old(
                    self,
                ).compilation.module_graph.resolve_edges.spec_lookup(d),
            forall|m: u64|
                old(self).compilation.module_graph.modules.contains_key(m) ==> final(self).compilation.module_graph.modules.spec_lookup(m) == old(
                    self,
                ).compilation.module_graph.modules.spec_lookup(m),
            forall|d: u64|
                !old(self).compilation.module_graph.resolve_edges.contains_key(d) && final(self).compilation.module_graph.resolve_edges.contains_key(d) ==> {
                    let m = final(self).compilation.module_graph.resolve_edges.spec_lookup(d)->0;
                    &&& final(self).compilation.module_graph.modules.spec_lookup(m)
                        matches Some(module) && module.request@ == final(self).compilation.module_graph.dependencies.spec_lookup(d)->0.request@
                        && module.source@ == vstd::utf8::encode_utf8(module.request@)
                        && module.side_effect_free == old(
                        self,
                    ).resolver_factory.spec_side_effect_free(module.request@)
                },
            // forced dependencies with a record come out resolved
            r is Ok && params is ForceBuildDeps && !old(self).compilation.spec_skip_entries()
                ==> ({
                let ps = old(self).plugin_driver.plugins@;
                let start = old(self).compilation.module_graph.next_dependency_id;
                let force = crate::plugin::spec_force_after(
                    ps,
                    ps.len() as int,
                    start,
                    crate::compilation::spec_force_list(params),
                );
                forall|j: int|
                    0 <= j < force.len() && final(self).compilation.module_graph.dependencies.contains_key(#[trigger] force[j].0)
                        ==> final(self).compilation.module_graph.resolve_edges.contains_key(
                        force[j].0,
                    )
            }),
            // diagnostics: the drained plugin channel lands on the compilation
            r is Ok ==> final(self).compilation.diagnostics@ == old(
                self,
            ).compilation.diagnostics@ + old(self).plugin_driver.diagnostics@,
            // the reported error is the first failing hook's own
            r is Err ==> ({
                let ps = old(self).plugin_driver.plugins@;
                &&& (spec_first_fail(ps, HookKind::Make) < ps.len() ==> Some(r->Err_0)
                    == spec_hook_error(ps[spec_first_fail(ps, HookKind::Make)], HookKind::Make))
                &&& (spec_first_fail(ps, HookKind::Make) == ps.len() && spec_first_fail(
                    ps,
                    HookKind::FinishMake,
                ) < ps.len() ==> Some(r->Err_0) == spec_hook_error(
                    ps[spec_first_fail(ps, HookKind::FinishMake)],
                    HookKind::FinishMake,
                ))
                &&& (spec_first_fail(ps, HookKind::Make) == ps.len() && spec_first_fail(
                    ps,
                    HookKind::FinishMake,
                ) == ps.len() && spec_first_fail(ps, HookKind::Finish) < ps.len() ==> Some(
                    r->Err_0,
                ) == spec_hook_error(
                    ps[spec_first_fail(ps, HookKind::Finish)],
                    HookKind::Finish,
                ))
                &&& (spec_first_fail(ps, HookKind::Make) == ps.len() && spec_first_fail(
                    ps,
                    HookKind::FinishMake,
                ) == ps.len() && spec_first_fail(ps, HookKind::Finish) == ps.len() ==> Some(
                    r->Err_0,
                ) == spec_hook_error(
                    ps[spec_first_fail(ps, HookKind::AfterCompile)],
                    HookKind::AfterCompile,
                ))
            }),
    {
        let ghost gate = self.options.builtins.tree_shaking.spec_enable()
            || self.options.output.spec_has_module_library_type();
        match self.compilation.make(
            params,
            &mut self.plugin_driver,
            &mut self.resolver_factory,
        ) {
            Ok(()) => {}
            Err(e) => {
                return Err(e);
            }
        }
        match self.plugin_driver.run_hook(HookKind::FinishMake) {
            Ok(()) => {}
            Err(e) => {
                return Err(e);
            }
        }
        match self.compilation.finish(&mut self.plugin_driver) {
            Ok(()) => {}
            Err(e) => {
                return Err(e);
            }
        }
        // by default include every known module in the final output
        let all_ids = self.compilation.all_module_ids();
        self.compilation.included_module_ids = all_ids;
        if self.options.builtins.tree_shaking.enable()
            || self.options.output.has_module_library_type() {
            let (analyze_result, diagnostics) = self.compilation.optimize_dependency();
            if diagnostics.len() > 0 {
                self.compilation.push_batch_diagnostic(diagnostics);
            }
            self.compilation.used_symbol_ref = analyze_result.used_symbol_ref;
            self.compilation.bailout_module_identifiers =
                analyze_result.bail_out_module_identifiers;
            self.compilation.side_effects_free_modules = analyze_result.side_effects_free_modules;
            self.compilation.module_item_map = analyze_result.module_item_map;
            if self.options.builtins.tree_shaking.enable()
                && self.options.optimization.side_effects.is_enable() {
                self.compilation.included_module_ids = analyze_result.included_module_ids;
            }
        }
        match self.compilation.seal() {
            Ok(()) => {}
            Err(e) => {
                return Err(e);
            }
        }
        match self.plugin_driver.run_hook(HookKind::AfterCompile) {
            Ok(()) => {}
            Err(e) => {
                return Err(e);
            }
        }
        let plugin_driver_diagnostics = self.plugin_driver.take_diagnostic();
        self.compilation.push_batch_diagnostic(plugin_driver_diagnostics);
        Ok(())
    }

    /// Emission and the done hook: emit the assets unless emission is
    /// disabled, then tell every plugin the build is over.
    pub fn compile_done(&mut self) -> (r: Result<(), CoreError>)
        requires
            old(self).wf(),
        ensures
            final(self).wf(),
            final(self).options == old(self).options,
            final(self).cache == old(self).cache,
            final(self).build_generation == old(self).build_generation,
            final(self).plugin_driver.plugins == old(self).plugin_driver.plugins,
            final(self).compilation.assets == old(self).compilation.assets,
            final(self).compilation.entries == old(self).compilation.entries,
            final(self).compilation.module_graph == old(self).compilation.module_graph,
            final(self).compilation.diagnostics == old(self).compilation.diagnostics,
            final(self).compilation.included_module_ids == old(
                self,
            ).compilation.included_module_ids,
            final(self).compilation.incremental_make == old(self).compilation.incremental_make,
            final(self).compilation.build_generation == old(self).compilation.build_generation,
            final(self).compilation.used_symbol_ref == old(self).compilation.used_symbol_ref,
            final(self).compilation.side_effects_free_modules == old(
                self,
            ).compilation.side_effects_free_modules,
            final(self).compilation.bailout_module_identifiers == old(
                self,
            ).compilation.bailout_module_identifiers,
            final(self).compilation.module_item_map == old(self).compilation.module_item_map,
            final(self).resolver_factory == old(self).resolver_factory,
            old(self).options.builtins.no_emit_assets ==> final(self).output_filesystem == old(
                self,
            ).output_filesystem && final(self).emitted_asset_versions == old(
                self,
            ).emitted_asset_versions && (r is Ok <==> spec_first_fail(
                old(self).plugin_driver.plugins@,
                HookKind::Done,
            ) == old(self).plugin_driver.plugins@.len()),
            // when emission is enabled, its effects hold here too
            !old(self).options.builtins.no_emit_assets ==> spec_emission_effects(
                old(self).output_filesystem,
                final(self).output_filesystem,
                old(self).emitted_asset_versions,
                final(self).emitted_asset_versions,
                old(self).compilation.assets,
                old(self).options.output.path@,
                old(self).options.output.clean,
                old(self).options.incremental_rebuild.emit_asset,
                old(self).plugin_driver.plugins@,
            ),
            r is Ok ==> spec_first_fail(old(self).plugin_driver.plugins@, HookKind::Done) == old(
                self,
            ).plugin_driver.plugins@.len(),
            !old(self).options.builtins.no_emit_assets && r is Ok ==> old(
                self,
            ).spec_reaches_writes() && spec_first_fail(
                old(self).plugin_driver.plugins@,
                HookKind::AfterEmit,
            ) == old(self).plugin_driver.plugins@.len(),
            // success is owed when nothing stands in the way
            !old(self).options.builtins.no_emit_assets && old(self).spec_reaches_writes() && (
            forall|j: int|
                0 <= j < old(self).compilation.assets.items().len() && spec_needs_write(
                    old(self).emitted_asset_versions,
                    #[trigger] old(self).compilation.assets.items()[j].0@,
                    old(self).compilation.assets.items()[j].1,
                ) ==> old(self).output_filesystem.io_ok(
                    spec_parent(
                        spec_asset_path(
                            old(self).compilation.assets,
                            old(self).options.output.path@,
                            j,
                        ),
                    ),
                ) && old(self).output_filesystem.io_ok(
                    spec_asset_path(old(self).compilation.assets, old(self).options.output.path@, j),
                )) && spec_first_fail(old(self).plugin_driver.plugins@, HookKind::AssetEmitted)
                == old(self).plugin_driver.plugins@.len() && spec_first_fail(
                old(self).plugin_driver.plugins@,
                HookKind::AfterEmit,
            ) == old(self).plugin_driver.plugins@.len() && spec_first_fail(
                old(self).plugin_driver.plugins@,
                HookKind::Done,
            ) == old(self).plugin_driver.plugins@.len() ==> r is Ok,
            // the reported error: the done hook's own, or a refused write's
            old(self).options.builtins.no_emit_assets && r is Err ==> Some(r->Err_0)
                == spec_hook_error(
                old(self).plugin_driver.plugins@[spec_first_fail(
                    old(self).plugin_driver.plugins@,
                    HookKind::Done,
                )],
                HookKind::Done,
            ),
            !old(self).options.builtins.no_emit_assets && spec_first_fail(
                old(self).plugin_driver.plugins@,
                HookKind::Emit,
            ) == old(self).plugin_driver.plugins@.len() && spec_first_fail(
                old(self).plugin_driver.plugins@,
                HookKind::AssetEmitted,
            ) == old(self).plugin_driver.plugins@.len() && spec_first_fail(
                old(self).plugin_driver.plugins@,
                HookKind::AfterEmit,
            ) == old(self).plugin_driver.plugins@.len() && spec_first_fail(
                old(self).plugin_driver.plugins@,
                HookKind::Done,
            ) == old(self).plugin_driver.plugins@.len() && r is Err ==> r == Err::<(), CoreError>(
                CoreError::Io(crate::fs::FsError::Denied),
            ),
    {
        if !self.options.builtins.no_emit_assets {
            match self.emit_assets() {
                Ok(()) => {}
                Err(e) => {
                    return Err(e);
                }
            }
        }
        match self.compilation.done(&mut self.plugin_driver) {
            Ok(()) => Ok(()),
            Err(e) => Err(e),
        }
    }

    /// Everything one `build` call settles, shared by `build` and `run`:
    /// what is preserved, when success is owed, which error a failed build
    /// reports, what the replaced compilation holds on success, and the
    /// emission effects once the pipeline reaches emission.
    pub open spec fn spec_build_post(pre: Self, post: Self, r: Result<(), CoreError>) -> bool {
        let ps = pre.plugin_driver.plugins@;
        let hooks7 = spec_first_fail(ps, HookKind::BeforeCompile) == ps.len() && spec_first_fail(
            ps,
            HookKind::ThisCompilation,
        ) == ps.len() && spec_first_fail(ps, HookKind::CompilationHook) == ps.len()
            && spec_first_fail(ps, HookKind::Make) == ps.len() && spec_first_fail(
            ps,
            HookKind::FinishMake,
        ) == ps.len() && spec_first_fail(ps, HookKind::Finish) == ps.len() && spec_first_fail(
            ps,
            HookKind::AfterCompile,
        ) == ps.len();
        let skip = pre.options.incremental_rebuild.make && pre.build_generation > 0;
        let no_emit = pre.options.builtins.no_emit_assets;
        let gate = pre.options.builtins.tree_shaking.spec_enable()
            || pre.options.output.spec_has_module_library_type();
        let narrow = pre.options.builtins.tree_shaking.spec_enable()
            && pre.options.optimization.side_effects.spec_is_enable();
        let items = post.compilation.module_graph.modules.items();
        &&& post.options == pre.options
        &&& post.plugin_driver.plugins == pre.plugin_driver.plugins
        &&& post.resolver_factory.side_effect_free_requests
            == pre.resolver_factory.side_effect_free_requests
        &&& post.compilation.incremental_make == pre.options.incremental_rebuild.make
        &&& post.compilation.build_generation == pre.build_generation
        &&& (r is Ok ==> post.cache.idle && post.cache.finished_builds
            == crate::plugin::spec_bump(pre.cache.finished_builds) && post.build_generation
            == crate::plugin::spec_bump(pre.build_generation))
        &&& (!hooks7 ==> !post.cache.idle && post.emitted_asset_versions
            == pre.emitted_asset_versions && post.output_filesystem == pre.output_filesystem)
        &&& (no_emit ==> post.emitted_asset_versions == pre.emitted_asset_versions
            && post.output_filesystem == pre.output_filesystem)
        &&& (r is Ok ==> hooks7 && spec_first_fail(ps, HookKind::Done) == ps.len() && (!no_emit
            ==> spec_first_fail(ps, HookKind::Emit) == ps.len() && spec_first_fail(
            ps,
            HookKind::AfterEmit,
        ) == ps.len()))
        &&& (no_emit && hooks7 && spec_first_fail(ps, HookKind::Done) == ps.len() ==> r is Ok)
        &&& (r is Ok ==> ({
            &&& (gate ==> post.compilation.used_symbol_ref@ == crate::compilation::spec_all_ids(
                items,
            ) && post.compilation.side_effects_free_modules@ == crate::compilation::spec_sef_ids(
                items,
            ) && post.compilation.bailout_module_identifiers@.len() == 0
                && post.compilation.module_item_map.items().len() == 0)
            &&& (!gate ==> post.compilation.used_symbol_ref@.len() == 0
                && post.compilation.side_effects_free_modules@.len() == 0
                && post.compilation.bailout_module_identifiers@.len() == 0
                && post.compilation.module_item_map.items().len() == 0)
            &&& post.compilation.included_module_ids@ == (if gate && narrow {
                crate::compilation::spec_narrowed_ids(
                    post.compilation.entries.items(),
                    post.compilation.module_graph.resolve_edges,
                    items,
                )
            } else {
                crate::compilation::spec_all_ids(items)
            })
        }))
        &&& (r is Ok ==> (forall|k: Seq<char>|
            post.compilation.assets.contains_key(k)
                <==> crate::compilation::spec_sealed_name(
                post.compilation.included_module_ids@,
                post.compilation.module_graph.modules,
                k,
            )) && (forall|k: Seq<char>|
            crate::compilation::spec_sealed_name(
                post.compilation.included_module_ids@,
                post.compilation.module_graph.modules,
                k,
            ) ==> (#[trigger] post.compilation.assets.spec_lookup(k) matches Some(a)
                && crate::compilation::spec_sealed_asset(
                post.compilation.included_module_ids@,
                post.compilation.module_graph.modules,
                k,
                a,
            ))))
        &&& (r is Ok && !skip ==> post.compilation.module_graph.dependencies.items()
            == crate::plugin::spec_entry_deps(ps, ps.len() as int, 0) && (forall|nm: Seq<char>|
            post.compilation.entries.spec_lookup(nm) == crate::plugin::spec_entry_binding(
                ps,
                ps.len() as int,
                0,
                nm,
            )))
        &&& (r is Ok && skip ==> post.compilation.entries.items().len() == 0
            && post.compilation.module_graph.dependencies.items().len() == 0)
        &&& (r is Ok && !skip ==> ({
            let force = crate::plugin::spec_force_after(
                ps,
                ps.len() as int,
                0,
                Seq::<(u64, Option<u64>)>::empty(),
            );
            forall|j: int|
                0 <= j < force.len() && post.compilation.module_graph.dependencies.contains_key(
                    #[trigger] force[j].0,
                ) ==> post.compilation.module_graph.resolve_edges.contains_key(force[j].0)
        }))
        &&& (forall|d: u64|
            post.compilation.module_graph.resolve_edges.contains_key(d) ==> {
                let m = post.compilation.module_graph.resolve_edges.spec_lookup(d)->0;
                &&& post.compilation.module_graph.modules.spec_lookup(m) matches Some(module)
                    && module.request@ == post.compilation.module_graph.dependencies.spec_lookup(
                    d,
                )->0.request@ && module.source@ == vstd::utf8::encode_utf8(module.request@)
                    && module.side_effect_free == pre.resolver_factory.spec_side_effect_free(
                    module.request@,
                )
            })
        &&& (r is Ok ==> post.compilation.diagnostics@ == pre.plugin_driver.diagnostics@)
        &&& (hooks7 && !no_emit ==> spec_emission_effects(
            pre.output_filesystem,
            post.output_filesystem,
            pre.emitted_asset_versions,
            post.emitted_asset_versions,
            post.compilation.assets,
            pre.options.output.path@,
            pre.options.output.clean,
            pre.options.incremental_rebuild.emit_asset,
            ps,
        ))
        &&& (r is Err ==> ({
            &&& (spec_first_fail(ps, HookKind::BeforeCompile) < ps.len() ==> Some(r->Err_0)
                == spec_hook_error(
                ps[spec_first_fail(ps, HookKind::BeforeCompile)],
                HookKind::BeforeCompile,
            ))
            &&& (spec_first_fail(ps, HookKind::BeforeCompile) == ps.len() && spec_first_fail(
                ps,
                HookKind::ThisCompilation,
            ) < ps.len() ==> Some(r->Err_0) == spec_hook_error(
                ps[spec_first_fail(ps, HookKind::ThisCompilation)],
                HookKind::ThisCompilation,
            ))
            &&& (spec_first_fail(ps, HookKind::BeforeCompile) == ps.len() && spec_first_fail(
                ps,
                HookKind::ThisCompilation,
            ) == ps.len() && spec_first_fail(ps, HookKind::CompilationHook) < ps.len() ==> Some(
                r->Err_0,
            ) == spec_hook_error(
                ps[spec_first_fail(ps, HookKind::CompilationHook)],
                HookKind::CompilationHook,
            ))
            &&& (spec_first_fail(ps, HookKind::BeforeCompile) == ps.len() && spec_first_fail(
                ps,
                HookKind::ThisCompilation,
            ) == ps.len() && spec_first_fail(ps, HookKind::CompilationHook) == ps.len()
                && spec_first_fail(ps, HookKind::Make) < ps.len() ==> Some(r->Err_0)
                == spec_hook_error(ps[spec_first_fail(ps, HookKind::Make)], HookKind::Make))
            &&& (spec_first_fail(ps, HookKind::BeforeCompile) == ps.len() && spec_first_fail(
                ps,
                HookKind::ThisCompilation,
            ) == ps.len() && spec_first_fail(ps, HookKind::CompilationHook) == ps.len()
                && spec_first_fail(ps, HookKind::Make) == ps.len() && spec_first_fail(
                ps,
                HookKind::FinishMake,
            ) < ps.len() ==> Some(r->Err_0) == spec_hook_error(
                ps[spec_first_fail(ps, HookKind::FinishMake)],
                HookKind::FinishMake,
            ))
            &&& (spec_first_fail(ps, HookKind::BeforeCompile) == ps.len() && spec_first_fail(
                ps,
                HookKind::ThisCompilation,
            ) == ps.len() && spec_first_fail(ps, HookKind::CompilationHook) == ps.len()
                && spec_first_fail(ps, HookKind::Make) == ps.len() && spec_first_fail(
                ps,
                HookKind::FinishMake,
            ) == ps.len() && spec_first_fail(ps, HookKind::Finish) < ps.len() ==> Some(r->Err_0)
                == spec_hook_error(ps[spec_first_fail(ps, HookKind::Finish)], HookKind::Finish))
            &&& (spec_first_fail(ps, HookKind::BeforeCompile) == ps.len() && spec_first_fail(
                ps,
                HookKind::ThisCompilation,
            ) == ps.len() && spec_first_fail(ps, HookKind::CompilationHook) == ps.len()
                && spec_first_fail(ps, HookKind::Make) == ps.len() && spec_first_fail(
                ps,
                HookKind::FinishMake,
            ) == ps.len() && spec_first_fail(ps, HookKind::Finish) == ps.len() && spec_first_fail(
                ps,
                HookKind::AfterCompile,
            ) < ps.len() ==> Some(r->Err_0) == spec_hook_error(
                ps[spec_first_fail(ps, HookKind::AfterCompile)],
                HookKind::AfterCompile,
            ))
            &&& (hooks7 && no_emit ==> Some(r->Err_0) == spec_hook_error(
                ps[spec_first_fail(ps, HookKind::Done)],
                HookKind::Done,
            ))
            &&& (hooks7 && !no_emit && spec_first_fail(ps, HookKind::Emit) == ps.len()
                && spec_first_fail(ps, HookKind::AssetEmitted) == ps.len() && spec_first_fail(
                ps,
                HookKind::AfterEmit,
            ) == ps.len() && spec_first_fail(ps, HookKind::Done) == ps.len() ==> r == Err::<
                (),
                CoreError,
            >(CoreError::Io(crate::fs::FsError::Denied)))
        }))
    }

    /// One whole build: bracket the cache, clear stale resolver entries,
    /// replace the compilation wholesale, fire the pre-compile hooks, run
    /// `compile` over an initially empty force-build set, advance the build
    /// generation, and finish with emission and the done hook.
    pub fn build(&mut self) -> (r: Result<(), CoreError>)
        requires
            old(self).wf(),
            old(self).plugin_driver.plugins@.len() * 2 <= u64::MAX,
        ensures
            final(self).wf(),
            Self::spec_build_post(*old(self), *final(self), r),
    {
        self.cache.end_idle();
        self.resolver_factory.clear_entries();
        self.compilation = Compilation::new(
            self.options.incremental_rebuild.make,
            self.build_generation,
        );
        let ghost ps = self.plugin_driver.plugins@;
        proof {
            assert forall|nm: Seq<char>| self.compilation.entries.spec_lookup(nm) is None by {
                crate::table::lemma_str_lookup_none(self.compilation.entries.items(), nm);
            }
            assert forall|k: Seq<char>| self.compilation.assets.spec_lookup(k) is None by {
                crate::table::lemma_str_lookup_none(self.compilation.assets.items(), k);
            }
            assert forall|d: u64|
                self.compilation.module_graph.resolve_edges.spec_lookup(d) is None by {
                crate::table::lemma_id_lookup_none(
                    self.compilation.module_graph.resolve_edges.items(),
                    d,
                );
            }
        }
        match self.plugin_driver.run_hook(HookKind::BeforeCompile) {
            Ok(()) => {}
            Err(e) => {
                return Err(e);
            }
        }
        match self.plugin_driver.run_hook(HookKind::ThisCompilation) {
            Ok(()) => {}
            Err(e) => {
                return Err(e);
            }
        }
        match self.plugin_driver.run_hook(HookKind::CompilationHook) {
            Ok(()) => {}
            Err(e) => {
                return Err(e);
            }
        }
        let ghost pre_compile = self.compilation;
        let params = MakeParam::ForceBuildDeps(Vec::new());
        let ghost params0 = params;
        match self.compile(params) {
            Ok(()) => {}
            Err(e) => {
                return Err(e);
            }
        }
        proof {
            assert(crate::compilation::spec_force_list(params0) =~= Seq::<
                (u64, Option<u64>),
            >::empty());
            assert forall|nm: Seq<char>| pre_compile.entries.spec_lookup(nm) is None by {
                crate::table::lemma_str_lookup_none(pre_compile.entries.items(), nm);
            }
            assert forall|k: Seq<char>| pre_compile.assets.spec_lookup(k) is None by {
                crate::table::lemma_str_lookup_none(pre_compile.assets.items(), k);
            }
            if !(self.options.incremental_rebuild.make && old(self).build_generation > 0) {
                assert(self.compilation.module_graph.dependencies.items()
                    =~= crate::plugin::spec_entry_deps(ps, ps.len() as int, 0));
                assert forall|nm: Seq<char>|
                    self.compilation.entries.spec_lookup(nm)
                        == crate::plugin::spec_entry_binding(ps, ps.len() as int, 0, nm) by {
                    assert(pre_compile.entries.spec_lookup(nm) is None);
                }
            }
            assert forall|k: Seq<char>|
                self.compilation.assets.contains_key(k)
                    <==> crate::compilation::spec_sealed_name(
                    self.compilation.included_module_ids@,
                    self.compilation.module_graph.modules,
                    k,
                ) by {
                assert(pre_compile.assets.spec_lookup(k) is None);
            }
            assert(self.compilation.diagnostics@ =~= old(self).plugin_driver.diagnostics@);
            assert forall|d: u64|
                pre_compile.module_graph.resolve_edges.spec_lookup(d) is None by {
                crate::table::lemma_id_lookup_none(
                    pre_compile.module_graph.resolve_edges.items(),
                    d,
                );
            }
            assert forall|d: u64|
                self.compilation.module_graph.resolve_edges.contains_key(d) implies ({
                let m = self.compilation.module_graph.resolve_edges.spec_lookup(d)->0;
                &&& self.compilation.module_graph.modules.spec_lookup(m) matches Some(module)
                    && module.request@ == self.compilation.module_graph.dependencies.spec_lookup(
                    d,
                )->0.request@ && module.source@ == vstd::utf8::encode_utf8(module.request@)
                    && module.side_effect_free == old(
                    self,
                ).resolver_factory.spec_side_effect_free(module.request@)
            }) by {
                assert(pre_compile.module_graph.resolve_edges.spec_lookup(d) is None);
            }
            if !(self.options.builtins.tree_shaking.spec_enable()
                || self.options.output.spec_has_module_library_type()) {
                assert(self.compilation.used_symbol_ref@.len() == 0);
                assert(self.compilation.side_effects_free_modules@.len() == 0);
                assert(self.compilation.bailout_module_identifiers@.len() == 0);
                assert(self.compilation.module_item_map.items().len() == 0);
            }
        }
        if self.build_generation < u64::MAX {
            self.build_generation = self.build_generation + 1;
        }
        self.cache.begin_idle();
        let r = self.compile_done();
        proof {
            let ps2 = old(self).plugin_driver.plugins@;
            if r is Ok {
                assert(self.compilation.module_graph.dependencies.items()
                    == crate::plugin::spec_entry_deps(ps2, ps2.len() as int, 0)
                    || (self.options.incremental_rebuild.make && old(self).build_generation > 0));
                assert(forall|k: Seq<char>|
                    self.compilation.assets.contains_key(k)
                        <==> crate::compilation::spec_sealed_name(
                        self.compilation.included_module_ids@,
                        self.compilation.module_graph.modules,
                        k,
                    ));
                assert(self.compilation.diagnostics@ == old(self).plugin_driver.diagnostics@);
                if !(self.options.incremental_rebuild.make && old(self).build_generation > 0) {
                    assert(forall|nm: Seq<char>|
                        self.compilation.entries.spec_lookup(nm)
                            == crate::plugin::spec_entry_binding(ps2, ps2.len() as int, 0, nm));
                }
                assert(forall|k: Seq<char>|
                    crate::compilation::spec_sealed_name(
                        self.compilation.included_module_ids@,
                        self.compilation.module_graph.modules,
                        k,
                    ) ==> (#[trigger] self.compilation.assets.spec_lookup(k) matches Some(a)
                        && crate::compilation::spec_sealed_asset(
                        self.compilation.included_module_ids@,
                        self.compilation.module_graph.modules,
                        k,
                        a,
                    )));
            }
            if r is Ok {
                let gate2 = old(self).options.builtins.tree_shaking.spec_enable() || old(
                    self,
                ).options.output.spec_has_module_library_type();
                let narrow2 = old(self).options.builtins.tree_shaking.spec_enable() && old(
                    self,
                ).options.optimization.side_effects.spec_is_enable();
                assert(self.compilation.included_module_ids@ == (if gate2 && narrow2 {
                    crate::compilation::spec_narrowed_ids(
                        self.compilation.entries.items(),
                        self.compilation.module_graph.resolve_edges,
                        self.compilation.module_graph.modules.items(),
                    )
                } else {
                    crate::compilation::spec_all_ids(
                        self.compilation.module_graph.modules.items(),
                    )
                }));
                if gate2 {
                    assert(self.compilation.used_symbol_ref@ == crate::compilation::spec_all_ids(
                        self.compilation.module_graph.modules.items(),
                    ));
                    assert(self.compilation.side_effects_free_modules@
                        == crate::compilation::spec_sef_ids(
                        self.compilation.module_graph.modules.items(),
                    ));
                    assert(self.compilation.bailout_module_identifiers@.len() == 0);
                    assert(self.compilation.module_item_map.items().len() == 0);
                } else {
                    assert(self.compilation.used_symbol_ref@.len() == 0);
                    assert(self.compilation.side_effects_free_modules@.len() == 0);
                    assert(self.compilation.bailout_module_identifiers@.len() == 0);
                    assert(self.compilation.module_item_map.items().len() == 0);
                }
                if self.options.incremental_rebuild.make && old(self).build_generation > 0 {
                    assert(self.compilation.entries.items().len() == 0);
                    assert(self.compilation.module_graph.dependencies.items().len() == 0);
                } else {
                    let force2 = crate::plugin::spec_force_after(
                        ps2,
                        ps2.len() as int,
                        0,
                        Seq::<(u64, Option<u64>)>::empty(),
                    );
                    assert(forall|j: int|
                        0 <= j < force2.len()
                            && self.compilation.module_graph.dependencies.contains_key(
                            #[trigger] force2[j].0,
                        ) ==> self.compilation.module_graph.resolve_edges.contains_key(
                            force2[j].0,
                        ));
                }
            }
            if spec_first_fail(ps2, HookKind::BeforeCompile) == ps2.len() && spec_first_fail(
                ps2,
                HookKind::ThisCompilation,
            ) == ps2.len() && spec_first_fail(ps2, HookKind::CompilationHook) == ps2.len()
                && spec_first_fail(ps2, HookKind::Make) == ps2.len() && spec_first_fail(
                ps2,
                HookKind::FinishMake,
            ) == ps2.len() && spec_first_fail(ps2, HookKind::Finish) == ps2.len()
                && spec_first_fail(ps2, HookKind::AfterCompile) == ps2.len()
                && !self.options.builtins.no_emit_assets {
                assert(spec_emission_effects(
                    old(self).output_filesystem,
                    self.output_filesystem,
                    old(self).emitted_asset_versions,
                    self.emitted_asset_versions,
                    self.compilation.assets,
                    old(self).options.output.path@,
                    old(self).options.output.clean,
                    old(self).options.incremental_rebuild.emit_asset,
                    ps2,
                ));
            }
        }
        r
    }

    /// Run one build to completion or to first error.
    pub fn run(&mut self) -> (r: Result<(), CoreError>)
        requires
            old(self).wf(),
            old(self).plugin_driver.plugins@.len() * 2 <= u64::MAX,
        ensures
            final(self).wf(),
            Self::spec_build_post(*old(self), *final(self), r),
    {
        match self.build() {
            Ok(()) => Ok(()),
            Err(e) => Err(e),
        }
    }

    /// Whether emission gets as far as the write loop: the emit hook lets it
    /// through, and a full clean (when one is due) is possible.
    pub open spec fn spec_reaches_writes(&self) -> bool {
        &&& spec_first_fail(self.plugin_driver.plugins@, HookKind::Emit)
            == self.plugin_driver.plugins@.len()
        &&& ((self.options.output.clean && self.emitted_asset_versions.items().len() == 0)
            ==> self.output_filesystem.io_ok(self.options.output.path@))
    }

    /// Emit the current assets: under clean output, first remove everything
    /// (no prior version map) or just the stale files (prior map present);
    /// fire the emit hook; then write every asset whose version does not
    /// match its previously recorded, non-empty version, recording fresh
    /// versions along the way; writes that fail do not stop their siblings,
    /// and the first failure is reported once all are done.
    #[verifier::loop_isolation(false)]
    #[verifier::rlimit(100)]
    pub fn emit_assets(&mut self) -> (r: Result<(), CoreError>)
        requires
            old(self).wf(),
        ensures
            final(self).wf(),
            final(self).options == old(self).options,
            final(self).compilation.assets == old(self).compilation.assets,
            final(self).compilation.entries == old(self).compilation.entries,
            final(self).compilation.module_graph == old(self).compilation.module_graph,
            final(self).compilation.diagnostics == old(self).compilation.diagnostics,
            final(self).compilation.included_module_ids == old(
                self,
            ).compilation.included_module_ids,
            final(self).compilation.incremental_make == old(self).compilation.incremental_make,
            final(self).compilation.build_generation == old(self).compilation.build_generation,
            final(self).compilation.used_symbol_ref == old(self).compilation.used_symbol_ref,
            final(self).compilation.side_effects_free_modules == old(
                self,
            ).compilation.side_effects_free_modules,
            final(self).compilation.bailout_module_identifiers == old(
                self,
            ).compilation.bailout_module_identifiers,
            final(self).compilation.module_item_map == old(self).compilation.module_item_map,
            final(self).plugin_driver.plugins == old(self).plugin_driver.plugins,
            final(self).plugin_driver.diagnostics == old(self).plugin_driver.diagnostics,
            final(self).resolver_factory == old(self).resolver_factory,
            final(self).cache == old(self).cache,
            final(self).build_generation == old(self).build_generation,
            forall|p: Seq<char>|
                final(self).output_filesystem.io_ok(p) == old(self).output_filesystem.io_ok(p),
            spec_emission_effects(
                old(self).output_filesystem,
                final(self).output_filesystem,
                old(self).emitted_asset_versions,
                final(self).emitted_asset_versions,
                old(self).compilation.assets,
                old(self).options.output.path@,
                old(self).options.output.clean,
                old(self).options.incremental_rebuild.emit_asset,
                old(self).plugin_driver.plugins@,
            ),
            // success is owed when nothing stands in the way
            old(self).spec_reaches_writes() && (forall|j: int|
                0 <= j < old(self).compilation.assets.items().len() && spec_needs_write(
                    old(self).emitted_asset_versions,
                    #[trigger] old(self).compilation.assets.items()[j].0@,
                    old(self).compilation.assets.items()[j].1,
                ) ==> old(self).output_filesystem.io_ok(
                    spec_parent(
                        spec_asset_path(
                            old(self).compilation.assets,
                            old(self).options.output.path@,
                            j,
                        ),
                    ),
                ) && old(self).output_filesystem.io_ok(
                    spec_asset_path(old(self).compilation.assets, old(self).options.output.path@, j),
                )) && spec_first_fail(old(self).plugin_driver.plugins@, HookKind::AssetEmitted)
                == old(self).plugin_driver.plugins@.len() && spec_first_fail(
                old(self).plugin_driver.plugins@,
                HookKind::AfterEmit,
            ) == old(self).plugin_driver.plugins@.len() ==> r is Ok,
            r is Ok ==> old(self).spec_reaches_writes() && spec_first_fail(
                old(self).plugin_driver.plugins@,
                HookKind::AfterEmit,
            ) == old(self).plugin_driver.plugins@.len(),
            // under passing hooks the reported error is a refused write's own
            spec_first_fail(old(self).plugin_driver.plugins@, HookKind::Emit) == old(
                self,
            ).plugin_driver.plugins@.len() && spec_first_fail(
                old(self).plugin_driver.plugins@,
                HookKind::AssetEmitted,
            ) == old(self).plugin_driver.plugins@.len() && spec_first_fail(
                old(self).plugin_driver.plugins@,
                HookKind::AfterEmit,
            ) == old(self).plugin_driver.plugins@.len() ==> ({
                &&& (r is Err ==> r == Err::<(), CoreError>(
                    CoreError::Io(crate::fs::FsError::Denied),
                ))
                &&& (old(self).spec_reaches_writes() ==> (r is Err <==> exists|j: int|
                    0 <= j < old(self).compilation.assets.items().len() && spec_needs_write(
                        old(self).emitted_asset_versions,
                        #[trigger] old(self).compilation.assets.items()[j].0@,
                        old(self).compilation.assets.items()[j].1,
                    ) && !(old(self).output_filesystem.io_ok(
                        spec_parent(
                            spec_asset_path(
                                old(self).compilation.assets,
                                old(self).options.output.path@,
                                j,
                            ),
                        ),
                    ) && old(self).output_filesystem.io_ok(
                        spec_asset_path(
                            old(self).compilation.assets,
                            old(self).options.output.path@,
                            j,
                        ),
                    ))))
            }),
    {
        let ghost v0 = old(self).emitted_asset_versions;
        let ghost a0 = old(self).compilation.assets;
        let ghost out = old(self).options.output.path@;
        let ghost clean = old(self).options.output.clean;
        if self.options.output.clean {
            if self.emitted_asset_versions.len() == 0 {
                let path = self.options.output.path.clone();
                match self.output_filesystem.remove_dir_all(path.as_str()) {
                    Ok(()) => {}
                    Err(e) => {
                        return Err(CoreError::Io(e));
                    }
                }
            } else {
                let ghost fs0 = self.output_filesystem.files();
                let n = self.emitted_asset_versions.len();
                let mut i: usize = 0;
                while i < n
                    invariant
                        i <= n,
                        n == v0.items().len(),
                        self.emitted_asset_versions == v0,
                        self.wf(),
                        self.compilation == old(self).compilation,
                        self.options == old(self).options,
                        self.plugin_driver == old(self).plugin_driver,
                        self.resolver_factory == old(self).resolver_factory,
                        self.cache == old(self).cache,
                        self.build_generation == old(self).build_generation,
                        forall|p: Seq<char>|
                            self.output_filesystem.io_ok(p) == old(self).output_filesystem.io_ok(
                                p,
                            ),
                        fs0 == old(self).output_filesystem.files(),
                        spec_submap(self.output_filesystem.files(), fs0),
                        forall|p: Seq<char>|
                            !(exists|k: Seq<char>|
                                #[trigger] spec_stale_name(v0, a0, k) && p == spec_join(out, k))
                                ==> spec_files_agree(
                                fs0,
                                self.output_filesystem.files(),
                                p,
                            ),
                        forall|p: Seq<char>| #![trigger old(self).output_filesystem.io_ok(p)]
                            !old(self).output_filesystem.io_ok(p) ==> spec_files_agree(
                                fs0,
                                self.output_filesystem.files(),
                                p,
                            ),
                        forall|j: int|
                            0 <= j < i && spec_stale_name(v0, a0, #[trigger] v0.items()[j].0@)
                                && old(self).output_filesystem.files().contains_key(
                                spec_join(out, v0.items()[j].0@),
                            ) && old(self).output_filesystem.io_ok(
                                spec_join(out, v0.items()[j].0@),
                            ) ==> !self.output_filesystem.files().contains_key(
                                spec_join(out, v0.items()[j].0@),
                            ),
                    decreases n - i,
                {
                    let ghost fs_iter = self.output_filesystem.files();
                    let name = self.emitted_asset_versions.key_at(i).clone();
                    if !self.compilation.assets.has_key(&name) {
                        proof {
                            assert forall|jj: int| 0 <= jj < i implies v0.items()[jj].0@
                                != name@ by {}
                            crate::table::lemma_str_lookup_at(v0.items(), name@, i as int);
                            assert(spec_stale_name(v0, a0, name@));
                        }
                        let path = join_path(&self.options.output.path, name.as_str());
                        let ghost fs_pre = self.output_filesystem.files();
                        let _ = self.output_filesystem.remove_file(path.as_str());
                        proof {
                            assert(path@ == spec_join(out, name@));
                            assert forall|p: Seq<char>|
                                self.output_filesystem.files().contains_key(p) implies fs_pre
                                .contains_key(p) && self.output_filesystem.files()[p]
                                == fs_pre[p] by {}
                            assert forall|p: Seq<char>|
                                !(exists|k: Seq<char>|
                                    #[trigger] spec_stale_name(v0, a0, k) && p == spec_join(
                                        out,
                                        k,
                                    )) implies spec_files_agree(
                                fs_pre,
                                self.output_filesystem.files(),
                                p,
                            ) by {
                                if p == path@ {
                                    assert(spec_stale_name(v0, a0, name@) && p == spec_join(
                                        out,
                                        name@,
                                    ));
                                    assert(false);
                                }
                            }
                            assert(fs_pre == fs_iter);
                            assert forall|p: Seq<char>|
                                #[trigger] self.output_filesystem.files().dom().contains(
                                p,
                            ) implies fs0.dom().contains(p) && self.output_filesystem.files()[p]
                                == fs0[p] by {
                                assert(fs_pre.dom().contains(p));
                            }
                            assert(spec_submap(self.output_filesystem.files(), fs0));
                            assert forall|p: Seq<char>|
                                !(exists|k: Seq<char>|
                                    #[trigger] spec_stale_name(v0, a0, k) && p == spec_join(
                                        out,
                                        k,
                                    )) implies spec_files_agree(
                                fs0,
                                self.output_filesystem.files(),
                                p,
                            ) by {
                                assert(spec_files_agree(
                                    fs_pre,
                                    self.output_filesystem.files(),
                                    p,
                                ));
                                assert(spec_files_agree(fs0, fs_pre, p));
                            }
                        }
                    }
                    i += 1;
                }
                proof {
                    assert forall|k: Seq<char>|
                        spec_stale_name(v0, a0, k) && old(
                            self,
                        ).output_filesystem.files().contains_key(spec_join(out, k)) && old(
                            self,
                        ).output_filesystem.io_ok(spec_join(out, k)) implies !self
                        .output_filesystem
                        .files()
                        .contains_key(spec_join(out, k)) by {
                        crate::table::lemma_str_lookup_index(v0.items(), k);
                    }
                }
            }
        }
        let ghost fs_clean = self.output_filesystem;
        proof {
            assert forall|p: Seq<char>|
                !(clean && v0.items().len() == 0 && path_under(p, out)) && !old(
                    self,
                ).output_filesystem.io_ok(p) implies spec_files_agree(
                old(self).output_filesystem.files(),
                self.output_filesystem.files(),
                p,
            ) by {}
        }
        match self.plugin_driver.run_hook(HookKind::Emit) {
            Ok(()) => {}
            Err(e) => {
                return Err(e);
            }
        }
        let inc = self.options.is_incremental_rebuild_emit_asset_enabled();
        let mut new_versions: StrTable<String> = StrTable::new();
        let mut first_err: Option<CoreError> = None;
        let n = self.compilation.assets.len();
        let mut j: usize = 0;
        while j < n
            invariant
                j <= n,
                n == a0.items().len(),
                self.wf(),
                self.emitted_asset_versions == v0,
                self.compilation.assets == a0,
                self.compilation.entries == old(self).compilation.entries,
                self.compilation.module_graph == old(self).compilation.module_graph,
                self.compilation.diagnostics == old(self).compilation.diagnostics,
                self.compilation.included_module_ids == old(self).compilation.included_module_ids,
                self.compilation.incremental_make == old(self).compilation.incremental_make,
                self.compilation.build_generation == old(self).compilation.build_generation,
                self.compilation.used_symbol_ref == old(self).compilation.used_symbol_ref,
                self.compilation.side_effects_free_modules == old(
                    self,
                ).compilation.side_effects_free_modules,
                self.compilation.bailout_module_identifiers == old(
                    self,
                ).compilation.bailout_module_identifiers,
                self.compilation.module_item_map == old(self).compilation.module_item_map,
                self.options == old(self).options,
                self.plugin_driver.plugins == old(self).plugin_driver.plugins,
                self.plugin_driver.diagnostics == old(self).plugin_driver.diagnostics,
                self.plugin_driver.wf(),
                self.resolver_factory == old(self).resolver_factory,
                self.cache == old(self).cache,
                self.build_generation == old(self).build_generation,
                forall|p: Seq<char>|
                    self.output_filesystem.io_ok(p) == old(self).output_filesystem.io_ok(p),
                new_versions.wf(),
                inc == old(self).options.incremental_rebuild.emit_asset,
                inc ==> forall|k: Seq<char>|
                    new_versions.spec_lookup(k) == (match str_lookup(
                        a0.items().subrange(0, j as int),
                        k,
                    ) {
                        Some(a) => Some(a.version),
                        None => None,
                    }),
                !inc ==> new_versions.items().len() == 0,
                forall|p: Seq<char>|
                    !spec_emit_touched(v0, a0, out, clean, p) ==> spec_files_agree(
                        old(self).output_filesystem.files(),
                        self.output_filesystem.files(),
                        p,
                    ),
                clean && v0.items().len() == 0 ==> forall|p: Seq<char>|
                    path_under(p, out) && !spec_write_target(v0, a0, out, p)
                        ==> !self.output_filesystem.files().contains_key(p),
                clean && v0.items().len() > 0 ==> forall|k: Seq<char>|
                    spec_stale_name(v0, a0, k) && old(
                        self,
                    ).output_filesystem.files().contains_key(spec_join(out, k)) && old(
                        self,
                    ).output_filesystem.io_ok(spec_join(out, k)) && !spec_write_target(
                        v0,
                        a0,
                        out,
                        spec_join(out, k),
                    ) ==> !self.output_filesystem.files().contains_key(spec_join(out, k)),
                forall|jj: int|
                    0 <= jj < j && spec_needs_write(
                        v0,
                        #[trigger] a0.items()[jj].0@,
                        a0.items()[jj].1,
                    ) && old(self).output_filesystem.io_ok(
                        spec_parent(spec_asset_path(a0, out, jj)),
                    ) && old(self).output_filesystem.io_ok(spec_asset_path(a0, out, jj)) && (
                    forall|j2: int|
                        jj < j2 < j && spec_needs_write(
                            v0,
                            #[trigger] a0.items()[j2].0@,
                            a0.items()[j2].1,
                        ) ==> spec_asset_path(a0, out, j2) != spec_asset_path(a0, out, jj))
                        ==> self.output_filesystem.files().contains_key(
                        spec_asset_path(a0, out, jj),
                    ) && self.output_filesystem.files()[spec_asset_path(a0, out, jj)]
                        == a0.items()[jj].1.source->0@,
                spec_first_fail(old(self).plugin_driver.plugins@, HookKind::AssetEmitted) == old(
                    self,
                ).plugin_driver.plugins@.len() ==> (first_err is Some <==> exists|jj: int|
                    0 <= jj < j && spec_needs_write(
                        v0,
                        #[trigger] a0.items()[jj].0@,
                        a0.items()[jj].1,
                    ) && !(old(self).output_filesystem.io_ok(
                        spec_parent(spec_asset_path(a0, out, jj)),
                    ) && old(self).output_filesystem.io_ok(spec_asset_path(a0, out, jj)))),
                spec_first_fail(old(self).plugin_driver.plugins@, HookKind::AssetEmitted) == old(
                    self,
                ).plugin_driver.plugins@.len() ==> (first_err matches Some(e2) ==> e2
                    == CoreError::Io(crate::fs::FsError::Denied)),
                forall|p: Seq<char>| #![trigger old(self).output_filesystem.io_ok(p)]
                    !(clean && v0.items().len() == 0 && path_under(p, out)) && !old(
                        self,
                    ).output_filesystem.io_ok(p) ==> spec_files_agree(
                        old(self).output_filesystem.files(),
                        self.output_filesystem.files(),
                        p,
                    ),
            decreases n - j,
        {
            let name = self.compilation.assets.key_at(j).clone();
            let version = self.compilation.assets.value_at(j).version.clone();
            proof {
                assert forall|jj: int| 0 <= jj < j implies a0.items()[jj].0@ != name@ by {}
                crate::table::lemma_str_lookup_none(a0.items().subrange(0, j as int), name@);
            }
            if inc {
                new_versions.insert(name.clone(), version.clone());
            }
            let skip = match self.emitted_asset_versions.get(&name) {
                Some(old_version) => crate::paths::str_equal(
                    old_version.as_str(),
                    version.as_str(),
                ) && !old_version.as_str().is_empty(),
                None => false,
            };
            let ghost nv_snapshot = new_versions;
            let ghost fs_before = self.output_filesystem.files();
            if !skip {
                let asset = {
                    let a = self.compilation.assets.value_at(j);
                    CompilationAsset {
                        source: match a.get_source() {
                            Some(s) => Some(vstd::slice::slice_to_vec(s.as_slice())),
                            None => None,
                        },
                        version,
                    }
                };
                match self.emit_asset(&name, &asset) {
                    Ok(()) => {}
                    Err(e) => {
                        if first_err.is_none() {
                            first_err = Some(e);
                        }
                    }
                }
            }
            proof {
                assert forall|p: Seq<char>|
                    !(clean && v0.items().len() == 0 && path_under(p, out)) && !old(
                        self,
                    ).output_filesystem.io_ok(p) implies spec_files_agree(
                    fs_before,
                    self.output_filesystem.files(),
                    p,
                ) by {
                    assert(spec_files_agree(
                        old(self).output_filesystem.files(),
                        fs_before,
                        p,
                    ));
                    if self.output_filesystem.files() != fs_before {
                        assert(p != spec_join(out, spec_strip_query(name@)));
                    }
                }
                assert forall|p: Seq<char>|
                    !(clean && v0.items().len() == 0 && path_under(p, out)) && !old(
                        self,
                    ).output_filesystem.io_ok(p) implies spec_files_agree(
                    old(self).output_filesystem.files(),
                    self.output_filesystem.files(),
                    p,
                ) by {
                    assert(spec_files_agree(
                        old(self).output_filesystem.files(),
                        fs_before,
                        p,
                    ));
                    assert(spec_files_agree(fs_before, self.output_filesystem.files(), p));
                }
            }
            proof {
                assert(a0.items().subrange(0, j as int + 1) =~= a0.items().subrange(
                    0,
                    j as int,
                ).push(a0.items()[j as int]));
                if inc {
                    assert forall|k: Seq<char>|
                        new_versions.spec_lookup(k) == (match str_lookup(
                            a0.items().subrange(0, j as int + 1),
                            k,
                        ) {
                            Some(a) => Some(a.version),
                            None => None,
                        }) by {
                        crate::table::lemma_str_lookup_push(
                            a0.items().subrange(0, j as int),
                            a0.items()[j as int],
                            k,
                        );
                    }
                }
            }
            j += 1;
        }
        proof {
            assert(a0.items().subrange(0, n as int) =~= a0.items());
        }
        self.emitted_asset_versions = new_versions;
        match first_err {
            Some(e) => {
                return Err(e);
            }
            None => {}
        }
        self.plugin_driver.run_hook(HookKind::AfterEmit)
    }

    /// Fire the asset-emitted event for one written asset.
    fn asset_emitted(&mut self, args: &AssetEmittedArgs) -> (r: Result<(), CoreError>)
        requires
            old(self).wf(),
        ensures
            final(self).wf(),
            final(self).options == old(self).options,
            final(self).output_filesystem == old(self).output_filesystem,
            final(self).compilation == old(self).compilation,
            final(self).resolver_factory == old(self).resolver_factory,
            final(self).cache == old(self).cache,
            final(self).emitted_asset_versions == old(self).emitted_asset_versions,
            final(self).build_generation == old(self).build_generation,
            final(self).plugin_driver.plugins == old(self).plugin_driver.plugins,
            final(self).plugin_driver.diagnostics == old(self).plugin_driver.diagnostics,
            r is Ok <==> spec_first_fail(old(self).plugin_driver.plugins@, HookKind::AssetEmitted)
                == old(self).plugin_driver.plugins@.len(),
            r is Err ==> Some(r->Err_0) == spec_hook_error(
                old(self).plugin_driver.plugins@[spec_first_fail(
                    old(self).plugin_driver.plugins@,
                    HookKind::AssetEmitted,
                )],
                HookKind::AssetEmitted,
            ),
    {
        let _ = args;
        self.plugin_driver.run_hook(HookKind::AssetEmitted)
    }
}

} // verus!
