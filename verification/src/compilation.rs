//! One build pass: the module graph, entries, assets, diagnostics and
//! analysis results, plus the make, seal and analysis phases.

use vstd::prelude::*;

use crate::error::{CoreError, Diagnostic};
use crate::options::EntryOptions;
use crate::plugin::{HookKind, PluginDriver};
use crate::resolver::{Module, ResolverFactory};
use crate::table::{str_lookup, IdTable, StrTable};

verus! {

/// A dependency record: the request to resolve.
#[derive(Debug, Clone, PartialEq, Eq)]
pub struct Dependency {
    pub request: String,
}

/// One named entry: its dependency id and options.
#[derive(Debug, Clone, PartialEq, Eq)]
pub struct EntryData {
    pub dep_id: u64,
    pub options: EntryOptions,
}

/// A named output blob: content plus a content-version string. Never
/// mutated after sealing.
#[derive(Debug, Clone, PartialEq, Eq)]
pub struct CompilationAsset {
    pub source: Option<Vec<u8>>,
    /// Opaque content version; empty never short-circuits a write.
    pub version: String,
}

impl CompilationAsset {
    pub fn get_source(&self) -> (r: Option<&Vec<u8>>)
        ensures
            match r {
                Some(s) => self.source == Some(*s),
                None => self.source is None,
            },
    {
        match &self.source {
            Some(s) => Some(s),
            None => None,
        }
    }
}

/// The dependency graph: dependency records, module records, and the edges
/// resolving a dependency to a module. Ids are allocated here and stay
/// stable, so incremental rounds can match old and new nodes.
#[derive(Debug)]
pub struct ModuleGraph {
    pub dependencies: IdTable<Dependency>,
    pub modules: IdTable<Module>,
    /// Dependency id to the module it resolved to.
    pub resolve_edges: IdTable<u64>,
    pub next_dependency_id: u64,
    pub next_module_id: u64,
}

impl ModuleGraph {
    /// Keys are unique and below the allocation cursors.
    pub open spec fn wf(&self) -> bool {
        &&& self.dependencies.wf()
        &&& self.modules.wf()
        &&& self.resolve_edges.wf()
        &&& (forall|i: int|
            0 <= i < self.dependencies.items().len() ==> #[trigger] self.dependencies.items()[i].0
                < self.next_dependency_id)
        &&& (forall|i: int|
            0 <= i < self.modules.items().len() ==> #[trigger] self.modules.items()[i].0
                < self.next_module_id)
    }

    pub fn new() -> (r: Self)
        ensures
            r.wf(),
            r.dependencies.items().len() == 0,
            r.modules.items().len() == 0,
            r.resolve_edges.items().len() == 0,
            r.next_dependency_id == 0,
            r.next_module_id == 0,
    {
        ModuleGraph {
            dependencies: IdTable::new(),
            modules: IdTable::new(),
            resolve_edges: IdTable::new(),
            next_dependency_id: 0,
            next_module_id: 0,
        }
    }

    /// Allocate a fresh dependency id and insert the record under it. The id
    /// is the stable handle used by the force-build set before resolution.
    pub fn add_dependency(&mut self, dep: Dependency) -> (id: u64)
        requires
            old(self).wf(),
            old(self).next_dependency_id < u64::MAX,
        ensures
            final(self).wf(),
            id == old(self).next_dependency_id,
            final(self).next_dependency_id == id + 1,
            final(self).dependencies.items() == old(self).dependencies.items().push((id, dep)),
            final(self).dependencies.spec_lookup(id) == Some(dep),
            forall|k2: u64| k2 != id ==>
                final(self).dependencies.spec_lookup(k2) == old(self).dependencies.spec_lookup(k2),
            !old(self).dependencies.contains_key(id),
            final(self).modules == old(self).modules,
            final(self).resolve_edges == old(self).resolve_edges,
            final(self).next_module_id == old(self).next_module_id,
    {
        let id = self.next_dependency_id;
        proof {
            if self.dependencies.contains_key(id) {
                crate::table::lemma_id_lookup_index(self.dependencies.items(), id);
            }
        }
        self.dependencies.insert_new(id, dep);
        self.next_dependency_id = id + 1;
        id
    }

    /// Allocate a fresh module id and insert the record under it.
    pub fn add_module(&mut self, m: Module) -> (id: u64)
        requires
            old(self).wf(),
            old(self).next_module_id < u64::MAX,
        ensures
            final(self).wf(),
            id == old(self).next_module_id,
            final(self).next_module_id == id + 1,
            final(self).modules.items() == old(self).modules.items().push((id, m)),
            final(self).modules.spec_lookup(id) == Some(m),
            forall|k2: u64| k2 != id ==>
                final(self).modules.spec_lookup(k2) == old(self).modules.spec_lookup(k2),
            !old(self).modules.contains_key(id),
            final(self).dependencies == old(self).dependencies,
            final(self).resolve_edges == old(self).resolve_edges,
            final(self).next_dependency_id == old(self).next_dependency_id,
    {
        let id = self.next_module_id;
        proof {
            if self.modules.contains_key(id) {
                crate::table::lemma_id_lookup_index(self.modules.items(), id);
            }
        }
        self.modules.insert_new(id, m);
        self.next_module_id = id + 1;
        id
    }
}

/// The unit of work for one make invocation: either force-build an explicit
/// dependency set (each with an optional originating module), or rebuild
/// everything reachable from the entries.
#[derive(Debug)]
pub enum MakeParam {
    ForceBuildDeps(Vec<(u64, Option<u64>)>),
    FreshBuild,
}

/// The force-build list a param carries.
pub open spec fn spec_force_list(p: MakeParam) -> Seq<(u64, Option<u64>)> {
    match p {
        MakeParam::ForceBuildDeps(v) => v@,
        MakeParam::FreshBuild => Seq::empty(),
    }
}

impl MakeParam {
    /// Declare a dependency as force-build work for this round; adding an id
    /// twice keeps one copy.
    #[verifier::loop_isolation(false)]
    pub fn add_force_build_dependency(&mut self, id: u64, origin: Option<u64>)
        ensures
            *old(self) is FreshBuild ==> *final(self) == *old(self),
            *old(self) is ForceBuildDeps ==> *final(self) is ForceBuildDeps && spec_force_list(
                *final(self),
            ) == (if exists|j: int|
                0 <= j < spec_force_list(*old(self)).len() && spec_force_list(*old(self))[j].0
                    == id {
                spec_force_list(*old(self))
            } else {
                spec_force_list(*old(self)).push((id, origin))
            }),
    {
        match self {
            MakeParam::FreshBuild => {}
            MakeParam::ForceBuildDeps(v) => {
                let n = v.len();
                let mut i: usize = 0;
                while i < n
                    invariant
                        i <= n,
                        n == v@.len(),
                        forall|j: int| 0 <= j < i ==> v@[j].0 != id,
                    decreases n - i,
                {
                    if v[i].0 == id {
                        return ;
                    }
                    i += 1;
                }
                v.push((id, origin));
            }
        }
    }
}

/// The request of the `j`-th included module, if it names a module.
pub open spec fn spec_included_request(
    included: Seq<u64>,
    modules: IdTable<Module>,
    j: int,
) -> Option<Seq<char>> {
    if 0 <= j < included.len() {
        match modules.spec_lookup(included[j]) {
            Some(m) => Some(m.request@),
            None => None,
        }
    } else {
        None
    }
}

/// Whether `k` is the filename of an asset the seal step produces.
pub open spec fn spec_sealed_name(included: Seq<u64>, modules: IdTable<Module>, k: Seq<char>) -> bool {
    exists|j: int|
        0 <= j < included.len() && #[trigger] spec_included_request(included, modules, j) == Some(
            k,
        )
}

/// What a sealed asset named `k` holds: some included module's content and
/// the version stamp derived from the request.
pub open spec fn spec_sealed_asset(
    included: Seq<u64>,
    modules: IdTable<Module>,
    k: Seq<char>,
    a: CompilationAsset,
) -> bool {
    exists|j: int|
        0 <= j < included.len() && #[trigger] spec_included_request(included, modules, j) == Some(
            k,
        ) && (a.source matches Some(src) && src@ == modules.spec_lookup(included[j])->0.source@)
            && a.version@ == "v"@ + k
}

/// What the dependency analysis produces over a finished module graph.
#[derive(Debug)]
pub struct AnalysisResult {
    pub used_symbol_ref: Vec<u64>,
    pub bail_out_module_identifiers: Vec<u64>,
    pub side_effects_free_modules: Vec<u64>,
    pub module_item_map: IdTable<Vec<u64>>,
    pub included_module_ids: Vec<u64>,
}

/// Every module id, in graph order.
pub open spec fn spec_all_ids(items: Seq<(u64, Module)>) -> Seq<u64> {
    Seq::new(items.len(), |j: int| items[j].0)
}

/// The ids of side-effect-free modules, in graph order.
pub open spec fn spec_sef_ids(items: Seq<(u64, Module)>) -> Seq<u64>
    decreases items.len(),
{
    if items.len() == 0 {
        Seq::empty()
    } else {
        spec_sef_ids(items.drop_last()) + (if items.last().1.side_effect_free {
            seq![items.last().0]
        } else {
            Seq::empty()
        })
    }
}

/// Whether some entry's dependency resolves to module `id`.
pub open spec fn spec_entry_target(
    entries: Seq<(String, EntryData)>,
    edges: IdTable<u64>,
    id: u64,
) -> bool {
    exists|j: int|
        0 <= j < entries.len() && edges.spec_lookup(#[trigger] entries[j].1.dep_id) == Some(id)
}

/// The narrowed inclusion set: modules with side effects, plus entry
/// targets, in graph order.
pub open spec fn spec_narrowed_ids(
    entries: Seq<(String, EntryData)>,
    edges: IdTable<u64>,
    items: Seq<(u64, Module)>,
) -> Seq<u64>
    decreases items.len(),
{
    if items.len() == 0 {
        Seq::empty()
    } else {
        spec_narrowed_ids(entries, edges, items.drop_last()) + (if !items.last().1.side_effect_free
            || spec_entry_target(entries, edges, items.last().0) {
            seq![items.last().0]
        } else {
            Seq::empty()
        })
    }
}

/// One build pass's mutable state. Created fresh for the initial build and
/// replaced wholesale on each rebuild, so no reader ever observes a torn
/// predecessor.
#[derive(Debug)]
pub struct Compilation {
    /// Which build generation this pass belongs to; zero is the first.
    pub build_generation: u64,
    /// Whether the incremental-rebuild make state is tracked at all.
    pub incremental_make: bool,
    pub module_graph: ModuleGraph,
    /// Named entries.
    pub entries: StrTable<EntryData>,
    /// Generated assets by filename (a filename may carry a query suffix).
    pub assets: StrTable<CompilationAsset>,
    /// Filenames physically written during emission.
    pub emitted_assets: Vec<String>,
    /// Warnings and recoverable errors; reported, not thrown.
    pub diagnostics: Vec<Diagnostic>,
    /// Analysis: symbols referenced from entry modules.
    pub used_symbol_ref: Vec<u64>,
    /// Analysis: modules unsafe to tree-shake.
    pub bailout_module_identifiers: Vec<u64>,
    /// Analysis: modules free of import side effects.
    pub side_effects_free_modules: Vec<u64>,
    /// Analysis: per-module included items.
    pub module_item_map: IdTable<Vec<u64>>,
    /// Modules included in the final output.
    pub included_module_ids: Vec<u64>,
}

impl Compilation {
    pub open spec fn wf(&self) -> bool {
        &&& self.module_graph.wf()
        &&& self.entries.wf()
        &&& self.assets.wf()
    }

    pub fn new(incremental_make: bool, build_generation: u64) -> (r: Self)
        ensures
            r.wf(),
            r.incremental_make == incremental_make,
            r.build_generation == build_generation,
            r.module_graph.dependencies.items().len() == 0,
            r.module_graph.modules.items().len() == 0,
            r.module_graph.resolve_edges.items().len() == 0,
            r.module_graph.next_dependency_id == 0,
            r.module_graph.next_module_id == 0,
            r.entries.items().len() == 0,
            r.assets.items().len() == 0,
            r.emitted_assets@.len() == 0,
            r.diagnostics@.len() == 0,
            r.used_symbol_ref@.len() == 0,
            r.bailout_module_identifiers@.len() == 0,
            r.side_effects_free_modules@.len() == 0,
            r.module_item_map.items().len() == 0,
            r.included_module_ids@.len() == 0,
    {
        Compilation {
            build_generation,
            incremental_make,
            module_graph: ModuleGraph::new(),
            entries: StrTable::new(),
            assets: StrTable::new(),
            emitted_assets: Vec::new(),
            diagnostics: Vec::new(),
            used_symbol_ref: Vec::new(),
            bailout_module_identifiers: Vec::new(),
            side_effects_free_modules: Vec::new(),
            module_item_map: IdTable::new(),
            included_module_ids: Vec::new(),
        }
    }

    /// Register a named entry.
    pub fn add_entry(&mut self, dep_id: u64, name: String, options: EntryOptions)
        requires
            old(self).entries.wf(),
        ensures
            final(self).entries.wf(),
            final(self).entries.spec_lookup(name@) == Some(EntryData { dep_id, options }),
            forall|k: Seq<char>| k != name@ ==>
                final(self).entries.spec_lookup(k) == old(self).entries.spec_lookup(k),
            final(self).module_graph == old(self).module_graph,
            final(self).assets == old(self).assets,
            final(self).emitted_assets == old(self).emitted_assets,
            final(self).diagnostics == old(self).diagnostics,
            final(self).build_generation == old(self).build_generation,
            final(self).incremental_make == old(self).incremental_make,
            final(self).included_module_ids == old(self).included_module_ids,
            final(self).used_symbol_ref == old(self).used_symbol_ref,
            final(self).bailout_module_identifiers == old(self).bailout_module_identifiers,
            final(self).side_effects_free_modules == old(self).side_effects_free_modules,
            final(self).module_item_map == old(self).module_item_map,
            final(self).entries.items().len() <= old(self).entries.items().len() + 1,
    {
        self.entries.insert(name, EntryData { dep_id, options });
    }

    /// Append a batch of diagnostics.
    pub fn push_batch_diagnostic(&mut self, mut batch: Vec<Diagnostic>)
        ensures
            final(self).diagnostics@ == old(self).diagnostics@ + batch@,
            final(self).module_graph == old(self).module_graph,
            final(self).entries == old(self).entries,
            final(self).assets == old(self).assets,
            final(self).emitted_assets == old(self).emitted_assets,
            final(self).build_generation == old(self).build_generation,
            final(self).incremental_make == old(self).incremental_make,
            final(self).included_module_ids == old(self).included_module_ids,
            final(self).used_symbol_ref == old(self).used_symbol_ref,
            final(self).bailout_module_identifiers == old(self).bailout_module_identifiers,
            final(self).side_effects_free_modules == old(self).side_effects_free_modules,
            final(self).module_item_map == old(self).module_item_map,
    {
        self.diagnostics.append(&mut batch);
    }

    /// Whether the make hook must skip entry registration: an incremental
    /// rebuild that is not the first build generation re-uses the entries
    /// already in the graph.
    pub open spec fn spec_skip_entries(&self) -> bool {
        self.incremental_make && self.build_generation > 0
    }

    /// One entry plugin's reaction to the make hook: on the first build
    /// generation (or when incremental make state is not tracked), register
    /// the entry dependency in the graph and the named-entry table and
    /// declare it as force-build work; on a later incremental rebuild, do
    /// nothing.
    pub fn apply_entry_plugin(
        &mut self,
        name: &String,
        entry_request: &String,
        options: &EntryOptions,
        param: &mut MakeParam,
    )
        requires
            old(self).wf(),
            old(self).module_graph.next_dependency_id < u64::MAX,
        ensures
            final(self).wf(),
            old(self).spec_skip_entries() ==> *final(self) == *old(self) && *final(param) == *old(
                param,
            ),
            !old(self).spec_skip_entries() ==> ({
                let id = old(self).module_graph.next_dependency_id;
                &&& final(self).module_graph.next_dependency_id == id + 1
                &&& final(self).module_graph.dependencies.items() == old(
                    self,
                ).module_graph.dependencies.items().push(
                    (id, Dependency { request: *entry_request }),
                )
                &&& final(self).entries.spec_lookup(name@) == Some(
                    EntryData { dep_id: id, options: *options },
                )
                &&& (forall|k: Seq<char>|
                    k != name@ ==> final(self).entries.spec_lookup(k) == old(
                        self,
                    ).entries.spec_lookup(k))
                &&& (*old(param) is ForceBuildDeps ==> *final(param) is ForceBuildDeps
                    && spec_force_list(*final(param)) == (if exists|j: int|
                    0 <= j < spec_force_list(*old(param)).len() && spec_force_list(*old(param))[j].0
                        == id {
                    spec_force_list(*old(param))
                } else {
                    spec_force_list(*old(param)).push((id, None))
                }))
                &&& (*old(param) is FreshBuild ==> *final(param) == *old(param))
                &&& final(self).module_graph.modules == old(self).module_graph.modules
                &&& final(self).module_graph.resolve_edges == old(self).module_graph.resolve_edges
                &&& final(self).module_graph.next_module_id == old(self).module_graph.next_module_id
            }),
            final(self).assets == old(self).assets,
            final(self).diagnostics == old(self).diagnostics,
            final(self).emitted_assets == old(self).emitted_assets,
            final(self).build_generation == old(self).build_generation,
            final(self).incremental_make == old(self).incremental_make,
            final(self).included_module_ids == old(self).included_module_ids,
            final(self).used_symbol_ref == old(self).used_symbol_ref,
            final(self).bailout_module_identifiers == old(self).bailout_module_identifiers,
            final(self).side_effects_free_modules == old(self).side_effects_free_modules,
            final(self).module_item_map == old(self).module_item_map,
            final(self).entries.items().len() <= old(self).entries.items().len() + 1,
    {
        if self.incremental_make && self.build_generation > 0 {
            return ;
        }
        let dependency = Dependency { request: entry_request.clone() };
        let dependency_id = self.module_graph.add_dependency(dependency);
        self.add_entry(dependency_id, name.clone(), options.duplicate());
        param.add_force_build_dependency(dependency_id, None);
    }

    /// The make phase: fire the make hook so plugins can register entries
    /// and declare force-build work, then resolve the forced dependencies
    /// (all entry dependencies, for a fresh build) into modules.
    pub fn make(
        &mut self,
        params: MakeParam,
        driver: &mut PluginDriver,
        resolver: &mut ResolverFactory,
    ) -> (r: Result<(), CoreError>)
        requires
            old(self).wf(),
            old(driver).wf(),
            old(self).module_graph.next_dependency_id as int + old(driver).plugins@.len()
                <= u64::MAX,
            old(self).module_graph.next_module_id as int + spec_force_list(params).len() + old(
                driver,
            ).plugins@.len() + old(self).entries.items().len() <= u64::MAX,
        ensures
            final(self).wf(),
            final(driver).wf(),
            final(driver).plugins == old(driver).plugins,
            final(driver).diagnostics == old(driver).diagnostics,
            r is Ok <==> crate::plugin::spec_first_fail(old(driver).plugins@, HookKind::Make)
                == old(driver).plugins@.len(),
            r is Err ==> Some(r->Err_0) == crate::plugin::spec_hook_error(
                old(driver).plugins@[crate::plugin::spec_first_fail(
                    old(driver).plugins@,
                    HookKind::Make,
                )],
                HookKind::Make,
            ),
            final(self).assets == old(self).assets,
            final(self).diagnostics == old(self).diagnostics,
            final(self).emitted_assets == old(self).emitted_assets,
            final(self).build_generation == old(self).build_generation,
            final(self).incremental_make == old(self).incremental_make,
            final(self).included_module_ids == old(self).included_module_ids,
            final(self).used_symbol_ref == old(self).used_symbol_ref,
            final(self).bailout_module_identifiers == old(self).bailout_module_identifiers,
            final(self).side_effects_free_modules == old(self).side_effects_free_modules,
            final(self).module_item_map == old(self).module_item_map,
            old(self).spec_skip_entries() ==> final(self).entries == old(self).entries
                && final(self).module_graph.dependencies == old(self).module_graph.dependencies,
            !old(self).spec_skip_entries() ==> ({
                let ps = old(driver).plugins@;
                let upto = crate::plugin::spec_first_fail(ps, HookKind::Make);
                let start = old(self).module_graph.next_dependency_id;
                &&& final(self).module_graph.dependencies.items() == old(
                    self,
                ).module_graph.dependencies.items() + crate::plugin::spec_entry_deps(
                    ps,
                    upto,
                    start,
                )
                &&& (forall|nm: Seq<char>|
                    final(self).entries.spec_lookup(nm) == (
                    match crate::plugin::spec_entry_binding(ps, upto, start, nm) {
                        Some(d) => Some(d),
                        None => old(self).entries.spec_lookup(nm),
                    }))
            }),
            // existing resolutions and modules are kept
            forall|d: u64|
                old(self).module_graph.resolve_edges.contains_key(d)
                    ==> final(self).module_graph.resolve_edges.spec_lookup(d) == old(
                    self,
                ).module_graph.resolve_edges.spec_lookup(d),
            forall|m: u64|
                old(self).module_graph.modules.contains_key(m)
                    ==> final(self).module_graph.modules.spec_lookup(m) == old(
                    self,
                ).module_graph.modules.spec_lookup(m),
            // a new resolution resolves its dependency's request
            forall|d: u64|
                !old(self).module_graph.resolve_edges.contains_key(d)
                    && final(self).module_graph.resolve_edges.contains_key(d) ==> {
                    let m = final(self).module_graph.resolve_edges.spec_lookup(d)->0;
                    &&& final(self).module_graph.modules.spec_lookup(m) matches Some(module)
                        && module.request@ == final(self).module_graph.dependencies.spec_lookup(
                        d,
                    )->0.request@ && module.source@ == vstd::utf8::encode_utf8(module.request@)
                        && module.side_effect_free == old(resolver).spec_side_effect_free(
                        module.request@,
                    )
                },
            // on success every forced dependency with a record is resolved
            r is Ok && params is ForceBuildDeps && !old(self).spec_skip_entries() ==> ({
                let ps = old(driver).plugins@;
                let start = old(self).module_graph.next_dependency_id;
                let force = crate::plugin::spec_force_after(
                    ps,
                    ps.len() as int,
                    start,
                    spec_force_list(params),
                );
                forall|j: int|
                    0 <= j < force.len() && final(self).module_graph.dependencies.contains_key(
                        #[trigger] force[j].0,
                    ) ==> final(self).module_graph.resolve_edges.contains_key(force[j].0)
            }),
            // on success every fresh-build entry dependency is resolved
            r is Ok && params is FreshBuild ==> forall|nm: Seq<char>|
                #[trigger] final(self).entries.spec_lookup(nm) matches Some(d) ==> (final(self)
                    .module_graph
                    .dependencies
                    .contains_key(d.dep_id) ==> final(self).module_graph.resolve_edges.contains_key(
                    d.dep_id,
                )),
            final(resolver).side_effect_free_requests == old(resolver).side_effect_free_requests,
    {
        let mut params = params;
        let ghost f0 = spec_force_list(params);
        match driver.run_make_hook(self, &mut params) {
            Ok(()) => {}
            Err(e) => {
                return Err(e);
            }
        }
        proof {
            crate::plugin::lemma_first_fail_props(driver.plugins@, HookKind::Make);
            crate::plugin::lemma_force_after_len(
                driver.plugins@,
                crate::plugin::spec_first_fail(driver.plugins@, HookKind::Make),
                old(self).module_graph.next_dependency_id,
                f0,
            );
            crate::plugin::lemma_entry_count_bound(
                driver.plugins@,
                crate::plugin::spec_first_fail(driver.plugins@, HookKind::Make),
            );
        }
        let force: Vec<(u64, Option<u64>)> = match params {
            MakeParam::ForceBuildDeps(v) => v,
            MakeParam::FreshBuild => {
                let mut v: Vec<(u64, Option<u64>)> = Vec::new();
                let n = self.entries.len();
                let mut i: usize = 0;
                while i < n
                    invariant
                        i <= n,
                        n == self.entries.items().len(),
                        v@.len() == i,
                        forall|j: int|
                            0 <= j < i ==> v@[j] == (self.entries.items()[j].1.dep_id, None::<
                                u64,
                            >),
                    decreases n - i,
                {
                    let d = self.entries.value_at(i);
                    v.push((d.dep_id, None));
                    i += 1;
                }
                v
            }
        };
        self.force_build(&force, resolver);
        proof {
            if params is FreshBuild {
                assert forall|nm: Seq<char>|
                    #[trigger] self.entries.spec_lookup(nm) matches Some(d) ==> (
                    self.module_graph.dependencies.contains_key(d.dep_id)
                        ==> self.module_graph.resolve_edges.contains_key(d.dep_id)) by {
                    if self.entries.spec_lookup(nm) is Some {
                        crate::table::lemma_str_lookup_index(self.entries.items(), nm);
                        let j = choose|j: int|
                            0 <= j < self.entries.items().len() && self.entries.items()[j].0@ == nm
                                && str_lookup(self.entries.items(), nm) == Some(
                                self.entries.items()[j].1,
                            );
                        assert(force@[j] == (self.entries.items()[j].1.dep_id, None::<u64>));
                        assert(force@[j].0 == self.entries.items()[j].1.dep_id);
                        assert(self.module_graph.dependencies.contains_key(force@[j].0)
                            ==> self.module_graph.resolve_edges.contains_key(force@[j].0));
                        assert(self.entries.spec_lookup(nm) == Some(self.entries.items()[j].1));
                    }
                }
            }
        }
        Ok(())
    }

    /// Post-make bookkeeping: fire the finish hook.
    pub fn finish(&mut self, driver: &mut PluginDriver) -> (r: Result<(), CoreError>)
        requires
            old(driver).wf(),
        ensures
            final(driver).wf(),
            final(driver).plugins == old(driver).plugins,
            final(driver).diagnostics == old(driver).diagnostics,
            *final(self) == *old(self),
            r is Ok <==> crate::plugin::spec_first_fail(old(driver).plugins@, HookKind::Finish)
                == old(driver).plugins@.len(),
            r is Err ==> Some(r->Err_0) == crate::plugin::spec_hook_error(
                old(driver).plugins@[crate::plugin::spec_first_fail(
                    old(driver).plugins@,
                    HookKind::Finish,
                )],
                HookKind::Finish,
            ),
    {
        driver.run_hook(HookKind::Finish)
    }

    /// End of build: fire the done hook.
    pub fn done(&mut self, driver: &mut PluginDriver) -> (r: Result<(), CoreError>)
        requires
            old(driver).wf(),
        ensures
            final(driver).wf(),
            final(driver).plugins == old(driver).plugins,
            final(driver).diagnostics == old(driver).diagnostics,
            *final(self) == *old(self),
            r is Ok <==> crate::plugin::spec_first_fail(old(driver).plugins@, HookKind::Done)
                == old(driver).plugins@.len(),
            r is Err ==> Some(r->Err_0) == crate::plugin::spec_hook_error(
                old(driver).plugins@[crate::plugin::spec_first_fail(
                    old(driver).plugins@,
                    HookKind::Done,
                )],
                HookKind::Done,
            ),
    {
        driver.run_hook(HookKind::Done)
    }

    /// Finalize the module graph into concrete output assets: one asset per
    /// included module, named by the module's request, carrying the module's
    /// content and a non-empty content-version string derived from it.
    #[verifier::loop_isolation(false)]
    #[verifier::rlimit(100)]
    pub fn seal(&mut self) -> (r: Result<(), CoreError>)
        requires
            old(self).wf(),
        ensures
            final(self).wf(),
            r is Ok,
            // an asset appears exactly for sealed module requests, besides
            // what was there before
            forall|k: Seq<char>|
                final(self).assets.contains_key(k) <==> (old(self).assets.contains_key(k)
                    || spec_sealed_name(old(self).included_module_ids@, old(self).module_graph.modules, k)),
            // a sealed asset carries an included module's content and a
            // non-empty version stamped from its request
            forall|k: Seq<char>|
                spec_sealed_name(old(self).included_module_ids@, old(self).module_graph.modules, k) ==> (#[trigger] final(self).assets.spec_lookup(k)
                    matches Some(a) && spec_sealed_asset(old(self).included_module_ids@, old(self).module_graph.modules, k, a)),
            forall|k: Seq<char>|
                !spec_sealed_name(old(self).included_module_ids@, old(self).module_graph.modules, k) ==> final(self).assets.spec_lookup(k) == old(
                    self,
                ).assets.spec_lookup(k),
            final(self).module_graph == old(self).module_graph,
            final(self).entries == old(self).entries,
            final(self).diagnostics == old(self).diagnostics,
            final(self).emitted_assets == old(self).emitted_assets,
            final(self).build_generation == old(self).build_generation,
            final(self).incremental_make == old(self).incremental_make,
            final(self).included_module_ids == old(self).included_module_ids,
            final(self).used_symbol_ref == old(self).used_symbol_ref,
            final(self).bailout_module_identifiers == old(self).bailout_module_identifiers,
            final(self).side_effects_free_modules == old(self).side_effects_free_modules,
            final(self).module_item_map == old(self).module_item_map,
    {
        let n = self.included_module_ids.len();
        let mut i: usize = 0;
        while i < n
            invariant
                i <= n,
                n == self.included_module_ids@.len(),
                self.assets.wf(),
                self.module_graph == old(self).module_graph,
                self.entries == old(self).entries,
                self.diagnostics == old(self).diagnostics,
                self.emitted_assets == old(self).emitted_assets,
                self.build_generation == old(self).build_generation,
                self.incremental_make == old(self).incremental_make,
                self.included_module_ids == old(self).included_module_ids,
                self.used_symbol_ref == old(self).used_symbol_ref,
                self.bailout_module_identifiers == old(self).bailout_module_identifiers,
                self.side_effects_free_modules == old(self).side_effects_free_modules,
                self.module_item_map == old(self).module_item_map,
                self.entries.wf(),
                self.module_graph.wf(),
                forall|k: Seq<char>|
                    self.assets.contains_key(k) <==> (old(self).assets.contains_key(k) || (
                    exists|j: int|
                        0 <= j < i && #[trigger] spec_included_request(old(self).included_module_ids@, old(self).module_graph.modules, j) == Some(k))),
                forall|k: Seq<char>|
                    (exists|j: int|
                        0 <= j < i && #[trigger] spec_included_request(old(self).included_module_ids@, old(self).module_graph.modules, j) == Some(k))
                        ==> (#[trigger] self.assets.spec_lookup(k) matches Some(a)
                        && spec_sealed_asset(old(self).included_module_ids@, old(self).module_graph.modules, k, a)),
                forall|k: Seq<char>|
                    !(exists|j: int|
                        0 <= j < i && #[trigger] spec_included_request(old(self).included_module_ids@, old(self).module_graph.modules, j) == Some(k))
                        ==> self.assets.spec_lookup(k) == old(self).assets.spec_lookup(k),
            decreases n - i,
        {
            let id = self.included_module_ids[i];
            let found: Option<(String, Vec<u8>)> = match self.module_graph.modules.get(id) {
                Some(m) => Some(
                    (m.request.clone(), vstd::slice::slice_to_vec(m.source.as_slice())),
                ),
                None => None,
            };
            match found {
                Some((request, source)) => {
                    let ghost srcv = source@;
                    let mut version = String::new();
                    version.append("v");
                    version.append(request.as_str());
                    let asset = CompilationAsset { source: Some(source), version };
                    let ghost reqv = request@;
                    let ghost assets_before = self.assets;
                    self.assets.insert(request, asset);
                    proof {
                        assert(spec_included_request(old(self).included_module_ids@, old(self).module_graph.modules, i as int) == Some(reqv));
                        assert(spec_sealed_asset(old(self).included_module_ids@, old(self).module_graph.modules, reqv, asset));
                        assert forall|k: Seq<char>| #![trigger self.assets.spec_lookup(k)]
                            self.assets.contains_key(k) <==> (old(self).assets.contains_key(k)
                                || (exists|j: int|
                                0 <= j < i + 1 && #[trigger] spec_included_request(
                                    old(self).included_module_ids@,
                                    old(self).module_graph.modules,
                                    j,
                                ) == Some(k))) by {
                            if k != reqv {
                                assert(self.assets.spec_lookup(k) == assets_before.spec_lookup(
                                    k,
                                ));
                            }
                        }
                        assert forall|k: Seq<char>|
                            (exists|j: int|
                                0 <= j < i + 1 && #[trigger] spec_included_request(
                                    old(self).included_module_ids@,
                                    old(self).module_graph.modules,
                                    j,
                                ) == Some(k)) implies (#[trigger] self.assets.spec_lookup(k)
                            matches Some(a) && spec_sealed_asset(old(self).included_module_ids@, old(self).module_graph.modules, k, a)) by {
                            if k != reqv {
                                assert(self.assets.spec_lookup(k) == assets_before.spec_lookup(
                                    k,
                                ));
                                assert(exists|j: int|
                                    0 <= j < i && #[trigger] spec_included_request(
                                        old(self).included_module_ids@,
                                        old(self).module_graph.modules,
                                        j,
                                    ) == Some(k));
                            }
                        }
                    }
                }
                None => {
                    proof {
                        assert(spec_included_request(old(self).included_module_ids@, old(self).module_graph.modules, i as int) is None);
                        assert forall|k: Seq<char>| #![trigger self.assets.spec_lookup(k)]
                            (exists|j: int|
                                0 <= j < i + 1 && #[trigger] spec_included_request(
                                    old(self).included_module_ids@,
                                    old(self).module_graph.modules,
                                    j,
                                ) == Some(k)) implies (exists|j: int|
                            0 <= j < i && #[trigger] spec_included_request(old(self).included_module_ids@, old(self).module_graph.modules, j) == Some(
                                k,
                            )) by {}
                    }
                }
            }
            i += 1;
        }
        Ok(())
    }

    /// Whether some entry's dependency resolves to module `id`.
    fn is_entry_target(&self, id: u64) -> (r: bool)
        ensures
            r == spec_entry_target(self.entries.items(), self.module_graph.resolve_edges, id),
    {
        let n = self.entries.len();
        let mut i: usize = 0;
        while i < n
            invariant
                i <= n,
                n == self.entries.items().len(),
                forall|j: int|
                    0 <= j < i ==> self.module_graph.resolve_edges.spec_lookup(
                        #[trigger] self.entries.items()[j].1.dep_id,
                    ) != Some(id),
            decreases n - i,
        {
            let dep_id = self.entries.value_at(i).dep_id;
            let hit = match self.module_graph.resolve_edges.get(dep_id) {
                Some(m) => *m == id,
                None => false,
            };
            if hit {
                return true;
            }
            i += 1;
        }
        false
    }

    /// Analyse the finished module graph: every module's symbols count as
    /// used, nothing bails out, side-effect-free modules are those the
    /// resolver annotated, and the narrowed inclusion set keeps modules with
    /// side effects plus entry targets. Analysis diagnostics ride along.
    #[verifier::loop_isolation(false)]
    pub fn optimize_dependency(&self) -> (r: (AnalysisResult, Vec<Diagnostic>))
        ensures
            r.0.used_symbol_ref@ == spec_all_ids(self.module_graph.modules.items()),
            r.0.bail_out_module_identifiers@.len() == 0,
            r.0.side_effects_free_modules@ == spec_sef_ids(self.module_graph.modules.items()),
            r.0.module_item_map.items().len() == 0,
            r.0.included_module_ids@ == spec_narrowed_ids(
                self.entries.items(),
                self.module_graph.resolve_edges,
                self.module_graph.modules.items(),
            ),
            r.1@.len() == 0,
    {
        let ghost items = self.module_graph.modules.items();
        let n = self.module_graph.modules.len();
        let mut used: Vec<u64> = Vec::new();
        let mut sef: Vec<u64> = Vec::new();
        let mut narrowed: Vec<u64> = Vec::new();
        let mut i: usize = 0;
        while i < n
            invariant
                i <= n,
                n == items.len(),
                used@ == spec_all_ids(items.subrange(0, i as int)),
                sef@ == spec_sef_ids(items.subrange(0, i as int)),
                narrowed@ == spec_narrowed_ids(
                    self.entries.items(),
                    self.module_graph.resolve_edges,
                    items.subrange(0, i as int),
                ),
            decreases n - i,
        {
            let id = self.module_graph.modules.key_at(i);
            let side_effect_free = self.module_graph.modules.value_at(i).side_effect_free;
            used.push(id);
            if side_effect_free {
                sef.push(id);
            }
            if !side_effect_free || self.is_entry_target(id) {
                narrowed.push(id);
            }
            proof {
                let pre = items.subrange(0, i as int);
                let cur = items.subrange(0, i as int + 1);
                assert(cur.drop_last() =~= pre);
                assert(cur.last() == items[i as int]);
                assert(used@ =~= spec_all_ids(cur));
                assert(sef@ =~= spec_sef_ids(cur));
                assert(narrowed@ =~= spec_narrowed_ids(
                    self.entries.items(),
                    self.module_graph.resolve_edges,
                    cur,
                ));
            }
            i += 1;
        }
        proof {
            assert(items.subrange(0, n as int) =~= items);
        }
        let result = AnalysisResult {
            used_symbol_ref: used,
            bail_out_module_identifiers: Vec::new(),
            side_effects_free_modules: sef,
            module_item_map: IdTable::new(),
            included_module_ids: narrowed,
        };
        (result, Vec::new())
    }

    /// Every module id currently in the graph, in graph order.
    pub fn all_module_ids(&self) -> (r: Vec<u64>)
        ensures
            r@ == spec_all_ids(self.module_graph.modules.items()),
    {
        let n = self.module_graph.modules.len();
        let mut out: Vec<u64> = Vec::new();
        let mut i: usize = 0;
        while i < n
            invariant
                i <= n,
                n == self.module_graph.modules.items().len(),
                out@ == spec_all_ids(self.module_graph.modules.items().subrange(0, i as int)),
            decreases n - i,
        {
            out.push(self.module_graph.modules.key_at(i));
            proof {
                assert(out@ =~= spec_all_ids(
                    self.module_graph.modules.items().subrange(0, i as int + 1),
                ));
            }
            i += 1;
        }
        proof {
            assert(self.module_graph.modules.items().subrange(
                0,
                n as int,
            ) =~= self.module_graph.modules.items());
        }
        out
    }

    /// Resolve every forced dependency that has a record but no module yet:
    /// allocate a module, build it through the resolver, and record the
    /// resolution edge. Forced ids without a record are left for a later
    /// round; ids already resolved are not rebuilt.
    #[verifier::loop_isolation(false)]
    pub fn force_build(&mut self, deps: &Vec<(u64, Option<u64>)>, resolver: &mut ResolverFactory)
        requires
            old(self).wf(),
            old(self).module_graph.next_module_id as int + deps@.len()
                <= u64::MAX,
        ensures
            final(self).wf(),
            final(self).module_graph.dependencies == old(self).module_graph.dependencies,
            final(self).entries == old(self).entries,
            final(self).assets == old(self).assets,
            final(self).diagnostics == old(self).diagnostics,
            final(self).emitted_assets == old(self).emitted_assets,
            final(self).build_generation == old(self).build_generation,
            final(self).incremental_make == old(self).incremental_make,
            final(self).included_module_ids == old(self).included_module_ids,
            final(self).used_symbol_ref == old(self).used_symbol_ref,
            final(self).bailout_module_identifiers == old(self).bailout_module_identifiers,
            final(self).side_effects_free_modules == old(self).side_effects_free_modules,
            final(self).module_item_map == old(self).module_item_map,
            final(resolver).side_effect_free_requests == old(resolver).side_effect_free_requests,
            // every forced dependency with a record is resolved afterwards
            forall|j: int|
                0 <= j < deps@.len() && old(self).module_graph.dependencies.contains_key(
                    #[trigger] deps@[j].0,
                ) ==> final(self).module_graph.resolve_edges.contains_key(deps@[j].0),
            // existing resolutions and modules are kept
            forall|d: u64|
                old(self).module_graph.resolve_edges.contains_key(d)
                    ==> final(self).module_graph.resolve_edges.spec_lookup(d) == old(
                    self,
                ).module_graph.resolve_edges.spec_lookup(d),
            forall|m: u64|
                old(self).module_graph.modules.contains_key(m)
                    ==> final(self).module_graph.modules.spec_lookup(m) == old(
                    self,
                ).module_graph.modules.spec_lookup(m),
            // a new resolution resolves its dependency's request
            forall|d: u64|
                !old(self).module_graph.resolve_edges.contains_key(d)
                    && final(self).module_graph.resolve_edges.contains_key(d) ==> {
                    let m = final(self).module_graph.resolve_edges.spec_lookup(d)->0;
                    &&& final(self).module_graph.modules.spec_lookup(m) matches Some(module)
                        && module.request@ == old(self).module_graph.dependencies.spec_lookup(
                        d,
                    )->0.request@ && module.source@ == vstd::utf8::encode_utf8(module.request@)
                        && module.side_effect_free == old(resolver).spec_side_effect_free(
                        module.request@,
                    )
                },
    {
        let ghost deps0 = self.module_graph.dependencies;
        let ghost edges0 = self.module_graph.resolve_edges;
        let ghost modules0 = self.module_graph.modules;
        let n = deps.len();
        let mut i: usize = 0;
        while i < n
            invariant
                i <= n,
                n == deps@.len(),
                self.wf(),
                self.module_graph.dependencies == deps0,
                self.module_graph.next_module_id as int + (n - i) <= u64::MAX,
                self.entries == old(self).entries,
                self.assets == old(self).assets,
                self.diagnostics == old(self).diagnostics,
                self.emitted_assets == old(self).emitted_assets,
                self.build_generation == old(self).build_generation,
                self.incremental_make == old(self).incremental_make,
                self.included_module_ids == old(self).included_module_ids,
                self.used_symbol_ref == old(self).used_symbol_ref,
                self.bailout_module_identifiers == old(self).bailout_module_identifiers,
                self.side_effects_free_modules == old(self).side_effects_free_modules,
                self.module_item_map == old(self).module_item_map,
                resolver.side_effect_free_requests == old(resolver).side_effect_free_requests,
                forall|j: int|
                    0 <= j < i && deps0.contains_key(#[trigger] deps@[j].0)
                        ==> self.module_graph.resolve_edges.contains_key(deps@[j].0),
                forall|d: u64|
                    edges0.contains_key(d) ==> self.module_graph.resolve_edges.spec_lookup(d)
                        == edges0.spec_lookup(d),
                forall|m: u64|
                    modules0.contains_key(m) ==> self.module_graph.modules.spec_lookup(m)
                        == modules0.spec_lookup(m),
                forall|d: u64|
                    !edges0.contains_key(d) && self.module_graph.resolve_edges.contains_key(d)
                        ==> {
                        let m = self.module_graph.resolve_edges.spec_lookup(d)->0;
                        &&& self.module_graph.modules.spec_lookup(m) matches Some(module)
                            && module.request@ == deps0.spec_lookup(d)->0.request@
                            && module.source@ == vstd::utf8::encode_utf8(module.request@)
                            && module.side_effect_free == old(resolver).spec_side_effect_free(
                            module.request@,
                        )
                    },
            decreases n - i,
        {
            let dep_id = deps[i].0;
            let has_record = self.module_graph.dependencies.has_key(dep_id);
            let resolved = self.module_graph.resolve_edges.has_key(dep_id);
            if has_record && !resolved {
                let request = match self.module_graph.dependencies.get(dep_id) {
                    Some(d) => d.request.clone(),
                    None => {
                        proof {
                            assert(false);
                        }
                        String::new()
                    }
                };
                let module = resolver.resolve(&request);
                let module_id = self.module_graph.add_module(module);
                proof {
                    if self.module_graph.resolve_edges.contains_key(dep_id) {
                        assert(false);
                    }
                }
                self.module_graph.resolve_edges.insert_new(dep_id, module_id);
                proof {
                    assert(self.module_graph.resolve_edges.spec_lookup(dep_id) == Some(
                        module_id,
                    ));
                    assert(self.module_graph.modules.spec_lookup(module_id) == Some(module));
                    assert(module.request@ == deps0.spec_lookup(dep_id)->0.request@);
                    if modules0.contains_key(module_id) {
                        assert(false);
                    }
                    assert forall|d: u64|
                        !edges0.contains_key(d) && self.module_graph.resolve_edges.contains_key(
                            d,
                        ) && d != dep_id implies ({
                        let m = self.module_graph.resolve_edges.spec_lookup(d)->0;
                        &&& self.module_graph.modules.spec_lookup(m) matches Some(module2)
                            && module2.request@ == deps0.spec_lookup(d)->0.request@
                            && module2.source@ == vstd::utf8::encode_utf8(module2.request@)
                            && module2.side_effect_free == old(resolver).spec_side_effect_free(
                            module2.request@,
                        )
                    }) by {}
                }
            }
            i += 1;
        }
    }
}

} // verus!
