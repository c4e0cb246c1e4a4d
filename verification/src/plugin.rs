//! Plugins and the ordered hook dispatcher.
//!
//! Plugins form a closed registry: each variant carries its configuration.
//! The driver fans a hook call out to every registered plugin in
//! registration order, sequentially, stopping at the first failure.

use vstd::prelude::*;

use crate::builtins::{BannerConfig, CopyConfig, CssResolvedConfig, HtmlPluginConfig,
    ProgressPluginConfig};
use crate::compilation::{Compilation, MakeParam};
use crate::error::{CoreError, Diagnostic};
use crate::options::EntryOptions;

verus! {

/// The pipeline hooks a plugin can react to.
#[derive(Debug, Clone, Copy, PartialEq, Eq, Structural)]
pub enum HookKind {
    BeforeCompile,
    ThisCompilation,
    CompilationHook,
    Make,
    FinishMake,
    Finish,
    Emit,
    AfterEmit,
    AfterCompile,
    Done,
    AssetEmitted,
}

/// An entry-contributing plugin: registers one named entry dependency on the
/// first build generation.
#[derive(Debug, Clone, PartialEq, Eq)]
pub struct EntryPlugin {
    pub name: String,
    pub options: EntryOptions,
    pub entry_request: String,
}

impl EntryPlugin {
    pub fn new(name: String, entry_request: String, options: EntryOptions) -> (r: Self)
        ensures
            r.name == name,
            r.options == options,
            r.entry_request == entry_request,
    {
        EntryPlugin { name, options, entry_request }
    }
}

/// One registered plugin. The transform plugins are carried by their
/// configuration and react to no hook here; `Failing` refuses one hook,
/// which lets a build exercise error propagation.
#[derive(Debug, Clone, PartialEq, Eq)]
pub enum Plugin {
    Entry(EntryPlugin),
    Html(HtmlPluginConfig),
    Css(CssResolvedConfig),
    Progress(ProgressPluginConfig),
    DevFriendlySplitChunks,
    Copy(CopyConfig),
    Banner(BannerConfig),
    /// Fails the given hook with the given message.
    Failing(HookKind, String),
}

/// Two plugins that are the same but for the exact vector holding the CSS
/// targets: configuration lists compare by contents.
pub open spec fn plugin_like(a: Plugin, b: Plugin) -> bool {
    match (a, b) {
        (Plugin::Css(x), Plugin::Css(y)) => {
            &&& x.postcss == y.postcss
            &&& x.modules == y.modules
            &&& (match (x.targets, y.targets) {
                (None, None) => true,
                (Some(u), Some(w)) => u@ == w@,
                _ => false,
            })
        },
        _ => a == b,
    }
}

pub proof fn lemma_plugin_like_refl(a: Plugin)
    ensures
        plugin_like(a, a),
{
}

/// Whether plugin `p` fails hook `h`.
pub open spec fn spec_fails(p: Plugin, h: HookKind) -> bool {
    p matches Plugin::Failing(hk, _) && hk == h
}

/// The error plugin `p` reports for hook `h`, if it fails it.
pub open spec fn spec_hook_error(p: Plugin, h: HookKind) -> Option<CoreError> {
    match p {
        Plugin::Failing(hk, m) => if hk == h {
            Some(CoreError::Plugin(m))
        } else {
            None
        },
        _ => None,
    }
}

/// Index of the first plugin that fails hook `h`, or the list's length.
pub open spec fn spec_first_fail(ps: Seq<Plugin>, h: HookKind) -> int
    decreases ps.len(),
{
    if ps.len() == 0 {
        0
    } else if spec_fails(ps[0], h) {
        0
    } else {
        1 + spec_first_fail(ps.subrange(1, ps.len() as int), h)
    }
}

/// The first-failing index is characterized by: everything before it
/// succeeds, and it fails if it is within bounds.
pub proof fn lemma_first_fail_props(ps: Seq<Plugin>, h: HookKind)
    ensures
        0 <= spec_first_fail(ps, h) <= ps.len(),
        forall|j: int| 0 <= j < spec_first_fail(ps, h) ==> !spec_fails(ps[j], h),
        spec_first_fail(ps, h) < ps.len() ==> spec_fails(ps[spec_first_fail(ps, h)], h),
    decreases ps.len(),
{
    if ps.len() > 0 && !spec_fails(ps[0], h) {
        let t = ps.subrange(1, ps.len() as int);
        lemma_first_fail_props(t, h);
        assert forall|j: int| 0 <= j < spec_first_fail(ps, h) implies !spec_fails(ps[j], h) by {
            if j > 0 {
                assert(t[j - 1] == ps[j]);
                assert(!spec_fails(t[j - 1], h));
            }
        }
        if spec_first_fail(ps, h) < ps.len() {
            assert(ps[spec_first_fail(ps, h)] == t[spec_first_fail(t, h)]);
        }
    }
}

/// A saturating counter bump.
pub open spec fn spec_bump(c: u64) -> u64 {
    if c < u64::MAX {
        (c + 1) as u64
    } else {
        c
    }
}

/// Whether plugin `i` is invoked when hook `h` runs over `ps`: everything up
/// to and including the first failure.
pub open spec fn spec_invoked(ps: Seq<Plugin>, h: HookKind, i: int) -> bool {
    i < spec_first_fail(ps, h) || (spec_first_fail(ps, h) < ps.len() && i == spec_first_fail(
        ps,
        h,
    ))
}

/// Wraps the ordered plugin list and fans each pipeline hook out to every
/// plugin in registration order, sequentially, stopping at the first
/// failure. Per-plugin invocation counters record which plugins a hook
/// reached. A side channel collects plugin-raised diagnostics, drained once
/// per compile.
#[derive(Debug)]
pub struct PluginDriver {
    pub plugins: Vec<Plugin>,
    /// How many hook invocations each plugin has received.
    pub calls: Vec<u64>,
    /// Diagnostics raised by plugins, drained after the compile phase.
    pub diagnostics: Vec<Diagnostic>,
}

impl PluginDriver {
    /// One counter per plugin.
    pub open spec fn wf(&self) -> bool {
        self.calls@.len() == self.plugins@.len()
    }

    pub fn new(plugins: Vec<Plugin>) -> (r: Self)
        ensures
            r.wf(),
            r.plugins == plugins,
            forall|i: int| 0 <= i < r.calls@.len() ==> r.calls@[i] == 0,
            r.diagnostics@.len() == 0,
    {
        let n = plugins.len();
        let mut calls: Vec<u64> = Vec::new();
        let mut i: usize = 0;
        while i < n
            invariant
                i <= n,
                calls@.len() == i,
                forall|j: int| 0 <= j < i ==> calls@[j] == 0,
            decreases n - i,
        {
            calls.push(0);
            i += 1;
        }
        PluginDriver { plugins, calls, diagnostics: Vec::new() }
    }

    /// Record a diagnostic raised by a plugin.
    pub fn push_diagnostic(&mut self, d: Diagnostic)
        ensures
            final(self).diagnostics@ == old(self).diagnostics@.push(d),
            final(self).plugins == old(self).plugins,
            final(self).calls == old(self).calls,
    {
        self.diagnostics.push(d);
    }

    /// Drain the plugin-raised diagnostics collected so far.
    pub fn take_diagnostic(&mut self) -> (r: Vec<Diagnostic>)
        ensures
            r@ == old(self).diagnostics@,
            final(self).diagnostics@.len() == 0,
            final(self).plugins == old(self).plugins,
            final(self).calls == old(self).calls,
    {
        let mut out: Vec<Diagnostic> = Vec::new();
        std::mem::swap(&mut out, &mut self.diagnostics);
        out
    }

    /// Run one hook over every plugin in order, stopping at the first
    /// failure and reporting its error. Exactly the plugins up to and
    /// including the failing one are invoked.
    #[verifier::loop_isolation(false)]
    pub fn run_hook(&mut self, hook: HookKind) -> (r: Result<(), CoreError>)
        requires
            old(self).wf(),
        ensures
            final(self).wf(),
            final(self).plugins == old(self).plugins,
            final(self).diagnostics == old(self).diagnostics,
            r is Ok <==> spec_first_fail(old(self).plugins@, hook) == old(self).plugins@.len(),
            r is Err ==> Some(r->Err_0) == spec_hook_error(
                old(self).plugins@[spec_first_fail(old(self).plugins@, hook)],
                hook,
            ),
            final(self).calls@.len() == old(self).calls@.len(),
            forall|i: int|
                0 <= i < old(self).calls@.len() ==> final(self).calls@[i] == (if spec_invoked(
                    old(self).plugins@,
                    hook,
                    i,
                ) {
                    spec_bump(old(self).calls@[i])
                } else {
                    old(self).calls@[i]
                }),
    {
        proof {
            lemma_first_fail_props(self.plugins@, hook);
        }
        let ghost ff = spec_first_fail(self.plugins@, hook);
        let n = self.plugins.len();
        let mut i: usize = 0;
        while i < n
            invariant
                i <= n,
                i <= ff,
                self.wf(),
                self.plugins == old(self).plugins,
                self.diagnostics == old(self).diagnostics,
                self.calls@.len() == old(self).calls@.len(),
                forall|j: int|
                    0 <= j < self.calls@.len() ==> self.calls@[j] == (if j < i {
                        spec_bump(old(self).calls@[j])
                    } else {
                        old(self).calls@[j]
                    }),
            decreases n - i,
        {
            self.bump_call(i);
            let failed: Option<CoreError> = match &self.plugins[i] {
                Plugin::Failing(hk, msg) => {
                    if *hk == hook {
                        Some(CoreError::Plugin(msg.clone()))
                    } else {
                        None
                    }
                }
                _ => None,
            };
            match failed {
                Some(e) => {
                    proof {
                        lemma_first_fail_at(self.plugins@, hook, i as int);
                    }
                    return Err(e);
                }
                None => {}
            }
            proof {
                if ff == i {
                    assert(spec_fails(self.plugins@[i as int], hook));
                    assert(false);
                }
            }
            i += 1;
        }
        proof {
            assert(ff == n);
        }
        Ok(())
    }

    /// Bump one plugin's invocation counter, saturating.
    fn bump_call(&mut self, i: usize)
        requires
            old(self).wf(),
            i < old(self).calls@.len(),
        ensures
            final(self).wf(),
            final(self).plugins == old(self).plugins,
            final(self).diagnostics == old(self).diagnostics,
            final(self).calls@ == old(self).calls@.update(
                i as int,
                spec_bump(old(self).calls@[i as int]),
            ),
    {
        let c = self.calls[i];
        if c < u64::MAX {
            self.calls.set(i, c + 1);
        } else {
            proof {
                assert(self.calls@ =~= self.calls@.update(i as int, spec_bump(c)));
            }
        }
    }
}

/// How many of the first `k` plugins are entry plugins.
pub open spec fn spec_entry_count(ps: Seq<Plugin>, k: int) -> int
    decreases k,
{
    if k <= 0 {
        0
    } else {
        spec_entry_count(ps, k - 1) + (if ps[k - 1] is Entry {
            1int
        } else {
            0int
        })
    }
}

pub proof fn lemma_entry_count_bound(ps: Seq<Plugin>, k: int)
    ensures
        0 <= spec_entry_count(ps, k) <= (if k <= 0 {
            0
        } else {
            k
        }),
    decreases k,
{
    if k > 0 {
        lemma_entry_count_bound(ps, k - 1);
    }
}

/// The dependency records the first `k` plugins add during the make hook,
/// with ids allocated in order from `start`.
pub open spec fn spec_entry_deps(ps: Seq<Plugin>, k: int, start: u64) -> Seq<
    (u64, crate::compilation::Dependency),
>
    decreases k,
{
    if k <= 0 {
        Seq::empty()
    } else {
        let pre = spec_entry_deps(ps, k - 1, start);
        match ps[k - 1] {
            Plugin::Entry(ep) => pre.push(
                (
                    ((start as int) + spec_entry_count(ps, k - 1)) as u64,
                    crate::compilation::Dependency { request: ep.entry_request },
                ),
            ),
            _ => pre,
        }
    }
}

pub proof fn lemma_entry_deps_len(ps: Seq<Plugin>, k: int, start: u64)
    ensures
        spec_entry_deps(ps, k, start).len() == spec_entry_count(ps, k),
    decreases k,
{
    if k > 0 {
        lemma_entry_deps_len(ps, k - 1, start);
        lemma_entry_count_bound(ps, k - 1);
    }
}

/// The entry binding the first `k` plugins leave for `name`, if any: the
/// last entry plugin with that name wins.
pub open spec fn spec_entry_binding(ps: Seq<Plugin>, k: int, start: u64, name: Seq<char>) -> Option<
    crate::compilation::EntryData,
>
    decreases k,
{
    if k <= 0 {
        None
    } else {
        match ps[k - 1] {
            Plugin::Entry(ep) => if ep.name@ == name {
                Some(
                    crate::compilation::EntryData {
                        dep_id: ((start as int) + spec_entry_count(ps, k - 1)) as u64,
                        options: ep.options,
                    },
                )
            } else {
                spec_entry_binding(ps, k - 1, start, name)
            },
            _ => spec_entry_binding(ps, k - 1, start, name),
        }
    }
}

/// The force-build list after the first `k` plugins have declared their
/// entry dependencies over an initial list `f0`.
pub open spec fn spec_force_after(
    ps: Seq<Plugin>,
    k: int,
    start: u64,
    f0: Seq<(u64, Option<u64>)>,
) -> Seq<(u64, Option<u64>)>
    decreases k,
{
    if k <= 0 {
        f0
    } else {
        let pre = spec_force_after(ps, k - 1, start, f0);
        match ps[k - 1] {
            Plugin::Entry(_) => {
                let id = ((start as int) + spec_entry_count(ps, k - 1)) as u64;
                if exists|j: int| 0 <= j < pre.len() && pre[j].0 == id {
                    pre
                } else {
                    pre.push((id, None))
                }
            },
            _ => pre,
        }
    }
}

impl PluginDriver {
    /// Run the make hook: each entry plugin registers its dependency and
    /// declares it as force-build work, in registration order, stopping at
    /// the first failing plugin. On an incremental rebuild past the first
    /// generation the plugins leave the compilation untouched.
    #[verifier::loop_isolation(false)]
    #[verifier::rlimit(100)]
    pub fn run_make_hook(&mut self, comp: &mut Compilation, param: &mut MakeParam) -> (r: Result<
        (),
        CoreError,
    >)
        requires
            old(self).wf(),
            old(comp).wf(),
            old(comp).module_graph.next_dependency_id as int + old(self).plugins@.len()
                <= u64::MAX,
        ensures
            final(self).wf(),
            final(comp).wf(),
            final(self).plugins == old(self).plugins,
            final(self).diagnostics == old(self).diagnostics,
            r is Ok <==> spec_first_fail(old(self).plugins@, HookKind::Make) == old(
                self,
            ).plugins@.len(),
            r is Err ==> Some(r->Err_0) == spec_hook_error(
                old(self).plugins@[spec_first_fail(old(self).plugins@, HookKind::Make)],
                HookKind::Make,
            ),
            final(self).calls@.len() == old(self).calls@.len(),
            forall|i: int|
                0 <= i < old(self).calls@.len() ==> final(self).calls@[i] == (if spec_invoked(
                    old(self).plugins@,
                    HookKind::Make,
                    i,
                ) {
                    spec_bump(old(self).calls@[i])
                } else {
                    old(self).calls@[i]
                }),
            old(comp).spec_skip_entries() ==> *final(comp) == *old(comp) && *final(param) == *old(
                param,
            ),
            !old(comp).spec_skip_entries() ==> ({
                let ps = old(self).plugins@;
                let upto = spec_first_fail(ps, HookKind::Make);
                let start = old(comp).module_graph.next_dependency_id;
                &&& final(comp).module_graph.dependencies.items() == old(
                    comp,
                ).module_graph.dependencies.items() + spec_entry_deps(ps, upto, start)
                &&& final(comp).module_graph.next_dependency_id as int == start as int
                    + spec_entry_count(ps, upto)
                &&& (forall|nm: Seq<char>|
                    final(comp).entries.spec_lookup(nm) == (match spec_entry_binding(
                        ps,
                        upto,
                        start,
                        nm,
                    ) {
                        Some(d) => Some(d),
                        None => old(comp).entries.spec_lookup(nm),
                    }))
                &&& (*old(param) is ForceBuildDeps ==> *final(param) is ForceBuildDeps
                    && crate::compilation::spec_force_list(*final(param)) == spec_force_after(
                    ps,
                    upto,
                    start,
                    crate::compilation::spec_force_list(*old(param)),
                ))
                &&& (*old(param) is FreshBuild ==> *final(param) == *old(param))
                &&& final(comp).module_graph.modules == old(comp).module_graph.modules
                &&& final(comp).module_graph.resolve_edges == old(comp).module_graph.resolve_edges
                &&& final(comp).module_graph.next_module_id == old(
                    comp,
                ).module_graph.next_module_id
            }),
            final(comp).assets == old(comp).assets,
            final(comp).diagnostics == old(comp).diagnostics,
            final(comp).emitted_assets == old(comp).emitted_assets,
            final(comp).build_generation == old(comp).build_generation,
            final(comp).incremental_make == old(comp).incremental_make,
            final(comp).included_module_ids == old(comp).included_module_ids,
            final(comp).used_symbol_ref == old(comp).used_symbol_ref,
            final(comp).bailout_module_identifiers == old(comp).bailout_module_identifiers,
            final(comp).side_effects_free_modules == old(comp).side_effects_free_modules,
            final(comp).module_item_map == old(comp).module_item_map,
            final(comp).entries.items().len() as int <= old(comp).entries.items().len()
                + spec_entry_count(old(self).plugins@, spec_first_fail(
                old(self).plugins@,
                HookKind::Make,
            )),
    {
        proof {
            lemma_first_fail_props(self.plugins@, HookKind::Make);
        }
        let ghost ps = self.plugins@;
        let ghost ff = spec_first_fail(ps, HookKind::Make);
        let ghost start = comp.module_graph.next_dependency_id;
        let ghost f0 = crate::compilation::spec_force_list(*param);
        let n = self.plugins.len();
        let mut i: usize = 0;
        while i < n
            invariant
                i <= n,
                i <= ff,
                self.wf(),
                comp.wf(),
                self.plugins == old(self).plugins,
                self.diagnostics == old(self).diagnostics,
                self.calls@.len() == old(self).calls@.len(),
                forall|j: int|
                    0 <= j < self.calls@.len() ==> self.calls@[j] == (if j < i {
                        spec_bump(old(self).calls@[j])
                    } else {
                        old(self).calls@[j]
                    }),
                comp.spec_skip_entries() == old(comp).spec_skip_entries(),
                old(comp).spec_skip_entries() ==> *comp == *old(comp) && *param == *old(param),
                !old(comp).spec_skip_entries() ==> ({
                    &&& comp.module_graph.dependencies.items() == old(
                        comp,
                    ).module_graph.dependencies.items() + spec_entry_deps(ps, i as int, start)
                    &&& comp.module_graph.next_dependency_id as int == start as int
                        + spec_entry_count(ps, i as int)
                    &&& (forall|nm: Seq<char>|
                        comp.entries.spec_lookup(nm) == (match spec_entry_binding(
                            ps,
                            i as int,
                            start,
                            nm,
                        ) {
                            Some(d) => Some(d),
                            None => old(comp).entries.spec_lookup(nm),
                        }))
                    &&& (*old(param) is ForceBuildDeps ==> *param is ForceBuildDeps
                        && crate::compilation::spec_force_list(*param) == spec_force_after(
                        ps,
                        i as int,
                        start,
                        f0,
                    ))
                    &&& (*old(param) is FreshBuild ==> *param == *old(param))
                    &&& comp.module_graph.modules == old(comp).module_graph.modules
                    &&& comp.module_graph.resolve_edges == old(comp).module_graph.resolve_edges
                    &&& comp.module_graph.next_module_id == old(comp).module_graph.next_module_id
                }),
                comp.assets == old(comp).assets,
                comp.diagnostics == old(comp).diagnostics,
                comp.emitted_assets == old(comp).emitted_assets,
                comp.build_generation == old(comp).build_generation,
                comp.incremental_make == old(comp).incremental_make,
                comp.included_module_ids == old(comp).included_module_ids,
                comp.used_symbol_ref == old(comp).used_symbol_ref,
                comp.bailout_module_identifiers == old(comp).bailout_module_identifiers,
                comp.side_effects_free_modules == old(comp).side_effects_free_modules,
                comp.module_item_map == old(comp).module_item_map,
                comp.entries.items().len() as int <= old(comp).entries.items().len()
                    + spec_entry_count(ps, i as int),
            decreases n - i,
        {
            proof {
                lemma_entry_count_bound(ps, i as int);
            }
            self.bump_call(i);
            let mut failed: Option<CoreError> = None;
            match &self.plugins[i] {
                Plugin::Entry(ep) => {
                    comp.apply_entry_plugin(&ep.name, &ep.entry_request, &ep.options, param);
                }
                Plugin::Failing(hk, msg) => {
                    if *hk == HookKind::Make {
                        failed = Some(CoreError::Plugin(msg.clone()));
                    }
                }
                _ => {}
            }
            match failed {
                Some(e) => {
                    proof {
                        lemma_first_fail_at(ps, HookKind::Make, i as int);
                    }
                    return Err(e);
                }
                None => {}
            }
            proof {
                if ff == i {
                    assert(spec_fails(ps[i as int], HookKind::Make));
                    assert(false);
                }
            }
            i += 1;
        }
        proof {
            assert(ff == n);
        }
        Ok(())
    }
}

pub proof fn lemma_force_after_len(
    ps: Seq<Plugin>,
    k: int,
    start: u64,
    f0: Seq<(u64, Option<u64>)>,
)
    ensures
        spec_force_after(ps, k, start, f0).len() <= f0.len() + spec_entry_count(ps, k),
    decreases k,
{
    if k > 0 {
        lemma_force_after_len(ps, k - 1, start, f0);
        lemma_entry_count_bound(ps, k - 1);
    }
}

/// If everything before `i` succeeds and `i` fails, `i` is the first
/// failure.
pub proof fn lemma_first_fail_at(ps: Seq<Plugin>, h: HookKind, i: int)
    requires
        0 <= i < ps.len(),
        forall|j: int| 0 <= j < i ==> !spec_fails(ps[j], h),
        spec_fails(ps[i], h),
    ensures
        spec_first_fail(ps, h) == i,
    decreases i,
{
    if i == 0 {
    } else {
        let t = ps.subrange(1, ps.len() as int);
        assert(forall|j: int| 0 <= j < i - 1 ==> t[j] == ps[j + 1]);
        assert(t[i - 1] == ps[i]);
        lemma_first_fail_at(t, h, i - 1);
    }
}

} // verus!
