//! Cross-cutting properties of the pipeline, stated over the spec functions
//! that the phase contracts use.

use vstd::prelude::*;

use crate::compilation::{spec_sealed_asset, CompilationAsset};
use crate::compiler::{spec_emit_touched, spec_files_agree, spec_needs_write, spec_stale_name,
    spec_version_of, spec_write_target, Compiler};
use crate::fs::WritableFileSystem;
use crate::plugin::{lemma_entry_deps_len, lemma_first_fail_at, spec_entry_count,
    spec_entry_deps, spec_fails, spec_first_fail, spec_hook_error, spec_invoked, HookKind, Plugin};
use crate::resolver::Module;
use crate::table::{IdTable, StrTable};

verus! {

/// Idempotent rebuild: when the recorded version map binds every current
/// asset's name to exactly its current, non-empty version — and, under clean
/// output, the map is not empty — emission touches no file at all: there is
/// nothing stale to prune, no full clean, and every write is skipped.
pub proof fn lemma_idempotent_rebuild_touches_nothing(
    versions: StrTable<String>,
    assets: StrTable<CompilationAsset>,
    out: Seq<char>,
    clean: bool,
    p: Seq<char>,
)
    requires
        assets.wf(),
        forall|k: Seq<char>| #[trigger] versions.spec_lookup(k) == spec_version_of(assets, k),
        forall|k: Seq<char>| #[trigger]
            assets.contains_key(k) ==> assets.spec_lookup(k)->0.version@.len() > 0,
        clean ==> versions.items().len() > 0,
    ensures
        !spec_emit_touched(versions, assets, out, clean, p),
{
    assert forall|k: Seq<char>| !spec_stale_name(versions, assets, k) by {
        if versions.contains_key(k) {
            assert(versions.spec_lookup(k) == spec_version_of(assets, k));
        }
    }
    assert forall|j: int| 0 <= j < assets.items().len() implies !spec_needs_write(
        versions,
        assets.items()[j].0@,
        assets.items()[j].1,
    ) by {
        let k = assets.items()[j].0@;
        assert forall|jj: int| 0 <= jj < j implies assets.items()[jj].0@ != k by {}
        crate::table::lemma_str_lookup_at(assets.items(), k, j);
        assert(assets.contains_key(k));
        assert(versions.spec_lookup(k) == Some(assets.items()[j].1.version));
    }
    assert(!spec_write_target(versions, assets, out, p));
}

/// A sealed asset's version is never empty, so version tracking always
/// records something that can short-circuit the next build's write.
pub proof fn lemma_sealed_version_nonempty(
    included: Seq<u64>,
    modules: IdTable<Module>,
    k: Seq<char>,
    a: CompilationAsset,
)
    requires
        spec_sealed_asset(included, modules, k, a),
    ensures
        a.version@.len() > 0,
{
    reveal_strlit("v");
}

/// Idempotent rebuild, at the build level: when a build ran its pipeline
/// hooks through, emission was enabled, and the version map it started from
/// already bound exactly the produced assets' names to their current,
/// non-empty versions — with a non-empty map under clean output — then the
/// build left every file exactly as it found it.
pub proof fn lemma_idempotent_rebuild_at_build<T: WritableFileSystem>(
    pre: Compiler<T>,
    post: Compiler<T>,
    r: Result<(), crate::error::CoreError>,
    p: Seq<char>,
)
    requires
        Compiler::spec_build_post(pre, post, r),
        spec_first_fail(pre.plugin_driver.plugins@, HookKind::BeforeCompile)
            == pre.plugin_driver.plugins@.len(),
        spec_first_fail(pre.plugin_driver.plugins@, HookKind::ThisCompilation)
            == pre.plugin_driver.plugins@.len(),
        spec_first_fail(pre.plugin_driver.plugins@, HookKind::CompilationHook)
            == pre.plugin_driver.plugins@.len(),
        spec_first_fail(pre.plugin_driver.plugins@, HookKind::Make)
            == pre.plugin_driver.plugins@.len(),
        spec_first_fail(pre.plugin_driver.plugins@, HookKind::FinishMake)
            == pre.plugin_driver.plugins@.len(),
        spec_first_fail(pre.plugin_driver.plugins@, HookKind::Finish)
            == pre.plugin_driver.plugins@.len(),
        spec_first_fail(pre.plugin_driver.plugins@, HookKind::AfterCompile)
            == pre.plugin_driver.plugins@.len(),
        !pre.options.builtins.no_emit_assets,
        post.compilation.assets.wf(),
        forall|k: Seq<char>| #[trigger]
            pre.emitted_asset_versions.spec_lookup(k) == spec_version_of(
                post.compilation.assets,
                k,
            ),
        forall|k: Seq<char>| #[trigger]
            post.compilation.assets.contains_key(k) ==> post.compilation.assets.spec_lookup(
                k,
            )->0.version@.len() > 0,
        pre.options.output.clean ==> pre.emitted_asset_versions.items().len() > 0,
    ensures
        spec_files_agree(pre.output_filesystem.files(), post.output_filesystem.files(), p),
{
    lemma_idempotent_rebuild_touches_nothing(
        pre.emitted_asset_versions,
        post.compilation.assets,
        pre.options.output.path@,
        pre.options.output.clean,
        p,
    );
}

/// Entry registration exactly once: one make-hook run adds exactly one
/// dependency record per entry plugin it reaches — never more. (On a later
/// incremental generation the hook adds none at all, which the make-hook
/// contract states directly.)
pub proof fn lemma_entries_registered_once(ps: Seq<Plugin>, k: int, start: u64)
    ensures
        spec_entry_deps(ps, k, start).len() == spec_entry_count(ps, k),
{
    lemma_entry_deps_len(ps, k, start);
}

/// Hook error short-circuit: when the plugins before `k` accept a hook and
/// plugin `k` fails it, exactly the plugins up to and including `k` are
/// invoked — every later plugin is not — and the reported error is plugin
/// `k`'s own.
pub proof fn lemma_hook_error_short_circuit(ps: Seq<Plugin>, h: HookKind, k: int)
    requires
        0 <= k < ps.len(),
        forall|j: int| 0 <= j < k ==> !spec_fails(ps[j], h),
        spec_fails(ps[k], h),
    ensures
        spec_first_fail(ps, h) == k,
        forall|i: int| 0 <= i <= k ==> spec_invoked(ps, h, i),
        forall|i: int| k < i < ps.len() ==> !spec_invoked(ps, h, i),
        spec_hook_error(ps[k], h) is Some,
{
    lemma_first_fail_at(ps, h, k);
}

} // verus!
