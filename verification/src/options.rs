//! Build configuration shared by a compiler for its whole lifetime.

use vstd::prelude::*;

verus! {

/// Options attached to one named entry point.
#[derive(Debug, Clone, PartialEq, Eq)]
pub struct EntryOptions {
    /// Runtime chunk name, if the entry asks for one.
    pub runtime: Option<String>,
}

impl EntryOptions {
    /// A copy equal to the original.
    pub fn duplicate(&self) -> (r: Self)
        ensures
            r == *self,
    {
        EntryOptions {
            runtime: match &self.runtime {
                Some(s) => Some(s.clone()),
                None => None,
            },
        }
    }
}

/// Whether unused-export elimination is attempted at all.
#[derive(Debug, Clone, Copy, PartialEq, Eq)]
pub enum TreeShaking {
    Enabled,
    Disabled,
}

impl TreeShaking {
    pub open spec fn spec_enable(&self) -> bool {
        self is Enabled
    }

    pub fn enable(&self) -> (r: bool)
        ensures
            r == self.spec_enable(),
    {
        match self {
            TreeShaking::Enabled => true,
            TreeShaking::Disabled => false,
        }
    }

    /// The configuration string `"true"` turns tree shaking on; anything
    /// else leaves it off.
    pub fn from_text(s: &str) -> (r: Self)
        ensures
            r.spec_enable() <==> s@ == "true"@,
    {
        if crate::paths::str_equal(s, "true") {
            TreeShaking::Enabled
        } else {
            TreeShaking::Disabled
        }
    }
}

/// Whether the `sideEffects` optimization may narrow the included modules.
#[derive(Debug, Clone, Copy, PartialEq, Eq)]
pub enum SideEffects {
    Enabled,
    Disabled,
}

impl SideEffects {
    pub open spec fn spec_is_enable(&self) -> bool {
        self is Enabled
    }

    pub fn is_enable(&self) -> (r: bool)
        ensures
            r == self.spec_is_enable(),
    {
        match self {
            SideEffects::Enabled => true,
            SideEffects::Disabled => false,
        }
    }
}

/// Optimization switches.
#[derive(Debug, Clone, PartialEq, Eq)]
pub struct Optimization {
    pub side_effects: SideEffects,
}

/// Where and how output files are placed.
#[derive(Debug, Clone, PartialEq, Eq)]
pub struct OutputOptions {
    /// Output directory.
    pub path: String,
    /// Remove output that no current asset accounts for.
    pub clean: bool,
    /// Library output formats the build declares, if any.
    pub enabled_library_types: Option<Vec<String>>,
}

/// Which parts of an incremental rebuild are enabled.
#[derive(Debug, Clone, Copy, PartialEq, Eq)]
pub struct IncrementalRebuild {
    /// Entries are registered only on the first build generation.
    pub make: bool,
    /// Asset versions are tracked across builds to skip unchanged writes.
    pub emit_asset: bool,
}

impl OutputOptions {
    /// Whether the declared library types force strict module semantics:
    /// `module` or `commonjs-static` make unused-export elimination safe.
    pub open spec fn spec_has_module_library_type(&self) -> bool {
        match self.enabled_library_types {
            Some(types) => exists|i: int|
                0 <= i < types@.len() && (types@[i]@ == "module"@ || types@[i]@
                    == "commonjs-static"@),
            None => false,
        }
    }

    #[verifier::loop_isolation(false)]
    pub fn has_module_library_type(&self) -> (r: bool)
        ensures
            r == self.spec_has_module_library_type(),
    {
        match &self.enabled_library_types {
            None => false,
            Some(types) => {
                let n = types.len();
                let mut i: usize = 0;
                while i < n
                    invariant
                        i <= n,
                        n == types@.len(),
                        forall|j: int| 0 <= j < i ==> types@[j]@ != "module"@ && types@[j]@
                            != "commonjs-static"@,
                    decreases n - i,
                {
                    let t = types[i].as_str();
                    if crate::paths::str_equal(t, "module") || crate::paths::str_equal(
                        t,
                        "commonjs-static",
                    ) {
                        return true;
                    }
                    i += 1;
                }
                false
            }
        }
    }
}

/// Resolution options handed to the resolver factory: the package metadata
/// naming requests that resolve side-effect-free.
#[derive(Debug, Clone, PartialEq, Eq)]
pub struct ResolveOptions {
    pub side_effect_free_requests: Vec<String>,
}

/// The whole build configuration, fixed for a compiler's lifetime.
#[derive(Debug)]
pub struct CompilerOptions {
    pub output: OutputOptions,
    pub resolve: ResolveOptions,
    pub optimization: Optimization,
    pub builtins: crate::builtins::Builtins,
    pub incremental_rebuild: IncrementalRebuild,
}

impl CompilerOptions {
    pub fn is_incremental_rebuild_make_enabled(&self) -> (r: bool)
        ensures
            r == self.incremental_rebuild.make,
    {
        self.incremental_rebuild.make
    }

    pub fn is_incremental_rebuild_emit_asset_enabled(&self) -> (r: bool)
        ensures
            r == self.incremental_rebuild.emit_asset,
    {
        self.incremental_rebuild.emit_asset
    }
}

} // verus!
