//! Orchestration core of a module bundler: the build-phase state machine
//! (`Compiler`), the per-build mutable state and module graph (`Compilation`),
//! the ordered plugin-hook dispatcher (`PluginDriver`), the incremental make
//! phase, the cache lifecycle that spans builds, and the asset-emission stage
//! that diffs output against previous versions to avoid redundant writes.

pub mod builtins;
pub mod compiler;
pub mod cache;
pub mod compilation;
pub mod error;
pub mod fs;
pub mod laws;
pub mod options;
pub mod paths;
pub mod plugin;
pub mod resolver;
pub mod table;
