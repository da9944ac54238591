//! Bundling: configuration, the bundle builder's planning logic, and the
//! argument list handed to an external esbuild.
pub mod builder;
pub mod config;
pub mod esbuild;

use vstd::prelude::*;

use crate::text::owned;

verus! {

/// What a bundling run produced.
#[derive(Debug, Clone)]
pub struct BundleResult {
    /// Path to the bundled output file.
    pub output_path: String,
    /// Source map path, where one was generated.
    pub source_map_path: Option<String>,
    /// The bundled files.
    pub bundled_files: Vec<String>,
    /// Bundle hash for cache invalidation.
    pub hash: String,
}

/// A file to be bundled.
#[derive(Debug, Clone)]
pub struct BundleEntry {
    /// Path to the source file.
    pub source: String,
    /// Module name (for ESM exports).
    pub module_name: Option<String>,
    /// Whether this is an entry point.
    pub is_entry: bool,
}

impl BundleEntry {
    /// A bundle entry for `source` that is not an entry point.
    pub fn new(source: &str) -> (r: Self)
        ensures
            r.source@ == source@,
            r.module_name is None,
            !r.is_entry,
    {
        BundleEntry { source: owned(source), module_name: None, is_entry: false }
    }

    /// An entry-point bundle entry for `source`.
    pub fn entry(source: &str) -> (r: Self)
        ensures
            r.source@ == source@,
            r.module_name is None,
            r.is_entry,
    {
        BundleEntry { source: owned(source), module_name: None, is_entry: true }
    }

    /// The entry with the module name `name`.
    pub fn with_module_name(self, name: &str) -> (r: Self)
        ensures
            r.source == self.source,
            r.is_entry == self.is_entry,
            r.module_name matches Some(m) && m@ == name@,
    {
        let mut e = self;
        e.module_name = Some(owned(name));
        e
    }
}

/// Bundling mode.
#[derive(Debug, Clone, Copy, PartialEq, Eq, Structural)]
pub enum BundleMode {
    /// Single-file compilation.
    SingleFile,
    /// Bundle multiple files into one.
    Bundle,
    /// Watch mode: rebuild on changes.
    Watch,
    /// Build with esbuild.
    Esbuild,
}

impl Default for BundleMode {
    fn default() -> (r: Self)
        ensures
            r == BundleMode::SingleFile,
    {
        BundleMode::SingleFile
    }
}

impl BundleMode {
    /// Whether the mode bundles: every mode but single-file compilation.
    pub open spec fn bundles(self) -> bool {
        self != BundleMode::SingleFile
    }

    /// Whether this mode requires actual bundling.
    pub fn requires_bundle(&self) -> (r: bool)
        ensures
            r == self.bundles(),
    {
        match self {
            BundleMode::Bundle | BundleMode::Esbuild | BundleMode::Watch => true,
            BundleMode::SingleFile => false,
        }
    }
}

} // verus!
