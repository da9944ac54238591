//! Bundle configuration.
use vstd::prelude::*;

use super::BundleMode;
use crate::text::{owned, texts};

verus! {

broadcast use vstd::string::group_string_axioms;

/// Configuration for the bundler.
#[derive(Debug, Clone)]
pub struct BundleConfig {
    /// Bundling mode.
    pub mode: BundleMode,
    /// Output directory for bundled files.
    pub output_dir: String,
    /// Output filename pattern (e.g. `{name}.js`).
    pub output_file: String,
    /// Enable source map generation.
    pub source_map: bool,
    /// Inline source map in the output.
    pub inline_source_map: bool,
    /// Enable minification.
    pub minify: bool,
    /// Enable tree-shaking.
    pub tree_shaking: bool,
    /// Target environment (es2022, es2024, ...).
    pub target: String,
    /// Module format (commonjs, esmodule, amd, umd).
    pub format: String,
    /// Whether to generate a declaration file.
    pub declarations: bool,
    /// Whether to watch for changes.
    pub watch: bool,
    /// External modules (not to be bundled).
    pub externals: Vec<String>,
    /// Additional entry points.
    pub entries: Vec<String>,
    /// Whether to split chunks.
    pub split_chunks: bool,
}

impl BundleConfig {
    /// The settings that every preset shares: everything but the mode, the
    /// watch flag and the source-map flag takes its default value.
    pub open spec fn has_default_settings(self) -> bool {
        &&& self.output_dir@ == "out"@
        &&& self.output_file@ == "{name}.js"@
        &&& !self.inline_source_map
        &&& !self.minify
        &&& self.tree_shaking
        &&& self.target@ == "es2024"@
        &&& self.format@ == "esmodule"@
        &&& !self.declarations
        &&& self.externals@.len() == 0
        &&& self.entries@.len() == 0
        &&& !self.split_chunks
    }

    /// Every field of `self` but those that a builder step sets equals the
    /// field of `other`.
    pub open spec fn same_except_lists(self, other: Self) -> bool {
        &&& self.mode == other.mode
        &&& self.output_dir == other.output_dir
        &&& self.output_file == other.output_file
        &&& self.source_map == other.source_map
        &&& self.inline_source_map == other.inline_source_map
        &&& self.minify == other.minify
        &&& self.tree_shaking == other.tree_shaking
        &&& self.target == other.target
        &&& self.format == other.format
        &&& self.declarations == other.declarations
        &&& self.watch == other.watch
        &&& self.split_chunks == other.split_chunks
    }
}

impl Default for BundleConfig {
    fn default() -> (r: Self)
        ensures
            r.has_default_settings(),
            r.mode == BundleMode::SingleFile,
            r.source_map,
            !r.watch,
    {
        BundleConfig {
            mode: BundleMode::SingleFile,
            output_dir: "out".to_string(),
            output_file: "{name}.js".to_string(),
            source_map: true,
            inline_source_map: false,
            minify: false,
            tree_shaking: true,
            target: "es2024".to_string(),
            format: "esmodule".to_string(),
            declarations: false,
            watch: false,
            externals: Vec::new(),
            entries: Vec::new(),
            split_chunks: false,
        }
    }
}

impl BundleConfig {
    /// A config for simple single-file compilation, without source maps.
    pub fn single_file() -> (r: Self)
        ensures
            r.has_default_settings(),
            r.mode == BundleMode::SingleFile,
            !r.source_map,
            !r.watch,
    {
        let mut c = Self::default();
        c.source_map = false;
        c
    }

    /// A config for bundling.
    pub fn bundle() -> (r: Self)
        ensures
            r.has_default_settings(),
            r.mode == BundleMode::Bundle,
            r.source_map,
            !r.watch,
    {
        let mut c = Self::default();
        c.mode = BundleMode::Bundle;
        c
    }

    /// A config for esbuild mode.
    pub fn esbuild() -> (r: Self)
        ensures
            r.has_default_settings(),
            r.mode == BundleMode::Esbuild,
            r.source_map,
            !r.watch,
    {
        let mut c = Self::default();
        c.mode = BundleMode::Esbuild;
        c
    }

    /// A config for watch mode.
    pub fn watch() -> (r: Self)
        ensures
            r.has_default_settings(),
            r.mode == BundleMode::Watch,
            r.source_map,
            r.watch,
    {
        let mut c = Self::default();
        c.mode = BundleMode::Watch;
        c.watch = true;
        c
    }

    /// The config with the output directory `dir`.
    pub fn with_output_dir(self, dir: &str) -> (r: Self)
        ensures
            r == (BundleConfig { output_dir: r.output_dir, ..self }),
            r.output_dir@ == dir@,
    {
        let mut c = self;
        c.output_dir = owned(dir);
        c
    }

    /// The config with the output file pattern `file`.
    pub fn with_output_file(self, file: &str) -> (r: Self)
        ensures
            r == (BundleConfig { output_file: r.output_file, ..self }),
            r.output_file@ == file@,
    {
        let mut c = self;
        c.output_file = owned(file);
        c
    }

    /// The config with source maps on or off.
    pub fn with_source_map(self, enabled: bool) -> (r: Self)
        ensures
            r == (BundleConfig { source_map: enabled, ..self }),
    {
        let mut c = self;
        c.source_map = enabled;
        c
    }

    /// The config with minification on or off.
    pub fn with_minify(self, enabled: bool) -> (r: Self)
        ensures
            r == (BundleConfig { minify: enabled, ..self }),
    {
        let mut c = self;
        c.minify = enabled;
        c
    }

    /// The config with tree-shaking on or off.
    pub fn with_tree_shaking(self, enabled: bool) -> (r: Self)
        ensures
            r == (BundleConfig { tree_shaking: enabled, ..self }),
    {
        let mut c = self;
        c.tree_shaking = enabled;
        c
    }

    /// The config with the target `target`.
    pub fn with_target(self, target: &str) -> (r: Self)
        ensures
            r == (BundleConfig { target: r.target, ..self }),
            r.target@ == target@,
    {
        let mut c = self;
        c.target = owned(target);
        c
    }

    /// The config with the module format `format`.
    pub fn with_format(self, format: &str) -> (r: Self)
        ensures
            r == (BundleConfig { format: r.format, ..self }),
            r.format@ == format@,
    {
        let mut c = self;
        c.format = owned(format);
        c
    }

    /// The config with `external` added to the external modules.
    pub fn add_external(self, external: &str) -> (r: Self)
        ensures
            r.same_except_lists(self),
            r.entries == self.entries,
            texts(r.externals@) == texts(self.externals@).push(external@),
    {
        let mut c = self;
        c.externals.push(owned(external));
        proof {
            assert(texts(c.externals@) =~= texts(self.externals@).push(external@));
        }
        c
    }

    /// The config with `entry` added to the entry points.
    pub fn add_entry(self, entry: &str) -> (r: Self)
        ensures
            r.same_except_lists(self),
            r.externals == self.externals,
            texts(r.entries@) == texts(self.entries@).push(entry@),
    {
        let mut c = self;
        c.entries.push(owned(entry));
        proof {
            assert(texts(c.entries@) =~= texts(self.entries@).push(entry@));
        }
        c
    }

    /// Whether this config requires bundling.
    pub fn requires_bundle(&self) -> (r: bool)
        ensures
            r == self.mode.bundles(),
    {
        self.mode.requires_bundle()
    }
}

} // verus!
