//! The compiler configuration of the full pipeline: basic settings plus
//! private field conversion, NLS processing, workers and bundling.
use vstd::prelude::*;

use crate::bundle::config::BundleConfig;
use crate::bundle::BundleMode;
use crate::nls::NLSConfig;
use crate::text::owned;
use crate::worker::WorkerConfig;

verus! {

broadcast use vstd::string::group_string_axioms;

/// Compilation mode.
#[derive(Debug, Clone, Copy, PartialEq, Eq, Structural)]
pub enum CompilationMode {
    /// Simple single-file compilation.
    SingleFile,
    /// Multi-file bundling.
    Bundle,
    /// Worker compilation.
    Worker,
    /// Full VSCode build pipeline.
    VSCode,
}

impl Default for CompilationMode {
    fn default() -> (r: Self)
        ensures
            r == CompilationMode::SingleFile,
    {
        CompilationMode::SingleFile
    }
}

/// The compiler configuration.
#[derive(Debug, Clone)]
pub struct CompilerConfig {
    /// Target ECMAScript version.
    pub target: String,
    /// Module system.
    pub module: String,
    /// Strict mode.
    pub strict: bool,
    /// Emit decorator metadata.
    pub emit_decorators_metadata: bool,
    /// Enable private field conversion (`#field` to `__field`).
    pub convert_private_fields: bool,
    /// Prefix of converted private fields.
    pub private_field_prefix: String,
    /// NLS configuration.
    pub nls: Option<NLSConfig>,
    /// Worker configuration.
    pub worker: Option<WorkerConfig>,
    /// Bundling configuration.
    pub bundle: Option<BundleConfig>,
    /// Compilation mode.
    pub mode: CompilationMode,
}

impl CompilerConfig {
    /// Whether worker compilation is enabled: a worker configuration is
    /// present and enabled.
    pub open spec fn workers_on(self) -> bool {
        self.worker matches Some(w) && w.enabled
    }

    /// Whether bundling is enabled: a bundle configuration is present and its
    /// mode bundles.
    pub open spec fn bundling_on(self) -> bool {
        self.bundle matches Some(b) && b.mode.bundles()
    }

    /// Simple compilation: ES2024, CommonJS, strict, decorator metadata, no
    /// private field conversion, `__` prefix, nothing else, single-file mode.
    pub fn simple() -> (r: Self)
        ensures
            r.target@ == "es2024"@,
            r.module@ == "commonjs"@,
            r.strict,
            r.emit_decorators_metadata,
            !r.convert_private_fields,
            r.private_field_prefix@ == "__"@,
            r.nls is None,
            r.worker is None,
            r.bundle is None,
            r.mode == CompilationMode::SingleFile,
    {
        CompilerConfig {
            target: owned("es2024"),
            module: owned("commonjs"),
            strict: true,
            emit_decorators_metadata: true,
            convert_private_fields: false,
            private_field_prefix: owned("__"),
            nls: None,
            worker: None,
            bundle: None,
            mode: CompilationMode::SingleFile,
        }
    }

    /// The VSCode build pipeline: ES2024, ES modules, strict, decorator
    /// metadata, private fields converted with `__`, default NLS, worker and
    /// bundling configurations, VSCode mode.
    pub fn vscode() -> (r: Self)
        ensures
            r.target@ == "es2024"@,
            r.module@ == "esmodule"@,
            r.strict,
            r.emit_decorators_metadata,
            r.convert_private_fields,
            r.private_field_prefix@ == "__"@,
            r.nls matches Some(n) && n.source_lang@ == "en"@,
            r.worker matches Some(w) && w.enabled && w.worker_type == crate::worker::WorkerType::Module,
            r.bundle matches Some(b) && b.mode == BundleMode::Bundle && b.has_default_settings(),
            r.mode == CompilationMode::VSCode,
    {
        CompilerConfig {
            target: owned("es2024"),
            module: owned("esmodule"),
            strict: true,
            emit_decorators_metadata: true,
            convert_private_fields: true,
            private_field_prefix: owned("__"),
            nls: Some(NLSConfig::new()),
            worker: Some(WorkerConfig::new()),
            bundle: Some(BundleConfig::bundle()),
            mode: CompilationMode::VSCode,
        }
    }

    /// The config with private field conversion on or off.
    pub fn with_private_fields(self, enabled: bool) -> (r: Self)
        ensures
            r == (CompilerConfig { convert_private_fields: enabled, ..self }),
    {
        let mut c = self;
        c.convert_private_fields = enabled;
        c
    }

    /// The config with NLS processing configured by `config`.
    pub fn with_nls(self, config: NLSConfig) -> (r: Self)
        ensures
            r == (CompilerConfig { nls: Some(config), ..self }),
    {
        let mut c = self;
        c.nls = Some(config);
        c
    }

    /// The config with worker compilation configured by `config`.
    pub fn with_workers(self, config: WorkerConfig) -> (r: Self)
        ensures
            r == (CompilerConfig { worker: Some(config), ..self }),
    {
        let mut c = self;
        c.worker = Some(config);
        c
    }

    /// The config with bundling configured by `config`; a bundling mode
    /// switches the compilation mode to bundling.
    pub fn with_bundling(self, config: BundleConfig) -> (r: Self)
        ensures
            r == (CompilerConfig {
                bundle: Some(config),
                mode: if config.mode.bundles() {
                    CompilationMode::Bundle
                } else {
                    self.mode
                },
                ..self
            }),
    {
        let requires_bundle = config.requires_bundle();
        let mut c = self;
        c.bundle = Some(config);
        if requires_bundle {
            c.mode = CompilationMode::Bundle;
        }
        c
    }

    /// Whether private field conversion is enabled.
    pub fn should_convert_private_fields(&self) -> (r: bool)
        ensures
            r == self.convert_private_fields,
    {
        self.convert_private_fields
    }

    /// Whether NLS processing is enabled.
    pub fn is_nls_enabled(&self) -> (r: bool)
        ensures
            r == self.nls is Some,
    {
        self.nls.is_some()
    }

    /// Whether worker compilation is enabled.
    pub fn are_workers_enabled(&self) -> (r: bool)
        ensures
            r == self.workers_on(),
    {
        match &self.worker {
            Some(w) => w.enabled,
            None => false,
        }
    }

    /// Whether bundling is enabled.
    pub fn is_bundling_enabled(&self) -> (r: bool)
        ensures
            r == self.bundling_on(),
    {
        match &self.bundle {
            Some(b) => b.requires_bundle(),
            None => false,
        }
    }
}

/// A configuration given a bundle configuration bundles exactly when that
/// bundle configuration's mode bundles, and is then in bundling mode; one
/// given a worker configuration compiles workers exactly when it is enabled.
pub proof fn configured_features_are_enabled(c: CompilerConfig, b: BundleConfig, w: WorkerConfig)
    ensures
        (CompilerConfig {
            bundle: Some(b),
            mode: if b.mode.bundles() {
                CompilationMode::Bundle
            } else {
                c.mode
            },
            ..c
        }).bundling_on() == b.mode.bundles(),
        b.mode.bundles() ==> (CompilerConfig {
            bundle: Some(b),
            mode: if b.mode.bundles() {
                CompilationMode::Bundle
            } else {
                c.mode
            },
            ..c
        }).mode == CompilationMode::Bundle,
        (CompilerConfig { worker: Some(w), ..c }).workers_on() == w.enabled,
{
}

impl Default for CompilerConfig {
    /// The simple configuration.
    fn default() -> (r: Self)
        ensures
            r.target@ == "es2024"@,
            r.module@ == "commonjs"@,
            !r.convert_private_fields,
            r.nls is None,
            r.worker is None,
            r.bundle is None,
            r.mode == CompilationMode::SingleFile,
    {
        Self::simple()
    }
}

} // verus!
