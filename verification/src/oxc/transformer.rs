//! Lowering a parsed TypeScript program to JavaScript with `oxc_transformer`:
//! type stripping, JSX and the ECMAScript target.
use std::path::Path;

use oxc_allocator::Allocator;
use oxc_semantic::{Scoping, SemanticBuilder};
use oxc_transformer::{
    CompilerAssumptions, EnvOptions, JsxOptions, JsxRuntime, TransformOptions, Transformer,
    TypeScriptOptions,
};

use vstd::prelude::*;

use crate::oxc::parser::{ParsedProgram, SourceKind};
use crate::text::{owned, texts};

verus! {

#[verifier::external_type_specification]
#[verifier::external_body]
pub struct ExScoping(Scoping);

#[verifier::external_type_specification]
#[verifier::external_body]
pub struct ExEnvOptions(EnvOptions);

#[verifier::external_type_specification]
#[verifier::external_body]
pub struct ExTransformOptions(TransformOptions);

/// Transformer configuration options.
#[derive(Debug, Clone)]
pub struct TransformerConfig {
    /// Target ECMAScript version (e.g. "es2024").
    pub target: String,
    /// Module format (commonjs, esmodule, ...).
    pub module_format: String,
    /// Whether to emit decorator metadata.
    pub emit_decorator_metadata: bool,
    /// Whether class fields are defined with `Object.defineProperty`.
    pub use_define_for_class_fields: bool,
    /// Whether to support JSX.
    pub jsx: bool,
    /// Whether to enable tree-shaking.
    pub tree_shaking: bool,
    /// Whether to enable minification.
    pub minify: bool,
}

impl Default for TransformerConfig {
    fn default() -> (r: Self)
        ensures
            r.target@ == "es2024"@,
            r.module_format@ == "commonjs"@,
            r.emit_decorator_metadata,
            !r.use_define_for_class_fields,
            !r.jsx,
            !r.tree_shaking,
            !r.minify,
    {
        TransformerConfig {
            target: owned("es2024"),
            module_format: owned("commonjs"),
            emit_decorator_metadata: true,
            use_define_for_class_fields: false,
            jsx: false,
            tree_shaking: false,
            minify: false,
        }
    }
}

impl TransformerConfig {
    /// A transformer configuration with the given settings.
    pub fn new(
        target: String,
        module_format: String,
        emit_decorator_metadata: bool,
        use_define_for_class_fields: bool,
        jsx: bool,
        tree_shaking: bool,
        minify: bool,
    ) -> (r: Self)
        ensures
            r == (TransformerConfig {
                target,
                module_format,
                emit_decorator_metadata,
                use_define_for_class_fields,
                jsx,
                tree_shaking,
                minify,
            }),
    {
        TransformerConfig {
            target,
            module_format,
            emit_decorator_metadata,
            use_define_for_class_fields,
            jsx,
            tree_shaking,
            minify,
        }
    }
}

/// The JSX runtime the transform targets.
#[derive(Debug, Clone, Copy, PartialEq, Eq, Structural)]
pub enum JsxMode {
    /// The automatic runtime (`react/jsx-runtime`).
    Automatic,
    /// The classic runtime (`React.createElement`).
    Classic,
}

/// What the transform is told, derived from a [`TransformerConfig`].
#[derive(Debug, Clone)]
pub struct TransformSettings {
    /// The ECMAScript target that the environment options are read from.
    pub target: String,
    /// The JSX runtime.
    pub jsx: JsxMode,
    /// Whether public class fields are assigned rather than defined.
    pub set_public_class_fields: bool,
    /// Whether only imports used as types alone are removed.
    pub only_remove_type_imports: bool,
}

/// The settings that `config` gives the transform: the automatic JSX
/// runtime exactly when JSX is on, assignment of public class fields exactly
/// when they are not defined, and every value import kept.
pub open spec fn settings_of(config: TransformerConfig) -> (Seq<char>, JsxMode, bool, bool) {
    (
        config.target@,
        if config.jsx {
            JsxMode::Automatic
        } else {
            JsxMode::Classic
        },
        !config.use_define_for_class_fields,
        true,
    )
}

/// The settings that `config` gives the transform.
pub fn transform_settings(config: &TransformerConfig) -> (r: TransformSettings)
    ensures
        (r.target@, r.jsx, r.set_public_class_fields, r.only_remove_type_imports) == settings_of(
            *config,
        ),
{
    TransformSettings {
        target: config.target.clone(),
        jsx: if config.jsx {
            JsxMode::Automatic
        } else {
            JsxMode::Classic
        },
        set_public_class_fields: !config.use_define_for_class_fields,
        only_remove_type_imports: true,
    }
}

/// Whether `oxc_transformer` reads an environment from the target query
/// `target` (`EnvOptions::from_target` returns `Ok`).
pub uninterp spec fn oxc_target_accepted(target: Seq<char>) -> bool;

/// The environment a transform runs in: the one read from a target query,
/// or the default one.
pub struct Env {
    target: Option<String>,
    env: EnvOptions,
}

impl View for Env {
    type V = Option<Seq<char>>;

    /// The target query the environment was read from; none for the
    /// default environment.
    closed spec fn view(&self) -> Option<Seq<char>> {
        match self.target {
            Some(t) => Some(t@),
            None => None,
        }
    }
}

/// The environment that the target query `target` denotes
/// (`EnvOptions::from_target`); the error message where the query does not
/// parse.
#[verifier::external_body]
fn env_from_target(target: &str) -> (r: Result<Env, String>)
    ensures
        r is Ok <==> oxc_target_accepted(target@),
        r matches Ok(e) ==> e@ == Some(target@),
{
    match EnvOptions::from_target(target) {
        Ok(env) => Ok(Env { target: Some(target.to_string()), env }),
        Err(e) => Err(e),
    }
}

/// The default environment (`EnvOptions::default`).
#[verifier::external_body]
fn default_env() -> (r: Env)
    ensures
        r@ is None,
{
    Env { target: None, env: EnvOptions::default() }
}

/// The environment that the target `target` selects: the one read from it
/// where `oxc_transformer` accepts it, the default one otherwise.
pub open spec fn env_choice(target: Seq<char>) -> Option<Seq<char>> {
    if oxc_target_accepted(target) {
        Some(target)
    } else {
        None
    }
}

/// The environment for `target`, the default one where the query does not
/// parse.
fn env_for(target: &str) -> (r: Env)
    ensures
        r@ == env_choice(target@),
{
    match env_from_target(target) {
        Ok(env) => env,
        Err(_) => default_env(),
    }
}

/// One transform a program went through: the source path the transformer
/// was given, its environment (none for the default one), its JSX runtime,
/// whether public class fields are assigned, and whether only type imports
/// are removed.
pub type TransformRecord = (Seq<char>, Option<Seq<char>>, JsxMode, bool, bool);

/// One transform a program went through, as the program records it.
#[derive(Debug, Clone)]
pub struct TransformStep {
    path: String,
    env: Option<String>,
    jsx: JsxMode,
    set_public_class_fields: bool,
    only_remove_type_imports: bool,
}

impl View for TransformStep {
    type V = TransformRecord;

    closed spec fn view(&self) -> TransformRecord {
        (
            self.path@,
            match self.env {
                Some(t) => Some(t@),
                None => None,
            },
            self.jsx,
            self.set_public_class_fields,
            self.only_remove_type_imports,
        )
    }
}

/// The diagnostics of `SemanticBuilder` (with enum members evaluated) for
/// the program that `source` parsed as `kind`, then transformed by `steps`,
/// gives, printed.
pub uninterp spec fn oxc_semantic_errors(source: Seq<char>, kind: SourceKind, steps: Seq<TransformRecord>) -> Seq<
    Seq<char>,
>;

/// The diagnostics that `Transformer::build_with_scoping` reports for the
/// program that `source` parsed as `kind`, then transformed by `steps`,
/// gives, when it is transformed as `step` says, printed.
pub uninterp spec fn oxc_transform_errors(
    source: Seq<char>,
    kind: SourceKind,
    steps: Seq<TransformRecord>,
    step: TransformRecord,
) -> Seq<Seq<char>>;

/// The semantic analysis of a program, with what the program was made from.
pub struct Analysis {
    origin: (String, SourceKind, Vec<TransformStep>),
    scoping: Scoping,
}

impl View for Analysis {
    type V = (Seq<char>, SourceKind, Seq<TransformRecord>);

    /// What the analysed program was made from.
    closed spec fn view(&self) -> (Seq<char>, SourceKind, Seq<TransformRecord>) {
        (self.origin.0@, self.origin.1, self.origin.2@.map_values(|t: TransformStep| t@))
    }
}

/// Builds the semantic model of `program` with enum members evaluated, as
/// the transformer needs it (`SemanticBuilder::with_enum_eval`, then
/// `build`), and hands back its scoping with the semantic diagnostics
/// printed.
#[verifier::external_body]
fn build_semantic<'a>(program: &ParsedProgram<'a>) -> (r: (Analysis, Vec<String>))
    ensures
        r.0@ == program@,
        texts(r.1@) == oxc_semantic_errors(program@.0, program@.1, program@.2),
{
    let ret = SemanticBuilder::new().with_enum_eval(true).build(&program.program);
    let errors = ret.diagnostics.iter().map(|e| e.to_string()).collect();
    let origin = (program.source.clone(), program.kind, program.transforms.clone());
    (Analysis { origin, scoping: ret.semantic.into_scoping() }, errors)
}

/// Transform options, with the record of what they carry.
pub struct PreparedOptions {
    step: (Option<String>, JsxMode, bool, bool),
    options: TransformOptions,
}

impl View for PreparedOptions {
    type V = (Option<Seq<char>>, JsxMode, bool, bool);

    /// The environment, JSX runtime, class-field and type-import settings
    /// that the options carry.
    closed spec fn view(&self) -> (Option<Seq<char>>, JsxMode, bool, bool) {
        (
            match self.step.0 {
                Some(t) => Some(t@),
                None => None,
            },
            self.step.1,
            self.step.2,
            self.step.3,
        )
    }
}

/// The `TransformOptions` that carry `settings`, with `env` for the
/// environment and the defaults of `TransformOptions` elsewhere.
#[verifier::external_body]
fn transform_options(settings: &TransformSettings, env: Env) -> (r: PreparedOptions)
    ensures
        r@ == (env@, settings.jsx, settings.set_public_class_fields, settings.only_remove_type_imports),
{
    let mut typescript = TypeScriptOptions::default();
    typescript.only_remove_type_imports = settings.only_remove_type_imports;
    let runtime = match settings.jsx {
        JsxMode::Automatic => JsxRuntime::Automatic,
        JsxMode::Classic => JsxRuntime::Classic,
    };
    let mut assumptions = CompilerAssumptions::default();
    assumptions.set_public_class_fields = settings.set_public_class_fields;
    let jsx = JsxOptions { runtime, ..JsxOptions::default() };
    let options = TransformOptions { typescript, jsx, env: env.env, assumptions, ..TransformOptions::default() };
    let step = (env.target, settings.jsx, settings.set_public_class_fields, settings.only_remove_type_imports);
    PreparedOptions { step, options }
}

/// Runs `Transformer::build_with_scoping` on `program` with the scoping of
/// `analysis`, which was built for this program, and hands back the
/// diagnostics printed; the program records the transform.
#[verifier::external_body]
fn run_transformer<'a>(
    allocator: &'a Allocator,
    program: &mut ParsedProgram<'a>,
    source_path: &str,
    analysis: Analysis,
    options: &PreparedOptions,
) -> (r: Vec<String>)
    requires
        analysis@ == old(program)@,
    ensures
        texts(r@) == oxc_transform_errors(
            old(program)@.0,
            old(program)@.1,
            old(program)@.2,
            (source_path@, options@.0, options@.1, options@.2, options@.3),
        ),
        final(program)@ == (
            old(program)@.0,
            old(program)@.1,
            old(program)@.2.push((source_path@, options@.0, options@.1, options@.2, options@.3)),
        ),
{
    let transformer = Transformer::new(allocator, Path::new(source_path), &options.options);
    let ret = transformer.build_with_scoping(analysis.scoping, &mut program.program);
    let (env, jsx, set_public_class_fields, only_remove_type_imports) = options.step.clone();
    let path = source_path.to_string();
    program.transforms.push(TransformStep { path, env, jsx, set_public_class_fields, only_remove_type_imports });
    ret.diagnostics.iter().map(|e| e.to_string()).collect()
}

/// The outcome of a stage that reported the diagnostics `errors`: success
/// where there are none, otherwise those diagnostics as the error.
pub fn diagnostics_outcome(errors: Vec<String>) -> (r: Result<(), Vec<String>>)
    ensures
        r is Ok <==> errors.len() == 0,
        r matches Err(es) ==> es == errors,
{
    if errors.len() > 0 {
        Err(errors)
    } else {
        Ok(())
    }
}

/// The transform that `config` asks for on the file `source_path`.
pub open spec fn transform_record(source_path: Seq<char>, config: TransformerConfig) -> TransformRecord {
    let s = settings_of(config);
    (source_path, env_choice(s.0), s.1, s.2, s.3)
}

/// The diagnostics that transforming `p` as `step` reports: those of the
/// semantic analysis where there are any, otherwise the transform's own.
pub open spec fn transform_stage_errors(
    p: (Seq<char>, SourceKind, Seq<TransformRecord>),
    step: TransformRecord,
) -> Seq<Seq<char>> {
    let sem = oxc_semantic_errors(p.0, p.1, p.2);
    if sem.len() > 0 {
        sem
    } else {
        oxc_transform_errors(p.0, p.1, p.2, step)
    }
}

/// Transforms a parsed program from TypeScript to JavaScript in place: the
/// automatic JSX runtime exactly when JSX is on, public class fields
/// assigned exactly when they are not defined, only type imports removed,
/// and the environment of the configured target (the default one where
/// the target is not accepted). The semantic diagnostics, where there are
/// any, stop it before the transform and leave the program as it was; the
/// transform's own diagnostics, where there are any, are the error.
pub fn transform<'a>(
    allocator: &'a Allocator,
    program: &mut ParsedProgram<'a>,
    source_path: &str,
    _source_kind: SourceKind,
    config: &TransformerConfig,
) -> (r: Result<(), Vec<String>>)
    ensures
        r is Ok <==> transform_stage_errors(old(program)@, transform_record(source_path@, *config)).len() == 0,
        r matches Err(es) ==> texts(es@) == transform_stage_errors(
            old(program)@,
            transform_record(source_path@, *config),
        ),
        oxc_semantic_errors(old(program)@.0, old(program)@.1, old(program)@.2).len() > 0 ==> final(program)@
            == old(program)@,
        oxc_semantic_errors(old(program)@.0, old(program)@.1, old(program)@.2).len() == 0 ==> final(program)@
            == (
            old(program)@.0,
            old(program)@.1,
            old(program)@.2.push(transform_record(source_path@, *config)),
        ),
{
    let (analysis, semantic_errors) = build_semantic(program);
    match diagnostics_outcome(semantic_errors) {
        Ok(()) => {},
        Err(es) => return Err(es),
    }
    let settings = transform_settings(config);
    let env = env_for(settings.target.as_str());
    let options = transform_options(&settings, env);
    let errors = run_transformer(allocator, program, source_path, analysis, &options);
    diagnostics_outcome(errors)
}

} // verus!
