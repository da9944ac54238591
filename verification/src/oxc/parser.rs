//! Parsing TypeScript and JavaScript sources with `oxc_parser`.
use oxc_allocator::Allocator;
use oxc_ast::ast::Program;
use oxc_span::SourceType;

use vstd::prelude::*;

use crate::paths::{last_index_of, path_file_name};
use crate::oxc::transformer::{TransformRecord, TransformStep};
use crate::text::{same_text, texts};

verus! {

broadcast use vstd::string::group_string_axioms;

#[verifier::external_type_specification]
#[verifier::external_body]
pub struct ExAllocator(Allocator);

#[verifier::external_type_specification]
#[verifier::external_body]
pub struct ExProgram<'a>(Program<'a>);

/// Parser configuration options.
#[derive(Debug, Clone)]
pub struct ParserConfig {
    /// Target ECMAScript version (e.g. "es2024").
    pub target: String,
    /// Whether to support JSX syntax.
    pub jsx: bool,
    /// Whether to support decorators.
    pub decorators: bool,
    /// Whether to support TypeScript.
    pub typescript: bool,
}

impl Default for ParserConfig {
    fn default() -> (r: Self)
        ensures
            r.target@ == "es2024"@,
            !r.jsx,
            r.decorators,
            r.typescript,
    {
        ParserConfig { target: crate::text::owned("es2024"), jsx: false, decorators: true, typescript: true }
    }
}

impl ParserConfig {
    /// A parser configuration with the given settings.
    pub fn new(target: String, jsx: bool, decorators: bool, typescript: bool) -> (r: Self)
        ensures
            r == (ParserConfig { target, jsx, decorators, typescript }),
    {
        ParserConfig { target, jsx, decorators, typescript }
    }
}

/// The kind of source a file holds, from its extension.
#[derive(Debug, Clone, Copy, PartialEq, Eq, Structural)]
pub enum SourceKind {
    /// TypeScript (`.ts`, `.mts`).
    Ts,
    /// TypeScript with JSX (`.tsx`).
    Tsx,
    /// An ES module (`.mjs`).
    Mjs,
    /// A CommonJS script (`.cjs`).
    Cjs,
    /// JavaScript with JSX (`.jsx`).
    Jsx,
    /// JavaScript whose module kind is decided by its content.
    Unambiguous,
}

/// The extension of a file name, as `Path::extension` documents it: none
/// where the name holds no `.` other than a leading one, otherwise the part
/// after the final `.`.
pub open spec fn extension_of_name(name: Seq<char>) -> Option<Seq<char>> {
    let d = last_index_of(name, '.');
    if d <= 0 {
        None
    } else {
        Some(name.subrange(d + 1, name.len() as int))
    }
}

/// The extension of the path `p`.
pub open spec fn path_extension(p: Seq<char>) -> Option<Seq<char>> {
    match path_file_name(p) {
        Some(n) => extension_of_name(n),
        None => None,
    }
}

/// The kind of source that the extension `ext` (or none) denotes.
pub open spec fn kind_of_extension(ext: Option<Seq<char>>) -> SourceKind {
    match ext {
        Some(e) => if e == "ts"@ || e == "mts"@ {
            SourceKind::Ts
        } else if e == "tsx"@ {
            SourceKind::Tsx
        } else if e == "mjs"@ {
            SourceKind::Mjs
        } else if e == "cjs"@ {
            SourceKind::Cjs
        } else if e == "jsx"@ {
            SourceKind::Jsx
        } else {
            SourceKind::Unambiguous
        },
        None => SourceKind::Unambiguous,
    }
}

/// The diagnostics that `oxc_parser` reports for `source` parsed as `kind`,
/// printed.
pub uninterp spec fn oxc_parse_errors(source: Seq<char>, kind: SourceKind) -> Seq<Seq<char>>;

/// The extension of the final component of `p` (`Path::extension`).
#[verifier::external_body]
pub(crate) fn extension_of(p: &str) -> (r: Option<String>)
    ensures
        r matches Some(e) ==> path_extension(p@) == Some(e@),
        r is None ==> path_extension(p@) is None,
{
    std::path::Path::new(p).extension().map(|e| e.to_string_lossy().into_owned())
}

/// The source kind of the file at `file_path`, from its extension.
pub fn determine_source_type(file_path: &str, _config: &ParserConfig) -> (r: SourceKind)
    ensures
        r == kind_of_extension(path_extension(file_path@)),
{
    match extension_of(file_path) {
        Some(e) => {
            let e = e.as_str();
            if same_text(e, "ts") || same_text(e, "mts") {
                SourceKind::Ts
            } else if same_text(e, "tsx") {
                SourceKind::Tsx
            } else if same_text(e, "mjs") {
                SourceKind::Mjs
            } else if same_text(e, "cjs") {
                SourceKind::Cjs
            } else if same_text(e, "jsx") {
                SourceKind::Jsx
            } else {
                SourceKind::Unambiguous
            }
        },
        None => SourceKind::Unambiguous,
    }
}

/// A fresh arena for one program (`Allocator::default`).
#[verifier::external_body]
pub(crate) fn new_allocator() -> Allocator {
    Allocator::default()
}

/// A program together with what it was made from: the source text, the
/// kind it was parsed as, and the transforms it went through since, in
/// order. Only the parser and the transformer make and change one, so
/// these always describe the program it holds.
pub struct ParsedProgram<'a> {
    pub(crate) source: String,
    pub(crate) kind: SourceKind,
    pub(crate) transforms: Vec<TransformStep>,
    pub(crate) program: Program<'a>,
}

impl<'a> View for ParsedProgram<'a> {
    type V = (Seq<char>, SourceKind, Seq<TransformRecord>);

    closed spec fn view(&self) -> (Seq<char>, SourceKind, Seq<TransformRecord>) {
        (self.source@, self.kind, self.transforms@.map_values(|t: TransformStep| t@))
    }
}

impl<'a> ParsedProgram<'a> {
    /// The program's syntax tree.
    pub closed spec fn ast(&self) -> Program<'a> {
        self.program
    }

    /// The program's syntax tree.
    pub fn program(&self) -> (r: &Program<'a>)
        ensures
            *r == self.ast(),
    {
        &self.program
    }

    /// The program's syntax tree, taken out.
    pub fn into_program(self) -> (r: Program<'a>)
        ensures
            r == self.ast(),
    {
        self.program
    }
}

/// Parses `source` as `kind` in `allocator` (`Parser::parse`), returning the
/// program and its diagnostics printed.
#[verifier::external_body]
fn parse_source<'a>(allocator: &'a Allocator, source: &'a str, kind: SourceKind) -> (r: (
    ParsedProgram<'a>,
    Vec<String>,
))
    ensures
        r.0@ == (source@, kind, Seq::<TransformRecord>::empty()),
        texts(r.1@) == oxc_parse_errors(source@, kind),
{
    let source_type = match kind {
        SourceKind::Ts => SourceType::ts(),
        SourceKind::Tsx => SourceType::tsx(),
        SourceKind::Mjs => SourceType::mjs(),
        SourceKind::Cjs => SourceType::cjs(),
        SourceKind::Jsx => SourceType::jsx(),
        SourceKind::Unambiguous => SourceType::unambiguous(),
    };
    let ret = oxc_parser::Parser::new(allocator, source, source_type).parse();
    let errors = ret.diagnostics.iter().map(|e| e.to_string()).collect();
    let parsed = ParsedProgram { source: source.to_string(), kind, transforms: Vec::new(), program: ret.program };
    (parsed, errors)
}

/// Parses TypeScript source into a program, the file's extension deciding
/// the source kind; the diagnostics where there are any.
pub fn parse<'a>(allocator: &'a Allocator, source_text: &'a str, file_path: &str, config: &ParserConfig) -> (r:
    Result<ParsedProgram<'a>, Vec<String>>)
    ensures
        r is Err <==> oxc_parse_errors(source_text@, kind_of_extension(path_extension(file_path@))).len() > 0,
        r matches Err(es) ==> texts(es@) == oxc_parse_errors(
            source_text@,
            kind_of_extension(path_extension(file_path@)),
        ),
        r matches Ok(p) ==> p@ == (
            source_text@,
            kind_of_extension(path_extension(file_path@)),
            Seq::<TransformRecord>::empty(),
        ),
{
    let kind = determine_source_type(file_path, config);
    let (program, errors) = parse_source(allocator, source_text, kind);
    if errors.len() > 0 {
        Err(errors)
    } else {
        Ok(program)
    }
}

} // verus!
