//! Printing a transformed program as JavaScript with `oxc_codegen`.
use oxc_allocator::Allocator;
use oxc_codegen::{Codegen, CodegenOptions, CommentOptions};

use vstd::prelude::*;

use crate::oxc::parser::{ParsedProgram, SourceKind};
use crate::oxc::transformer::TransformRecord;

verus! {

broadcast use vstd::string::group_string_axioms;

/// Code generation configuration options.
#[derive(Debug, Clone)]
pub struct CodegenConfig {
    /// Whether to generate minified output.
    pub minify: bool,
    /// Whether to generate source maps.
    pub source_map: bool,
    /// Source map file name (without extension).
    pub source_map_name: String,
    /// Whether to preserve comments.
    pub comments: bool,
}

impl Default for CodegenConfig {
    fn default() -> (r: Self)
        ensures
            !r.minify,
            !r.source_map,
            r.source_map_name@ == Seq::<char>::empty(),
            !r.comments,
    {
        CodegenConfig { minify: false, source_map: false, source_map_name: String::new(), comments: false }
    }
}

impl CodegenConfig {
    /// A code generation configuration with the given settings.
    pub fn new(minify: bool, source_map: bool, source_map_name: String, comments: bool) -> (r: Self)
        ensures
            r == (CodegenConfig { minify, source_map, source_map_name, comments }),
    {
        CodegenConfig { minify, source_map, source_map_name, comments }
    }
}

/// Result of code generation.
pub struct CodegenResult {
    /// The generated JavaScript source code.
    pub code: String,
    /// The length of the generated code in bytes.
    pub code_len: usize,
}

/// The length in bytes of the UTF-8 encoding of `s`.
pub open spec fn utf8_len(s: Seq<char>) -> nat
    decreases s.len(),
{
    if s.len() == 0 {
        0
    } else {
        utf8_len(s.drop_last()) + char_utf8_width(s.last())
    }
}

/// The number of bytes that UTF-8 spends on `c`.
pub open spec fn char_utf8_width(c: char) -> nat {
    if (c as u32) < 0x80 {
        1
    } else if (c as u32) < 0x800 {
        2
    } else if (c as u32) < 0x10000 {
        3
    } else {
        4
    }
}

/// The length of `s` in bytes (`str::len`).
#[verifier::external_body]
fn byte_len(s: &str) -> (r: usize)
    ensures
        r == utf8_len(s@),
{
    s.len()
}

/// Comment printing options, with whether they keep comments.
pub struct Comments {
    keep: bool,
    options: CommentOptions,
}

impl View for Comments {
    type V = bool;

    /// Whether comments are kept.
    closed spec fn view(&self) -> bool {
        self.keep
    }
}

/// Comment printing that keeps every kind of comment
/// (`CommentOptions::default`).
#[verifier::external_body]
fn all_comments() -> (r: Comments)
    ensures
        r@,
{
    Comments { keep: true, options: CommentOptions::default() }
}

/// Comment printing that drops every comment (`CommentOptions::disabled`).
#[verifier::external_body]
fn no_comments() -> (r: Comments)
    ensures
        !r@,
{
    Comments { keep: false, options: CommentOptions::disabled() }
}

#[verifier::external_type_specification]
#[verifier::external_body]
pub struct ExCommentOptions(CommentOptions);

/// The JavaScript text that `oxc_codegen` prints (`Codegen::build`) for
/// the program that `source` parsed as `kind`, then transformed by `steps`,
/// gives, minified or not, with comments kept or dropped.
pub uninterp spec fn oxc_printed(
    source: Seq<char>,
    kind: SourceKind,
    steps: Seq<TransformRecord>,
    minify: bool,
    comments: bool,
) -> Seq<char>;

/// The JavaScript text that `oxc_codegen` prints for `program`
/// (`Codegen::build`), minified or not, with `comments` deciding which
/// comments it keeps.
#[verifier::external_body]
fn print_program<'a>(program: &ParsedProgram<'a>, minify: bool, comments: Comments) -> (r: String)
    ensures
        r@ == oxc_printed(program@.0, program@.1, program@.2, minify, comments@),
{
    let options = CodegenOptions { minify, comments: comments.options, ..CodegenOptions::default() };
    Codegen::new().with_options(options).build(&program.program).code
}

/// Generates JavaScript source from a program, minified or not and with
/// comments kept or dropped as `config` says; the result carries the code
/// and its length in bytes.
pub fn codegen<'a>(
    _allocator: &Allocator,
    program: &ParsedProgram<'a>,
    _source_kind: SourceKind,
    config: &CodegenConfig,
) -> (r: Result<CodegenResult, String>)
    ensures
        r matches Ok(c) && c.code_len == utf8_len(c.code@) && c.code@ == oxc_printed(
            program@.0,
            program@.1,
            program@.2,
            config.minify,
            config.comments,
        ),
{
    let comments = if config.comments {
        all_comments()
    } else {
        no_comments()
    };
    let code = print_program(program, config.minify, comments);
    let code_len = byte_len(code.as_str());
    Ok(CodegenResult { code, code_len })
}

} // verus!
