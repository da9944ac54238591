//! The OXC compiler: derives each stage's configuration from the compiler
//! configuration and runs parse, transform and code generation on a source.
use std::time::Duration;

use vstd::prelude::*;

use crate::oxc::codegen::{codegen, oxc_printed, utf8_len, CodegenConfig, CodegenResult};
use crate::oxc::parser::{
    determine_source_type, kind_of_extension, new_allocator, oxc_parse_errors, parse, path_extension,
    ParserConfig, SourceKind,
};
use crate::oxc::transformer::{
    env_choice, transform, transform_stage_errors, JsxMode, TransformRecord, TransformerConfig,
};
use crate::paths::{
    joined, join_path, path_relative_to, path_with_extension, strip_prefix_of, with_extension_of,
};
use crate::swc::{format_name, CompilerConfig};
use crate::text::{ends_with_text, has_suffix, owned, texts};

verus! {

broadcast use vstd::string::group_string_axioms;

/// Compiler metrics: files compiled, time spent and errors.
#[derive(Debug, Default)]
pub struct CompilerMetrics {
    /// Number of files compiled.
    pub count: usize,
    /// Total elapsed time.
    pub elapsed: Duration,
    /// Number of errors.
    pub error: usize,
}

/// Why a compilation failed, and at which stage.
#[derive(Debug)]
pub enum CompileError {
    /// The parser's diagnostics.
    Parse(Vec<String>),
    /// The semantic analysis's or the transform's diagnostics.
    Transform(Vec<String>),
    /// The code generator's error.
    Codegen(String),
}

/// The time `a` and `b` make together, saturating at the largest duration
/// (`Duration::saturating_add`).
#[verifier::external_body]
fn duration_sum(a: Duration, b: Duration) -> Duration {
    a.saturating_add(b)
}

/// The zero duration (`Duration::ZERO`).
#[verifier::external_body]
fn zero_duration() -> Duration {
    Duration::ZERO
}

/// OXC-based TypeScript compiler: parse, transform and code generation
/// for each source file.
pub struct Compiler {
    /// Compiler configuration.
    pub config: CompilerConfig,
    /// Compiler metrics.
    pub outlook: CompilerMetrics,
}

/// The parser configuration that the compiler configuration `c` gives:
/// its target, JSX off, decorators and TypeScript on.
pub open spec fn parser_config_of(c: CompilerConfig) -> (Seq<char>, bool, bool, bool) {
    (c.Target@, false, true, true)
}

/// The transformer configuration that `c` gives: its target, module format,
/// decorator metadata, tree-shaking and minification, JSX off and class
/// fields assigned rather than defined.
pub open spec fn transformer_config_of(c: CompilerConfig) -> (
    Seq<char>,
    Seq<char>,
    bool,
    bool,
    bool,
    bool,
    bool,
) {
    (c.Target@, format_name(c.ModuleFormat), c.EmitDecoratorsMetadata, false, false, c.TreeShaking, c.Minify)
}

/// The parse diagnostics of `input` read as the file `file_path`.
pub open spec fn parse_errors_of(file_path: Seq<char>, input: Seq<char>) -> Seq<Seq<char>> {
    oxc_parse_errors(input, kind_of_extension(path_extension(file_path)))
}

/// The transform that compiling `file_path` with the configuration `c`
/// applies: the environment of its target, the classic JSX runtime, public
/// class fields assigned unless they are defined, only type imports removed.
pub open spec fn compile_step(file_path: Seq<char>, c: CompilerConfig, use_define: bool) -> TransformRecord {
    (file_path, env_choice(c.Target@), JsxMode::Classic, !use_define, true)
}

/// The program that parsing `input`, the source of `file_path`, gives.
pub open spec fn parsed_origin(file_path: Seq<char>, input: Seq<char>) -> (
    Seq<char>,
    SourceKind,
    Seq<TransformRecord>,
) {
    (input, kind_of_extension(path_extension(file_path)), Seq::<TransformRecord>::empty())
}

/// The diagnostics that the transform stage of compiling `input` reports.
pub open spec fn compile_transform_errors(
    file_path: Seq<char>,
    input: Seq<char>,
    c: CompilerConfig,
    use_define: bool,
) -> Seq<Seq<char>> {
    transform_stage_errors(parsed_origin(file_path, input), compile_step(file_path, c, use_define))
}

/// The JavaScript that compiling `input`, the source of `file_path`, gives:
/// the program transformed once, printed unminified or minified as `c`
/// says and without comments.
pub open spec fn compiled_code(file_path: Seq<char>, input: Seq<char>, c: CompilerConfig, use_define: bool) -> Seq<
    char,
> {
    oxc_printed(
        input,
        kind_of_extension(path_extension(file_path)),
        seq![compile_step(file_path, c, use_define)],
        c.Minify,
        false,
    )
}

/// The file that the compiled form of `file` is written to below
/// `output_base`: its path relative to `input_base` (the whole path where
/// it lies outside) joined to `output_base`, with the extension `js`.
pub open spec fn output_path_in(file: Seq<char>, input_base: Seq<char>, output_base: Seq<char>) -> Seq<
    char,
> {
    let rel = match path_relative_to(file, input_base) {
        Some(r) => r,
        None => file,
    };
    path_with_extension(joined(output_base, rel), "js"@)
}

/// The number of directory separators in `path`: `/` and the platform's
/// own separator `sep`.
pub open spec fn nesting_depth(path: Seq<char>, sep: char) -> nat
    decreases path.len(),
{
    if path.len() == 0 {
        0
    } else {
        nesting_depth(path.drop_last(), sep) + if path.last() == sep || path.last() == '/' {
            1nat
        } else {
            0nat
        }
    }
}

/// The platform's primary path separator (`std::path::MAIN_SEPARATOR`):
/// `/` on Unix, `\` on Windows.
#[verifier::external_body]
pub(crate) fn main_separator() -> (c: char)
    ensures
        c == '/' || c == '\\',
{
    std::path::MAIN_SEPARATOR
}

/// The number of separators in `path`, counting `/` and `sep`.
pub fn nesting_depth_with(path: &str, sep: char) -> (r: usize)
    ensures
        r == nesting_depth(path@, sep),
{
    let cs = crate::text::chars_of(path);
    let mut n: usize = 0;
    let mut i: usize = 0;
    while i < cs.len()
        invariant
            i <= cs.len(),
            cs@ == path@,
            n == nesting_depth(path@.subrange(0, i as int), sep),
            n <= i,
        decreases cs.len() - i,
    {
        assert(path@.subrange(0, i as int + 1).drop_last() =~= path@.subrange(0, i as int));
        if cs[i] == sep || cs[i] == '/' {
            n = n + 1;
        }
        i = i + 1;
    }
    assert(path@.subrange(0, cs.len() as int) =~= path@);
    n
}

/// The directory nesting depth of `path`: its separators, `/` and the
/// platform's own.
pub fn get_nesting_depth(path: &str) -> (r: usize)
    ensures
        r == nesting_depth(path@, '/') || r == nesting_depth(path@, '\\'),
{
    nesting_depth_with(path, main_separator())
}

/// The files of `fs` whose nesting depth is `d`, in their order in `fs`.
pub open spec fn of_depth(fs: Seq<Seq<char>>, sep: char, d: nat) -> Seq<Seq<char>>
    decreases fs.len(),
{
    if fs.len() == 0 {
        seq![]
    } else {
        of_depth(fs.drop_last(), sep, d) + if nesting_depth(fs.last(), sep) == d {
            seq![fs.last()]
        } else {
            seq![]
        }
    }
}

/// The files of `fs` whose nesting depth is below `n`, shallower ones
/// first and, at one depth, in their order in `fs`.
pub open spec fn shallower_first(fs: Seq<Seq<char>>, sep: char, n: nat) -> Seq<Seq<char>>
    decreases n,
{
    if n == 0 {
        seq![]
    } else {
        shallower_first(fs, sep, (n - 1) as nat) + of_depth(fs, sep, (n - 1) as nat)
    }
}

/// The greatest nesting depth among `fs` (0 for none).
pub open spec fn max_depth(fs: Seq<Seq<char>>, sep: char) -> nat
    decreases fs.len(),
{
    if fs.len() == 0 {
        0
    } else {
        let m = max_depth(fs.drop_last(), sep);
        let d = nesting_depth(fs.last(), sep);
        if d > m {
            d
        } else {
            m
        }
    }
}

/// The order in which the files `fs` are compiled: by nesting depth,
/// shallower first, keeping the order of `fs` among files of one depth
/// (a stable sort by depth).
pub open spec fn compile_order_of(fs: Seq<Seq<char>>, sep: char) -> Seq<Seq<char>> {
    shallower_first(fs, sep, max_depth(fs, sep) + 1)
}

/// Every file in `of_depth(fs, sep, d)` has depth `d`.
proof fn lemma_of_depth_depths(fs: Seq<Seq<char>>, sep: char, d: nat)
    ensures
        forall|i: int|
            0 <= i < of_depth(fs, sep, d).len() ==> nesting_depth(#[trigger] of_depth(fs, sep, d)[i], sep)
                == d,
    decreases fs.len(),
{
    if fs.len() > 0 {
        lemma_of_depth_depths(fs.drop_last(), sep, d);
        let a = of_depth(fs.drop_last(), sep, d);
        let tail = if nesting_depth(fs.last(), sep) == d {
            seq![fs.last()]
        } else {
            Seq::<Seq<char>>::empty()
        };
        assert(of_depth(fs, sep, d) == a + tail);
        assert forall|i: int| 0 <= i < (a + tail).len() implies nesting_depth(#[trigger] (a + tail)[i], sep)
            == d by {
            if i < a.len() {
                assert((a + tail)[i] == a[i]);
            } else {
                assert((a + tail)[i] == tail[i - a.len()]);
            }
        }
    }
}

/// Every file in `shallower_first(fs, sep, n)` has a depth below `n`, and
/// they come in order of depth.
proof fn lemma_shallower_first_sorted(fs: Seq<Seq<char>>, sep: char, n: nat)
    ensures
        forall|i: int|
            0 <= i < shallower_first(fs, sep, n).len() ==> nesting_depth(
                #[trigger] shallower_first(fs, sep, n)[i],
                sep,
            ) < n,
        forall|i: int, j: int|
            0 <= i <= j < shallower_first(fs, sep, n).len() ==> nesting_depth(
                #[trigger] shallower_first(fs, sep, n)[i],
                sep,
            ) <= nesting_depth(#[trigger] shallower_first(fs, sep, n)[j], sep),
    decreases n,
{
    if n > 0 {
        let m = (n - 1) as nat;
        lemma_shallower_first_sorted(fs, sep, m);
        lemma_of_depth_depths(fs, sep, m);
        let a = shallower_first(fs, sep, m);
        let b = of_depth(fs, sep, m);
        assert(shallower_first(fs, sep, n) == a + b);
        assert forall|i: int| 0 <= i < (a + b).len() implies nesting_depth(#[trigger] (a + b)[i], sep) < n by {
            if i < a.len() {
                assert((a + b)[i] == a[i]);
            } else {
                assert((a + b)[i] == b[i - a.len()]);
            }
        }
        assert forall|i: int, j: int|
            0 <= i <= j < (a + b).len() implies nesting_depth(#[trigger] (a + b)[i], sep) <= nesting_depth(
            #[trigger] (a + b)[j],
            sep,
        ) by {
            if j < a.len() {
                assert((a + b)[i] == a[i]);
                assert((a + b)[j] == a[j]);
            } else if i < a.len() {
                assert((a + b)[i] == a[i]);
                assert((a + b)[j] == b[j - a.len()]);
            } else {
                assert((a + b)[i] == b[i - a.len()]);
                assert((a + b)[j] == b[j - a.len()]);
            }
        }
    }
}

/// The files of `fs` below depth `n`, in compile order, hold exactly the
/// files of each depth `d < n` in their order in `fs`.
proof fn lemma_shallower_first_classes(fs: Seq<Seq<char>>, sep: char, n: nat, d: nat)
    ensures
        of_depth(shallower_first(fs, sep, n), sep, d) == if d < n {
            of_depth(fs, sep, d)
        } else {
            Seq::<Seq<char>>::empty()
        },
    decreases n,
{
    if n > 0 {
        let m = (n - 1) as nat;
        lemma_shallower_first_classes(fs, sep, m, d);
        lemma_of_depth_concat(shallower_first(fs, sep, m), of_depth(fs, sep, m), sep, d);
        lemma_of_depth_of_depth(fs, sep, m, d);
        assert(Seq::<Seq<char>>::empty() + of_depth(fs, sep, d) =~= of_depth(fs, sep, d));
        assert(of_depth(fs, sep, d) + Seq::<Seq<char>>::empty() =~= of_depth(fs, sep, d));
        assert(Seq::<Seq<char>>::empty() + Seq::<Seq<char>>::empty() =~= Seq::<Seq<char>>::empty());
    }
}

/// Picking a depth distributes over concatenation.
proof fn lemma_of_depth_concat(a: Seq<Seq<char>>, b: Seq<Seq<char>>, sep: char, d: nat)
    ensures
        of_depth(a + b, sep, d) == of_depth(a, sep, d) + of_depth(b, sep, d),
    decreases b.len(),
{
    if b.len() == 0 {
        assert(a + b =~= a);
        assert(of_depth(a, sep, d) + of_depth(b, sep, d) =~= of_depth(a, sep, d));
    } else {
        lemma_of_depth_concat(a, b.drop_last(), sep, d);
        assert((a + b).drop_last() =~= a + b.drop_last());
        assert((a + b).last() == b.last());
        let tail = if nesting_depth(b.last(), sep) == d {
            seq![b.last()]
        } else {
            Seq::<Seq<char>>::empty()
        };
        assert(of_depth(a, sep, d) + of_depth(b.drop_last(), sep, d) + tail =~= of_depth(a, sep, d) + (
        of_depth(b.drop_last(), sep, d) + tail));
    }
}

/// Picking depth `d` from the files of depth `m` gives them all where the
/// depths agree and none otherwise.
proof fn lemma_of_depth_of_depth(fs: Seq<Seq<char>>, sep: char, m: nat, d: nat)
    ensures
        of_depth(of_depth(fs, sep, m), sep, d) == if d == m {
            of_depth(fs, sep, m)
        } else {
            Seq::<Seq<char>>::empty()
        },
    decreases fs.len(),
{
    if fs.len() > 0 {
        lemma_of_depth_of_depth(fs.drop_last(), sep, m, d);
        let tail = if nesting_depth(fs.last(), sep) == m {
            seq![fs.last()]
        } else {
            Seq::<Seq<char>>::empty()
        };
        lemma_of_depth_concat(of_depth(fs.drop_last(), sep, m), tail, sep, d);
        if nesting_depth(fs.last(), sep) == m {
            assert(tail.drop_last() =~= Seq::<Seq<char>>::empty());
            assert(of_depth(Seq::<Seq<char>>::empty(), sep, d) == Seq::<Seq<char>>::empty());
            assert(tail.last() == fs.last());
            if d == m {
                assert(of_depth(tail, sep, d) =~= tail);
            } else {
                assert(of_depth(tail, sep, d) =~= Seq::<Seq<char>>::empty());
            }
        } else {
            assert(of_depth(tail, sep, d) == Seq::<Seq<char>>::empty());
        }
        assert(Seq::<Seq<char>>::empty() + Seq::<Seq<char>>::empty() =~= Seq::<Seq<char>>::empty());
        assert(of_depth(fs.drop_last(), sep, m) + Seq::<Seq<char>>::empty() =~= of_depth(
            fs.drop_last(),
            sep,
            m,
        ));
    }
}

/// Compile order is a stable sort by nesting depth: shallower files come
/// first, and the files of each depth keep their order among the input.
pub proof fn compile_order_is_stable_sort_by_depth(fs: Seq<Seq<char>>, sep: char)
    ensures
        forall|i: int, j: int|
            0 <= i <= j < compile_order_of(fs, sep).len() ==> nesting_depth(
                #[trigger] compile_order_of(fs, sep)[i],
                sep,
            ) <= nesting_depth(#[trigger] compile_order_of(fs, sep)[j], sep),
        forall|d: nat| #[trigger] of_depth(compile_order_of(fs, sep), sep, d) == of_depth(fs, sep, d),
{
    let n = max_depth(fs, sep) + 1;
    lemma_shallower_first_sorted(fs, sep, n);
    assert forall|d: nat| #[trigger] of_depth(compile_order_of(fs, sep), sep, d) == of_depth(fs, sep, d) by {
        lemma_shallower_first_classes(fs, sep, n, d);
        if d >= n {
            lemma_max_depth_bounds(fs, sep);
            lemma_of_depth_none_deeper(fs, sep, d);
        }
    }
}

/// No file of `fs` is deeper than `max_depth(fs, sep)`.
proof fn lemma_max_depth_bounds(fs: Seq<Seq<char>>, sep: char)
    ensures
        forall|i: int| 0 <= i < fs.len() ==> nesting_depth(#[trigger] fs[i], sep) <= max_depth(fs, sep),
    decreases fs.len(),
{
    if fs.len() > 0 {
        lemma_max_depth_bounds(fs.drop_last(), sep);
        assert forall|i: int| 0 <= i < fs.len() implies nesting_depth(#[trigger] fs[i], sep) <= max_depth(
            fs,
            sep,
        ) by {
            if i < fs.len() - 1 {
                assert(fs[i] == fs.drop_last()[i]);
            }
        }
    }
}

/// Where no file of `fs` has depth `d`, none is picked.
proof fn lemma_of_depth_none_deeper(fs: Seq<Seq<char>>, sep: char, d: nat)
    requires
        forall|i: int| 0 <= i < fs.len() ==> nesting_depth(#[trigger] fs[i], sep) < d,
    ensures
        of_depth(fs, sep, d) == Seq::<Seq<char>>::empty(),
    decreases fs.len(),
{
    if fs.len() > 0 {
        assert forall|i: int| 0 <= i < fs.drop_last().len() implies nesting_depth(
            #[trigger] fs.drop_last()[i],
            sep,
        ) < d by {
            assert(fs.drop_last()[i] == fs[i]);
        }
        lemma_of_depth_none_deeper(fs.drop_last(), sep, d);
        assert(fs.last() == fs[fs.len() - 1]);
        assert(Seq::<Seq<char>>::empty() + Seq::<Seq<char>>::empty() =~= Seq::<Seq<char>>::empty());
    }
}

/// The order in which `files` are compiled: by nesting depth (counting `/`
/// and `sep`), shallower first, stable among files of one depth.
pub fn compile_order(files: &Vec<String>, sep: char) -> (r: Vec<String>)
    ensures
        texts(r@) == compile_order_of(texts(files@), sep),
{
    let ghost fs = texts(files@);
    let mut depths: Vec<usize> = Vec::new();
    let mut max: usize = 0;
    let mut i: usize = 0;
    while i < files.len()
        invariant
            i <= files.len(),
            fs == texts(files@),
            depths.len() == i,
            forall|k: int| 0 <= k < i ==> depths@[k] == nesting_depth(#[trigger] fs[k], sep),
            max == max_depth(fs.subrange(0, i as int), sep),
        decreases files.len() - i,
    {
        let d = nesting_depth_with(files[i].as_str(), sep);
        assert(fs.subrange(0, i as int + 1).drop_last() =~= fs.subrange(0, i as int));
        assert(fs[i as int] == files@[i as int]@);
        depths.push(d);
        if d > max {
            max = d;
        }
        i = i + 1;
    }
    assert(fs.subrange(0, files.len() as int) =~= fs);
    let mut r: Vec<String> = Vec::new();
    let mut d: u128 = 0;
    while d <= max as u128
        invariant
            fs == texts(files@),
            depths.len() == files.len(),
            forall|k: int| 0 <= k < files.len() ==> depths@[k] == nesting_depth(#[trigger] fs[k], sep),
            max == max_depth(fs, sep),
            d <= max + 1,
            texts(r@) == shallower_first(fs, sep, d as nat),
        decreases max + 1 - d,
    {
        let ghost before = texts(r@);
        let mut j: usize = 0;
        while j < files.len()
            invariant
                fs == texts(files@),
                depths.len() == files.len(),
                forall|k: int| 0 <= k < files.len() ==> depths@[k] == nesting_depth(#[trigger] fs[k], sep),
                j <= files.len(),
                texts(r@) == before + of_depth(fs.subrange(0, j as int), sep, d as nat),
            decreases files.len() - j,
        {
            let ghost pre = texts(r@);
            assert(fs.subrange(0, j as int + 1).drop_last() =~= fs.subrange(0, j as int));
            assert(fs.subrange(0, j as int + 1).last() == fs[j as int]);
            assert(fs[j as int] == files@[j as int]@);
            if depths[j] as u128 == d {
                r.push(files[j].clone());
                assert(texts(r@) =~= pre + seq![fs[j as int]]);
            } else {
                assert(texts(r@) =~= pre + Seq::<Seq<char>>::empty());
            }
            assert(before + of_depth(fs.subrange(0, j as int), sep, d as nat) + (if nesting_depth(
                fs[j as int],
                sep,
            ) == d as nat {
                seq![fs[j as int]]
            } else {
                Seq::<Seq<char>>::empty()
            }) =~= before + of_depth(fs.subrange(0, j as int + 1), sep, d as nat));
            j = j + 1;
        }
        assert(fs.subrange(0, files.len() as int) =~= fs);
        d = d + 1;
    }
    r
}

/// Whether the walked path `path` is compiled: a file whose path ends with
/// `pattern` and, where declarations are skipped, not a `.d.ts` file.
pub open spec fn compile_selected(path: Seq<char>, is_file: bool, pattern: Seq<char>, skip_declarations: bool) -> bool {
    is_file && has_suffix(path, pattern) && !(skip_declarations && has_suffix(path, ".d.ts"@))
}

/// Only files whose path ends with the pattern are compiled; where
/// declarations are skipped no `.d.ts` file is, and where they are not,
/// every file ending with the pattern is. Skipping declarations only ever
/// removes files from what is compiled.
pub proof fn compile_selection_skips_declarations(path: Seq<char>, is_file: bool, pattern: Seq<char>)
    ensures
        compile_selected(path, is_file, pattern, true) ==> is_file && has_suffix(path, pattern),
        has_suffix(path, ".d.ts"@) ==> !compile_selected(path, is_file, pattern, true),
        compile_selected(path, is_file, pattern, false) <==> is_file && has_suffix(path, pattern),
        compile_selected(path, is_file, pattern, true) ==> compile_selected(path, is_file, pattern, false),
        !has_suffix(path, ".d.ts"@) ==> (compile_selected(path, is_file, pattern, true) <==> compile_selected(
            path,
            is_file,
            pattern,
            false,
        )),
{
}

/// Whether the walked path `path` is compiled: a file whose path ends with
/// `pattern`, and no declaration file where `skip_declarations` is set.
pub fn selected_for_compile(path: &str, is_file: bool, pattern: &str, skip_declarations: bool) -> (r: bool)
    ensures
        r == compile_selected(path@, is_file, pattern@, skip_declarations),
{
    if skip_declarations && ends_with_text(path, ".d.ts") {
        false
    } else {
        is_file && ends_with_text(path, pattern)
    }
}

/// The file that the compiled form of `file_path` is written to beside it:
/// the same path with the extension `js`.
pub fn js_output_path(file_path: &str) -> (r: String)
    ensures
        r@ == path_with_extension(file_path@, "js"@),
{
    proof {
        reveal_strlit("js");
    }
    with_extension_of(file_path, "js")
}

/// The file that the compiled form of `file` is written to below
/// `output_base`.
pub fn output_path_for(file: &str, input_base: &str, output_base: &str) -> (r: String)
    ensures
        r@ == output_path_in(file@, input_base@, output_base@),
{
    let rel = match strip_prefix_of(file, input_base) {
        Some(r) => r,
        None => owned(file),
    };
    let joined_path = join_path(output_base, rel.as_str());
    proof {
        reveal_strlit("js");
    }
    with_extension_of(joined_path.as_str(), "js")
}

impl Compiler {
    /// A compiler with the given configuration and no metrics yet.
    pub fn new(config: CompilerConfig) -> (r: Self)
        ensures
            r.config == config,
            r.outlook.count == 0,
            r.outlook.error == 0,
    {
        Compiler { config, outlook: CompilerMetrics { count: 0, elapsed: zero_duration(), error: 0 } }
    }

    /// The parser configuration derived from the compiler configuration.
    pub fn get_parser_config(&self) -> (r: ParserConfig)
        ensures
            (r.target@, r.jsx, r.decorators, r.typescript) == parser_config_of(self.config),
    {
        ParserConfig::new(self.config.Target.clone(), self.config.jsx(), true, true)
    }

    /// The transformer configuration derived from the compiler configuration.
    pub fn get_transformer_config(&self) -> (r: TransformerConfig)
        ensures
            (
                r.target@,
                r.module_format@,
                r.emit_decorator_metadata,
                r.use_define_for_class_fields,
                r.jsx,
                r.tree_shaking,
                r.minify,
            ) == transformer_config_of(self.config),
    {
        TransformerConfig::new(
            self.config.Target.clone(),
            self.config.module_format(),
            self.config.EmitDecoratorsMetadata,
            false,
            self.config.jsx(),
            self.config.TreeShaking,
            self.config.Minify,
        )
    }

    /// The code generation configuration derived from the compiler
    /// configuration: its minification, no source map and no comments.
    pub fn get_codegen_config(&self) -> (r: CodegenConfig)
        ensures
            r.minify == self.config.Minify,
            !r.source_map,
            r.source_map_name@ == Seq::<char>::empty(),
            !r.comments,
    {
        CodegenConfig::new(self.config.Minify, false, String::new(), false)
    }

    /// Compiles `input`, the source of the file `file_path`, to JavaScript,
    /// with class fields defined (`use_define_for_class_fields`) or
    /// assigned: parse, transform, then print. Fails at the parse exactly
    /// when the parser reports diagnostics, at the transform exactly when
    /// the semantic analysis or the transform reports some, and carries
    /// them; otherwise gives the printed program.
    pub fn compile_to_code(&self, file_path: &str, input: &str, use_define_for_class_fields: bool) -> (r:
        Result<CodegenResult, CompileError>)
        ensures
            r matches Err(CompileError::Parse(es)) <==> parse_errors_of(file_path@, input@).len() > 0,
            r matches Err(CompileError::Parse(es)) ==> texts(es@) == parse_errors_of(file_path@, input@),
            r matches Err(CompileError::Transform(es)) <==> (parse_errors_of(file_path@, input@).len() == 0
                && compile_transform_errors(file_path@, input@, self.config, use_define_for_class_fields).len()
                > 0),
            r matches Err(CompileError::Transform(es)) ==> texts(es@) == compile_transform_errors(
                file_path@,
                input@,
                self.config,
                use_define_for_class_fields,
            ),
            r matches Ok(c) ==> c.code@ == compiled_code(
                file_path@,
                input@,
                self.config,
                use_define_for_class_fields,
            ) && c.code_len == utf8_len(c.code@),
            !(r matches Err(CompileError::Codegen(_))),
    {
        let parser_config = self.get_parser_config();
        let allocator = new_allocator();
        let mut program = match parse(&allocator, input, file_path, &parser_config) {
            Ok(p) => p,
            Err(es) => return Err(CompileError::Parse(es)),
        };
        let mut transformer_config = self.get_transformer_config();
        transformer_config.use_define_for_class_fields = use_define_for_class_fields;
        let kind = determine_source_type(file_path, &parser_config);
        match transform(&allocator, &mut program, file_path, kind, &transformer_config) {
            Ok(()) => {},
            Err(es) => return Err(CompileError::Transform(es)),
        }
        let codegen_config = self.get_codegen_config();
        match codegen(&allocator, &program, kind, &codegen_config) {
            Ok(c) => Ok(c),
            Err(e) => Err(CompileError::Codegen(e)),
        }
    }

    /// Records one compiled file that took `elapsed`.
    pub fn record_compiled(&mut self, elapsed: Duration)
        requires
            old(self).outlook.count < usize::MAX,
        ensures
            final(self).outlook.count == old(self).outlook.count + 1,
            final(self).outlook.error == old(self).outlook.error,
            final(self).config == old(self).config,
    {
        self.outlook.count = self.outlook.count + 1;
        let total = duration_sum(self.outlook.elapsed, elapsed);
        self.outlook.elapsed = total;
    }

    /// Records the outcome of compiling one file that took `elapsed`: a
    /// success counts as a compiled file and adds its time, a failure
    /// counts as an error.
    pub fn record_result<T, E>(&mut self, result: &Result<T, E>, elapsed: Duration)
        requires
            old(self).outlook.count < usize::MAX,
            old(self).outlook.error < usize::MAX,
        ensures
            result is Ok ==> final(self).outlook.count == old(self).outlook.count + 1
                && final(self).outlook.error == old(self).outlook.error,
            result is Err ==> final(self).outlook.error == old(self).outlook.error + 1
                && final(self).outlook.count == old(self).outlook.count && final(self).outlook.elapsed
                == old(self).outlook.elapsed,
            final(self).config == old(self).config,
    {
        match result {
            Ok(_) => self.record_compiled(elapsed),
            Err(_) => self.record_failed(),
        }
    }

    /// Records one file whose compilation failed.
    pub fn record_failed(&mut self)
        requires
            old(self).outlook.error < usize::MAX,
        ensures
            final(self).outlook.error == old(self).outlook.error + 1,
            final(self).outlook.count == old(self).outlook.count,
            final(self).outlook.elapsed == old(self).outlook.elapsed,
            final(self).config == old(self).config,
    {
        self.outlook.error = self.outlook.error + 1;
    }
}

} // verus!
