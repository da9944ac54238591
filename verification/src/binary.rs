//! The command line's decisions: which walked paths are kept as entries,
//! which entries become build targets, and the compiler configuration that
//! the `compile` subcommand builds from its arguments.
use globset::{Glob, GlobSet};

use vstd::prelude::*;

use crate::swc::{format_named, lowercased, CompilerConfig, ModuleFormat};
use crate::text::{chars_of, contains_text, has_sub, pieces, push_char, push_text, split_chars, text_of, texts, views};

verus! {

broadcast use vstd::string::group_string_axioms;

#[verifier::external_type_specification]
#[verifier::external_body]
pub struct ExGlobSet(GlobSet);

#[verifier::external_type_specification]
#[verifier::external_body]
pub struct ExGlobError(globset::Error);

/// Whether `globset` accepts `pattern` as a glob and builds its matcher
/// (`Glob::new`, then `GlobSet::new` on that glob, return `Ok`).
pub uninterp spec fn glob_valid(pattern: Seq<char>) -> bool;

/// Whether the glob `pattern` matches `path` (`GlobSet::is_match` on the
/// set of that one glob).
pub uninterp spec fn glob_matches(pattern: Seq<char>, path: Seq<char>) -> bool;

/// A compiled glob together with the pattern it came from.
pub struct GlobPattern {
    source: String,
    set: GlobSet,
}

impl View for GlobPattern {
    type V = Seq<char>;

    /// The pattern that was compiled.
    closed spec fn view(&self) -> Seq<char> {
        self.source@
    }
}

/// The longest glob, in characters, that is compiled. A longer glob's regex
/// is far over the size limit that `globset` compiles matchers under, and
/// the bound keeps its literal automata within their state identifiers.
pub const GLOB_MAX_LEN: usize = 0x1000_0000;

/// Compiles `pattern` into a matcher (`Glob::new`, then `GlobSet::new` on
/// that one glob, which reports a regex over its size limit as an error);
/// the error where `globset` refuses either step.
#[verifier::external_body]
pub(crate) fn compile_glob(pattern: &str) -> (r: Result<GlobPattern, globset::Error>)
    requires
        pattern@.len() <= GLOB_MAX_LEN,
    ensures
        r is Ok <==> glob_valid(pattern@),
        r matches Ok(g) ==> g@ == pattern@,
{
    match Glob::new(pattern) {
        Ok(g) => match GlobSet::new([g]) {
            Ok(set) => Ok(GlobPattern { source: pattern.to_string(), set }),
            Err(e) => Err(e),
        },
        Err(e) => Err(e),
    }
}

impl GlobPattern {
    /// Whether the glob matches `path` (`GlobSet::is_match`).
    #[verifier::external_body]
    pub(crate) fn matches(&self, path: &str) -> (r: bool)
        ensures
            r == glob_matches(self@, path@),
    {
        self.set.is_match(path)
    }
}

/// The glob `pattern` compiled, or `None` where `globset` refuses it. A
/// glob longer than `GLOB_MAX_LEN` characters is left out: its regex is far
/// over the size limit that `Glob::compile_matcher` compiles under, which
/// panics there.
pub fn glob_of(pattern: &str) -> (r: Option<GlobPattern>)
    requires
        pattern@.len() <= GLOB_MAX_LEN,
    ensures
        r is Some <==> glob_valid(pattern@),
        r matches Some(g) ==> g@ == pattern@,
{
    match compile_glob(pattern) {
        Ok(g) => Some(g),
        Err(_) => None,
    }
}

/// Whether the glob `g` matches `path`.
pub fn glob_is_match(g: &GlobPattern, path: &str) -> (r: bool)
    ensures
        r == glob_matches(g@, path@),
{
    g.matches(path)
}

/// Whether the walked path `path` is excluded: some exclusion other than
/// the search pattern itself occurs in it.
pub open spec fn excluded(path: Seq<char>, excludes: Seq<Seq<char>>, pattern: Seq<char>) -> bool {
    exists|i: int| 0 <= i < excludes.len() && excludes[i] != pattern && has_sub(path, #[trigger] excludes[i])
}

/// `parts` joined with `sep` between each two (`[String]::join`).
pub open spec fn joined_with(parts: Seq<Seq<char>>, sep: char) -> Seq<char>
    decreases parts.len(),
{
    if parts.len() == 0 {
        seq![]
    } else if parts.len() == 1 {
        parts[0]
    } else {
        joined_with(parts.drop_last(), sep) + seq![sep] + parts.last()
    }
}

/// The build target that the entry `e` names in a sequential run: the
/// directory above it, where its last component is exactly `pattern`.
pub open spec fn sequential_target_of(e: Seq<Seq<char>>, pattern: Seq<char>, sep: char) -> Option<
    Seq<char>,
> {
    if e.len() > 0 && e.last() == pattern {
        Some(joined_with(e.drop_last(), sep))
    } else {
        None
    }
}

/// The build targets of `es` in a sequential run, in order.
pub open spec fn sequential_targets_of(es: Seq<Seq<Seq<char>>>, pattern: Seq<char>, sep: char) -> Seq<
    Seq<char>,
>
    decreases es.len(),
{
    if es.len() == 0 {
        seq![]
    } else {
        sequential_targets_of(es.drop_last(), pattern, sep) + match sequential_target_of(
            es.last(),
            pattern,
            sep,
        ) {
            Some(t) => seq![t],
            None => seq![],
        }
    }
}

/// The build target that the nonempty entry `e` names in a parallel run:
/// the directory above it, where the glob `pattern` matches its whole path.
pub open spec fn parallel_target_of(e: Seq<Seq<char>>, pattern: Seq<char>, sep: char) -> Option<
    Seq<char>,
> {
    if glob_matches(pattern, joined_with(e, sep)) {
        Some(joined_with(e.drop_last(), sep))
    } else {
        None
    }
}

/// The views of a sequence of entries.
pub open spec fn entry_views(es: Seq<Vec<String>>) -> Seq<Seq<Seq<char>>> {
    es.map_values(|e: Vec<String>| texts(e@))
}

/// Whether some exclusion other than `pattern` occurs in `path`.
pub fn is_excluded(path: &str, excludes: &Vec<String>, pattern: &str) -> (r: bool)
    ensures
        r == excluded(path@, texts(excludes@), pattern@),
{
    let mut i: usize = 0;
    while i < excludes.len()
        invariant
            i <= excludes.len(),
            forall|j: int|
                0 <= j < i ==> !(excludes@[j]@ != pattern@ && has_sub(path@, #[trigger] excludes@[j]@)),
        decreases excludes.len() - i,
    {
        let e = excludes[i].as_str();
        if !crate::text::same_text(e, pattern) && contains_text(path, e) {
            assert(texts(excludes@)[i as int] == excludes@[i as int]@);
            return true;
        }
        i = i + 1;
    }
    proof {
        assert forall|j: int|
            0 <= j < texts(excludes@).len() implies !(texts(excludes@)[j] != pattern@ && has_sub(
            path@,
            #[trigger] texts(excludes@)[j],
        )) by {
            assert(texts(excludes@)[j] == excludes@[j]@);
        }
    }
    false
}

/// `s` split at every `c` (`str::split`), each piece owned.
pub fn split_text(s: &str, c: char) -> (r: Vec<String>)
    ensures
        texts(r@) == pieces(s@, c),
{
    let cs = chars_of(s);
    let ps = split_chars(&cs, c);
    let mut r: Vec<String> = Vec::new();
    let mut i: usize = 0;
    while i < ps.len()
        invariant
            i <= ps.len(),
            views(ps@) == pieces(s@, c),
            texts(r@) == views(ps@).subrange(0, i as int),
        decreases ps.len() - i,
    {
        let t = text_of(&ps[i]);
        let ghost before = r@;
        r.push(t);
        assert(texts(r@) =~= texts(before).push(t@));
        assert(views(ps@).subrange(0, i as int + 1) =~= views(ps@).subrange(0, i as int).push(
            ps@[i as int]@,
        ));
        i = i + 1;
    }
    assert(views(ps@).subrange(0, ps.len() as int) =~= views(ps@));
    r
}

/// The entry for the walked path `path`: its components split at
/// `separator`, or `None` where an exclusion other than the pattern occurs
/// in it.
pub fn entry_of(path: &str, excludes: &Vec<String>, pattern: &str, separator: char) -> (r: Option<
    Vec<String>,
>)
    ensures
        r is None <==> excluded(path@, texts(excludes@), pattern@),
        r matches Some(cs) ==> texts(cs@) == pieces(path@, separator),
{
    if is_excluded(path, excludes, pattern) {
        None
    } else {
        Some(split_text(path, separator))
    }
}

/// The first `upto` of `parts` joined with `sep` between each two.
pub fn join_parts(parts: &Vec<String>, upto: usize, sep: char) -> (r: String)
    requires
        upto <= parts.len(),
    ensures
        r@ == joined_with(texts(parts@.subrange(0, upto as int)), sep),
{
    let mut r = String::new();
    let mut i: usize = 0;
    while i < upto
        invariant
            i <= upto <= parts.len(),
            r@ == joined_with(texts(parts@.subrange(0, i as int)), sep),
        decreases upto - i,
    {
        let ghost prev = texts(parts@.subrange(0, i as int));
        let ghost next = texts(parts@.subrange(0, i as int + 1));
        assert(next.drop_last() =~= prev);
        assert(next.last() == parts@[i as int]@);
        if i > 0 {
            push_char(&mut r, sep);
        } else {
            assert(prev =~= Seq::<Seq<char>>::empty());
            assert(r@ =~= seq![]);
        }
        push_text(&mut r, parts[i].as_str());
        i = i + 1;
    }
    r
}

/// The build target of `entry` in a sequential run: the directory above
/// it where its last component is exactly `pattern`.
pub fn sequential_target(entry: &Vec<String>, pattern: &str, separator: char) -> (r: Option<String>)
    ensures
        r matches Some(t) ==> sequential_target_of(texts(entry@), pattern@, separator) == Some(t@),
        r is None ==> sequential_target_of(texts(entry@), pattern@, separator) is None,
{
    let n = entry.len();
    if n > 0 && crate::text::same_text(entry[n - 1].as_str(), pattern) {
        let t = join_parts(entry, n - 1, separator);
        assert(texts(entry@.subrange(0, n - 1)) =~= texts(entry@).drop_last());
        Some(t)
    } else {
        None
    }
}

/// The build targets of `entries` in a sequential run, in order.
pub fn sequential_targets(entries: &Vec<Vec<String>>, pattern: &str, separator: char) -> (r: Vec<String>)
    ensures
        texts(r@) == sequential_targets_of(entry_views(entries@), pattern@, separator),
{
    let mut r: Vec<String> = Vec::new();
    let mut i: usize = 0;
    while i < entries.len()
        invariant
            i <= entries.len(),
            texts(r@) == sequential_targets_of(entry_views(entries@.subrange(0, i as int)), pattern@, separator),
        decreases entries.len() - i,
    {
        let ghost es = entry_views(entries@.subrange(0, i as int + 1));
        assert(es.drop_last() =~= entry_views(entries@.subrange(0, i as int)));
        assert(es.last() == texts(entries@[i as int]@));
        let ghost before = r@;
        match sequential_target(&entries[i], pattern, separator) {
            Some(t) => {
                r.push(t);
                assert(texts(r@) =~= texts(before) + seq![t@]);
            },
            None => {
                assert(texts(r@) =~= texts(before) + Seq::<Seq<char>>::empty());
            },
        }
        i = i + 1;
    }
    assert(entries@.subrange(0, entries.len() as int) =~= entries@);
    r
}

/// The build target of the nonempty `entry` in a parallel run: the
/// directory above it where the glob matches its whole path.
pub fn parallel_target(glob: &GlobPattern, entry: &Vec<String>, separator: char) -> (r: Option<String>)
    requires
        entry.len() > 0,
    ensures
        r matches Some(t) ==> parallel_target_of(texts(entry@), glob@, separator) == Some(t@),
        r is None ==> parallel_target_of(texts(entry@), glob@, separator) is None,
{
    let n = entry.len();
    let whole = join_parts(entry, n, separator);
    assert(entry@.subrange(0, n as int) =~= entry@);
    if glob.matches(whole.as_str()) {
        let t = join_parts(entry, n - 1, separator);
        assert(texts(entry@.subrange(0, n - 1)) =~= texts(entry@).drop_last());
        Some(t)
    } else {
        None
    }
}

/// The compiler configuration that the `compile` subcommand builds from its
/// target and module arguments: strict, with decorator metadata and
/// tree-shaking, unminified, its format read from the module name.
pub fn compile_command_config(target: String, module: String) -> (r: CompilerConfig)
    ensures
        r.Target == target,
        r.Module == module,
        r.Strict,
        r.EmitDecoratorsMetadata,
        r.TreeShaking,
        !r.Minify,
        r.ModuleFormat == format_named(lowercased(module@)),
{
    let format = ModuleFormat::from_str(module.as_str());
    CompilerConfig {
        Target: target,
        Module: module,
        Strict: true,
        EmitDecoratorsMetadata: true,
        TreeShaking: true,
        Minify: false,
        ModuleFormat: format,
    }
}

} // verus!
