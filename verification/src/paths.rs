//! Path components, as `std::path::Path` computes them on Unix-style paths
//! held in strings.
use vstd::prelude::*;

use crate::text::{chars_of, has_prefix, has_suffix, has_sub, push_char, push_text};

verus! {

broadcast use vstd::string::group_string_axioms;

/// The final component of the path `p`, as `Path::file_name` gives it.
pub uninterp spec fn path_file_name(p: Seq<char>) -> Option<Seq<char>>;

/// The last index of `c` in `s`, or `-1`.
pub open spec fn last_index_of(s: Seq<char>, c: char) -> int
    decreases s.len(),
{
    if s.len() == 0 {
        -1
    } else if s.last() == c {
        s.len() - 1
    } else {
        last_index_of(s.drop_last(), c)
    }
}

/// The stem of a file name, as `Path::file_stem` documents it: the whole
/// name when it holds no `.` other than a leading one, and otherwise the
/// part before the final `.`.
pub open spec fn stem_of(name: Seq<char>) -> Seq<char> {
    let d = last_index_of(name, '.');
    if d <= 0 {
        name
    } else {
        name.subrange(0, d)
    }
}

/// `base` joined with the relative path `rel`, as `Path::join` does it: a
/// separator goes between them unless `base` is empty or already ends in
/// one; an absolute `rel` replaces `base`.
pub open spec fn joined(base: Seq<char>, rel: Seq<char>) -> Seq<char> {
    if has_prefix(rel, seq!['/']) || base.len() == 0 {
        rel
    } else if has_suffix(base, seq!['/']) {
        base + rel
    } else {
        base + seq!['/'] + rel
    }
}

/// The final component of `p` (`Path::file_name`).
#[verifier::external_body]
pub(crate) fn file_name_of(p: &str) -> (r: Option<String>)
    ensures
        r matches Some(n) ==> path_file_name(p@) == Some(n@) && !has_sub(n@, seq!['/']),
        r is None ==> path_file_name(p@) is None,
{
    std::path::Path::new(p).file_name().map(|n| n.to_string_lossy().into_owned())
}

/// The stem of the final component of `p` (`Path::file_stem`).
#[verifier::external_body]
pub(crate) fn file_stem_of(p: &str) -> (r: Option<String>)
    ensures
        r matches Some(n) ==> path_file_name(p@) matches Some(f) && n@ == stem_of(f),
        r is None ==> path_file_name(p@) is None,
{
    std::path::Path::new(p).file_stem().map(|n| n.to_string_lossy().into_owned())
}

/// The path `p` with the extension of its final component set to `ext`,
/// as `Path::with_extension` computes it.
pub uninterp spec fn path_with_extension(p: Seq<char>, ext: Seq<char>) -> Seq<char>;

/// The path `p` relative to `base`, as `Path::strip_prefix` computes it;
/// none where `base` is not a prefix of `p` by whole components.
pub uninterp spec fn path_relative_to(p: Seq<char>, base: Seq<char>) -> Option<Seq<char>>;

/// `p` with the extension `ext` (`Path::with_extension`), for an `ext`
/// that holds no path separator (`Path::with_extension` panics on one).
#[verifier::external_body]
pub(crate) fn with_extension_of(p: &str, ext: &str) -> (r: String)
    requires
        !ext@.contains('/'),
        !ext@.contains('\\'),
    ensures
        r@ == path_with_extension(p@, ext@),
{
    std::path::Path::new(p).with_extension(ext).to_string_lossy().into_owned()
}

/// `p` relative to `base` (`Path::strip_prefix`).
#[verifier::external_body]
pub(crate) fn strip_prefix_of(p: &str, base: &str) -> (r: Option<String>)
    ensures
        r matches Some(t) ==> path_relative_to(p@, base@) == Some(t@),
        r is None ==> path_relative_to(p@, base@) is None,
{
    std::path::Path::new(p).strip_prefix(base).ok().map(|t| t.to_string_lossy().into_owned())
}

/// `base` joined with `rel` (`Path::join`, then `to_string_lossy`).
pub fn join_path(base: &str, rel: &str) -> (r: String)
    ensures
        r@ == joined(base@, rel@),
{
    let bv = chars_of(base);
    let rv = chars_of(rel);
    if rv.len() > 0 && rv[0] == '/' {
        assert(rel@.subrange(0, 1) =~= seq!['/']);
        return crate::text::owned(rel);
    }
    assert(!has_prefix(rel@, seq!['/'])) by {
        if rel@.len() > 0 {
            assert(rel@.subrange(0, 1)[0] == rel@[0]);
        }
    }
    if bv.len() == 0 {
        return crate::text::owned(rel);
    }
    let mut r = crate::text::owned(base);
    if bv[bv.len() - 1] == '/' {
        assert(base@.subrange(base@.len() - 1, base@.len() as int) =~= seq!['/']);
    } else {
        assert(!has_suffix(base@, seq!['/'])) by {
            assert(base@.subrange(base@.len() - 1, base@.len() as int)[0] == base@.last());
        }
        push_char(&mut r, '/');
    }
    push_text(&mut r, rel);
    r
}

} // verus!
