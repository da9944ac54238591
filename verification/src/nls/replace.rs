//! NLS key replacement: the first `localize('key', ...)` call of a source
//! names a key; every `nls.localize('key'...)` call is then replaced by the
//! key's translation.
use vstd::prelude::*;

use crate::pattern::{
    compile_pattern, escape_text, regex_accepts, regex_captures_first, regex_escaped,
    regex_replaced_all, CompiledPattern,
};
use crate::strmap::{lookup, Pair, StrMap};
use crate::text::{has_prefix, has_suffix, owned, push_text};

verus! {

/// Matches a `localize(` call and captures its key.
pub const KEY_PATTERN: &'static str = r#"(?:nls\.)?localize\s*\(\s*['"]([^'"]+)['"]"#;

/// Matches a `localize2(` call and captures its key.
pub const KEY2_PATTERN: &'static str = r#"(?:nls\.)?localize2\s*\(\s*['"]([^'"]+)['"]"#;

/// What an `nls.localize` call of the key that `escaped` escapes looks like.
pub open spec fn call_pattern(escaped: Seq<char>) -> Seq<char> {
    r#"nls.localize\s*\(\s*['"]"#@ + escaped + r#".*?\)"#@
}

/// What replaces a call of `key`: the quoted translation, after a comment
/// naming the call where calls are preserved.
pub open spec fn replacement(key: Seq<char>, value: Seq<char>, preserve: bool) -> Seq<char> {
    if preserve {
        "/* localize('"@ + key + "') */ '"@ + value + "'"@
    } else {
        "'"@ + value + "'"@
    }
}

/// What replaces a call is the translation as one complete single-quoted
/// string literal: one quote, the translation, one quote. Where calls are
/// preserved, that same literal ends the replacement, after a comment that
/// begins with `/*`, ends with `*/ ` and names the call of the key.
pub proof fn replacement_is_quoted_translation(key: Seq<char>, value: Seq<char>)
    ensures
        replacement(key, value, false).len() == value.len() + 2,
        replacement(key, value, false)[0] == '\'',
        replacement(key, value, false).last() == '\'',
        replacement(key, value, false).subrange(1, value.len() as int + 1) == value,
        has_suffix(replacement(key, value, true), replacement(key, value, false)),
        has_prefix(replacement(key, value, true), "/* localize('"@ + key + "')"@),
        replacement(key, value, true).len() == key.len() + value.len() + 21,
{
    reveal_strlit("'");
    reveal_strlit("/* localize('");
    reveal_strlit("') */ '");
    reveal_strlit("')");
    let q = "'"@;
    let plain = q + value + q;
    assert(plain.subrange(1, value.len() as int + 1) =~= value);
    let head = "/* localize('"@ + key + "') */ '"@;
    let full = head + value + q;
    assert(full =~= ("/* localize('"@ + key + "') */ "@) + plain) by {
        reveal_strlit("') */ ");
        assert("') */ '"@ =~= "') */ "@ + q);
    }
    assert(full.subrange(full.len() - plain.len(), full.len() as int) =~= plain);
    assert(full.subrange(0, ("/* localize('"@ + key + "')"@).len() as int) =~= "/* localize('"@ + key
        + "')"@);
}

/// `source` after the replacement: where the key pattern `pat` compiled and
/// its first match in `source` names a key that `bundle` translates, every
/// call of that key replaced by the translation; otherwise `source` as is.
pub open spec fn nls_replaced(
    bundle: Seq<Pair>,
    preserve: bool,
    pat: Option<Seq<char>>,
    source: Seq<char>,
) -> Seq<char> {
    match pat {
        None => source,
        Some(p) => match regex_captures_first(p, source) {
            None => source,
            Some(g) => if g.len() > 1 && g[1] is Some {
                let key = g[1]->0;
                match lookup(bundle, key) {
                    None => source,
                    Some(v) => {
                        let cp = call_pattern(regex_escaped(key));
                        if regex_accepts(cp) {
                            regex_replaced_all(cp, source, replacement(key, v, preserve))
                        } else {
                            source
                        }
                    },
                }
            } else {
                source
            },
        },
    }
}

/// With no translations, replacement leaves every source as it is.
pub proof fn no_translations_change_nothing(preserve: bool, pat: Option<Seq<char>>, source: Seq<char>)
    ensures
        nls_replaced(Seq::<Pair>::empty(), preserve, pat, source) == source,
{
}

/// The pattern for the calls of the key that `escaped` escapes.
pub fn call_pattern_for(escaped: &str) -> (r: String)
    ensures
        r@ == call_pattern(escaped@),
{
    let mut r = owned(r#"nls.localize\s*\(\s*['"]"#);
    push_text(&mut r, escaped);
    push_text(&mut r, r#".*?\)"#);
    r
}

/// The text that replaces a call of `key`.
pub fn replacement_for(key: &str, value: &str, preserve: bool) -> (r: String)
    ensures
        r@ == replacement(key@, value@, preserve),
{
    if preserve {
        let mut r = owned("/* localize('");
        push_text(&mut r, key);
        push_text(&mut r, "') */ '");
        push_text(&mut r, value);
        push_text(&mut r, "'");
        r
    } else {
        let mut r = owned("'");
        push_text(&mut r, value);
        push_text(&mut r, "'");
        r
    }
}

/// Replaces NLS localization calls with their translations.
#[derive(Debug)]
pub struct NLSReplacer {
    bundle: StrMap,
    preserve_calls: bool,
    localize_pattern: Option<CompiledPattern>,
    localize2_pattern: Option<CompiledPattern>,
}

impl NLSReplacer {
    /// The translations.
    pub closed spec fn translations(&self) -> Seq<Pair> {
        self.bundle@
    }

    /// Whether the call structure is kept in a comment.
    pub closed spec fn preserves(&self) -> bool {
        self.preserve_calls
    }

    /// The key pattern, where it compiled.
    pub closed spec fn key_pattern(&self) -> Option<Seq<char>> {
        match self.localize_pattern {
            Some(p) => Some(p@),
            None => None,
        }
    }

    /// A replacer for the translations `bundle`, calls not preserved.
    pub fn new(bundle: StrMap) -> (r: Self)
        ensures
            r.translations() == bundle@,
            !r.preserves(),
            r.key_pattern() == if regex_accepts(KEY_PATTERN@) {
                Some(KEY_PATTERN@)
            } else {
                None
            },
    {
        let localize_pattern = match compile_pattern(KEY_PATTERN) {
            Ok(p) => Some(p),
            Err(_) => None,
        };
        let localize2_pattern = match compile_pattern(KEY2_PATTERN) {
            Ok(p) => Some(p),
            Err(_) => None,
        };
        NLSReplacer { bundle, preserve_calls: false, localize_pattern, localize2_pattern }
    }

    /// The replacer, with calls preserved in a comment or not.
    pub fn with_preserve_calls(self, preserve: bool) -> (r: Self)
        ensures
            r.translations() == self.translations(),
            r.preserves() == preserve,
            r.key_pattern() == self.key_pattern(),
    {
        let mut r = self;
        r.preserve_calls = preserve;
        r
    }

    /// Whether calls are preserved in a comment.
    pub fn preserve_calls(&self) -> (r: bool)
        ensures
            r == self.preserves(),
    {
        self.preserve_calls
    }

    /// `source` with the calls of its first localized key replaced by the
    /// translation of that key.
    pub fn replace(&self, source: &str) -> (r: String)
        ensures
            r@ == nls_replaced(self.translations(), self.preserves(), self.key_pattern(), source@),
    {
        let p = match &self.localize_pattern {
            Some(p) => p,
            None => return owned(source),
        };
        let g = match p.captures_first(source) {
            Some(g) => g,
            None => return owned(source),
        };
        if g.len() <= 1 {
            return owned(source);
        }
        let key = match &g[1] {
            Some(k) => k,
            None => return owned(source),
        };
        let value = match self.bundle.get(key.as_str()) {
            Some(v) => v,
            None => return owned(source),
        };
        let escaped = escape_text(key.as_str());
        let cp = call_pattern_for(escaped.as_str());
        match compile_pattern(cp.as_str()) {
            Ok(re) => {
                let rep = replacement_for(key.as_str(), value.as_str(), self.preserve_calls);
                re.replace_all(source, rep.as_str())
            },
            Err(_) => owned(source),
        }
    }
}

/// `source` with the calls of its first localized key replaced by the
/// translation that `bundle` gives that key.
pub fn replace_nls_keys(source: &str, bundle: &StrMap) -> (r: String)
    ensures
        r@ == nls_replaced(
            bundle@,
            false,
            if regex_accepts(KEY_PATTERN@) {
                Some(KEY_PATTERN@)
            } else {
                None
            },
            source@,
        ),
{
    let replacer = NLSReplacer::new(bundle.copy());
    replacer.replace(source)
}

} // verus!
