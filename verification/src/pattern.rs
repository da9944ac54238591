//! Regular expressions, through the `regex` crate. What a regular expression
//! matches is named, not restated: the names below stand for what `regex`
//! computes, and the functions here are the only places that call it.
use regex::Regex;

use vstd::prelude::*;

verus! {

#[verifier::external_type_specification]
#[verifier::external_body]
pub struct ExRegex(Regex);

#[verifier::external_type_specification]
#[verifier::external_body]
pub struct ExRegexError(regex::Error);

/// Whether `Regex::new` accepts `pattern`.
pub uninterp spec fn regex_accepts(pattern: Seq<char>) -> bool;

/// The capture groups of every successive non-overlapping match of
/// `pattern` in `hay` (`Regex::captures_iter`): for each match, the text of
/// each group, or none for a group that took no part in the match.
pub uninterp spec fn regex_captures_all(pattern: Seq<char>, hay: Seq<char>) -> Seq<
    Seq<Option<Seq<char>>>,
>;

/// The capture groups of the leftmost-first match of `pattern` in `hay`
/// (`Regex::captures`), or none where there is no match.
pub uninterp spec fn regex_captures_first(pattern: Seq<char>, hay: Seq<char>) -> Option<
    Seq<Option<Seq<char>>>,
>;

/// `hay` with every non-overlapping match of `pattern` replaced by `rep`,
/// with `$` references in `rep` expanded (`Regex::replace_all`).
pub uninterp spec fn regex_replaced_all(pattern: Seq<char>, hay: Seq<char>, rep: Seq<char>) -> Seq<
    char,
>;

/// `text` with every regular expression meta character escaped
/// (`regex::escape`).
pub uninterp spec fn regex_escaped(text: Seq<char>) -> Seq<char>;

/// The texts of the groups of one match.
pub open spec fn group_texts(g: Seq<Option<String>>) -> Seq<Option<Seq<char>>> {
    g.map_values(
        |o: Option<String>|
            match o {
                Some(s) => Some(s@),
                None => None,
            },
    )
}

/// The texts of the groups of each match.
pub open spec fn match_texts(ms: Seq<Vec<Option<String>>>) -> Seq<Seq<Option<Seq<char>>>> {
    ms.map_values(|g: Vec<Option<String>>| group_texts(g@))
}

/// A compiled regular expression together with the pattern it came from.
#[derive(Debug)]
pub struct CompiledPattern {
    source: String,
    re: Regex,
}

impl View for CompiledPattern {
    type V = Seq<char>;

    /// The pattern that was compiled.
    closed spec fn view(&self) -> Seq<char> {
        self.source@
    }
}

/// Compiles `pattern` (`Regex::new`).
#[verifier::external_body]
pub(crate) fn compile_pattern(pattern: &str) -> (r: Result<CompiledPattern, regex::Error>)
    ensures
        r is Ok <==> regex_accepts(pattern@),
        r matches Ok(p) ==> p@ == pattern@,
{
    match Regex::new(pattern) {
        Ok(re) => Ok(CompiledPattern { source: pattern.to_string(), re }),
        Err(e) => Err(e),
    }
}

/// Escapes the meta characters of `text` (`regex::escape`).
#[verifier::external_body]
pub(crate) fn escape_text(text: &str) -> (r: String)
    ensures
        r@ == regex_escaped(text@),
{
    regex::escape(text)
}

impl CompiledPattern {
    /// The capture groups of every match in `hay` (`Regex::captures_iter`).
    #[verifier::external_body]
    pub(crate) fn captures_all(&self, hay: &str) -> (r: Vec<Vec<Option<String>>>)
        ensures
            match_texts(r@) == regex_captures_all(self@, hay@),
    {
        self.re.captures_iter(hay).map(
            |c| c.iter().map(|m| m.map(|m| m.as_str().to_string())).collect(),
        ).collect()
    }

    /// The capture groups of the first match in `hay` (`Regex::captures`).
    #[verifier::external_body]
    pub(crate) fn captures_first(&self, hay: &str) -> (r: Option<Vec<Option<String>>>)
        ensures
            r matches Some(g) ==> regex_captures_first(self@, hay@) == Some(group_texts(g@)),
            r is None ==> regex_captures_first(self@, hay@) is None,
    {
        self.re.captures(hay).map(|c| c.iter().map(|m| m.map(|m| m.as_str().to_string())).collect())
    }

    /// `hay` with every match replaced by `rep` (`Regex::replace_all`).
    #[verifier::external_body]
    pub(crate) fn replace_all(&self, hay: &str, rep: &str) -> (r: String)
        ensures
            r@ == regex_replaced_all(self@, hay@, rep@),
    {
        self.re.replace_all(hay, rep).into_owned()
    }
}

} // verus!
