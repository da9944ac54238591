//! NLS key extraction: `localize('key', 'value')` and
//! `localize2('key', 'value', 'value2')` calls, with or without an `nls.`
//! qualifier, give the key and its first value.
use vstd::prelude::*;

use crate::pattern::{compile_pattern, match_texts, regex_accepts, regex_captures_all, CompiledPattern};
use crate::strmap::{
    insert_if_absent_keeps_first, lemma_key_index, lookup, with_pair_if_absent, Pair, StrMap,
};
use crate::text::owned;

verus! {

/// Matches `nls.localize('key', 'value')` or `localize('key', 'value')`.
pub const LOCALIZE_PATTERN: &'static str = r#"(?:nls\.)?localize\s*\(\s*['"]([^'"]+)['"]\s*,\s*['"]([^'"]*)['"]\s*\)"#;

/// Matches `nls.localize2('key', 'v1', 'v2')`.
pub const LOCALIZE2_PATTERN: &'static str = r#"(?:nls\.)?localize2\s*\(\s*['"]([^'"]+)['"]\s*,\s*['"]([^'"]*)['"]\s*,\s*['"]([^'"]*)['"]\s*\)"#;

/// `ps` after each match of `ms` whose first and second groups both matched
/// gave its first group, as a key, the second group, as a value, unless the
/// key already had one.
pub open spec fn absorbed(ps: Seq<Pair>, ms: Seq<Seq<Option<Seq<char>>>>) -> Seq<Pair>
    decreases ms.len(),
{
    if ms.len() == 0 {
        ps
    } else {
        let before = absorbed(ps, ms.drop_last());
        let g = ms.last();
        if g.len() > 2 && g[1] is Some && g[2] is Some {
            with_pair_if_absent(before, g[1]->0, g[2]->0)
        } else {
            before
        }
    }
}

/// A match whose first and second groups both matched.
pub open spec fn keyed(g: Seq<Option<Seq<char>>>) -> bool {
    g.len() > 2 && g[1] is Some && g[2] is Some
}

/// Every key that a match of `ms` names has a value in `ps`.
pub open spec fn keys_present(ps: Seq<Pair>, ms: Seq<Seq<Option<Seq<char>>>>) -> bool {
    forall|i: int| 0 <= i < ms.len() && keyed(#[trigger] ms[i]) ==> lookup(ps, ms[i][1]->0) is Some
}

/// A key that already has a value keeps it.
proof fn lemma_absorbed_keeps(ps: Seq<Pair>, ms: Seq<Seq<Option<Seq<char>>>>, k: Seq<char>)
    requires
        lookup(ps, k) is Some,
    ensures
        lookup(absorbed(ps, ms), k) == lookup(ps, k),
    decreases ms.len(),
{
    if ms.len() > 0 {
        lemma_absorbed_keeps(ps, ms.drop_last(), k);
        let g = ms.last();
        if keyed(g) {
            insert_if_absent_keeps_first(absorbed(ps, ms.drop_last()), g[1]->0, g[2]->0, k);
        }
    }
}

/// After absorbing `ms`, every key they name has a value.
proof fn lemma_absorbed_covers(ps: Seq<Pair>, ms: Seq<Seq<Option<Seq<char>>>>)
    ensures
        keys_present(absorbed(ps, ms), ms),
    decreases ms.len(),
{
    if ms.len() > 0 {
        let init = ms.drop_last();
        lemma_absorbed_covers(ps, init);
        let before = absorbed(ps, init);
        let g = ms.last();
        assert forall|i: int| 0 <= i < ms.len() && keyed(#[trigger] ms[i]) implies lookup(
            absorbed(ps, ms),
            ms[i][1]->0,
        ) is Some by {
            if keyed(g) {
                insert_if_absent_keeps_first(before, g[1]->0, g[2]->0, ms[i][1]->0);
                if i < ms.len() - 1 {
                    assert(init[i] == ms[i]);
                }
            } else {
                assert(i < ms.len() - 1);
                assert(init[i] == ms[i]);
            }
        }
    }
}

/// Absorbing matches whose keys all have values changes nothing.
proof fn lemma_absorbed_present(ps: Seq<Pair>, ms: Seq<Seq<Option<Seq<char>>>>)
    requires
        keys_present(ps, ms),
    ensures
        absorbed(ps, ms) == ps,
    decreases ms.len(),
{
    if ms.len() > 0 {
        let init = ms.drop_last();
        assert forall|i: int| 0 <= i < init.len() && keyed(#[trigger] init[i]) implies lookup(
            ps,
            init[i][1]->0,
        ) is Some by {
            assert(init[i] == ms[i]);
        }
        lemma_absorbed_present(ps, init);
        let g = ms.last();
        if keyed(g) {
            assert(g == ms[ms.len() - 1]);
            lemma_key_index(ps, g[1]->0);
        }
    }
}

/// Where absorbing matches, a key that already had a value keeps that
/// first value.
pub proof fn extraction_keeps_first_value(ps: Seq<Pair>, ms: Seq<Seq<Option<Seq<char>>>>, k: Seq<char>)
    requires
        lookup(ps, k) is Some,
    ensures
        lookup(absorbed(ps, ms), k) == lookup(ps, k),
{
    lemma_absorbed_keeps(ps, ms, k);
}

/// Extracting the same source twice leaves the entries as extracting it
/// once: with `a` the `localize` matches and `b` the `localize2` matches
/// of the source, a second extraction adds and changes nothing.
pub proof fn extraction_is_idempotent(
    ps: Seq<Pair>,
    a: Seq<Seq<Option<Seq<char>>>>,
    b: Seq<Seq<Option<Seq<char>>>>,
)
    ensures
        absorbed(absorbed(absorbed(absorbed(ps, a), b), a), b) == absorbed(absorbed(ps, a), b),
{
    let once = absorbed(absorbed(ps, a), b);
    lemma_absorbed_covers(ps, a);
    assert forall|i: int| 0 <= i < a.len() && keyed(#[trigger] a[i]) implies lookup(once, a[i][1]->0) is Some by {
        lemma_absorbed_keeps(absorbed(ps, a), b, a[i][1]->0);
    }
    lemma_absorbed_present(once, a);
    lemma_absorbed_covers(absorbed(ps, a), b);
    lemma_absorbed_present(once, b);
}

/// The matches of `pattern` in `source`, where `pattern` compiled.
pub open spec fn matches_where(ok: bool, pattern: Seq<char>, source: Seq<char>) -> Seq<
    Seq<Option<Seq<char>>>,
> {
    if ok {
        regex_captures_all(pattern, source)
    } else {
        seq![]
    }
}

/// Takes the keys and values of the matches `ms` into `entries`: the first
/// group is the key, the second its value, and a key keeps its first value.
pub fn absorb_matches(entries: &mut StrMap, ms: &Vec<Vec<Option<String>>>)
    ensures
        final(entries)@ == absorbed(old(entries)@, match_texts(ms@)),
{
    let mut i: usize = 0;
    while i < ms.len()
        invariant
            i <= ms.len(),
            entries@ == absorbed(old(entries)@, match_texts(ms@).take(i as int)),
        decreases ms.len() - i,
    {
        assert(match_texts(ms@).take(i + 1).drop_last() =~= match_texts(ms@).take(i as int));
        let g = &ms[i];
        assert(match_texts(ms@).take(i + 1).last() == crate::pattern::group_texts(g@));
        if g.len() > 2 {
            match (&g[1], &g[2]) {
                (Some(k), Some(v)) => {
                    entries.insert_if_absent(k.clone(), v.clone());
                },
                _ => {},
            }
        }
        i = i + 1;
    }
    assert(match_texts(ms@).take(ms.len() as int) =~= match_texts(ms@));
}

/// Extracts NLS keys from TypeScript sources.
#[derive(Debug)]
pub struct NLSExtractor {
    /// The extracted localization entries.
    pub entries: StrMap,
    /// The file being processed.
    pub current_file: Option<String>,
    localize_pattern: Option<CompiledPattern>,
    localize2_pattern: Option<CompiledPattern>,
}

impl NLSExtractor {
    /// The entries extracted so far.
    pub closed spec fn found(&self) -> Seq<Pair> {
        self.entries@
    }

    /// The file being processed.
    pub closed spec fn file(&self) -> Option<Seq<char>> {
        match self.current_file {
            Some(f) => Some(f@),
            None => None,
        }
    }

    /// Whether the `localize` pattern compiled.
    pub closed spec fn has_localize(&self) -> bool {
        self.localize_pattern is Some
    }

    /// Whether the `localize2` pattern compiled.
    pub closed spec fn has_localize2(&self) -> bool {
        self.localize2_pattern is Some
    }

    /// The `localize` pattern, where it compiled.
    pub closed spec fn localize_source(&self) -> Seq<char> {
        match self.localize_pattern {
            Some(p) => p@,
            None => LOCALIZE_PATTERN@,
        }
    }

    /// The `localize2` pattern, where it compiled.
    pub closed spec fn localize2_source(&self) -> Seq<char> {
        match self.localize2_pattern {
            Some(p) => p@,
            None => LOCALIZE2_PATTERN@,
        }
    }

    /// An extractor with no entries and no current file.
    pub fn new() -> (r: Self)
        ensures
            r.found() == Seq::<Pair>::empty(),
            r.file() is None,
            r.has_localize() == regex_accepts(LOCALIZE_PATTERN@),
            r.has_localize2() == regex_accepts(LOCALIZE2_PATTERN@),
            r.localize_source() == LOCALIZE_PATTERN@,
            r.localize2_source() == LOCALIZE2_PATTERN@,
    {
        let localize_pattern = match compile_pattern(LOCALIZE_PATTERN) {
            Ok(p) => Some(p),
            Err(_) => None,
        };
        let localize2_pattern = match compile_pattern(LOCALIZE2_PATTERN) {
            Ok(p) => Some(p),
            Err(_) => None,
        };
        NLSExtractor { entries: StrMap::new(), current_file: None, localize_pattern, localize2_pattern }
    }

    /// The extractor, with `file` as the file being processed.
    pub fn with_file(self, file: &str) -> (r: Self)
        ensures
            r.found() == self.found(),
            r.file() == Some(file@),
            r.has_localize() == self.has_localize(),
            r.has_localize2() == self.has_localize2(),
            r.localize_source() == self.localize_source(),
            r.localize2_source() == self.localize2_source(),
    {
        let mut e = self;
        e.current_file = Some(owned(file));
        e
    }

    /// Extracts the keys of `source`: first those of `localize` calls, then
    /// those of `localize2` calls; a key keeps the first value found for it.
    pub fn extract(&mut self, source: &str)
        ensures
            final(self).found() == absorbed(
                absorbed(old(self).found(), matches_where(old(self).has_localize(), old(self).localize_source(), source@)),
                matches_where(old(self).has_localize2(), old(self).localize2_source(), source@),
            ),
            final(self).file() == old(self).file(),
            final(self).has_localize() == old(self).has_localize(),
            final(self).has_localize2() == old(self).has_localize2(),
            final(self).localize_source() == old(self).localize_source(),
            final(self).localize2_source() == old(self).localize2_source(),
    {
        match &self.localize_pattern {
            Some(p) => {
                let ms = p.captures_all(source);
                absorb_matches(&mut self.entries, &ms);
            },
            None => {},
        }
        match &self.localize2_pattern {
            Some(p) => {
                let ms = p.captures_all(source);
                absorb_matches(&mut self.entries, &ms);
            },
            None => {},
        }
    }
}

impl Default for NLSExtractor {
    fn default() -> (r: Self)
        ensures
            r.found() == Seq::<Pair>::empty(),
            r.file() is None,
            r.has_localize() == regex_accepts(LOCALIZE_PATTERN@),
            r.has_localize2() == regex_accepts(LOCALIZE2_PATTERN@),
            r.localize_source() == LOCALIZE_PATTERN@,
            r.localize2_source() == LOCALIZE2_PATTERN@,
    {
        Self::new()
    }
}

/// The NLS keys of `source`, each with its first value.
pub fn extract_nls_keys(source: &str) -> (r: StrMap)
    ensures
        r@ == absorbed(
            absorbed(Seq::<Pair>::empty(), matches_where(regex_accepts(LOCALIZE_PATTERN@), LOCALIZE_PATTERN@, source@)),
            matches_where(regex_accepts(LOCALIZE2_PATTERN@), LOCALIZE2_PATTERN@, source@),
        ),
{
    let mut extractor = NLSExtractor::new();
    extractor.extract(source);
    extractor.entries
}

} // verus!
