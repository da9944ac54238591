//! NLS (National Language Support) processing for localization: key
//! extraction from sources, bundles of translations per language, and
//! replacement of keys by translations at build time.
pub mod bundle;
pub mod extract;
pub mod replace;

use vstd::prelude::*;

use crate::hashing::{digest_hex, feed_text, finish_hex, lemma_texts_writes_push, new_hasher, texts_writes};
use crate::text::{hex_digit, hex_of, owned, texts};
use std::collections::hash_map::DefaultHasher;
use vstd::std_specs::hash::DefaultHasherAdditionalSpecFns;

verus! {

broadcast use vstd::string::group_string_axioms;

/// Configuration for NLS processing.
#[derive(Debug, Clone)]
pub struct NLSConfig {
    /// Source language for localization.
    pub source_lang: String,
    /// Output directory for generated localization files.
    pub output_dir: String,
    /// Whether to inline translations into the output.
    pub inline: bool,
    /// File pattern for localization keys.
    pub key_pattern: String,
    /// Languages to generate.
    pub languages: Vec<String>,
}

impl NLSConfig {
    /// The default settings: English source, `out/nls`, no inlining, the
    /// `*.nls.*` key pattern, and English as the one language.
    pub fn new() -> (r: Self)
        ensures
            r.source_lang@ == "en"@,
            r.output_dir@ == "out/nls"@,
            !r.inline,
            r.key_pattern@ == "*.nls.*"@,
            texts(r.languages@) == seq!["en"@],
    {
        let mut languages: Vec<String> = Vec::new();
        languages.push(owned("en"));
        assert(texts(languages@) =~= seq!["en"@]);
        NLSConfig {
            source_lang: owned("en"),
            output_dir: owned("out/nls"),
            inline: false,
            key_pattern: owned("*.nls.*"),
            languages,
        }
    }
}

impl Default for NLSConfig {
    /// Empty settings with no language.
    fn default() -> (r: Self)
        ensures
            r.source_lang@.len() == 0,
            r.output_dir@.len() == 0,
            !r.inline,
            r.key_pattern@.len() == 0,
            r.languages@.len() == 0,
    {
        NLSConfig {
            source_lang: String::new(),
            output_dir: String::new(),
            inline: false,
            key_pattern: String::new(),
            languages: Vec::new(),
        }
    }
}

/// A localization entry mapping a key to its translated value.
#[derive(Debug, Clone)]
pub struct LocalizationEntry {
    /// The key that identifies the string.
    pub key: String,
    /// The localized string value.
    pub value: String,
    /// Optional comment for translators.
    pub comment: Option<String>,
}

/// The key and value of each entry.
pub open spec fn entry_pairs(es: Seq<LocalizationEntry>) -> Seq<(Seq<char>, Seq<char>)> {
    es.map_values(|e: LocalizationEntry| (e.key@, e.value@))
}

/// The keys and values of the entries, one after the other, as they are
/// fed to the hasher.
pub open spec fn hashed_texts(es: Seq<LocalizationEntry>) -> Seq<Seq<char>>
    decreases es.len(),
{
    if es.len() == 0 {
        seq![]
    } else {
        hashed_texts(es.drop_last()) + seq![es.last().key@, es.last().value@]
    }
}

/// Entries with the same keys and values, in the same order, are fed to
/// the hasher alike, whatever their comments.
proof fn lemma_hashed_texts_of_pairs(e1: Seq<LocalizationEntry>, e2: Seq<LocalizationEntry>)
    requires
        entry_pairs(e1) == entry_pairs(e2),
    ensures
        hashed_texts(e1) == hashed_texts(e2),
    decreases e1.len(),
{
    assert(e1.len() == entry_pairs(e1).len() && e2.len() == entry_pairs(e2).len());
    if e1.len() > 0 {
        assert(entry_pairs(e1.drop_last()) =~= entry_pairs(e2.drop_last())) by {
            assert forall|i: int| 0 <= i < e1.len() - 1 implies entry_pairs(e1.drop_last())[i] == entry_pairs(
                e2.drop_last(),
            )[i] by {
                assert(entry_pairs(e1)[i] == entry_pairs(e2)[i]);
            }
        }
        lemma_hashed_texts_of_pairs(e1.drop_last(), e2.drop_last());
        assert(entry_pairs(e1)[e1.len() - 1] == entry_pairs(e2)[e2.len() - 1]);
    }
}

/// Every hexadecimal numeral has at least one digit, each a lower-case
/// hexadecimal digit.
proof fn lemma_hex_digits(n: nat)
    ensures
        hex_of(n).len() > 0,
        forall|i: int| 0 <= i < hex_of(n).len() ==> is_hex_digit(#[trigger] hex_of(n)[i]),
    decreases n,
{
    if n >= 16 {
        lemma_hex_digits(n / 16);
        let h = hex_of(n / 16) + seq![hex_digit((n % 16) as int)];
        assert forall|i: int| 0 <= i < h.len() implies is_hex_digit(#[trigger] h[i]) by {
            if i < hex_of(n / 16).len() {
                assert(h[i] == hex_of(n / 16)[i]);
            }
        }
    }
}

/// A lower-case hexadecimal digit: `0`..`9` or `a`..`f`.
pub open spec fn is_hex_digit(c: char) -> bool {
    ('0' <= c && c <= '9') || ('a' <= c && c <= 'f')
}

/// Two bundles whose entries have the same keys and values in the same
/// order get the same hash, whatever the comments; the hash is a non-empty
/// lower-case hexadecimal numeral; hashing again changes nothing, as the
/// hash depends on the entries alone.
pub proof fn bundle_hash_depends_on_pairs(e1: Seq<LocalizationEntry>, e2: Seq<LocalizationEntry>)
    requires
        entry_pairs(e1) == entry_pairs(e2),
    ensures
        digest_hex(hashed_texts(e1)) == digest_hex(hashed_texts(e2)),
        digest_hex(hashed_texts(e1)).len() > 0,
        forall|i: int|
            0 <= i < digest_hex(hashed_texts(e1)).len() ==> is_hex_digit(
                #[trigger] digest_hex(hashed_texts(e1))[i],
            ),
{
    lemma_hashed_texts_of_pairs(e1, e2);
    lemma_hex_digits(DefaultHasher::spec_finish(texts_writes(hashed_texts(e1))) as nat);
}

/// A collection of localization entries for one language.
#[derive(Debug, Clone)]
pub struct LocalizationBundle {
    /// Language code (e.g. "en", "de", "fr").
    pub language: String,
    /// Hash of the strings, for cache invalidation.
    pub hash: String,
    /// The localization entries.
    pub entries: Vec<LocalizationEntry>,
}

impl LocalizationBundle {
    /// An empty bundle for `language`.
    pub fn new(language: &str) -> (r: Self)
        ensures
            r.language@ == language@,
            r.hash@.len() == 0,
            r.entries@.len() == 0,
    {
        LocalizationBundle { language: owned(language), hash: String::new(), entries: Vec::new() }
    }

    /// Adds the entry `key` = `value`, with no comment, after the others.
    pub fn add_entry(&mut self, key: &str, value: &str)
        ensures
            final(self).language == old(self).language,
            final(self).hash == old(self).hash,
            final(self).entries@.len() == old(self).entries@.len() + 1,
            final(self).entries@.drop_last() == old(self).entries@,
            final(self).entries@.last().comment is None,
            final(self).entries@.last().key@ == key@,
            final(self).entries@.last().value@ == value@,
    {
        let ghost before = self.entries@;
        self.entries.push(LocalizationEntry { key: owned(key), value: owned(value), comment: None });
        assert(self.entries@.drop_last() =~= before);
    }

    /// Sets the hash to the digest of the keys and values, hashed in order.
    pub fn compute_hash(&mut self)
        ensures
            final(self).language == old(self).language,
            final(self).entries == old(self).entries,
            final(self).hash@ == digest_hex(hashed_texts(old(self).entries@)),
    {
        let mut h = new_hasher();
        let mut i: usize = 0;
        while i < self.entries.len()
            invariant
                i <= self.entries.len(),
                h@ == texts_writes(hashed_texts(self.entries@.take(i as int))),
            decreases self.entries.len() - i,
        {
            let ghost before = hashed_texts(self.entries@.take(i as int));
            feed_text(&mut h, self.entries[i].key.as_str());
            feed_text(&mut h, self.entries[i].value.as_str());
            proof {
                let e = self.entries@[i as int];
                lemma_texts_writes_push(before, e.key@);
                lemma_texts_writes_push(before.push(e.key@), e.value@);
                assert(self.entries@.take(i + 1).drop_last() =~= self.entries@.take(i as int));
                assert(hashed_texts(self.entries@.take(i + 1)) =~= before.push(e.key@).push(
                    e.value@,
                ));
            }
            i = i + 1;
        }
        assert(self.entries@.take(self.entries.len() as int) =~= self.entries@);
        self.hash = finish_hex(&h);
    }
}

impl Default for LocalizationBundle {
    /// A bundle with no language and no entries.
    fn default() -> (r: Self)
        ensures
            r.language@.len() == 0,
            r.hash@.len() == 0,
            r.entries@.len() == 0,
    {
        LocalizationBundle { language: String::new(), hash: String::new(), entries: Vec::new() }
    }
}

} // verus!
