//! NLS bundles: one localization bundle per configured language.
use vstd::prelude::*;

use super::{entry_pairs, hashed_texts, LocalizationBundle, LocalizationEntry, NLSConfig};
use crate::hashing::digest_hex;
use crate::strmap::{insert_then_get, key_index, keys_unique, lemma_key_index, lookup, with_pair, Pair, StrMap};
use crate::text::{same_text, texts};
use vstd::pervasive::VecAdditionalExecFns;

verus! {

/// The first occurrence of each text of `ls`, in order.
pub open spec fn distinct(ls: Seq<Seq<char>>) -> Seq<Seq<char>>
    decreases ls.len(),
{
    if ls.len() == 0 {
        seq![]
    } else if distinct(ls.drop_last()).contains(ls.last()) {
        distinct(ls.drop_last())
    } else {
        distinct(ls.drop_last()).push(ls.last())
    }
}

/// The language of each bundle.
pub open spec fn languages_of(bs: Seq<LocalizationBundle>) -> Seq<Seq<char>> {
    bs.map_values(|b: LocalizationBundle| b.language@)
}

/// The last index of a bundle for `lang` in `bs`, or `-1`.
pub open spec fn bundle_index(bs: Seq<LocalizationBundle>, lang: Seq<char>) -> int
    decreases bs.len(),
{
    if bs.len() == 0 {
        -1
    } else if bs.last().language@ == lang {
        bs.len() - 1
    } else {
        bundle_index(bs.drop_last(), lang)
    }
}

/// The map that inserting the pairs `ps` one after the other builds.
pub open spec fn inserted_all(ps: Seq<Pair>) -> Seq<Pair>
    decreases ps.len(),
{
    if ps.len() == 0 {
        seq![]
    } else {
        with_pair(inserted_all(ps.drop_last()), ps.last().0, ps.last().1)
    }
}

/// `b` with the entries `ps` appended, without comments.
pub open spec fn appended(b: LocalizationBundle, ps: Seq<Pair>, es: Seq<LocalizationEntry>) -> bool {
    &&& es.len() == b.entries@.len() + ps.len()
    &&& es.subrange(0, b.entries@.len() as int) == b.entries@
    &&& forall|i: int|
        0 <= i < ps.len() ==> (#[trigger] es[b.entries@.len() + i]).key@ == ps[i].0 && es[b.entries@.len() + i].value@ == ps[i].1
            && es[b.entries@.len() + i].comment is None
}

/// What `bundle_index` finds.
pub proof fn lemma_bundle_index(bs: Seq<LocalizationBundle>, lang: Seq<char>)
    ensures
        -1 <= bundle_index(bs, lang) < bs.len(),
        bundle_index(bs, lang) >= 0 ==> bs[bundle_index(bs, lang)].language@ == lang,
        bundle_index(bs, lang) == -1 ==> forall|j: int| 0 <= j < bs.len() ==> bs[j].language@ != lang,
    decreases bs.len(),
{
    if bs.len() > 0 {
        lemma_bundle_index(bs.drop_last(), lang);
        assert forall|j: int| 0 <= j < bs.len() - 1 implies bs.drop_last()[j] == bs[j] by {}
    }
}

/// A bundle generated from a map gives that map back: inserting the pairs
/// of a map with unique keys one after the other rebuilds the map.
pub proof fn generated_bundle_round_trips(ps: Seq<Pair>)
    requires
        keys_unique(ps),
    ensures
        inserted_all(ps) == ps,
    decreases ps.len(),
{
    if ps.len() > 0 {
        let init = ps.drop_last();
        assert(keys_unique(init)) by {
            assert forall|i: int, j: int| 0 <= i < j < init.len() implies init[i].0 != init[j].0 by {
                assert(init[i] == ps[i] && init[j] == ps[j]);
            }
        }
        generated_bundle_round_trips(init);
        lemma_key_index(init, ps.last().0);
        if key_index(init, ps.last().0) >= 0 {
            let i = key_index(init, ps.last().0);
            assert(init[i] == ps[i]);
            assert(ps[i].0 == ps[ps.len() - 1].0);
        }
        assert(init.push(ps.last()) =~= ps);
    }
}

/// An entry added to a bundle is what the bundle's map gives its key, and
/// every other key keeps its value.
pub proof fn added_entry_is_looked_up(ps: Seq<Pair>, k: Seq<char>, v: Seq<char>, other: Seq<char>)
    ensures
        lookup(inserted_all(ps.push((k, v))), k) == Some(v),
        other != k ==> lookup(inserted_all(ps.push((k, v))), other) == lookup(inserted_all(ps), other),
{
    assert(ps.push((k, v)).drop_last() =~= ps);
    insert_then_get(inserted_all(ps), k, v, other);
}

/// The languages that `distinct` keeps are those of `ls`, each once.
pub proof fn lemma_distinct(ls: Seq<Seq<char>>)
    ensures
        forall|x: Seq<char>| distinct(ls).contains(x) <==> ls.contains(x),
        forall|i: int, j: int| 0 <= i < j < distinct(ls).len() ==> distinct(ls)[i] != distinct(ls)[j],
    decreases ls.len(),
{
    broadcast use vstd::seq_lib::group_seq_properties;
    if ls.len() > 0 {
        lemma_distinct(ls.drop_last());
        assert(ls =~= ls.drop_last().push(ls.last()));
        assert forall|x: Seq<char>| distinct(ls).contains(x) <==> ls.contains(x) by {
            if ls.contains(x) {
                let k = choose|k: int| 0 <= k < ls.len() && ls[k] == x;
                if k < ls.len() - 1 {
                    assert(ls.drop_last()[k] == x);
                }
            }
            if ls.drop_last().contains(x) {
                let k = choose|k: int| 0 <= k < ls.drop_last().len() && ls.drop_last()[k] == x;
                assert(ls[k] == x);
            }
        }
    }
}

/// Bundles whose languages are the distinct languages of `ls`, as `new`
/// makes them and `add_entry` and `add_entries` keep them, have a bundle
/// for a language exactly when `ls` holds it, that bundle is of that
/// language, and there is one bundle per distinct language.
pub proof fn bundles_follow_languages(bs: Seq<LocalizationBundle>, ls: Seq<Seq<char>>, l: Seq<char>)
    requires
        languages_of(bs) == distinct(ls),
    ensures
        bundle_index(bs, l) >= 0 <==> ls.contains(l),
        bundle_index(bs, l) >= 0 ==> bs[bundle_index(bs, l)].language@ == l,
        bs.len() == distinct(ls).len(),
{
    lemma_distinct(ls);
    lemma_bundle_index(bs, l);
    assert(languages_of(bs).len() == bs.len());
    if bundle_index(bs, l) >= 0 {
        let i = bundle_index(bs, l);
        assert(languages_of(bs)[i] == l);
        assert(distinct(ls).contains(l));
    }
    if ls.contains(l) {
        assert(distinct(ls).contains(l));
        let j = choose|j: int| 0 <= j < distinct(ls).len() && distinct(ls)[j] == l;
        assert(languages_of(bs)[j] == bs[j].language@);
    }
}

/// Generates and holds one localization bundle per language.
pub struct NLSBundle {
    config: NLSConfig,
    /// The bundle of each language, each language once.
    bundles: Vec<LocalizationBundle>,
}

impl NLSBundle {
    /// The bundles, in the order of their languages' first occurrence.
    pub closed spec fn held(&self) -> Seq<LocalizationBundle> {
        self.bundles@
    }

    /// The languages the bundles were configured with.
    pub closed spec fn configured(&self) -> Seq<Seq<char>> {
        texts(self.config.languages@)
    }

    #[verifier::type_invariant]
    closed spec fn wf(&self) -> bool {
        &&& forall|i: int, j: int|
            0 <= i < j < self.bundles@.len() ==> self.bundles@[i].language@ != self.bundles@[j].language@
        &&& languages_of(self.bundles@) == distinct(texts(self.config.languages@))
    }

    /// One empty bundle for each language of `config`.
    pub fn new(config: NLSConfig) -> (r: Self)
        ensures
            r.configured() == texts(config.languages@),
            languages_of(r.held()) == distinct(texts(config.languages@)),
            forall|i: int|
                0 <= i < r.held().len() ==> (#[trigger] r.held()[i]).entries@.len() == 0
                    && r.held()[i].hash@.len() == 0,
    {
        let mut bundles: Vec<LocalizationBundle> = Vec::new();
        let mut i: usize = 0;
        while i < config.languages.len()
            invariant
                i <= config.languages.len(),
                languages_of(bundles@) == distinct(texts(config.languages@).take(i as int)),
                forall|a: int, b: int| 0 <= a < b < bundles@.len() ==> bundles@[a].language@ != bundles@[b].language@,
                forall|k: int|
                    0 <= k < bundles@.len() ==> (#[trigger] bundles@[k]).entries@.len() == 0
                        && bundles@[k].hash@.len() == 0,
            decreases config.languages.len() - i,
        {
            let lang = config.languages[i].as_str();
            let ghost prefix = texts(config.languages@).take(i as int);
            assert(texts(config.languages@).take(i + 1).drop_last() =~= prefix);
            assert(texts(config.languages@).take(i + 1).last() == lang@);
            let mut found = false;
            let mut j: usize = 0;
            while j < bundles.len()
                invariant
                    j <= bundles.len(),
                    !found ==> forall|k: int| 0 <= k < j ==> bundles@[k].language@ != lang@,
                    found ==> exists|k: int| 0 <= k < bundles@.len() && bundles@[k].language@ == lang@,
                decreases bundles.len() - j,
            {
                if same_text(bundles[j].language.as_str(), lang) {
                    found = true;
                }
                j = j + 1;
            }
            if found {
                proof {
                    let k = choose|k: int| 0 <= k < bundles@.len() && bundles@[k].language@ == lang@;
                    assert(languages_of(bundles@)[k] == lang@);
                    assert(distinct(prefix).contains(lang@));
                }
            } else {
                assert(!languages_of(bundles@).contains(lang@)) by {
                    if languages_of(bundles@).contains(lang@) {
                        let k = choose|k: int| 0 <= k < languages_of(bundles@).len() && languages_of(bundles@)[k] == lang@;
                        assert(bundles@[k].language@ == lang@);
                    }
                }
                let ghost before = bundles@;
                bundles.push(LocalizationBundle::new(lang));
                assert(languages_of(bundles@) =~= languages_of(before).push(lang@));
            }
            i = i + 1;
        }
        assert(texts(config.languages@).take(config.languages.len() as int) =~= texts(
            config.languages@,
        ));
        NLSBundle { config, bundles }
    }

    /// A holder of no bundles, configured with no languages.
    fn empty() -> (r: Self) {
        let mut config = NLSConfig::new();
        config.languages = Vec::new();
        assert(texts(config.languages@) =~= Seq::<Seq<char>>::empty());
        let bundles: Vec<LocalizationBundle> = Vec::new();
        assert(languages_of(bundles@) =~= Seq::<Seq<char>>::empty());
        NLSBundle { config, bundles }
    }

    /// Where the bundle for `language` stands.
    fn position(&self, language: &str) -> (r: Option<usize>)
        ensures
            r matches Some(i) ==> i < self.held().len() && i == bundle_index(self.held(), language@),
            r is None ==> bundle_index(self.held(), language@) == -1,
    {
        proof {
            use_type_invariant(self);
            lemma_bundle_index(self.bundles@, language@);
        }
        let mut i: usize = 0;
        while i < self.bundles.len()
            invariant
                i <= self.bundles.len(),
                forall|j: int| 0 <= j < i ==> self.bundles@[j].language@ != language@,
                forall|a: int, b: int|
                    0 <= a < b < self.bundles@.len() ==> self.bundles@[a].language@ != self.bundles@[b].language@,
                -1 <= bundle_index(self.bundles@, language@) < self.bundles@.len(),
                bundle_index(self.bundles@, language@) >= 0 ==> self.bundles@[bundle_index(self.bundles@, language@)].language@ == language@,
                bundle_index(self.bundles@, language@) == -1 ==> forall|j: int|
                    0 <= j < self.bundles@.len() ==> self.bundles@[j].language@ != language@,
            decreases self.bundles.len() - i,
        {
            if same_text(self.bundles[i].language.as_str(), language) {
                return Some(i);
            }
            i = i + 1;
        }
        None
    }

    /// Adds the entry `key` = `value` to the bundle for `language`; nothing
    /// happens where there is no such bundle.
    pub fn add_entry(&mut self, language: &str, key: &str, value: &str)
        ensures
            final(self).configured() == old(self).configured(),
            final(self).held().len() == old(self).held().len(),
            languages_of(final(self).held()) == languages_of(old(self).held()),
            ({
                let i = bundle_index(old(self).held(), language@);
                if i >= 0 {
                    &&& final(self).held() == old(self).held().update(i, final(self).held()[i])
                    &&& final(self).held()[i].language == old(self).held()[i].language
                    &&& final(self).held()[i].hash == old(self).held()[i].hash
                    &&& appended(old(self).held()[i], seq![(key@, value@)], final(self).held()[i].entries@)
                } else {
                    final(self).held() == old(self).held()
                }
            }),
    {
        proof {
            use_type_invariant(&*self);
        }
        match self.position(language) {
            Some(i) => {
                let ghost before = self.bundles@;
                let mut whole = NLSBundle::empty();
                std::mem::swap(&mut whole, self);
                let NLSBundle { config, mut bundles } = whole;
                let mut b = LocalizationBundle::new(language);
                bundles.set_and_swap(i, &mut b);
                let ghost ob = b;
                b.add_entry(key, value);
                bundles.set(i, b);
                assert(bundles@ =~= before.update(i as int, b));
                proof {
                    lemma_bundle_index(before, language@);
                    assert(languages_of(bundles@) =~= languages_of(before));
                }
                *self = NLSBundle { config, bundles };
                assert(b.entries@.subrange(0, ob.entries@.len() as int) =~= ob.entries@);
                assert(b.entries@[ob.entries@.len() as int + 0] == b.entries@.last());
            },
            None => {},
        }
    }

    /// Adds the entries of `entries`, in order, to the bundle for
    /// `language`, then recomputes that bundle's hash; nothing happens where
    /// there is no such bundle.
    pub fn add_entries(&mut self, language: &str, entries: &StrMap)
        ensures
            final(self).configured() == old(self).configured(),
            final(self).held().len() == old(self).held().len(),
            languages_of(final(self).held()) == languages_of(old(self).held()),
            ({
                let i = bundle_index(old(self).held(), language@);
                if i >= 0 {
                    &&& final(self).held() == old(self).held().update(i, final(self).held()[i])
                    &&& final(self).held()[i].language == old(self).held()[i].language
                    &&& appended(old(self).held()[i], entries@, final(self).held()[i].entries@)
                    &&& final(self).held()[i].hash@ == digest_hex(hashed_texts(final(self).held()[i].entries@))
                } else {
                    final(self).held() == old(self).held()
                }
            }),
    {
        proof {
            use_type_invariant(&*self);
        }
        match self.position(language) {
            Some(i) => {
                let ghost before = self.bundles@;
                let mut whole = NLSBundle::empty();
                std::mem::swap(&mut whole, self);
                let NLSBundle { config, mut bundles } = whole;
                let mut b = LocalizationBundle::new(language);
                bundles.set_and_swap(i, &mut b);
                let ghost ob = b;
                let n = entries.len();
                assert(b.entries@.subrange(0, ob.entries@.len() as int) =~= ob.entries@);
                let mut k: usize = 0;
                while k < n
                    invariant
                        k <= n,
                        n == entries@.len(),
                        b.language == ob.language,
                        appended(ob, entries@.take(k as int), b.entries@),
                    decreases n - k,
                {
                    let ghost bb = b.entries@;
                    b.add_entry(entries.key_at(k).as_str(), entries.value_at(k).as_str());
                    assert(entries@.take(k + 1)[k as int] == entries@[k as int]);
                    assert(b.entries@.subrange(0, ob.entries@.len() as int) =~= ob.entries@) by {
                        assert(bb.subrange(0, ob.entries@.len() as int) =~= ob.entries@);
                    }
                    assert forall|m: int| 0 <= m < k + 1 implies (#[trigger] b.entries@[ob.entries@.len() + m]).key@
                        == entries@.take(k + 1)[m].0 && b.entries@[ob.entries@.len() + m].value@ == entries@.take(
                        k + 1,
                    )[m].1 && b.entries@[ob.entries@.len() + m].comment is None by {
                        if m < k {
                            assert(bb[ob.entries@.len() + m] == b.entries@[ob.entries@.len() + m]);
                            assert(entries@.take(k as int)[m] == entries@.take(k + 1)[m]);
                        }
                    }
                    k = k + 1;
                }
                assert(entries@.take(n as int) =~= entries@);
                b.compute_hash();
                bundles.set(i, b);
                assert(bundles@ =~= before.update(i as int, b));
                proof {
                    lemma_bundle_index(before, language@);
                    assert(languages_of(bundles@) =~= languages_of(before));
                }
                *self = NLSBundle { config, bundles };
            },
            None => {},
        }
    }

    /// The bundle for `language`.
    pub fn get_bundle(&self, language: &str) -> (r: Option<&LocalizationBundle>)
        ensures
            r matches Some(b) ==> bundle_index(self.held(), language@) >= 0 && *b == self.held()[bundle_index(self.held(), language@)],
            r is None ==> bundle_index(self.held(), language@) == -1,
            r is Some <==> self.configured().contains(language@),
            r matches Some(b) ==> b.language@ == language@,
    {
        proof {
            use_type_invariant(self);
            bundles_follow_languages(self.bundles@, self.configured(), language@);
        }
        match self.position(language) {
            Some(i) => Some(&self.bundles[i]),
            None => None,
        }
    }

    /// All bundles.
    pub fn all_bundles(&self) -> (r: &Vec<LocalizationBundle>)
        ensures
            r@ == self.held(),
            r@.len() == distinct(self.configured()).len(),
    {
        proof {
            use_type_invariant(self);
            lemma_distinct(self.configured());
            assert(languages_of(self.bundles@).len() == self.bundles@.len());
        }
        &self.bundles
    }

    /// The entries of the bundle for `language` as a map, a later entry for
    /// a key winning over an earlier one; empty where there is no bundle.
    pub fn to_hashmap(&self, language: &str) -> (r: StrMap)
        ensures
            bundle_index(self.held(), language@) >= 0 ==> r@ == inserted_all(
                entry_pairs(self.held()[bundle_index(self.held(), language@)].entries@),
            ),
            bundle_index(self.held(), language@) == -1 ==> r@ == Seq::<Pair>::empty(),
    {
        let mut map = StrMap::new();
        match self.position(language) {
            Some(i) => {
                let b = &self.bundles[i];
                let mut k: usize = 0;
                while k < b.entries.len()
                    invariant
                        k <= b.entries.len(),
                        map@ == inserted_all(entry_pairs(b.entries@).take(k as int)),
                    decreases b.entries.len() - k,
                {
                    map.insert(b.entries[k].key.clone(), b.entries[k].value.clone());
                    assert(entry_pairs(b.entries@).take(k + 1).drop_last() =~= entry_pairs(b.entries@).take(k as int));
                    k = k + 1;
                }
                assert(entry_pairs(b.entries@).take(b.entries.len() as int) =~= entry_pairs(b.entries@));
            },
            None => {},
        }
        map
    }
}

/// A bundle for `language` holding the entries of `entries` in their order,
/// with its hash computed (the VSCode NLS bundle format).
pub fn generate_vscode_bundle(entries: &StrMap, language: &str) -> (r: LocalizationBundle)
    ensures
        r.language@ == language@,
        entry_pairs(r.entries@) == entries@,
        forall|i: int| 0 <= i < r.entries@.len() ==> (#[trigger] r.entries@[i]).comment is None,
        r.hash@ == digest_hex(hashed_texts(r.entries@)),
{
    let mut b = LocalizationBundle::new(language);
    let n = entries.len();
    let mut k: usize = 0;
    while k < n
        invariant
            k <= n,
            n == entries@.len(),
            b.language@ == language@,
            entry_pairs(b.entries@) == entries@.take(k as int),
            forall|i: int| 0 <= i < b.entries@.len() ==> (#[trigger] b.entries@[i]).comment is None,
        decreases n - k,
    {
        let ghost before = b.entries@;
        b.add_entry(entries.key_at(k).as_str(), entries.value_at(k).as_str());
        assert(b.entries@ =~= before.push(b.entries@.last()));
        assert(entry_pairs(b.entries@) =~= entry_pairs(before).push((entries@[k as int].0, entries@[k as int].1)));
        assert(entries@.take(k + 1) =~= entries@.take(k as int).push(entries@[k as int]));
        k = k + 1;
    }
    assert(entries@.take(n as int) =~= entries@);
    b.compute_hash();
    b
}

} // verus!
