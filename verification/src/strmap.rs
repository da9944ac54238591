//! An insertion-ordered map from strings to strings, with each key held once.
//! It stands where a `HashMap<String, String>` stands in the compiler's API,
//! with the difference that its entries are walked in insertion order.
use vstd::prelude::*;

use crate::text::same_text;

verus! {

/// A key with its value, both as characters.
pub type Pair = (Seq<char>, Seq<char>);

/// The last index at which `k` is a key of `ps`, or `-1`.
pub open spec fn key_index(ps: Seq<Pair>, k: Seq<char>) -> int
    decreases ps.len(),
{
    if ps.len() == 0 {
        -1
    } else if ps.last().0 == k {
        ps.len() - 1
    } else {
        key_index(ps.drop_last(), k)
    }
}

/// The value that `ps` gives to the key `k`.
pub open spec fn lookup(ps: Seq<Pair>, k: Seq<char>) -> Option<Seq<char>> {
    let i = key_index(ps, k);
    if i >= 0 {
        Some(ps[i].1)
    } else {
        None
    }
}

/// No key occurs twice in `ps`.
pub open spec fn keys_unique(ps: Seq<Pair>) -> bool {
    forall|i: int, j: int| 0 <= i < j < ps.len() ==> ps[i].0 != ps[j].0
}

/// `ps` after `HashMap::insert(k, v)`: the value of an existing key is
/// replaced where it stands, a new key goes last.
pub open spec fn with_pair(ps: Seq<Pair>, k: Seq<char>, v: Seq<char>) -> Seq<Pair> {
    let i = key_index(ps, k);
    if i >= 0 {
        ps.update(i, (k, v))
    } else {
        ps.push((k, v))
    }
}

/// `ps` after `entry(k).or_insert(v)`: a new key goes last with `v`, an
/// existing key keeps its value.
pub open spec fn with_pair_if_absent(ps: Seq<Pair>, k: Seq<char>, v: Seq<char>) -> Seq<Pair> {
    if key_index(ps, k) >= 0 {
        ps
    } else {
        ps.push((k, v))
    }
}

/// What `key_index` finds.
pub proof fn lemma_key_index(ps: Seq<Pair>, k: Seq<char>)
    ensures
        -1 <= key_index(ps, k) < ps.len(),
        key_index(ps, k) >= 0 ==> ps[key_index(ps, k)].0 == k,
        forall|j: int| key_index(ps, k) < j < ps.len() ==> ps[j].0 != k,
        key_index(ps, k) == -1 ==> forall|j: int| 0 <= j < ps.len() ==> ps[j].0 != k,
        keys_unique(ps) ==> forall|j: int| 0 <= j < ps.len() && ps[j].0 == k ==> j == key_index(ps, k),
    decreases ps.len(),
{
    if ps.len() > 0 {
        lemma_key_index(ps.drop_last(), k);
        assert forall|j: int| 0 <= j < ps.len() - 1 implies ps.drop_last()[j] == ps[j] by {}
    }
}

/// After `insert(k, v)` the map gives `k` the value `v` and every other key
/// the value it had; keys stay unique.
pub proof fn insert_then_get(ps: Seq<Pair>, k: Seq<char>, v: Seq<char>, other: Seq<char>)
    ensures
        lookup(with_pair(ps, k, v), k) == Some(v),
        other != k ==> lookup(with_pair(ps, k, v), other) == lookup(ps, other),
        keys_unique(ps) ==> keys_unique(with_pair(ps, k, v)),
{
    lemma_key_index(ps, k);
    lemma_key_index(ps, other);
    let q = with_pair(ps, k, v);
    lemma_key_index(q, k);
    lemma_key_index(q, other);
    let i = key_index(ps, k);
    if i >= 0 {
        assert(q[i].0 == k);
        if key_index(q, k) > i {
            assert(q[key_index(q, k)] == ps[key_index(q, k)]);
        }
        if other != k {
            let j = key_index(ps, other);
            let jq = key_index(q, other);
            if j >= 0 {
                assert(q[j] == ps[j]);
                assert(jq >= j);
            }
            if jq >= 0 {
                assert(q[jq] == ps[jq]);
                assert(j >= jq);
            }
        }
    } else {
        assert(q[q.len() - 1].0 == k);
        if other != k {
            let j = key_index(ps, other);
            let jq = key_index(q, other);
            if j >= 0 {
                assert(q[j] == ps[j]);
                assert(jq >= j);
            }
            if jq >= 0 {
                assert(jq < ps.len());
                assert(q[jq] == ps[jq]);
                assert(j >= jq);
            }
        }
    }
}

/// Inserting the same pair twice leaves the map as inserting it once.
pub proof fn insert_twice_same_as_once(ps: Seq<Pair>, k: Seq<char>, v: Seq<char>)
    ensures
        with_pair(with_pair(ps, k, v), k, v) == with_pair(ps, k, v),
{
    lemma_key_index(ps, k);
    let q = with_pair(ps, k, v);
    lemma_key_index(q, k);
    let i = key_index(ps, k);
    if i >= 0 {
        assert(q[i].0 == k);
        if key_index(q, k) > i {
            assert(q[key_index(q, k)] == ps[key_index(q, k)]);
        }
        assert(key_index(q, k) == i);
        assert(q.update(i, (k, v)) =~= q);
    } else {
        assert(q[q.len() - 1].0 == k);
        assert(key_index(q, k) == q.len() - 1);
        assert(q.update(q.len() - 1, (k, v)) =~= q);
    }
}

/// `insert_if_absent(k, v)` keeps the value that `k` already has and gives
/// `v` only to a new key; every other key keeps its value.
pub proof fn insert_if_absent_keeps_first(ps: Seq<Pair>, k: Seq<char>, v: Seq<char>, other: Seq<char>)
    ensures
        lookup(with_pair_if_absent(ps, k, v), k) == match lookup(ps, k) {
            Some(w) => Some(w),
            None => Some(v),
        },
        other != k ==> lookup(with_pair_if_absent(ps, k, v), other) == lookup(ps, other),
{
    lemma_key_index(ps, k);
    if key_index(ps, k) < 0 {
        insert_then_get(ps, k, v, other);
    }
}

/// An insertion-ordered string map with unique keys.
#[derive(Debug)]
pub struct StrMap {
    entries: Vec<(String, String)>,
}

impl View for StrMap {
    type V = Seq<Pair>;

    closed spec fn view(&self) -> Seq<Pair> {
        Seq::new(self.entries@.len(), |i: int| (self.entries@[i].0@, self.entries@[i].1@))
    }
}

impl StrMap {
    #[verifier::type_invariant]
    closed spec fn wf(&self) -> bool {
        keys_unique(self@)
    }

    /// An empty map.
    pub fn new() -> (r: Self)
        ensures
            r@ == Seq::<Pair>::empty(),
    {
        let r = StrMap { entries: Vec::new() };
        assert(r@ =~= Seq::<Pair>::empty());
        r
    }

    /// The number of entries.
    pub fn len(&self) -> (r: usize)
        ensures
            r == self@.len(),
            keys_unique(self@),
    {
        proof {
            use_type_invariant(self);
        }
        self.entries.len()
    }

    /// Whether the map holds no entry.
    pub fn is_empty(&self) -> (r: bool)
        ensures
            r == (self@.len() == 0),
    {
        self.entries.len() == 0
    }

    /// The key of the `i`-th entry.
    pub fn key_at(&self, i: usize) -> (r: &String)
        requires
            i < self@.len(),
        ensures
            r@ == self@[i as int].0,
    {
        &self.entries[i].0
    }

    /// The value of the `i`-th entry.
    pub fn value_at(&self, i: usize) -> (r: &String)
        requires
            i < self@.len(),
        ensures
            r@ == self@[i as int].1,
    {
        &self.entries[i].1
    }

    /// A copy of the map.
    pub fn copy(&self) -> (r: Self)
        ensures
            r@ == self@,
    {
        proof {
            use_type_invariant(self);
        }
        let mut entries: Vec<(String, String)> = Vec::new();
        let mut i: usize = 0;
        while i < self.entries.len()
            invariant
                i <= self.entries.len(),
                keys_unique(self@),
                entries@.len() == i,
                forall|j: int| 0 <= j < i ==> entries@[j].0@ == self.entries@[j].0@ && entries@[j].1@
                    == self.entries@[j].1@,
            decreases self.entries.len() - i,
        {
            let k = self.entries[i].0.clone();
            let v = self.entries[i].1.clone();
            entries.push((k, v));
            i = i + 1;
        }
        assert(Seq::new(entries@.len(), |j: int| (entries@[j].0@, entries@[j].1@)) =~= self@);
        let r = StrMap { entries };
        r
    }

    /// Where the key `k` stands.
    fn position(&self, k: &str) -> (r: Option<usize>)
        ensures
            r matches Some(i) ==> i as int == key_index(self@, k@) && i < self@.len()
                && self@.len() == self.entries@.len(),
            r is None ==> key_index(self@, k@) == -1,
    {
        proof {
            use_type_invariant(self);
            lemma_key_index(self@, k@);
        }
        let mut i: usize = 0;
        while i < self.entries.len()
            invariant
                i <= self.entries.len(),
                keys_unique(self@),
                self@.len() == self.entries.len(),
                forall|j: int| 0 <= j < i ==> self@[j].0 != k@,
                -1 <= key_index(self@, k@) < self@.len(),
                key_index(self@, k@) >= 0 ==> self@[key_index(self@, k@)].0 == k@,
                forall|j: int| 0 <= j < self@.len() && self@[j].0 == k@ ==> j == key_index(self@, k@),
                key_index(self@, k@) == -1 ==> forall|j: int| 0 <= j < self@.len() ==> self@[j].0 != k@,
            decreases self.entries.len() - i,
        {
            assert(self@[i as int].0 == self.entries@[i as int].0@);
            if same_text(self.entries[i].0.as_str(), k) {
                return Some(i);
            }
            i = i + 1;
        }
        None
    }

    /// The value of the key `k` (`HashMap::get`).
    pub fn get(&self, k: &str) -> (r: Option<&String>)
        ensures
            r matches Some(v) ==> lookup(self@, k@) == Some(v@),
            r is None ==> lookup(self@, k@) is None,
    {
        match self.position(k) {
            Some(i) => {
                assert(self@[i as int].1 == self.entries@[i as int].1@);
                Some(&self.entries[i].1)
            },
            None => None,
        }
    }

    /// Whether `k` is a key of the map.
    pub fn contains_key(&self, k: &str) -> (r: bool)
        ensures
            r == (lookup(self@, k@) is Some),
    {
        self.position(k).is_some()
    }

    /// Gives the key `k` the value `v` (`HashMap::insert`).
    pub fn insert(&mut self, k: String, v: String)
        ensures
            final(self)@ == with_pair(old(self)@, k@, v@),
    {
        proof {
            use_type_invariant(&*self);
            lemma_key_index(self@, k@);
        }
        let ghost before = self@;
        match self.position(k.as_str()) {
            Some(i) => {
                let mut entries: Vec<(String, String)> = Vec::new();
                std::mem::swap(&mut entries, &mut self.entries);
                entries.set(i, (k, v));
                assert(Seq::new(entries@.len(), |j: int| (entries@[j].0@, entries@[j].1@))
                    =~= before.update(i as int, (k@, v@)));
                self.entries = entries;
            },
            None => {
                let mut entries: Vec<(String, String)> = Vec::new();
                std::mem::swap(&mut entries, &mut self.entries);
                entries.push((k, v));
                assert(Seq::new(entries@.len(), |j: int| (entries@[j].0@, entries@[j].1@))
                    =~= before.push((k@, v@)));
                self.entries = entries;
            },
        }
    }

    /// Gives the key `k` the value `v` unless it has one
    /// (`HashMap::entry(k).or_insert(v)`).
    pub fn insert_if_absent(&mut self, k: String, v: String)
        ensures
            final(self)@ == with_pair_if_absent(old(self)@, k@, v@),
    {
        proof {
            use_type_invariant(&*self);
            lemma_key_index(self@, k@);
        }
        let ghost before = self@;
        if self.position(k.as_str()).is_none() {
            let mut entries: Vec<(String, String)> = Vec::new();
                std::mem::swap(&mut entries, &mut self.entries);
            entries.push((k, v));
            assert(Seq::new(entries@.len(), |j: int| (entries@[j].0@, entries@[j].1@))
                =~= before.push((k@, v@)));
            self.entries = entries;
        }
    }
}

} // verus!
