//! Private field conversion: TypeScript private fields (`#field`) become
//! regular properties (`__field`), as VSCode's build does for speed.
use vstd::prelude::*;

use crate::text::{chars_of, contains_text, has_prefix, has_sub, occurs_at, owned, push_char, push_text};

verus! {

broadcast use vstd::string::group_string_axioms;

/// Configuration for the private field transform.
#[derive(Debug, Clone)]
pub struct Config {
    /// Prefix for converted private fields.
    pub prefix: String,
    /// Whether to keep the original private identifier in comments.
    pub preserve_comments: bool,
}

impl Config {
    /// The `__` prefix, comments preserved.
    pub fn new() -> (r: Self)
        ensures
            r.prefix@ == "__"@,
            r.preserve_comments,
    {
        Config { prefix: owned("__"), preserve_comments: true }
    }
}

impl Default for Config {
    /// An empty prefix, comments not preserved.
    fn default() -> (r: Self)
        ensures
            r.prefix@.len() == 0,
            !r.preserve_comments,
    {
        Config { prefix: String::new(), preserve_comments: false }
    }
}

/// Converts TypeScript private fields (`#field`) to regular properties.
#[derive(Debug)]
pub struct PrivateFieldTransform {
    config: Config,
}

impl PrivateFieldTransform {
    /// The transform's configuration.
    pub closed spec fn cfg(&self) -> Config {
        self.config
    }

    /// A transform with the default `Config::new()`.
    pub fn new() -> (r: Self)
        ensures
            r.cfg().prefix@ == "__"@,
            r.cfg().preserve_comments,
    {
        PrivateFieldTransform { config: Config::new() }
    }

    /// A transform with the configuration `config`.
    pub fn with_config(config: Config) -> (r: Self)
        ensures
            r.cfg() == config,
    {
        PrivateFieldTransform { config }
    }

    /// The transform's configuration.
    pub fn config(&self) -> (r: &Config)
        ensures
            *r == self.cfg(),
    {
        &self.config
    }

    /// The regular name of a private identifier: the prefix, then the name.
    pub fn convert_private_name(&self, name: &str) -> (r: String)
        ensures
            r@ == self.cfg().prefix@ + name@,
    {
        let mut r = self.config.prefix.clone();
        push_text(&mut r, name);
        r
    }

    /// Whether `name` is a private field: it begins with `#`.
    pub fn is_private_field(&self, name: &str) -> (r: bool)
        ensures
            r == has_prefix(name@, seq!['#']),
    {
        proof {
            reveal_strlit("#");
            assert("#"@ =~= seq!['#']);
        }
        crate::text::starts_with_text(name, "#")
    }
}

impl Default for PrivateFieldTransform {
    fn default() -> (r: Self)
        ensures
            r.cfg().prefix@ == "__"@,
            r.cfg().preserve_comments,
    {
        Self::new()
    }
}

/// A character that can begin a private name after `#`: an ASCII letter,
/// `_` or `$`.
pub open spec fn name_start(c: char) -> bool {
    ('a' <= c && c <= 'z') || ('A' <= c && c <= 'Z') || c == '_' || c == '$'
}

/// Whether `s` holds a private name: a `#` followed by a name start.
pub open spec fn has_private_name(s: Seq<char>) -> bool {
    exists|i: int| 0 <= i < s.len() - 1 && s[i] == '#' && #[trigger] name_start(s[i + 1])
}

/// `s` with the `#` of every private name replaced by `prefix`: each
/// `#name` becomes `prefix` followed by `name`.
pub open spec fn private_names_replaced(s: Seq<char>, prefix: Seq<char>) -> Seq<char>
    decreases s.len(),
{
    if s.len() == 0 {
        seq![]
    } else if s.len() >= 2 && s[0] == '#' && name_start(s[1]) {
        prefix + private_names_replaced(s.drop_first(), prefix)
    } else {
        seq![s[0]] + private_names_replaced(s.drop_first(), prefix)
    }
}

/// The text-level private field conversion: where `source` holds a `#` and
/// not yet the prefix, each private name `#name` becomes `prefix` followed
/// by `name`.
pub open spec fn private_fields_converted(source: Seq<char>, prefix: Seq<char>) -> Seq<char> {
    if has_sub(source, seq!['#']) && !has_sub(source, prefix) {
        private_names_replaced(source, prefix)
    } else {
        source
    }
}

/// A text without private names is left as it is.
proof fn lemma_no_private_names(s: Seq<char>, prefix: Seq<char>)
    requires
        !has_private_name(s),
    ensures
        private_names_replaced(s, prefix) == s,
    decreases s.len(),
{
    if s.len() > 0 {
        let t = s.drop_first();
        assert(!has_private_name(t)) by {
            if has_private_name(t) {
                let i = choose|i: int| 0 <= i < t.len() - 1 && t[i] == '#' && #[trigger] name_start(t[i + 1]);
                assert(s[i + 1] == '#' && s[i + 2] == t[i + 1]);
                assert(name_start(s[(i + 1) + 1]));
            }
        }
        if s.len() >= 2 && s[0] == '#' && name_start(s[1]) {
            assert(name_start(s[0int + 1]));
        }
        lemma_no_private_names(t, prefix);
        assert(seq![s[0]] + t =~= s);
    }
}

/// Where `s` holds a private name, the result holds the prefix.
proof fn lemma_private_name_gives_prefix(s: Seq<char>, prefix: Seq<char>)
    requires
        has_private_name(s),
    ensures
        has_sub(private_names_replaced(s, prefix), prefix),
    decreases s.len(),
{
    let out = private_names_replaced(s, prefix);
    if s.len() >= 2 && s[0] == '#' && name_start(s[1]) {
        assert(out.subrange(0, prefix.len() as int) =~= prefix);
        assert(occurs_at(out, prefix, 0));
    } else {
        let i = choose|i: int| 0 <= i < s.len() - 1 && s[i] == '#' && #[trigger] name_start(s[i + 1]);
        assert(i != 0);
        let t = s.drop_first();
        assert(t[i - 1] == '#' && t[(i - 1) + 1] == s[i + 1]);
        assert(has_private_name(t));
        lemma_private_name_gives_prefix(t, prefix);
        let inner = private_names_replaced(t, prefix);
        let j = choose|j: int| occurs_at(inner, prefix, j);
        assert(out == seq![s[0]] + inner);
        assert(out.subrange(j + 1, j + 1 + prefix.len()) =~= inner.subrange(j, j + prefix.len()));
        assert(occurs_at(out, prefix, j + 1));
    }
}

/// Converting private fields twice gives what converting once gives.
pub proof fn private_field_conversion_is_idempotent(source: Seq<char>, prefix: Seq<char>)
    ensures
        private_fields_converted(private_fields_converted(source, prefix), prefix)
            == private_fields_converted(source, prefix),
{
    if has_sub(source, seq!['#']) && !has_sub(source, prefix) {
        if has_private_name(source) {
            lemma_private_name_gives_prefix(source, prefix);
        } else {
            lemma_no_private_names(source, prefix);
        }
    }
}

/// The number of `#` characters in `s`.
pub open spec fn hash_count(s: Seq<char>) -> nat
    decreases s.len(),
{
    if s.len() == 0 {
        0
    } else {
        (if s[0] == '#' {
            1nat
        } else {
            0nat
        }) + hash_count(s.drop_first())
    }
}

/// The number of private names in `s`: the positions holding a `#` that a
/// name start follows.
pub open spec fn private_name_count(s: Seq<char>) -> nat
    decreases s.len(),
{
    if s.len() == 0 {
        0
    } else {
        (if s.len() >= 2 && s[0] == '#' && name_start(s[1]) {
            1nat
        } else {
            0nat
        }) + private_name_count(s.drop_first())
    }
}

/// Counting `#` splits over a concatenation.
proof fn lemma_hash_count_concat(a: Seq<char>, b: Seq<char>)
    ensures
        hash_count(a + b) == hash_count(a) + hash_count(b),
    decreases a.len(),
{
    if a.len() == 0 {
        assert(a + b =~= b);
    } else {
        lemma_hash_count_concat(a.drop_first(), b);
        assert((a + b).drop_first() =~= a.drop_first() + b);
        assert((a + b)[0] == a[0]);
    }
}

/// A text without `#` counts none.
proof fn lemma_hash_count_none(a: Seq<char>)
    requires
        !a.contains('#'),
    ensures
        hash_count(a) == 0,
    decreases a.len(),
{
    if a.len() > 0 {
        assert(a.drop_first().len() < a.len());
        assert forall|j: int| 0 <= j < a.drop_first().len() implies a.drop_first()[j] != '#' by {
            assert(a.drop_first()[j] == a[j + 1]);
            if a[j + 1] == '#' {
                assert(a.contains('#'));
            }
        }
        if a[0] == '#' {
            assert(a.contains('#'));
        }
        lemma_hash_count_none(a.drop_first());
    }
}

/// Each private name, every one and not only the first, loses its `#`:
/// with a prefix that holds no `#`, the result holds exactly as many `#`
/// as the source less one for each private name, and its length grows by
/// the prefix's length less one for each private name.
pub proof fn every_private_name_is_replaced(s: Seq<char>, prefix: Seq<char>)
    requires
        !prefix.contains('#'),
    ensures
        private_name_count(s) <= hash_count(s),
        hash_count(private_names_replaced(s, prefix)) == hash_count(s) - private_name_count(s),
        private_names_replaced(s, prefix).len() == s.len() + private_name_count(s) * prefix.len()
            - private_name_count(s),
    decreases s.len(),
{
    if s.len() > 0 {
        let t = s.drop_first();
        every_private_name_is_replaced(t, prefix);
        let rt = private_names_replaced(t, prefix);
        let k = private_name_count(t);
        if s.len() >= 2 && s[0] == '#' && name_start(s[1]) {
            lemma_hash_count_concat(prefix, rt);
            lemma_hash_count_none(prefix);
            assert(s.len() + (k + 1) * prefix.len() - (k + 1) == prefix.len() + (t.len() + k * prefix.len()
                - k)) by (nonlinear_arith)
                requires
                    s.len() == t.len() + 1,
            ;
        } else {
            let one = seq![s[0]];
            lemma_hash_count_concat(one, rt);
            assert(one.drop_first() =~= Seq::<char>::empty());
            assert(hash_count(one.drop_first()) == 0);
            assert(one[0] == s[0]);
            assert(hash_count(one) == if s[0] == '#' {
                1nat
            } else {
                0nat
            });
        }
    }
}

/// Where the conversion applies and the prefix holds no `#`, every private
/// name of the source is converted: the result's `#` are the source's less
/// one per private name; where it does not apply, the source comes back
/// as it is.
pub proof fn conversion_removes_every_private_name(source: Seq<char>, prefix: Seq<char>)
    requires
        !prefix.contains('#'),
    ensures
        has_sub(source, seq!['#']) && !has_sub(source, prefix) ==> hash_count(
            private_fields_converted(source, prefix),
        ) == hash_count(source) - private_name_count(source),
        !(has_sub(source, seq!['#']) && !has_sub(source, prefix)) ==> private_fields_converted(source, prefix)
            == source,
{
    every_private_name_is_replaced(source, prefix);
}

/// Whether `c` can begin a private name.
fn is_name_start(c: char) -> (r: bool)
    ensures
        r == name_start(c),
{
    ('a' <= c && c <= 'z') || ('A' <= c && c <= 'Z') || c == '_' || c == '$'
}

/// Applies the private field conversion to source text: where it holds a
/// `#` and not yet the prefix, each private name `#name` becomes `prefix`
/// followed by `name` (`this.#count` becomes `this.__count` with `__`).
pub fn convert_private_fields(source: &str, prefix: &str) -> (r: String)
    ensures
        r@ == private_fields_converted(source@, prefix@),
{
    proof {
        reveal_strlit("#");
        assert("#"@ =~= seq!['#']);
    }
    if !(contains_text(source, "#") && !contains_text(source, prefix)) {
        return owned(source);
    }
    let cs = chars_of(source);
    let n = cs.len();
    let mut out = String::new();
    let mut i: usize = 0;
    assert(source@.subrange(0, n as int) =~= source@);
    while i < n
        invariant
            i <= n,
            n == cs.len(),
            cs@ == source@,
            out@ + private_names_replaced(source@.subrange(i as int, n as int), prefix@)
                == private_names_replaced(source@, prefix@),
        decreases n - i,
    {
        let ghost rest = source@.subrange(i as int, n as int);
        assert(rest.drop_first() =~= source@.subrange(i + 1, n as int));
        assert(rest[0] == cs@[i as int]);
        if i + 1 < n && cs[i] == '#' && is_name_start(cs[i + 1]) {
            assert(rest[1] == cs@[i + 1]);
            let ghost before = out@;
            push_text(&mut out, prefix);
            assert(before + (prefix@ + private_names_replaced(rest.drop_first(), prefix@)) =~= out@
                + private_names_replaced(rest.drop_first(), prefix@));
        } else {
            proof {
                if rest.len() >= 2 {
                    assert(rest[1] == cs@[i + 1]);
                }
            }
            let ghost before = out@;
            push_char(&mut out, cs[i]);
            assert(before + (seq![cs@[i as int]] + private_names_replaced(rest.drop_first(), prefix@))
                =~= out@ + private_names_replaced(rest.drop_first(), prefix@));
        }
        i = i + 1;
    }
    assert(source@.subrange(n as int, n as int) =~= Seq::<char>::empty());
    assert(out@ + Seq::<char>::empty() =~= out@);
    out
}

} // verus!
