//! Character-level text operations shared by the whole library: searching,
//! replacing, trimming, splitting into lines and pieces, and hexadecimal
//! formatting. Every operation is stated over `Seq<char>` and mirrors the
//! behaviour of the corresponding `str` method.
use vstd::prelude::*;

verus! {

broadcast use vstd::string::group_string_axioms;

// ------------------------------------------------------------------------
// Specification
// ------------------------------------------------------------------------

/// `p` occurs in `s` starting at index `i`.
pub open spec fn occurs_at(s: Seq<char>, p: Seq<char>, i: int) -> bool {
    0 <= i && i + p.len() <= s.len() && s.subrange(i, i + p.len()) == p
}

/// `p` occurs somewhere in `s` (`str::contains`).
pub open spec fn has_sub(s: Seq<char>, p: Seq<char>) -> bool {
    exists|i: int| occurs_at(s, p, i)
}

/// `s` begins with `p` (`str::starts_with`).
pub open spec fn has_prefix(s: Seq<char>, p: Seq<char>) -> bool {
    occurs_at(s, p, 0)
}

/// `s` ends with `p` (`str::ends_with`).
pub open spec fn has_suffix(s: Seq<char>, p: Seq<char>) -> bool {
    p.len() <= s.len() && occurs_at(s, p, s.len() - p.len())
}

/// The first index at or after `k` where `p` occurs in `s`.
pub open spec fn first_match_from(s: Seq<char>, p: Seq<char>, k: int) -> Option<int>
    decreases s.len() - k,
{
    if k < 0 || k + p.len() > s.len() {
        None
    } else if occurs_at(s, p, k) {
        Some(k)
    } else if p.len() == 0 {
        None
    } else {
        first_match_from(s, p, k + 1)
    }
}

/// The first index where `p` occurs in `s` (`str::find`, counted in characters).
pub open spec fn first_match(s: Seq<char>, p: Seq<char>) -> Option<int> {
    first_match_from(s, p, 0)
}

/// Every non-overlapping occurrence of `p` in `s`, scanning from the left,
/// replaced by `r` (`str::replace` with a non-empty pattern).
pub open spec fn replaced(s: Seq<char>, p: Seq<char>, r: Seq<char>) -> Seq<char>
    decreases s.len(),
{
    if s.len() == 0 {
        seq![]
    } else if p.len() > 0 && has_prefix(s, p) {
        r + replaced(s.subrange(p.len() as int, s.len() as int), p, r)
    } else {
        seq![s[0]] + replaced(s.subrange(1, s.len() as int), p, r)
    }
}

/// Unicode `White_Space`, as `char::is_whitespace` decides it.
pub open spec fn is_white(c: char) -> bool {
    ||| ('\u{9}' <= c && c <= '\u{d}')
    ||| c == ' '
    ||| c == '\u{85}'
    ||| c == '\u{a0}'
    ||| c == '\u{1680}'
    ||| ('\u{2000}' <= c && c <= '\u{200a}')
    ||| c == '\u{2028}'
    ||| c == '\u{2029}'
    ||| c == '\u{202f}'
    ||| c == '\u{205f}'
    ||| c == '\u{3000}'
}

/// What a trimming operation strips from the ends of a text.
#[derive(Clone, Copy, Debug, PartialEq, Eq, Structural)]
pub enum Strip {
    /// Whitespace, as `str::trim` strips it.
    White,
    /// One given character, as `str::trim_matches(c)` strips it.
    Exactly(char),
}

/// Whether `k` strips the character `c`.
pub open spec fn strips(k: Strip, c: char) -> bool {
    match k {
        Strip::White => is_white(c),
        Strip::Exactly(d) => c == d,
    }
}

/// `s` without the characters that `k` strips at its front.
pub open spec fn strip_front(s: Seq<char>, k: Strip) -> Seq<char>
    decreases s.len(),
{
    if s.len() > 0 && strips(k, s[0]) {
        strip_front(s.drop_first(), k)
    } else {
        s
    }
}

/// `s` without the characters that `k` strips at its back.
pub open spec fn strip_back(s: Seq<char>, k: Strip) -> Seq<char>
    decreases s.len(),
{
    if s.len() > 0 && strips(k, s.last()) {
        strip_back(s.drop_last(), k)
    } else {
        s
    }
}

/// `s` without what `k` strips at both ends (`str::trim`, `str::trim_matches`).
pub open spec fn stripped(s: Seq<char>, k: Strip) -> Seq<char> {
    strip_back(strip_front(s, k), k)
}

/// `str::trim`.
pub open spec fn trimmed(s: Seq<char>) -> Seq<char> {
    stripped(s, Strip::White)
}

/// The longest prefix of `s` that does not hold `c`.
pub open spec fn before_char(s: Seq<char>, c: char) -> Seq<char>
    decreases s.len(),
{
    if s.len() == 0 {
        s
    } else if s[0] == c {
        seq![]
    } else {
        seq![s[0]] + before_char(s.drop_first(), c)
    }
}

/// The pieces of `s` between occurrences of `c` (`str::split(c)`).
pub open spec fn pieces(s: Seq<char>, c: char) -> Seq<Seq<char>>
    decreases s.len(),
{
    let b = before_char(s, c);
    if b.len() >= s.len() {
        seq![s]
    } else {
        seq![b] + pieces(s.subrange(b.len() as int + 1, s.len() as int), c)
    }
}

/// A line without the carriage return that ended it.
pub open spec fn without_cr(l: Seq<char>) -> Seq<char> {
    if l.len() > 0 && l.last() == '\r' {
        l.drop_last()
    } else {
        l
    }
}

/// The lines of `s` (`str::lines`): split at `\n`, a `\r` before the `\n`
/// dropped, and no empty line after a final `\n`.
pub open spec fn lines_of(s: Seq<char>) -> Seq<Seq<char>>
    decreases s.len(),
{
    let b = before_char(s, '\n');
    if s.len() == 0 {
        seq![]
    } else if b.len() >= s.len() {
        seq![s]
    } else {
        seq![without_cr(b)] + lines_of(s.subrange(b.len() as int + 1, s.len() as int))
    }
}

/// The lower-case hexadecimal digit of `d`.
pub open spec fn hex_digit(d: int) -> char {
    if d < 10 {
        (48 + d) as char
    } else {
        (87 + d) as char
    }
}

/// `format!("{:x}", n)`: the lower-case hexadecimal numeral of `n`.
pub open spec fn hex_of(n: nat) -> Seq<char>
    decreases n,
{
    if n < 16 {
        seq![hex_digit(n as int)]
    } else {
        hex_of(n / 16) + seq![hex_digit((n % 16) as int)]
    }
}

/// The views of a sequence of character vectors.
pub open spec fn views(v: Seq<Vec<char>>) -> Seq<Seq<char>> {
    v.map_values(|x: Vec<char>| x@)
}

/// The views of a sequence of strings.
pub open spec fn texts(v: Seq<String>) -> Seq<Seq<char>> {
    v.map_values(|x: String| x@)
}

// ------------------------------------------------------------------------
// Lemmas
// ------------------------------------------------------------------------

/// `before_char` is the prefix up to the first `c`.
pub proof fn lemma_before_char(t: Seq<char>, c: char, k: int)
    requires
        0 <= k <= t.len(),
        forall|j: int| 0 <= j < k ==> t[j] != c,
        k == t.len() || t[k] == c,
    ensures
        before_char(t, c) == t.subrange(0, k),
    decreases t.len(),
{
    if t.len() == 0 {
        assert(t.subrange(0, k) =~= t);
    } else if k == 0 {
        assert(t.subrange(0, 0) =~= Seq::<char>::empty());
    } else {
        let u = t.drop_first();
        assert forall|j: int| 0 <= j < k - 1 implies u[j] != c by {
            assert(u[j] == t[j + 1]);
        }
        if k < t.len() {
            assert(u[k - 1] == t[k]);
        }
        lemma_before_char(u, c, k - 1);
        assert(seq![t[0]] + u.subrange(0, k - 1) =~= t.subrange(0, k));
    }
}

/// `before_char` never outgrows its text.
pub proof fn lemma_before_char_len(t: Seq<char>, c: char)
    ensures
        before_char(t, c).len() <= t.len(),
        before_char(t, c).len() < t.len() ==> t[before_char(t, c).len() as int] == c,
        before_char(t, c) == t.subrange(0, before_char(t, c).len() as int),
    decreases t.len(),
{
    if t.len() > 0 && t[0] != c {
        lemma_before_char_len(t.drop_first(), c);
        let u = t.drop_first();
        let b = before_char(u, c);
        assert(seq![t[0]] + u.subrange(0, b.len() as int) =~= t.subrange(0, b.len() as int + 1));
    } else if t.len() > 0 {
        assert(t.subrange(0, 0) =~= Seq::<char>::empty());
    } else {
        assert(t.subrange(0, 0) =~= t);
    }
}

/// An occurrence of `p` in `s` after its first character is one in the rest.
proof fn lemma_occurs_shift(s: Seq<char>, p: Seq<char>, i: int)
    requires
        s.len() > 0,
        i >= 0,
    ensures
        occurs_at(s, p, i + 1) <==> occurs_at(s.subrange(1, s.len() as int), p, i),
{
    let rest = s.subrange(1, s.len() as int);
    if i + 1 + p.len() <= s.len() {
        assert(s.subrange(i + 1, i + 1 + p.len()) =~= rest.subrange(i, i + p.len()));
    }
}

/// Where `p` does not occur in `s`, replacing it changes nothing.
pub proof fn lemma_replaced_without_match(s: Seq<char>, p: Seq<char>, r: Seq<char>)
    requires
        p.len() > 0,
        !has_sub(s, p),
    ensures
        replaced(s, p, r) == s,
    decreases s.len(),
{
    if s.len() > 0 {
        assert(!occurs_at(s, p, 0));
        let rest = s.subrange(1, s.len() as int);
        assert(!has_sub(rest, p)) by {
            if has_sub(rest, p) {
                let i = choose|i: int| occurs_at(rest, p, i);
                lemma_occurs_shift(s, p, i);
            }
        }
        lemma_replaced_without_match(rest, p, r);
        assert(seq![s[0]] + rest =~= s);
    }
}

/// Where `p` occurs in `s`, the replacement occurs in the result.
pub proof fn lemma_replaced_holds_replacement(s: Seq<char>, p: Seq<char>, r: Seq<char>)
    requires
        p.len() > 0,
        has_sub(s, p),
    ensures
        has_sub(replaced(s, p, r), r),
    decreases s.len(),
{
    let i = choose|i: int| occurs_at(s, p, i);
    let rest = s.subrange(1, s.len() as int);
    if has_prefix(s, p) {
        let out = replaced(s, p, r);
        assert(out.subrange(0, r.len() as int) =~= r);
        assert(occurs_at(out, r, 0));
    } else {
        assert(i != 0);
        lemma_occurs_shift(s, p, i - 1);
        lemma_replaced_holds_replacement(rest, p, r);
        let inner = replaced(rest, p, r);
        let j = choose|j: int| occurs_at(inner, r, j);
        let out = seq![s[0]] + inner;
        assert(out.subrange(j + 1, j + 1 + r.len()) =~= inner.subrange(j, j + r.len()));
        assert(occurs_at(out, r, j + 1));
    }
}

/// A text that holds `p` followed by more holds `p`.
pub proof fn lemma_has_sub_of_longer(s: Seq<char>, p: Seq<char>, c: char)
    requires
        has_sub(s, p.push(c)),
    ensures
        has_sub(s, p),
{
    let i = choose|i: int| occurs_at(s, p.push(c), i);
    assert(s.subrange(i, i + p.len()) =~= s.subrange(i, i + p.len() + 1).subrange(0, p.len() as int));
    assert(p.push(c).subrange(0, p.len() as int) =~= p);
    assert(occurs_at(s, p, i));
}

/// `s` holds no `c`.
pub open spec fn lacks(s: Seq<char>, c: char) -> bool {
    forall|j: int| 0 <= j < s.len() ==> s[j] != c
}

/// `before_char` holds no `c`.
proof fn lemma_before_char_lacks(s: Seq<char>, c: char)
    ensures
        lacks(before_char(s, c), c),
    decreases s.len(),
{
    if s.len() > 0 && s[0] != c {
        lemma_before_char_lacks(s.drop_first(), c);
        let b = before_char(s.drop_first(), c);
        assert forall|j: int| 0 <= j < (seq![s[0]] + b).len() implies (seq![s[0]] + b)[j] != c by {
            if j > 0 {
                assert((seq![s[0]] + b)[j] == b[j - 1]);
            }
        }
    }
}

/// No line of `s` holds a newline.
pub proof fn lemma_lines_lack_newline(s: Seq<char>)
    ensures
        forall|i: int| 0 <= i < lines_of(s).len() ==> lacks(#[trigger] lines_of(s)[i], '\n'),
    decreases s.len(),
{
    if s.len() > 0 {
        let b = before_char(s, '\n');
        lemma_before_char_lacks(s, '\n');
        lemma_before_char_len(s, '\n');
        if b.len() < s.len() {
            let rest = s.subrange(b.len() as int + 1, s.len() as int);
            lemma_lines_lack_newline(rest);
            let ls = seq![without_cr(b)] + lines_of(rest);
            assert(lines_of(s) == ls);
            assert forall|i: int| 0 <= i < ls.len() implies lacks(#[trigger] ls[i], '\n') by {
                if i > 0 {
                    assert(ls[i] == lines_of(rest)[i - 1]);
                } else {
                    assert forall|j: int| 0 <= j < without_cr(b).len() implies without_cr(b)[j] != '\n' by {
                        assert(without_cr(b)[j] == b[j]);
                    }
                }
            }
        } else {
            assert forall|j: int| 0 <= j < without_cr(b).len() implies without_cr(b)[j] != '\n' by {
                assert(without_cr(b)[j] == b[j]);
            }
            assert(b == s);
            assert(lines_of(s)[0] == s);
        }
    }
}

/// The lines of `x + y`, where `x` is empty or ends with a newline, are
/// those of `x` followed by those of `y`.
pub proof fn lemma_lines_of_concat(x: Seq<char>, y: Seq<char>)
    requires
        x.len() == 0 || x.last() == '\n',
    ensures
        lines_of(x + y) == lines_of(x) + lines_of(y),
    decreases x.len(),
{
    if x.len() == 0 {
        assert(x + y =~= y);
        assert(lines_of(x) + lines_of(y) =~= lines_of(y));
    } else {
        let b = before_char(x, '\n');
        lemma_before_char_len(x, '\n');
        lemma_before_char_lacks(x, '\n');
        let k = b.len() as int;
        if k == x.len() {
            assert(b[x.len() - 1] == x.last());
        }
        assert(k < x.len());
        let s = x + y;
        assert forall|j: int| 0 <= j < k implies s[j] != '\n' by {
            assert(s[j] == x[j] && x[j] == b[j]);
        }
        assert(s[k] == x[k]);
        lemma_before_char(s, '\n', k);
        assert(s.subrange(0, k) =~= x.subrange(0, k));
        let xr = x.subrange(k + 1, x.len() as int);
        assert(s.subrange(k + 1, s.len() as int) =~= xr + y);
        if xr.len() > 0 {
            assert(xr.last() == x.last());
        }
        lemma_lines_of_concat(xr, y);
        assert(lines_of(x) == seq![without_cr(b)] + lines_of(xr));
        assert(lines_of(s) == seq![without_cr(b)] + lines_of(xr + y));
        assert(seq![without_cr(b)] + (lines_of(xr) + lines_of(y)) =~= seq![without_cr(b)] + lines_of(xr)
            + lines_of(y));
    }
}

/// A line without newlines, followed by one, is one line.
pub proof fn lemma_lines_of_line(l: Seq<char>)
    requires
        lacks(l, '\n'),
    ensures
        lines_of(l.push('\n')) == seq![without_cr(l)],
{
    let s = l.push('\n');
    assert forall|j: int| 0 <= j < l.len() implies s[j] != '\n' by {
        assert(s[j] == l[j]);
    }
    lemma_before_char(s, '\n', l.len() as int);
    assert(s.subrange(0, l.len() as int) =~= l);
    assert(s.subrange(l.len() as int + 1, s.len() as int) =~= Seq::<char>::empty());
    assert(lines_of(Seq::<char>::empty()) == Seq::<Seq<char>>::empty());
    assert(seq![without_cr(l)] + Seq::<Seq<char>>::empty() =~= seq![without_cr(l)]);
}

// ------------------------------------------------------------------------
// Execution
// ------------------------------------------------------------------------

/// Appends one character to a string, through `String::push`.
#[verifier::external_body]
pub(crate) fn push_char(s: &mut String, c: char)
    ensures
        final(s)@ == old(s)@.push(c),
{
    s.push(c);
}

/// Appends a text to a string.
pub fn push_text(s: &mut String, t: &str)
    ensures
        final(s)@ == old(s)@ + t@,
{
    s.append(t);
}

/// The characters of `s`, in order.
pub fn chars_of(s: &str) -> (r: Vec<char>)
    ensures
        r@ == s@,
{
    let mut r: Vec<char> = Vec::new();
    for c in it: s.chars()
        invariant
            r@ == it.seq().take(it.index() as int),
            it.seq() == s@,
    {
        r.push(c);
    }
    r
}

/// Appends characters to a string.
pub fn push_chars(s: &mut String, cs: &Vec<char>)
    ensures
        final(s)@ == old(s)@ + cs@,
{
    let ghost start = s@;
    let mut i: usize = 0;
    while i < cs.len()
        invariant
            i <= cs.len(),
            s@ == start + cs@.take(i as int),
        decreases cs.len() - i,
    {
        push_char(s, cs[i]);
        i = i + 1;
        assert(start + cs@.take(i as int) =~= (start + cs@.take(i - 1)).push(cs@[i - 1]));
    }
    assert(cs@.take(cs.len() as int) =~= cs@);
}

/// A string holding the characters `cs`.
pub fn text_of(cs: &Vec<char>) -> (r: String)
    ensures
        r@ == cs@,
{
    let mut r = String::new();
    push_chars(&mut r, cs);
    r
}

/// A copy of a text, as an owned string.
pub fn owned(s: &str) -> (r: String)
    ensures
        r@ == s@,
{
    s.to_string()
}

/// The characters `s[from..to]`.
pub fn slice_chars(s: &Vec<char>, from: usize, to: usize) -> (r: Vec<char>)
    requires
        from <= to <= s.len(),
    ensures
        r@ == s@.subrange(from as int, to as int),
{
    let mut r: Vec<char> = Vec::new();
    let mut i = from;
    while i < to
        invariant
            from <= i <= to <= s.len(),
            r@ == s@.subrange(from as int, i as int),
        decreases to - i,
    {
        r.push(s[i]);
        i = i + 1;
        assert(r@ =~= s@.subrange(from as int, i as int));
    }
    r
}

/// Whether `p` occurs in `s` at index `i`.
pub fn matches_at(s: &Vec<char>, p: &Vec<char>, i: usize) -> (r: bool)
    ensures
        r == occurs_at(s@, p@, i as int),
{
    if i > s.len() || p.len() > s.len() - i {
        return false;
    }
    let mut j: usize = 0;
    while j < p.len()
        invariant
            j <= p.len(),
            i + p.len() <= s.len(),
            forall|m: int| 0 <= m < j ==> s@[i + m] == p@[m],
        decreases p.len() - j,
    {
        if s[i + j] != p[j] {
            assert(s@.subrange(i as int, i + p.len())[j as int] != p@[j as int]);
            return false;
        }
        j = j + 1;
    }
    assert(s@.subrange(i as int, i + p.len()) =~= p@);
    true
}

/// `str::find` over characters: the first index where `p` occurs in `s`.
pub fn find_in(s: &Vec<char>, p: &Vec<char>) -> (r: Option<usize>)
    ensures
        r matches Some(k) ==> first_match(s@, p@) == Some(k as int) && occurs_at(s@, p@, k as int),
        r is None ==> first_match(s@, p@) is None,
{
    if p.len() > s.len() {
        return None;
    }
    let mut i: usize = 0;
    while i <= s.len() - p.len()
        invariant
            i <= s.len() - p.len() + 1,
            p.len() <= s.len(),
            first_match(s@, p@) == first_match_from(s@, p@, i as int),
        decreases s.len() + 1 - i,
    {
        if matches_at(s, p, i) {
            return Some(i);
        }
        if p.len() == 0 {
            assert(s@.subrange(i as int, i as int) =~= p@);
            return None;
        }
        i = i + 1;
    }
    None
}

/// The first position at which the character `c` stands in `s`.
pub fn find_char(s: &Vec<char>, c: char) -> (r: Option<usize>)
    ensures
        r matches Some(k) ==> k < s.len() && first_match(s@, seq![c]) == Some(k as int),
        r is None ==> first_match(s@, seq![c]) is None,
{
    let mut p: Vec<char> = Vec::new();
    p.push(c);
    assert(p@ =~= seq![c]);
    find_in(s, &p)
}

/// `str::contains`.
pub fn contains_text(s: &str, p: &str) -> (r: bool)
    ensures
        r == has_sub(s@, p@),
{
    let sv = chars_of(s);
    let pv = chars_of(p);
    if pv.len() > sv.len() {
        assert forall|i: int| !occurs_at(s@, p@, i) by {}
        return false;
    }
    if pv.len() == 0 {
        assert(occurs_at(s@, p@, 0)) by {
            assert(s@.subrange(0, 0) =~= p@);
        }
        return true;
    }
    let mut i: usize = 0;
    while i <= sv.len() - pv.len()
        invariant
            sv@ == s@,
            pv@ == p@,
            0 < pv.len() <= sv.len(),
            i <= sv.len() - pv.len() + 1,
            forall|j: int| 0 <= j < i ==> !occurs_at(s@, p@, j),
        decreases sv.len() + 1 - i,
    {
        if matches_at(&sv, &pv, i) {
            return true;
        }
        i = i + 1;
    }
    assert forall|j: int| !occurs_at(s@, p@, j) by {
        if j >= i {
            assert(j + p@.len() > s@.len());
        }
    }
    false
}

/// `str::starts_with`.
pub fn starts_with_text(s: &str, p: &str) -> (r: bool)
    ensures
        r == has_prefix(s@, p@),
{
    let sv = chars_of(s);
    let pv = chars_of(p);
    matches_at(&sv, &pv, 0)
}

/// `str::ends_with`.
pub fn ends_with_text(s: &str, p: &str) -> (r: bool)
    ensures
        r == has_suffix(s@, p@),
{
    let sv = chars_of(s);
    let pv = chars_of(p);
    if pv.len() > sv.len() {
        return false;
    }
    matches_at(&sv, &pv, sv.len() - pv.len())
}

/// `str::replace` with a non-empty pattern, over characters.
pub fn replace_chars(s: &Vec<char>, p: &Vec<char>, r: &Vec<char>) -> (out: Vec<char>)
    requires
        p.len() > 0,
    ensures
        out@ == replaced(s@, p@, r@),
{
    let mut out: Vec<char> = Vec::new();
    let mut i: usize = 0;
    assert(s@.subrange(0, s.len() as int) =~= s@);
    assert(out@ + replaced(s@, p@, r@) =~= replaced(s@, p@, r@));
    while i < s.len()
        invariant
            i <= s.len(),
            p.len() > 0,
            out@ + replaced(s@.subrange(i as int, s.len() as int), p@, r@) == replaced(s@, p@, r@),
        decreases s.len() - i,
    {
        let ghost rest = s@.subrange(i as int, s.len() as int);
        let ghost before = out@;
        if matches_at(s, p, i) {
            assert(rest.subrange(0, p.len() as int) =~= s@.subrange(i as int, i + p.len()));
            assert(rest.subrange(p.len() as int, rest.len() as int) =~= s@.subrange(
                i + p.len(),
                s.len() as int,
            ));
            let mut j: usize = 0;
            while j < r.len()
                invariant
                    j <= r.len(),
                    out@ == before + r@.take(j as int),
                decreases r.len() - j,
            {
                out.push(r[j]);
                j = j + 1;
                assert(out@ =~= before + r@.take(j as int));
            }
            assert(r@.take(r.len() as int) =~= r@);
            assert(before + r@ + replaced(s@.subrange(i + p.len(), s.len() as int), p@, r@)
                =~= before + (r@ + replaced(s@.subrange(i + p.len(), s.len() as int), p@, r@)));
            i = i + p.len();
        } else {
            proof {
                if has_prefix(rest, p@) {
                    assert(rest.subrange(0, p.len() as int) =~= s@.subrange(i as int, i + p.len()));
                }
            }
            assert(rest.subrange(1, rest.len() as int) =~= s@.subrange(i + 1, s.len() as int));
            out.push(s[i]);
            assert(before.push(s@[i as int]) + replaced(s@.subrange(i + 1, s.len() as int), p@, r@)
                =~= before + (seq![s@[i as int]] + replaced(
                s@.subrange(i + 1, s.len() as int),
                p@,
                r@,
            )));
            i = i + 1;
        }
    }
    assert(s@.subrange(s.len() as int, s.len() as int) =~= Seq::<char>::empty());
    assert(out@ + Seq::<char>::empty() =~= out@);
    out
}

/// `str::replace` with a non-empty pattern.
pub fn replace_text(s: &str, p: &str, r: &str) -> (out: String)
    requires
        p@.len() > 0,
    ensures
        out@ == replaced(s@, p@, r@),
{
    let sv = chars_of(s);
    let pv = chars_of(p);
    let rv = chars_of(r);
    let o = replace_chars(&sv, &pv, &rv);
    text_of(&o)
}

/// Whether `k` strips `c`.
pub fn strips_char(k: Strip, c: char) -> (r: bool)
    ensures
        r == strips(k, c),
{
    match k {
        Strip::White => {
            ('\u{9}' <= c && c <= '\u{d}') || c == ' ' || c == '\u{85}' || c == '\u{a0}' || c
                == '\u{1680}' || ('\u{2000}' <= c && c <= '\u{200a}') || c == '\u{2028}' || c
                == '\u{2029}' || c == '\u{202f}' || c == '\u{205f}' || c == '\u{3000}'
        },
        Strip::Exactly(d) => c == d,
    }
}

/// `s` with what `k` strips removed from both ends.
pub fn strip_chars(s: &Vec<char>, k: Strip) -> (r: Vec<char>)
    ensures
        r@ == stripped(s@, k),
{
    let mut a: usize = 0;
    assert(s@.subrange(0, s.len() as int) =~= s@);
    while a < s.len() && strips_char(k, s[a])
        invariant
            a <= s.len(),
            strip_front(s@, k) == strip_front(s@.subrange(a as int, s.len() as int), k),
        decreases s.len() - a,
    {
        assert(s@.subrange(a as int, s.len() as int).drop_first() =~= s@.subrange(
            a + 1,
            s.len() as int,
        ));
        a = a + 1;
    }
    let ghost front = s@.subrange(a as int, s.len() as int);
    assert(strip_front(front, k) == front);
    let mut b: usize = s.len();
    while b > a && strips_char(k, s[b - 1])
        invariant
            a <= b <= s.len(),
            front == s@.subrange(a as int, s.len() as int),
            strip_back(front, k) == strip_back(s@.subrange(a as int, b as int), k),
        decreases b - a,
    {
        assert(s@.subrange(a as int, b as int).drop_last() =~= s@.subrange(a as int, b - 1));
        b = b - 1;
    }
    assert(strip_back(s@.subrange(a as int, b as int), k) == s@.subrange(a as int, b as int));
    slice_chars(s, a, b)
}

/// `str::trim` over characters.
pub fn trim_chars(s: &Vec<char>) -> (r: Vec<char>)
    ensures
        r@ == trimmed(s@),
{
    strip_chars(s, Strip::White)
}

/// `str::trim`.
pub fn trim_text(s: &str) -> (r: String)
    ensures
        r@ == trimmed(s@),
{
    let v = chars_of(s);
    let t = trim_chars(&v);
    text_of(&t)
}

/// `str::split(c)` over characters.
pub fn split_chars(s: &Vec<char>, c: char) -> (r: Vec<Vec<char>>)
    ensures
        views(r@) == pieces(s@, c),
{
    let mut r: Vec<Vec<char>> = Vec::new();
    let mut start: usize = 0;
    let mut i: usize = 0;
    assert(s@.subrange(0, s.len() as int) =~= s@);
    assert(views(r@) =~= Seq::<Seq<char>>::empty());
    while i < s.len()
        invariant
            start <= i <= s.len(),
            forall|j: int| start <= j < i ==> s@[j] != c,
            views(r@) + pieces(s@.subrange(start as int, s.len() as int), c) == pieces(s@, c),
        decreases s.len() - i,
    {
        if s[i] == c {
            let ghost t = s@.subrange(start as int, s.len() as int);
            proof {
                lemma_before_char(t, c, i - start);
                assert(t.subrange(0, i - start) =~= s@.subrange(start as int, i as int));
                assert(t.subrange(i - start + 1, t.len() as int) =~= s@.subrange(
                    i + 1,
                    s.len() as int,
                ));
            }
            let piece = slice_chars(s, start, i);
            let ghost old_r = r@;
            r.push(piece);
            assert(views(r@) =~= views(old_r).push(piece@));
            assert(views(old_r).push(piece@) + pieces(s@.subrange(i + 1, s.len() as int), c)
                =~= views(old_r) + (seq![piece@] + pieces(
                s@.subrange(i + 1, s.len() as int),
                c,
            )));
            start = i + 1;
        }
        i = i + 1;
    }
    let ghost t = s@.subrange(start as int, s.len() as int);
    proof {
        lemma_before_char(t, c, t.len() as int);
        assert(t.subrange(0, t.len() as int) =~= t);
    }
    let piece = slice_chars(s, start, s.len());
    let ghost old_r = r@;
    r.push(piece);
    assert(views(r@) =~= views(old_r).push(piece@));
    assert(views(old_r) + seq![t] =~= views(old_r).push(piece@));
    r
}

/// `str::lines` over characters.
pub fn lines_chars(s: &Vec<char>) -> (r: Vec<Vec<char>>)
    ensures
        views(r@) == lines_of(s@),
{
    let mut r: Vec<Vec<char>> = Vec::new();
    let mut start: usize = 0;
    let mut i: usize = 0;
    assert(s@.subrange(0, s.len() as int) =~= s@);
    assert(views(r@) =~= Seq::<Seq<char>>::empty());
    while i < s.len()
        invariant
            start <= i <= s.len(),
            forall|j: int| start <= j < i ==> s@[j] != '\n',
            views(r@) + lines_of(s@.subrange(start as int, s.len() as int)) == lines_of(s@),
        decreases s.len() - i,
    {
        if s[i] == '\n' {
            let ghost t = s@.subrange(start as int, s.len() as int);
            proof {
                lemma_before_char(t, '\n', i - start);
                assert(t.subrange(0, i - start) =~= s@.subrange(start as int, i as int));
                assert(t.subrange(i - start + 1, t.len() as int) =~= s@.subrange(
                    i + 1,
                    s.len() as int,
                ));
            }
            let end = if i > start && s[i - 1] == '\r' {
                i - 1
            } else {
                i
            };
            let piece = slice_chars(s, start, end);
            proof {
                let b = s@.subrange(start as int, i as int);
                if i > start && s@[i - 1] == '\r' {
                    assert(b.drop_last() =~= piece@);
                } else {
                    assert(b =~= piece@);
                }
            }
            let ghost old_r = r@;
            r.push(piece);
            assert(views(r@) =~= views(old_r).push(piece@));
            assert(views(old_r).push(piece@) + lines_of(s@.subrange(i + 1, s.len() as int))
                =~= views(old_r) + (seq![piece@] + lines_of(
                s@.subrange(i + 1, s.len() as int),
            )));
            start = i + 1;
        }
        i = i + 1;
    }
    let ghost t = s@.subrange(start as int, s.len() as int);
    if start < s.len() {
        proof {
            lemma_before_char(t, '\n', t.len() as int);
            assert(t.subrange(0, t.len() as int) =~= t);
        }
        let piece = slice_chars(s, start, s.len());
        let ghost old_r = r@;
        r.push(piece);
        assert(views(r@) =~= views(old_r).push(piece@));
        assert(views(old_r) + seq![t] =~= views(old_r).push(piece@));
    } else {
        assert(views(r@) + Seq::<Seq<char>>::empty() =~= views(r@));
    }
    r
}

/// Whether two texts are equal.
pub fn same_text(a: &str, b: &str) -> (r: bool)
    ensures
        r == (a@ == b@),
{
    let av = chars_of(a);
    let bv = chars_of(b);
    if av.len() != bv.len() {
        assert(a@.len() != b@.len());
        return false;
    }
    let mut i: usize = 0;
    while i < av.len()
        invariant
            av@ == a@,
            bv@ == b@,
            av.len() == bv.len(),
            i <= av.len(),
            forall|j: int| 0 <= j < i ==> av@[j] == bv@[j],
        decreases av.len() - i,
    {
        if av[i] != bv[i] {
            assert(a@[i as int] != b@[i as int]);
            return false;
        }
        i = i + 1;
    }
    assert(av@ =~= bv@);
    true
}

/// `format!("{:x}", n)`.
pub fn hex_text(n: u128) -> (r: String)
    ensures
        r@ == hex_of(n as nat),
{
    let mut digits: Vec<char> = Vec::new();
    let mut m: u128 = n;
    // Digits are gathered least significant first.
    while m >= 16
        invariant
            hex_of(n as nat) == hex_of(m as nat) + digits@.reverse(),
        decreases m,
    {
        let d = m % 16;
        let c: char = if d < 10 {
            ((48 + d) as u8) as char
        } else {
            ((87 + d) as u8) as char
        };
        assert(c == hex_digit(d as int));
        let ghost old_digits = digits@;
        digits.push(c);
        assert(digits@.reverse() =~= seq![c] + old_digits.reverse());
        assert(hex_of(m as nat) == hex_of((m / 16) as nat) + seq![c]);
        assert(hex_of(n as nat) =~= hex_of((m / 16) as nat) + digits@.reverse());
        m = m / 16;
    }
    let c: char = if m < 10 {
        ((48 + m) as u8) as char
    } else {
        ((87 + m) as u8) as char
    };
    assert(c == hex_digit(m as int));
    let ghost old_digits = digits@;
    digits.push(c);
    assert(digits@.reverse() =~= seq![c] + old_digits.reverse());
    assert(hex_of(m as nat) == seq![c]);
    assert(hex_of(n as nat) =~= digits@.reverse());
    let mut r = String::new();
    let mut i: usize = digits.len();
    while i > 0
        invariant
            i <= digits.len(),
            r@ == digits@.subrange(i as int, digits.len() as int).reverse(),
        decreases i,
    {
        i = i - 1;
        push_char(&mut r, digits[i]);
        assert(r@ =~= digits@.subrange(i as int, digits.len() as int).reverse());
    }
    assert(digits@.subrange(0, digits.len() as int) =~= digits@);
    r
}

} // verus!
