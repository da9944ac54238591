//! Line-oriented scanning of JavaScript and TypeScript sources: the module
//! paths that `import ... from "..."` lines name, and the scripts that
//! `importScripts(...)` calls load.
use vstd::prelude::*;

use crate::text::{
    occurs_at,    chars_of, find_char, find_in, has_prefix, lines_chars, lines_of, matches_at, pieces, slice_chars,
    split_chars, strip_chars, stripped, text_of, texts, trim_chars, trimmed, first_match, views, Strip,
};

verus! {

broadcast use vstd::string::group_string_axioms;

/// The module path that an `import ... from "path"` line names: the text
/// between the first two double quotes after the first `from`.
pub open spec fn import_of_line(l: Seq<char>) -> Option<Seq<char>> {
    let t = trimmed(l);
    if !has_prefix(t, "import "@) {
        None
    } else {
        match first_match(t, "from"@) {
            None => None,
            Some(f) => {
                let part = t.subrange(f + "from"@.len(), t.len() as int);
                match first_match(part, seq!['"']) {
                    None => None,
                    Some(q) => {
                        let rest = part.subrange(q + 1, part.len() as int);
                        match first_match(rest, seq!['"']) {
                            None => None,
                            Some(e) => Some(rest.subrange(0, e)),
                        }
                    },
                }
            },
        }
    }
}

/// The module paths that the lines `ls` import, in order.
pub open spec fn imports_of_lines(ls: Seq<Seq<char>>) -> Seq<Seq<char>>
    decreases ls.len(),
{
    if ls.len() == 0 {
        seq![]
    } else {
        imports_of_lines(ls.drop_last()) + match import_of_line(ls.last()) {
            Some(p) => seq![p],
            None => seq![],
        }
    }
}

/// A script name inside `importScripts(...)`: trimmed, then without the
/// double and single quotes around it.
pub open spec fn script_name(piece: Seq<char>) -> Seq<char> {
    stripped(stripped(trimmed(piece), Strip::Exactly('"')), Strip::Exactly('\''))
}

/// The non-empty script names among the pieces `ps`.
pub open spec fn script_names(ps: Seq<Seq<char>>) -> Seq<Seq<char>>
    decreases ps.len(),
{
    if ps.len() == 0 {
        seq![]
    } else {
        script_names(ps.drop_last()) + if script_name(ps.last()).len() > 0 {
            seq![script_name(ps.last())]
        } else {
            seq![]
        }
    }
}

/// The scripts that an `importScripts(a, b, ...)` line loads: the
/// comma-separated names between the first `(` and the next `)`.
pub open spec fn scripts_of_line(l: Seq<char>) -> Seq<Seq<char>> {
    let t = trimmed(l);
    if !has_prefix(t, "importScripts("@) {
        seq![]
    } else {
        match first_match(t, seq!['(']) {
            None => seq![],
            Some(p) => {
                let inner = t.subrange(p + 1, t.len() as int);
                match first_match(inner, seq![')']) {
                    None => seq![],
                    Some(e) => script_names(pieces(inner.subrange(0, e), ',')),
                }
            },
        }
    }
}

/// The dependencies that one line names: its import, then its scripts.
pub open spec fn dependencies_of_line(l: Seq<char>) -> Seq<Seq<char>> {
    (match import_of_line(l) {
        Some(p) => seq![p],
        None => seq![],
    }) + scripts_of_line(l)
}

/// The dependencies that the lines `ls` name, in order.
pub open spec fn dependencies_of_lines(ls: Seq<Seq<char>>) -> Seq<Seq<char>>
    decreases ls.len(),
{
    if ls.len() == 0 {
        seq![]
    } else {
        dependencies_of_lines(ls.drop_last()) + dependencies_of_line(ls.last())
    }
}

/// The module path that one line imports.
pub fn import_in_line(l: &Vec<char>) -> (r: Option<Vec<char>>)
    ensures
        r matches Some(p) ==> import_of_line(l@) == Some(p@),
        r is None ==> import_of_line(l@) is None,
{
    let t = trim_chars(l);
    let import_kw = chars_of("import ");
    if !matches_at(&t, &import_kw, 0) {
        return None;
    }
    let from_kw = chars_of("from");
    let f = match find_in(&t, &from_kw) {
        Some(f) => f,
        None => return None,
    };
    let tlen = t.len();
    assert(occurs_at(t@, from_kw@, f as int));
    let part = slice_chars(&t, f + from_kw.len(), tlen);
    let q = match find_char(&part, '"') {
        Some(q) => q,
        None => return None,
    };
    let rest = slice_chars(&part, q + 1, part.len());
    let e = match find_char(&rest, '"') {
        Some(e) => e,
        None => return None,
    };
    let p = slice_chars(&rest, 0, e);
    Some(p)
}

/// The non-empty script names among the pieces `ps`.
fn names_in_pieces(ps: &Vec<Vec<char>>) -> (r: Vec<Vec<char>>)
    ensures
        views(r@) == script_names(views(ps@)),
{
    let mut r: Vec<Vec<char>> = Vec::new();
    let mut i: usize = 0;
    while i < ps.len()
        invariant
            i <= ps.len(),
            views(r@) == script_names(views(ps@).take(i as int)),
        decreases ps.len() - i,
    {
        let a = trim_chars(&ps[i]);
        let b = strip_chars(&a, Strip::Exactly('"'));
        let c = strip_chars(&b, Strip::Exactly('\''));
        let ghost old_r = r@;
        assert(views(ps@).take(i + 1).drop_last() =~= views(ps@).take(i as int));
        assert(views(ps@).take(i + 1).last() == ps@[i as int]@);
        if c.len() > 0 {
            r.push(c);
            assert(views(r@) =~= views(old_r) + seq![c@]);
        } else {
            assert(views(r@) =~= views(old_r) + Seq::<Seq<char>>::empty());
        }
        i = i + 1;
    }
    assert(views(ps@).take(ps.len() as int) =~= views(ps@));
    r
}

/// The scripts that one line loads through `importScripts`.
pub fn scripts_in_line(l: &Vec<char>) -> (r: Vec<Vec<char>>)
    ensures
        views(r@) == scripts_of_line(l@),
{
    let t = trim_chars(l);
    let kw = chars_of("importScripts(");
    if !matches_at(&t, &kw, 0) {
        return Vec::new();
    }
    let p = match find_char(&t, '(') {
        Some(p) => p,
        None => return Vec::new(),
    };
    let inner = slice_chars(&t, p + 1, t.len());
    let e = match find_char(&inner, ')') {
        Some(e) => e,
        None => return Vec::new(),
    };
    let list = slice_chars(&inner, 0, e);
    let ps = split_chars(&list, ',');
    names_in_pieces(&ps)
}

/// Appends the character vectors `xs`, as strings, to `out`.
pub fn push_all(out: &mut Vec<String>, xs: &Vec<Vec<char>>)
    ensures
        texts(final(out)@) == texts(old(out)@) + views(xs@),
{
    let ghost start = texts(out@);
    let mut i: usize = 0;
    while i < xs.len()
        invariant
            i <= xs.len(),
            texts(out@) == start + views(xs@).take(i as int),
        decreases xs.len() - i,
    {
        let s = text_of(&xs[i]);
        let ghost old_out = out@;
        out.push(s);
        assert(texts(out@) =~= texts(old_out).push(s@));
        assert(start + views(xs@).take(i + 1) =~= (start + views(xs@).take(i as int)).push(
            xs@[i as int]@,
        ));
        i = i + 1;
    }
    assert(views(xs@).take(xs.len() as int) =~= views(xs@));
}

/// The module paths that `import` lines of `content` name, in order.
pub fn imports_in(content: &str) -> (r: Vec<String>)
    ensures
        texts(r@) == imports_of_lines(lines_of(content@)),
{
    let cv = chars_of(content);
    let ls = lines_chars(&cv);
    let mut r: Vec<String> = Vec::new();
    let mut i: usize = 0;
    while i < ls.len()
        invariant
            i <= ls.len(),
            texts(r@) == imports_of_lines(views(ls@).take(i as int)),
        decreases ls.len() - i,
    {
        let ghost old_r = r@;
        assert(views(ls@).take(i + 1).drop_last() =~= views(ls@).take(i as int));
        assert(views(ls@).take(i + 1).last() == ls@[i as int]@);
        match import_in_line(&ls[i]) {
            Some(p) => {
                let s = text_of(&p);
                r.push(s);
                assert(texts(r@) =~= texts(old_r) + seq![p@]);
            },
            None => {
                assert(texts(r@) =~= texts(old_r) + Seq::<Seq<char>>::empty());
            },
        }
        i = i + 1;
    }
    assert(views(ls@).take(ls.len() as int) =~= views(ls@));
    r
}

/// The dependencies that the lines of `content` name: module paths of
/// `import` lines and scripts of `importScripts` lines, in order.
pub fn dependencies_in(content: &str) -> (r: Vec<String>)
    ensures
        texts(r@) == dependencies_of_lines(lines_of(content@)),
{
    let cv = chars_of(content);
    let ls = lines_chars(&cv);
    let mut r: Vec<String> = Vec::new();
    let mut i: usize = 0;
    while i < ls.len()
        invariant
            i <= ls.len(),
            texts(r@) == dependencies_of_lines(views(ls@).take(i as int)),
        decreases ls.len() - i,
    {
        let ghost old_r = texts(r@);
        assert(views(ls@).take(i + 1).drop_last() =~= views(ls@).take(i as int));
        assert(views(ls@).take(i + 1).last() == ls@[i as int]@);
        let mut found: Vec<Vec<char>> = Vec::new();
        match import_in_line(&ls[i]) {
            Some(p) => {
                found.push(p);
            },
            None => {},
        }
        let ghost first = views(found@);
        let scripts = scripts_in_line(&ls[i]);
        let mut j: usize = 0;
        while j < scripts.len()
            invariant
                j <= scripts.len(),
                views(found@) == first + views(scripts@).take(j as int),
            decreases scripts.len() - j,
        {
            let ghost before = found@;
            found.push(scripts[j].clone());
            assert(views(found@) =~= views(before).push(scripts@[j as int]@));
            assert(first + views(scripts@).take(j + 1) =~= (first + views(scripts@).take(
                j as int,
            )).push(scripts@[j as int]@));
            j = j + 1;
        }
        assert(views(scripts@).take(scripts.len() as int) =~= views(scripts@));
        assert(views(found@) =~= dependencies_of_line(ls@[i as int]@));
        push_all(&mut r, &found);
        i = i + 1;
    }
    assert(views(ls@).take(ls.len() as int) =~= views(ls@));
    r
}

} // verus!
