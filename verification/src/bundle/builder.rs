//! The bundle builder: the entry list, the module graph, and what a build
//! writes where. Reading and writing the files stays with the caller.
use vstd::prelude::*;

use super::config::BundleConfig;
use super::BundleEntry;
use crate::hashing::{digest_hex, feed_text, finish_hex, lemma_texts_writes_push, new_hasher};
use crate::paths::{file_name_of, file_stem_of, join_path, joined, path_file_name, stem_of};
use crate::sources::{imports_in, imports_of_lines};
use crate::text::{
    chars_of, has_prefix, has_sub, occurs_at, lacks, lemma_lines_lack_newline, lemma_lines_of_concat, lemma_lines_of_line,
    lines_chars, lines_of, without_cr, matches_at, owned, push_char, push_chars,
    push_text, replace_text, replaced, same_text, text_of, texts, trim_chars, trimmed, views,
};

verus! {

broadcast use vstd::string::group_string_axioms;

/// A module graph: each module path with the module paths it imports.
pub type Graph = Seq<(Seq<char>, Seq<Seq<char>>)>;

/// The graph that the stored nodes `g` stand for.
pub open spec fn graph_view(g: Seq<(String, Vec<String>)>) -> Graph {
    g.map_values(|n: (String, Vec<String>)| (n.0@, texts(n.1@)))
}

/// The last index at which `k` is a node of `g`, or `-1`.
pub open spec fn node_index(g: Graph, k: Seq<char>) -> int
    decreases g.len(),
{
    if g.len() == 0 {
        -1
    } else if g.last().0 == k {
        g.len() - 1
    } else {
        node_index(g.drop_last(), k)
    }
}

/// `g` after `HashMap::insert(k, deps)`.
pub open spec fn with_node(g: Graph, k: Seq<char>, deps: Seq<Seq<char>>) -> Graph {
    let i = node_index(g, k);
    if i >= 0 {
        g.update(i, (k, deps))
    } else {
        g.push((k, deps))
    }
}

/// What `node_index` finds.
proof fn lemma_node_index(g: Graph, k: Seq<char>)
    ensures
        -1 <= node_index(g, k) < g.len(),
        node_index(g, k) >= 0 ==> g[node_index(g, k)].0 == k,
        forall|j: int| node_index(g, k) < j < g.len() ==> g[j].0 != k,
    decreases g.len(),
{
    if g.len() > 0 {
        lemma_node_index(g.drop_last(), k);
        assert forall|j: int| 0 <= j < g.len() - 1 implies g.drop_last()[j] == g[j] by {}
    }
}

/// The imports that the graph `g` records for the module `k`, if any.
pub open spec fn imports_of_node(g: Graph, k: Seq<char>) -> Option<Seq<Seq<char>>> {
    let i = node_index(g, k);
    if i >= 0 {
        Some(g[i].1)
    } else {
        None
    }
}

/// After a module's imports are recorded, the graph gives the module those
/// imports and every other module the imports it had.
pub proof fn recorded_imports_read_back(g: Graph, k: Seq<char>, deps: Seq<Seq<char>>, other: Seq<char>)
    ensures
        imports_of_node(with_node(g, k, deps), k) == Some(deps),
        other != k ==> imports_of_node(with_node(g, k, deps), other) == imports_of_node(g, other),
{
    lemma_node_index(g, k);
    lemma_node_index(g, other);
    let q = with_node(g, k, deps);
    lemma_node_index(q, k);
    lemma_node_index(q, other);
    let i = node_index(g, k);
    let last = if i >= 0 {
        i
    } else {
        q.len() - 1
    };
    assert(q[last].0 == k);
    if node_index(q, k) > last {
        assert(q[node_index(q, k)] == g[node_index(q, k)]);
    }
    if other != k {
        let j = node_index(g, other);
        let jq = node_index(q, other);
        if j >= 0 {
            assert(q[j] == g[j]);
            assert(jq >= j);
        }
        if jq >= 0 {
            assert(jq != last);
            assert(jq < g.len());
            assert(q[jq] == g[jq]);
            assert(j >= jq);
        }
    }
}

/// A line that tree-shaking keeps: neither blank nor a `//` comment.
pub open spec fn kept_line(l: Seq<char>) -> bool {
    trimmed(l).len() > 0 && !has_prefix(trimmed(l), "//"@)
}

/// The lines `ls` that tree-shaking keeps, each followed by a newline.
pub open spec fn shaken(ls: Seq<Seq<char>>) -> Seq<char>
    decreases ls.len(),
{
    if ls.len() == 0 {
        seq![]
    } else {
        shaken(ls.drop_last()) + if kept_line(ls.last()) {
            ls.last().push('\n')
        } else {
            seq![]
        }
    }
}

/// The texts `cs`, each followed by a newline.
pub open spec fn newline_joined(cs: Seq<Seq<char>>) -> Seq<char>
    decreases cs.len(),
{
    if cs.len() == 0 {
        seq![]
    } else {
        newline_joined(cs.drop_last()) + cs.last().push('\n')
    }
}

/// The lines of `ls` that tree-shaking keeps.
pub open spec fn kept_lines(ls: Seq<Seq<char>>) -> Seq<Seq<char>>
    decreases ls.len(),
{
    if ls.len() == 0 {
        seq![]
    } else {
        kept_lines(ls.drop_last()) + if kept_line(ls.last()) {
            seq![ls.last()]
        } else {
            seq![]
        }
    }
}

/// A line that reads back as itself: no newline in it and no carriage
/// return at its end.
pub open spec fn plain_line(l: Seq<char>) -> bool {
    lacks(l, '\n') && without_cr(l) == l
}

/// Tree-shaking writes the kept lines, each with a newline.
proof fn lemma_shaken_joined(ls: Seq<Seq<char>>)
    ensures
        shaken(ls) == newline_joined(kept_lines(ls)),
    decreases ls.len(),
{
    if ls.len() > 0 {
        lemma_shaken_joined(ls.drop_last());
        let k = kept_lines(ls.drop_last());
        if kept_line(ls.last()) {
            assert(kept_lines(ls) == k.push(ls.last()));
            assert(k.push(ls.last()).drop_last() =~= k);
        } else {
            assert(kept_lines(ls) =~= k);
            assert(shaken(ls) =~= shaken(ls.drop_last()));
        }
    }
}

/// Keeping the kept lines keeps them all; each is plain where all of `ls`
/// are.
proof fn lemma_kept_lines_kept(ls: Seq<Seq<char>>)
    ensures
        kept_lines(kept_lines(ls)) == kept_lines(ls),
        (forall|j: int| 0 <= j < ls.len() ==> plain_line(#[trigger] ls[j])) ==> forall|i: int|
            0 <= i < kept_lines(ls).len() ==> plain_line(#[trigger] kept_lines(ls)[i]),
    decreases ls.len(),
{
    if ls.len() > 0 {
        lemma_kept_lines_kept(ls.drop_last());
        let k = kept_lines(ls.drop_last());
        if (forall|j: int| 0 <= j < ls.len() ==> plain_line(#[trigger] ls[j])) {
            assert forall|j: int| 0 <= j < ls.drop_last().len() implies plain_line(
                #[trigger] ls.drop_last()[j],
            ) by {
                assert(ls.drop_last()[j] == ls[j]);
            }
            assert(plain_line(ls[ls.len() - 1]));
        }
        if kept_line(ls.last()) {
            let kk = k.push(ls.last());
            assert(kept_lines(ls) == kk);
            assert(kk.drop_last() =~= k);
            assert(kk.last() == ls.last());
            assert(kept_lines(kk) == kept_lines(k).push(ls.last()));
            if (forall|j: int| 0 <= j < ls.len() ==> plain_line(#[trigger] ls[j])) {
                assert forall|i: int| 0 <= i < kk.len() implies plain_line(#[trigger] kk[i]) by {
                    if i < k.len() {
                        assert(kk[i] == k[i]);
                    }
                }
            }
        } else {
            assert(kept_lines(ls) =~= k);
        }
    }
}

/// The lines of plain lines written each with a newline are those lines.
proof fn lemma_lines_of_joined(ks: Seq<Seq<char>>)
    requires
        forall|i: int| 0 <= i < ks.len() ==> plain_line(#[trigger] ks[i]),
    ensures
        lines_of(newline_joined(ks)) == ks,
    decreases ks.len(),
{
    if ks.len() == 0 {
        assert(lines_of(Seq::<char>::empty()) =~= Seq::<Seq<char>>::empty());
    } else {
        let init = ks.drop_last();
        assert forall|i: int| 0 <= i < init.len() implies plain_line(#[trigger] init[i]) by {
            assert(init[i] == ks[i]);
        }
        lemma_lines_of_joined(init);
        let x = newline_joined(init);
        if init.len() > 0 {
            assert(x.last() == '\n');
        }
        assert(plain_line(ks[ks.len() - 1]));
        lemma_lines_of_concat(x, ks.last().push('\n'));
        lemma_lines_of_line(ks.last());
        assert(init + seq![ks.last()] =~= ks);
    }
}

/// A text held in `a` is held in `a` followed by more.
proof fn lemma_has_sub_extend(a: Seq<char>, b: Seq<char>, p: Seq<char>)
    requires
        has_sub(a, p),
    ensures
        has_sub(a + b, p),
{
    let i = choose|i: int| occurs_at(a, p, i);
    assert((a + b).subrange(i, i + p.len()) =~= a.subrange(i, i + p.len()));
    assert(occurs_at(a + b, p, i));
}

/// Every line that is not blank and does not begin (after its leading
/// blanks) with `//` survives tree-shaking: it stands in the result,
/// followed by a newline, and lines keep their order.
pub proof fn tree_shaking_keeps_code_lines(ls: Seq<Seq<char>>, i: int)
    requires
        0 <= i < ls.len(),
        trimmed(ls[i]).len() > 0,
        !has_prefix(trimmed(ls[i]), "//"@),
    ensures
        has_sub(shaken(ls), ls[i].push('\n')),
        has_sub(shaken(ls.subrange(0, i + 1)), ls[i].push('\n')),
    decreases ls.len(),
{
    let init = ls.drop_last();
    if i == ls.len() - 1 {
        let a = shaken(init);
        let l = ls.last().push('\n');
        assert(shaken(ls) == a + l);
        assert((a + l).subrange(a.len() as int, (a.len() + l.len()) as int) =~= l);
        assert(occurs_at(a + l, l, a.len() as int));
        assert(ls.subrange(0, i + 1) =~= ls);
    } else {
        assert(init[i] == ls[i]);
        tree_shaking_keeps_code_lines(init, i);
        let tail = if kept_line(ls.last()) {
            ls.last().push('\n')
        } else {
            seq![]
        };
        lemma_has_sub_extend(shaken(init), tail, ls[i].push('\n'));
        assert(init.subrange(0, i + 1) =~= ls.subrange(0, i + 1));
    }
}

/// Blank lines and lines that begin (after their leading blanks) with
/// `//` are dropped: content made only of such lines shakes to nothing,
/// and content with no such line keeps every line, each with a newline.
pub proof fn tree_shaking_drops_exactly_blank_and_comment_lines(ls: Seq<Seq<char>>)
    ensures
        (forall|j: int|
            0 <= j < ls.len() ==> trimmed(#[trigger] ls[j]).len() == 0 || has_prefix(trimmed(ls[j]), "//"@))
            ==> shaken(ls) == Seq::<char>::empty(),
        (forall|j: int|
            0 <= j < ls.len() ==> trimmed(#[trigger] ls[j]).len() > 0 && !has_prefix(trimmed(ls[j]), "//"@))
            ==> shaken(ls) == newline_joined(ls),
    decreases ls.len(),
{
    if ls.len() > 0 {
        let init = ls.drop_last();
        tree_shaking_drops_exactly_blank_and_comment_lines(init);
        if forall|j: int|
            0 <= j < ls.len() ==> trimmed(#[trigger] ls[j]).len() == 0 || has_prefix(trimmed(ls[j]), "//"@) {
            assert forall|j: int| 0 <= j < init.len() implies trimmed(#[trigger] init[j]).len() == 0
                || has_prefix(trimmed(init[j]), "//"@) by {
                assert(init[j] == ls[j]);
            }
            assert(trimmed(ls[ls.len() - 1]).len() == 0 || has_prefix(trimmed(ls[ls.len() - 1]), "//"@));
            assert(shaken(ls) =~= shaken(init) + Seq::<char>::empty());
        }
        if forall|j: int|
            0 <= j < ls.len() ==> trimmed(#[trigger] ls[j]).len() > 0 && !has_prefix(trimmed(ls[j]), "//"@) {
            assert forall|j: int| 0 <= j < init.len() implies trimmed(#[trigger] init[j]).len() > 0
                && !has_prefix(trimmed(init[j]), "//"@) by {
                assert(init[j] == ls[j]);
            }
            assert(trimmed(ls[ls.len() - 1]).len() > 0 && !has_prefix(trimmed(ls[ls.len() - 1]), "//"@));
        }
    }
}

/// Tree-shaking shaken content again changes nothing, for content none of
/// whose lines ends in a carriage return once its line break is read.
pub proof fn tree_shaking_is_idempotent(content: Seq<char>)
    requires
        forall|i: int| 0 <= i < lines_of(content).len() ==> without_cr(#[trigger] lines_of(content)[i])
            == lines_of(content)[i],
    ensures
        shaken(lines_of(shaken(lines_of(content)))) == shaken(lines_of(content)),
{
    let ls = lines_of(content);
    lemma_lines_lack_newline(content);
    assert forall|j: int| 0 <= j < ls.len() implies plain_line(#[trigger] ls[j]) by {}
    lemma_shaken_joined(ls);
    lemma_kept_lines_kept(ls);
    let ks = kept_lines(ls);
    lemma_lines_of_joined(ks);
    lemma_shaken_joined(ks);
}

/// The entries `es` after the builder is given `source`: an entry point
/// that is not yet among them goes last; anything else changes nothing.
pub open spec fn with_entry(es: Seq<Seq<char>>, source: Seq<char>, is_entry: bool) -> Seq<Seq<char>> {
    if is_entry && !es.contains(source) {
        es.push(source)
    } else {
        es
    }
}

/// No entry occurs twice in `es`.
pub open spec fn entries_distinct(es: Seq<Seq<char>>) -> bool {
    forall|i: int, j: int| 0 <= i < j < es.len() ==> es[i] != es[j]
}

/// Giving the builder the same entry twice is giving it once, and the
/// builder never holds an entry twice where it did not before.
pub proof fn entries_added_once(es: Seq<Seq<char>>, source: Seq<char>, is_entry: bool)
    ensures
        with_entry(with_entry(es, source, is_entry), source, is_entry) == with_entry(es, source, is_entry),
        entries_distinct(es) ==> entries_distinct(with_entry(es, source, is_entry)),
{
    if is_entry && !es.contains(source) {
        let q = es.push(source);
        assert(q[q.len() - 1] == source);
        assert(q.contains(source));
        if entries_distinct(es) {
            assert forall|i: int, j: int| 0 <= i < j < q.len() implies q[i] != q[j] by {
                if j == q.len() - 1 {
                    assert(q[i] == es[i]);
                    if q[i] == source {
                        assert(es.contains(source));
                    }
                } else {
                    assert(q[i] == es[i] && q[j] == es[j]);
                }
            }
        }
    }
}

/// The name a bundle takes: the stem of its first entry, or `index`.
pub open spec fn bundle_name(entries: Seq<Seq<char>>) -> Seq<char> {
    if entries.len() > 0 && path_file_name(entries[0]) is Some {
        stem_of(path_file_name(entries[0])->0)
    } else {
        "index"@
    }
}

/// The file that single-file mode writes for the entry `entry`: its file
/// name with `.ts` replaced by `.js`.
pub open spec fn single_output_name(entry: Seq<char>) -> Seq<char> {
    match path_file_name(entry) {
        Some(n) => replaced(n, ".ts"@, ".js"@),
        None => replaced("output.js"@, ".ts"@, ".js"@),
    }
}

/// Builds bundles from input files.
pub struct BundleBuilder {
    config: BundleConfig,
    /// Module graph: each entry with the modules it imports.
    module_graph: Vec<(String, Vec<String>)>,
    /// Processed files.
    processed: Vec<String>,
}

impl BundleBuilder {
    /// The builder's configuration.
    pub closed spec fn cfg(&self) -> BundleConfig {
        self.config
    }

    /// The builder's module graph.
    pub closed spec fn graph(&self) -> Graph {
        graph_view(self.module_graph@)
    }

    /// The files the builder has processed.
    pub closed spec fn done(&self) -> Seq<Seq<char>> {
        texts(self.processed@)
    }

    /// A builder for `config`, with an empty module graph.
    pub fn new(config: BundleConfig) -> (r: Self)
        ensures
            r.cfg() == config,
            r.graph() == Graph::empty(),
            r.done() == Seq::<Seq<char>>::empty(),
    {
        let r = BundleBuilder { config, module_graph: Vec::new(), processed: Vec::new() };
        assert(r.graph() =~= Graph::empty());
        assert(r.done() =~= Seq::<Seq<char>>::empty());
        r
    }

    /// The builder's configuration.
    pub fn config(&self) -> (r: &BundleConfig)
        ensures
            *r == self.cfg(),
    {
        &self.config
    }

    /// Adds an entry point: an entry that is marked as one and is not yet
    /// among the entries is appended to them.
    pub fn add_entry(&mut self, entry: BundleEntry)
        ensures
            final(self).cfg().same_except_lists(old(self).cfg()),
            final(self).cfg().externals == old(self).cfg().externals,
            texts(final(self).cfg().entries@) == with_entry(
                texts(old(self).cfg().entries@),
                entry.source@,
                entry.is_entry,
            ),
            final(self).graph() == old(self).graph(),
            final(self).done() == old(self).done(),
    {
        if !entry.is_entry {
            return;
        }
        let mut i: usize = 0;
        while i < self.config.entries.len()
            invariant
                i <= self.config.entries.len(),
                forall|j: int| 0 <= j < i ==> self.config.entries@[j]@ != entry.source@,
            decreases self.config.entries.len() - i,
        {
            if same_text(self.config.entries[i].as_str(), entry.source.as_str()) {
                assert(texts(self.config.entries@)[i as int] == entry.source@);
                return;
            }
            i = i + 1;
        }
        assert(!texts(self.config.entries@).contains(entry.source@));
        let ghost old_entries = self.config.entries@;
        self.config.entries.push(entry.source);
        assert(texts(self.config.entries@) =~= texts(old_entries).push(entry.source@));
    }

    /// The module graph.
    pub fn module_graph(&self) -> (r: &Vec<(String, Vec<String>)>)
        ensures
            graph_view(r@) == self.graph(),
    {
        &self.module_graph
    }

    /// The processed files.
    pub fn processed(&self) -> (r: &[String])
        ensures
            texts(r@) == self.done(),
    {
        self.processed.as_slice()
    }

    /// Records in the module graph the modules that the entry `entry`, whose
    /// source is `content`, imports.
    pub fn build_module_graph(&mut self, entry: &str, content: &str)
        ensures
            final(self).graph() == with_node(
                old(self).graph(),
                entry@,
                imports_of_lines(lines_of(content@)),
            ),
            final(self).cfg() == old(self).cfg(),
            final(self).done() == old(self).done(),
    {
        let deps = imports_in(content);
        let ghost dv = texts(deps@);
        let ghost g = graph_view(self.module_graph@);
        let mut i: usize = self.module_graph.len();
        assert(g.subrange(0, i as int) =~= g);
        while i > 0
            invariant
                i <= self.module_graph.len(),
                g == graph_view(self.module_graph@),
                self.config == old(self).config,
                self.processed == old(self).processed,
                g == old(self).graph(),
                dv == texts(deps@),
                dv == imports_of_lines(lines_of(content@)),
                node_index(g, entry@) == node_index(g.subrange(0, i as int), entry@),
            decreases i,
        {
            assert(g.subrange(0, i as int).last() == g[i - 1]);
            assert(g[i - 1] == (self.module_graph@[i - 1].0@, texts(self.module_graph@[i - 1].1@)));
            if same_text(self.module_graph[i - 1].0.as_str(), entry) {
                let node = (owned(entry), deps);
                assert(node.0@ == entry@ && texts(node.1@) == dv);
                self.module_graph.set(i - 1, node);
                assert(graph_view(self.module_graph@) =~= g.update(i - 1, (entry@, dv)));
                return;
            }
            assert(g.subrange(0, i as int).drop_last() =~= g.subrange(0, i - 1));
            i = i - 1;
        }
        assert(g.subrange(0, 0) =~= Graph::empty());
        let node = (owned(entry), deps);
        assert(node.0@ == entry@ && texts(node.1@) == dv);
        self.module_graph.push(node);
        assert(graph_view(self.module_graph@) =~= g.push((entry@, dv)));
    }

    /// Tree-shaking as this builder does it: blank lines and `//` comment
    /// lines are dropped, every other line is kept with a newline.
    pub fn apply_tree_shaking(&self, content: String) -> (r: String)
        ensures
            r@ == shaken(lines_of(content@)),
    {
        let cv = chars_of(content.as_str());
        let ls = lines_chars(&cv);
        let comment = chars_of("//");
        let mut r = String::new();
        let mut i: usize = 0;
        while i < ls.len()
            invariant
                i <= ls.len(),
                comment@ == "//"@,
                r@ == shaken(views(ls@).take(i as int)),
            decreases ls.len() - i,
        {
            assert(views(ls@).take(i + 1).drop_last() =~= views(ls@).take(i as int));
            assert(views(ls@).take(i + 1).last() == ls@[i as int]@);
            let t = trim_chars(&ls[i]);
            if t.len() > 0 && !matches_at(&t, &comment, 0) {
                push_chars(&mut r, &ls[i]);
                push_char(&mut r, '\n');
                assert(r@ =~= shaken(views(ls@).take(i as int)) + ls@[i as int]@.push('\n'));
            } else {
                assert(r@ =~= shaken(views(ls@).take(i as int)) + Seq::<char>::empty());
            }
            i = i + 1;
        }
        assert(views(ls@).take(ls.len() as int) =~= views(ls@));
        r
    }

    /// The output file name: the output pattern with `{name}` replaced by
    /// the stem of the first entry, or by `index` where there is none.
    pub fn generate_output_filename(&self) -> (r: String)
        ensures
            r@ == replaced(self.cfg().output_file@, "{name}"@, bundle_name(texts(self.cfg().entries@))),
    {
        let name = if self.config.entries.len() > 0 {
            match file_stem_of(self.config.entries[0].as_str()) {
                Some(n) => n,
                None => "index".to_string(),
            }
        } else {
            "index".to_string()
        };
        proof {
            reveal_strlit("{name}");
        }
        replace_text(self.config.output_file.as_str(), "{name}", name.as_str())
    }

    /// The hash of the entry list, for cache invalidation: the entries are
    /// hashed in order and the digest printed in hexadecimal.
    pub fn compute_hash(&self) -> (r: String)
        ensures
            r@ == digest_hex(texts(self.cfg().entries@)),
    {
        let mut h = new_hasher();
        let mut i: usize = 0;
        while i < self.config.entries.len()
            invariant
                i <= self.config.entries.len(),
                h@ == crate::hashing::texts_writes(texts(self.config.entries@).take(i as int)),
            decreases self.config.entries.len() - i,
        {
            feed_text(&mut h, self.config.entries[i].as_str());
            proof {
                lemma_texts_writes_push(
                    texts(self.config.entries@).take(i as int),
                    self.config.entries@[i as int]@,
                );
                assert(texts(self.config.entries@).take(i + 1) =~= texts(
                    self.config.entries@,
                ).take(i as int).push(self.config.entries@[i as int]@));
            }
            i = i + 1;
        }
        assert(texts(self.config.entries@).take(self.config.entries.len() as int) =~= texts(
            self.config.entries@,
        ));
        finish_hex(&h)
    }

    /// The content of a bundle of sources: each source followed by a
    /// newline, tree-shaken where the config asks for it.
    pub fn bundle_content(&self, contents: &Vec<String>) -> (r: String)
        ensures
            r@ == if self.cfg().tree_shaking {
                shaken(lines_of(newline_joined(texts(contents@))))
            } else {
                newline_joined(texts(contents@))
            },
    {
        let mut all = String::new();
        let mut i: usize = 0;
        while i < contents.len()
            invariant
                i <= contents.len(),
                all@ == newline_joined(texts(contents@).take(i as int)),
            decreases contents.len() - i,
        {
            push_text(&mut all, contents[i].as_str());
            push_char(&mut all, '\n');
            assert(texts(contents@).take(i + 1).drop_last() =~= texts(contents@).take(i as int));
            i = i + 1;
        }
        assert(texts(contents@).take(contents.len() as int) =~= texts(contents@));
        if self.config.tree_shaking {
            self.apply_tree_shaking(all)
        } else {
            all
        }
    }

    /// Where the bundle named `output_filename` is written.
    pub fn output_path(&self, output_filename: &str) -> (r: String)
        ensures
            r@ == joined(self.cfg().output_dir@, output_filename@),
    {
        join_path(self.config.output_dir.as_str(), output_filename)
    }

    /// The source map path of the bundle named `output_filename`, where the
    /// config asks for source maps: `<name without .js>.map` in the output
    /// directory.
    pub fn source_map_path(&self, output_filename: &str) -> (r: Option<String>)
        ensures
            r matches Some(p) ==> self.cfg().source_map && p@ == joined(
                self.cfg().output_dir@,
                replaced(output_filename@, ".js"@, ""@) + ".map"@,
            ),
            r is None ==> !self.cfg().source_map,
    {
        if self.config.source_map {
            proof {
                reveal_strlit(".js");
            }
            let mut name = replace_text(output_filename, ".js", "");
            push_text(&mut name, ".map");
            Some(join_path(self.config.output_dir.as_str(), name.as_str()))
        } else {
            None
        }
    }

    /// The file that single-file mode writes for the entry `entry`.
    pub fn single_file_output_name(entry: &str) -> (r: String)
        ensures
            r@ == single_output_name(entry@),
    {
        proof {
            reveal_strlit(".ts");
        }
        match file_name_of(entry) {
            Some(n) => replace_text(n.as_str(), ".ts", ".js"),
            None => replace_text("output.js", ".ts", ".js"),
        }
    }
}

} // verus!
