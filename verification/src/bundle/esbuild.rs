//! esbuild integration: where the esbuild binary is looked for, the
//! command line it gets, and the result a successful run reports. Probing
//! the file system and running the process stay with the caller.
use vstd::prelude::*;

use super::config::BundleConfig;
use super::BundleResult;
use crate::paths::{file_stem_of, path_file_name, stem_of};
use crate::text::{hex_of, hex_text, owned, push_text, same_text, texts};

verus! {

broadcast use vstd::string::group_string_axioms;

/// `flag` before each of `xs`.
pub open spec fn flagged(flag: Seq<char>, xs: Seq<Seq<char>>) -> Seq<Seq<char>>
    decreases xs.len(),
{
    if xs.len() == 0 {
        seq![]
    } else {
        flagged(flag, xs.drop_last()) + seq![flag, xs.last()]
    }
}

/// `seq![x]` where `b` holds, empty otherwise.
pub open spec fn when(b: bool, x: Seq<char>) -> Seq<Seq<char>> {
    if b {
        seq![x]
    } else {
        seq![]
    }
}

/// The command line that esbuild gets for `c`.
pub open spec fn esbuild_args(c: BundleConfig) -> Seq<Seq<char>> {
    flagged("--bundle"@, texts(c.entries@)) + seq![
        "--outdir"@,
        c.output_dir@,
        "--format"@,
        c.format@,
        "--target"@,
        c.target@,
    ] + when(c.source_map, "--sourcemap"@) + when(c.inline_source_map, "--sourcemap=inline"@)
        + when(c.minify, "--minify"@) + when(!c.tree_shaking, "--tree-shaking=false"@) + when(
        c.watch,
        "--watch"@,
    ) + flagged("--external"@, texts(c.externals@)) + seq!["--platform=browser"@]
}

/// The places where esbuild is looked for, after an explicit path.
pub open spec fn standard_places() -> Seq<Seq<char>> {
    seq![
        "./node_modules/.bin/esbuild"@,
        "./node_modules/esbuild/bin/esbuild"@,
        "../node_modules/.bin/esbuild"@,
        "../../node_modules/.bin/esbuild"@,
    ]
}

/// The first of `places` that exists, else `esbuild` where it runs from
/// `PATH`, else nothing.
pub open spec fn first_existing(places: Seq<Seq<char>>, exists: Seq<bool>, on_path: bool) -> Option<
    Seq<char>,
>
    decreases places.len(),
{
    if places.len() == 0 || exists.len() == 0 {
        if on_path {
            Some("esbuild"@)
        } else {
            None
        }
    } else if exists[0] {
        Some(places[0])
    } else {
        first_existing(places.drop_first(), exists.drop_first(), on_path)
    }
}

/// The file that esbuild writes for the entry `e`: `<outdir>/<stem>.<ext>`.
pub open spec fn esbuild_output(c: BundleConfig, e: Seq<char>) -> Seq<char> {
    let stem = match path_file_name(e) {
        Some(f) => stem_of(f),
        None => "output"@,
    };
    let ext = if c.format@ == "cjs"@ {
        "cjs"@
    } else {
        "js"@
    };
    c.output_dir@ + "/"@ + stem + "."@ + ext
}

/// The files that esbuild writes for the entries `es`.
pub open spec fn esbuild_outputs(c: BundleConfig, es: Seq<Seq<char>>) -> Seq<Seq<char>>
    decreases es.len(),
{
    if es.len() == 0 {
        seq![]
    } else {
        esbuild_outputs(c, es.drop_last()).push(esbuild_output(c, es.last()))
    }
}

/// The esbuild that runs is the first candidate that exists, in order; only
/// where none exists is `esbuild` taken from `PATH`, where it runs there.
pub proof fn first_existing_candidate_wins(places: Seq<Seq<char>>, exists: Seq<bool>, on_path: bool, i: int)
    ensures
        0 <= i < places.len() && i < exists.len() && exists[i] && (forall|j: int|
            0 <= j < i ==> !#[trigger] exists[j]) ==> first_existing(places, exists, on_path) == Some(places[i]),
        (forall|j: int| 0 <= j < places.len() && j < exists.len() ==> !#[trigger] exists[j]) ==> first_existing(
            places,
            exists,
            on_path,
        ) == if on_path {
            Some("esbuild"@)
        } else {
            None
        },
    decreases places.len(),
{
    if places.len() > 0 && exists.len() > 0 {
        first_existing_candidate_wins(places.drop_first(), exists.drop_first(), on_path, i - 1);
        if 0 < i < places.len() && i < exists.len() && exists[i] && (forall|j: int|
            0 <= j < i ==> !#[trigger] exists[j]) {
            assert(!exists[0]);
            assert forall|j: int| 0 <= j < i - 1 implies !#[trigger] exists.drop_first()[j] by {
                assert(exists.drop_first()[j] == exists[j + 1]);
            }
            assert(places.drop_first()[i - 1] == places[i]);
        }
        if forall|j: int| 0 <= j < places.len() && j < exists.len() ==> !#[trigger] exists[j] {
            assert(!exists[0]);
            assert forall|j: int|
                0 <= j < places.drop_first().len() && j < exists.drop_first().len() implies !#[trigger] exists.drop_first()[j] by {
                assert(exists.drop_first()[j] == exists[j + 1]);
            }
        }
    }
}

/// Wrapper around esbuild for complex builds.
#[derive(Debug)]
pub struct EsbuildWrapper {
    /// Path to the esbuild binary, where one was given.
    esbuild_path: Option<String>,
}

impl EsbuildWrapper {
    /// The explicit esbuild path.
    pub closed spec fn path(&self) -> Option<Seq<char>> {
        match self.esbuild_path {
            Some(p) => Some(p@),
            None => None,
        }
    }

    /// A wrapper that looks for esbuild in the usual places.
    pub fn new() -> (r: Self)
        ensures
            r.path() is None,
    {
        EsbuildWrapper { esbuild_path: None }
    }

    /// The wrapper with the explicit esbuild path `path`.
    pub fn with_path(self, path: &str) -> (r: Self)
        ensures
            r.path() == Some(path@),
    {
        EsbuildWrapper { esbuild_path: Some(owned(path)) }
    }

    /// The explicit esbuild path.
    pub fn esbuild_path(&self) -> (r: Option<&String>)
        ensures
            r matches Some(p) ==> self.path() == Some(p@),
            r is None ==> self.path() is None,
    {
        match &self.esbuild_path {
            Some(p) => Some(p),
            None => None,
        }
    }

    /// The places where esbuild is looked for, in order: the explicit
    /// path, then the usual `node_modules` locations.
    pub fn candidate_paths(&self) -> (r: Vec<String>)
        ensures
            texts(r@) == match self.path() {
                Some(p) => seq![p] + standard_places(),
                None => standard_places(),
            },
    {
        let mut r: Vec<String> = Vec::new();
        match &self.esbuild_path {
            Some(p) => r.push(p.clone()),
            None => {},
        }
        r.push(owned("./node_modules/.bin/esbuild"));
        r.push(owned("./node_modules/esbuild/bin/esbuild"));
        r.push(owned("../node_modules/.bin/esbuild"));
        r.push(owned("../../node_modules/.bin/esbuild"));
        proof {
            match self.path() {
                Some(p) => assert(texts(r@) =~= seq![p] + standard_places()),
                None => assert(texts(r@) =~= standard_places()),
            }
        }
        r
    }

    /// The esbuild to run: the first candidate that exists (`exists[i]`
    /// tells whether `candidates[i]` does), else `esbuild` where running it
    /// from `PATH` works, else none.
    pub fn pick_esbuild(candidates: &Vec<String>, exists: &Vec<bool>, on_path: bool) -> (r: Option<
        String,
    >)
        ensures
            r matches Some(p) ==> first_existing(texts(candidates@), exists@, on_path) == Some(p@),
            r is None ==> first_existing(texts(candidates@), exists@, on_path) is None,
    {
        let mut i: usize = 0;
        assert(texts(candidates@).subrange(0, candidates@.len() as int) =~= texts(candidates@));
        assert(exists@.subrange(0, exists@.len() as int) =~= exists@);
        while i < candidates.len() && i < exists.len()
            invariant
                i <= candidates.len(),
                i <= exists.len(),
                texts(candidates@).len() == candidates@.len(),
                first_existing(texts(candidates@), exists@, on_path) == first_existing(
                    texts(candidates@).subrange(i as int, candidates@.len() as int),
                    exists@.subrange(i as int, exists@.len() as int),
                    on_path,
                ),
            decreases candidates.len() - i,
        {
            if exists[i] {
                assert(exists@.subrange(i as int, exists@.len() as int)[0] == exists@[i as int]);
                assert(texts(candidates@).subrange(i as int, candidates@.len() as int)[0]
                    == candidates@[i as int]@);
                return Some(candidates[i].clone());
            }
            assert(texts(candidates@).subrange(i as int, candidates@.len() as int).drop_first()
                =~= texts(candidates@).subrange(i + 1, candidates@.len() as int));
            assert(exists@.subrange(i as int, exists@.len() as int).drop_first()
                =~= exists@.subrange(i + 1, exists@.len() as int));
            i = i + 1;
        }
        assert(texts(candidates@).subrange(i as int, candidates@.len() as int).len() == 0
            || exists@.subrange(i as int, exists@.len() as int).len() == 0);
        if on_path {
            Some(owned("esbuild"))
        } else {
            None
        }
    }

    /// The command line that esbuild gets for `config`.
    pub fn esbuild_args(config: &BundleConfig) -> (r: Vec<String>)
        ensures
            texts(r@) == esbuild_args(*config),
    {
        let mut r: Vec<String> = Vec::new();
        let mut i: usize = 0;
        while i < config.entries.len()
            invariant
                i <= config.entries.len(),
                texts(r@) == flagged("--bundle"@, texts(config.entries@).take(i as int)),
            decreases config.entries.len() - i,
        {
            r.push(owned("--bundle"));
            r.push(config.entries[i].clone());
            assert(texts(config.entries@).take(i + 1).drop_last() =~= texts(config.entries@).take(
                i as int,
            ));
            assert(texts(r@) =~= flagged("--bundle"@, texts(config.entries@).take(i + 1)));
            i = i + 1;
        }
        assert(texts(config.entries@).take(config.entries.len() as int) =~= texts(
            config.entries@,
        ));
        let ghost head = texts(r@);
        r.push(owned("--outdir"));
        r.push(config.output_dir.clone());
        r.push(owned("--format"));
        r.push(config.format.clone());
        r.push(owned("--target"));
        r.push(config.target.clone());
        if config.source_map {
            r.push(owned("--sourcemap"));
        }
        if config.inline_source_map {
            r.push(owned("--sourcemap=inline"));
        }
        if config.minify {
            r.push(owned("--minify"));
        }
        if !config.tree_shaking {
            r.push(owned("--tree-shaking=false"));
        }
        if config.watch {
            r.push(owned("--watch"));
        }
        let ghost middle = texts(r@);
        assert(middle =~= head + seq![
            "--outdir"@,
            config.output_dir@,
            "--format"@,
            config.format@,
            "--target"@,
            config.target@,
        ] + when(config.source_map, "--sourcemap"@) + when(
            config.inline_source_map,
            "--sourcemap=inline"@,
        ) + when(config.minify, "--minify"@) + when(!config.tree_shaking, "--tree-shaking=false"@)
            + when(config.watch, "--watch"@));
        let mut j: usize = 0;
        while j < config.externals.len()
            invariant
                j <= config.externals.len(),
                texts(r@) == middle + flagged("--external"@, texts(config.externals@).take(j as int)),
            decreases config.externals.len() - j,
        {
            let ghost before = texts(r@);
            r.push(owned("--external"));
            r.push(config.externals[j].clone());
            assert(texts(r@) =~= before + seq!["--external"@, config.externals@[j as int]@]);
            assert(texts(config.externals@).take(j + 1).drop_last() =~= texts(
                config.externals@,
            ).take(j as int));
            assert(texts(config.externals@).take(j + 1).last() == config.externals@[j as int]@);
            assert(texts(r@) =~= middle + flagged(
                "--external"@,
                texts(config.externals@).take(j + 1),
            ));
            j = j + 1;
        }
        assert(texts(config.externals@).take(config.externals.len() as int) =~= texts(
            config.externals@,
        ));
        r.push(owned("--platform=browser"));
        assert(texts(r@) =~= esbuild_args(*config));
        r
    }

    /// The files that esbuild writes for the entries of `config`.
    pub fn bundled_files(config: &BundleConfig) -> (r: Vec<String>)
        ensures
            texts(r@) == esbuild_outputs(*config, texts(config.entries@)),
    {
        let cjs = same_text(config.format.as_str(), "cjs");
        let mut r: Vec<String> = Vec::new();
        let mut i: usize = 0;
        while i < config.entries.len()
            invariant
                i <= config.entries.len(),
                cjs == (config.format@ == "cjs"@),
                texts(r@) == esbuild_outputs(*config, texts(config.entries@).take(i as int)),
            decreases config.entries.len() - i,
        {
            let stem = match file_stem_of(config.entries[i].as_str()) {
                Some(s) => s,
                None => owned("output"),
            };
            let mut f = config.output_dir.clone();
            push_text(&mut f, "/");
            push_text(&mut f, stem.as_str());
            push_text(&mut f, ".");
            if cjs {
                push_text(&mut f, "cjs");
            } else {
                push_text(&mut f, "js");
            }
            assert(f@ == esbuild_output(*config, config.entries@[i as int]@));
            r.push(f);
            assert(texts(config.entries@).take(i + 1).drop_last() =~= texts(config.entries@).take(
                i as int,
            ));
            assert(texts(r@) =~= esbuild_outputs(*config, texts(config.entries@).take(i + 1)));
            i = i + 1;
        }
        assert(texts(config.entries@).take(config.entries.len() as int) =~= texts(
            config.entries@,
        ));
        r
    }

    /// What a successful esbuild run for `config` reports, `millis` being
    /// the clock reading in milliseconds that serves as its hash.
    pub fn esbuild_result(config: &BundleConfig, millis: u128) -> (r: BundleResult)
        ensures
            r.output_path@ == config.output_dir@,
            r.source_map_path matches Some(p) ==> config.source_map && p@ == config.output_dir@
                + ".map"@,
            r.source_map_path is None ==> !config.source_map,
            texts(r.bundled_files@) == esbuild_outputs(*config, texts(config.entries@)),
            r.hash@ == hex_of(millis as nat),
    {
        let source_map_path = if config.source_map {
            let mut p = config.output_dir.clone();
            push_text(&mut p, ".map");
            Some(p)
        } else {
            None
        };
        BundleResult {
            output_path: config.output_dir.clone(),
            source_map_path,
            bundled_files: Self::bundled_files(config),
            hash: hex_text(millis),
        }
    }
}

impl Default for EsbuildWrapper {
    fn default() -> (r: Self)
        ensures
            r.path() is None,
    {
        Self::new()
    }
}

} // verus!
