//! Worker file detection: by file name, by markers in the content, and the
//! description of a detected worker. Walking the file system and reading
//! files stay with the caller.
use vstd::prelude::*;

use super::{WorkerConfig, WorkerInfo, WorkerType};
use crate::paths::{file_name_of, file_stem_of, join_path, joined, path_file_name, stem_of};
use crate::sources::{dependencies_in, dependencies_of_lines};
use crate::text::{
    contains_text, ends_with_text, has_sub, has_suffix, lines_of, owned, push_text, replace_text,
    replaced, texts,
};

verus! {

broadcast use vstd::string::group_string_axioms;

/// A file name that marks a worker by its ending.
pub open spec fn named_like_worker(name: Seq<char>) -> bool {
    ||| has_suffix(name, ".worker.ts"@)
    ||| has_suffix(name, ".worker.js"@)
    ||| has_suffix(name, ".worker.tsx"@)
    ||| has_suffix(name, ".worker.jsx"@)
    ||| has_suffix(name, "-worker.ts"@)
    ||| has_suffix(name, "-worker.js"@)
    ||| has_suffix(name, "worker.ts"@)
    ||| has_suffix(name, "worker.js"@)
    ||| has_suffix(name, "SharedWorker.ts"@)
    ||| has_suffix(name, "SharedWorker.js"@)
}

/// Content that holds a marker of worker code.
pub open spec fn has_worker_marker(content: Seq<char>) -> bool {
    ||| has_sub(content, "new Worker("@)
    ||| has_sub(content, "new SharedWorker("@)
    ||| has_sub(content, "self.onmessage"@)
    ||| has_sub(content, "self.postMessage"@)
    ||| has_sub(content, "importScripts("@)
    ||| has_sub(content, "// @worker"@)
    ||| has_sub(content, "//worker"@)
}

/// The file name of `path`, or the empty name.
pub open spec fn file_name_or_empty(path: Seq<char>) -> Seq<char> {
    match path_file_name(path) {
        Some(n) => n,
        None => seq![],
    }
}

/// Whether a path is a worker: one named like a worker, whether or not a
/// file stands there, or a file whose content (where it could be read)
/// holds a worker marker.
pub open spec fn is_worker(is_file: bool, path: Seq<char>, content: Option<Seq<char>>) -> bool {
    ||| named_like_worker(file_name_or_empty(path))
    ||| (is_file && (content matches Some(c) && has_worker_marker(c)))
}

/// Content holding any of the worker markers (`new Worker(`,
/// `new SharedWorker(`, `self.onmessage`, `self.postMessage`,
/// `importScripts(`, `// @worker`, `//worker`) holds a worker marker, and a
/// file with such content is a worker file; content holding none of them
/// holds no marker.
pub proof fn worker_markers_detect_workers(content: Seq<char>, path: Seq<char>)
    ensures
        (has_sub(content, "new Worker("@) || has_sub(content, "new SharedWorker("@) || has_sub(
            content,
            "self.onmessage"@,
        ) || has_sub(content, "self.postMessage"@) || has_sub(content, "importScripts("@) || has_sub(
            content,
            "// @worker"@,
        ) || has_sub(content, "//worker"@)) <==> has_worker_marker(content),
        has_worker_marker(content) ==> is_worker(true, path, Some(content)),
        !named_like_worker(file_name_or_empty(path)) ==> (is_worker(true, path, Some(content))
            <==> has_worker_marker(content)),
        !named_like_worker(file_name_or_empty(path)) ==> !is_worker(false, path, Some(content)),
{
}

/// A file name ending like a worker (`.worker.ts`, `.worker.js`,
/// `.worker.tsx`, `.worker.jsx`, `-worker.ts`, `-worker.js`, `worker.ts`,
/// `worker.js`, `SharedWorker.ts`, `SharedWorker.js`) marks a worker by
/// itself, whether a file stands there and whatever its content.
pub proof fn worker_names_detect_workers(path: Seq<char>, is_file: bool, content: Option<Seq<char>>)
    ensures
        (has_suffix(file_name_or_empty(path), ".worker.ts"@) || has_suffix(
            file_name_or_empty(path),
            ".worker.js"@,
        ) || has_suffix(file_name_or_empty(path), ".worker.tsx"@) || has_suffix(
            file_name_or_empty(path),
            ".worker.jsx"@,
        ) || has_suffix(file_name_or_empty(path), "-worker.ts"@) || has_suffix(
            file_name_or_empty(path),
            "-worker.js"@,
        ) || has_suffix(file_name_or_empty(path), "worker.ts"@) || has_suffix(
            file_name_or_empty(path),
            "worker.js"@,
        ) || has_suffix(file_name_or_empty(path), "SharedWorker.ts"@) || has_suffix(
            file_name_or_empty(path),
            "SharedWorker.js"@,
        )) <==> named_like_worker(file_name_or_empty(path)),
        named_like_worker(file_name_or_empty(path)) ==> is_worker(is_file, path, content),
{
}

/// A file name that marks a shared worker.
pub open spec fn names_shared(name: Seq<char>) -> bool {
    has_sub(name, "SharedWorker"@) || has_sub(name, "shared"@)
}

/// The name of the worker whose file stem is `stem`: the stem without
/// `.worker` and `-worker`.
pub open spec fn worker_name_from_stem(stem: Seq<char>) -> Seq<char> {
    replaced(replaced(stem, ".worker"@, ""@), "-worker"@, ""@)
}

/// Detects worker files in a project.
#[derive(Debug)]
pub struct WorkerDetector {
    config: WorkerConfig,
}

impl WorkerDetector {
    /// The configuration.
    pub closed spec fn cfg(&self) -> WorkerConfig {
        self.config
    }

    /// A detector for `config`.
    pub fn new(config: WorkerConfig) -> (r: Self)
        ensures
            r.cfg() == config,
    {
        WorkerDetector { config }
    }

    /// Whether `file_name` marks a worker by its ending.
    pub fn is_worker_name(&self, file_name: &str) -> (r: bool)
        ensures
            r == named_like_worker(file_name@),
    {
        ends_with_text(file_name, ".worker.ts") || ends_with_text(file_name, ".worker.js")
            || ends_with_text(file_name, ".worker.tsx") || ends_with_text(file_name, ".worker.jsx")
            || ends_with_text(file_name, "-worker.ts") || ends_with_text(file_name, "-worker.js")
            || ends_with_text(file_name, "worker.ts") || ends_with_text(file_name, "worker.js")
            || ends_with_text(file_name, "SharedWorker.ts") || ends_with_text(
            file_name,
            "SharedWorker.js",
        )
    }

    /// Whether `content` holds a worker marker.
    pub fn contains_worker_marker(&self, content: &str) -> (r: bool)
        ensures
            r == has_worker_marker(content@),
    {
        contains_text(content, "new Worker(") || contains_text(content, "new SharedWorker(")
            || contains_text(content, "self.onmessage") || contains_text(content, "self.postMessage")
            || contains_text(content, "importScripts(") || contains_text(content, "// @worker")
            || contains_text(content, "//worker")
    }

    /// Whether the file name of `path` marks a worker.
    pub fn has_worker_file_name(&self, path: &str) -> (r: bool)
        ensures
            r == named_like_worker(file_name_or_empty(path@)),
    {
        match file_name_of(path) {
            Some(n) => self.is_worker_name(n.as_str()),
            None => {
                let empty = String::new();
                self.is_worker_name(empty.as_str())
            },
        }
    }

    /// Whether `path` is a worker file: by its name alone, or, for a file
    /// (`is_file`), by a worker marker in its content where it could be
    /// read (`content`).
    pub fn is_worker_file(&self, is_file: bool, path: &str, content: Option<&str>) -> (r: bool)
        ensures
            r == is_worker(
                is_file,
                path@,
                match content {
                    Some(c) => Some(c@),
                    None => None,
                },
            ),
    {
        if self.has_worker_file_name(path) {
            return true;
        }
        if !is_file {
            return false;
        }
        match content {
            Some(c) => self.contains_worker_marker(c),
            None => false,
        }
    }

    /// The description of the worker at `path`: shared workers (named with
    /// `SharedWorker` or `shared`) are classic, others take the configured
    /// type; the output goes to `<output_dir>/<name>.js`. None where the path
    /// has no file name.
    pub fn create_worker_info(&self, path: &str) -> (r: Option<WorkerInfo>)
        ensures
            r is Some <==> path_file_name(path@) is Some,
            r matches Some(w) ==> {
                let f = path_file_name(path@)->0;
                let name = worker_name_from_stem(stem_of(f));
                &&& w.source_path@ == path@
                &&& w.name@ == name
                &&& w.output_path@ == joined(self.cfg().output_dir@, name + ".js"@)
                &&& w.worker_type == if names_shared(f) {
                    WorkerType::Classic
                } else {
                    self.cfg().worker_type
                }
                &&& w.is_shared == names_shared(f)
                &&& w.dependencies@.len() == 0
            },
    {
        let file_name = match file_name_of(path) {
            Some(n) => n,
            None => return None,
        };
        let shared = contains_text(file_name.as_str(), "SharedWorker") || contains_text(
            file_name.as_str(),
            "shared",
        );
        let worker_type = if shared {
            WorkerType::Classic
        } else {
            self.config.worker_type
        };
        let stem = match file_stem_of(path) {
            Some(s) => s,
            None => return None,
        };
        proof {
            reveal_strlit(".worker");
            reveal_strlit("-worker");
        }
        let a = replace_text(stem.as_str(), ".worker", "");
        let name = replace_text(a.as_str(), "-worker", "");
        let mut file = name.clone();
        push_text(&mut file, ".js");
        let output_path = join_path(self.config.output_dir.as_str(), file.as_str());
        Some(
            WorkerInfo {
                source_path: owned(path),
                output_path,
                name,
                worker_type,
                dependencies: Vec::new(),
                is_shared: shared,
            },
        )
    }

    /// The dependencies that a worker's source `content` names: module
    /// paths of its `import ... from "..."` lines and the scripts of its
    /// `importScripts(...)` lines, in order.
    pub fn extract_dependencies(&self, content: &str) -> (r: Vec<String>)
        ensures
            texts(r@) == dependencies_of_lines(lines_of(content@)),
    {
        dependencies_in(content)
    }
}

} // verus!
