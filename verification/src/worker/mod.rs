//! Web worker compilation: detection of worker files, bootstrap code, and
//! the compiler that wraps a worker's source in its bootstrap.
pub mod bootstrap;
pub mod compile;
pub mod detect;

use vstd::prelude::*;

use crate::paths::{file_stem_of, path_file_name, stem_of};
use crate::text::{owned, texts};

verus! {

broadcast use vstd::string::group_string_axioms;

/// Type of web worker.
#[derive(Debug, Clone, Copy, PartialEq, Eq, Structural)]
pub enum WorkerType {
    /// Classic worker (scripts loaded with `importScripts`).
    Classic,
    /// Module worker (ES modules).
    Module,
}

impl Default for WorkerType {
    fn default() -> (r: Self)
        ensures
            r == WorkerType::Module,
    {
        WorkerType::Module
    }
}

/// The name of a worker type.
pub open spec fn worker_type_name(t: WorkerType) -> Seq<char> {
    match t {
        WorkerType::Classic => "classic"@,
        WorkerType::Module => "module"@,
    }
}

impl WorkerType {
    /// The worker type as a name.
    pub fn as_str(&self) -> (r: &'static str)
        ensures
            r@ == worker_type_name(*self),
    {
        match self {
            WorkerType::Classic => "classic",
            WorkerType::Module => "module",
        }
    }
}

/// Configuration for worker compilation.
#[derive(Debug, Clone)]
pub struct WorkerConfig {
    /// Enable worker compilation.
    pub enabled: bool,
    /// Output directory for worker bundles.
    pub output_dir: String,
    /// Whether to inline dependencies.
    pub inline_dependencies: bool,
    /// Worker type.
    pub worker_type: WorkerType,
    /// Additional scripts to include in the worker bootstrap.
    pub bootstrap_scripts: Vec<String>,
    /// Whether to generate source maps for workers.
    pub source_maps: bool,
}

impl WorkerConfig {
    /// Two configurations hold the same settings.
    pub open spec fn same(self, other: Self) -> bool {
        &&& self.enabled == other.enabled
        &&& self.output_dir@ == other.output_dir@
        &&& self.inline_dependencies == other.inline_dependencies
        &&& self.worker_type == other.worker_type
        &&& texts(self.bootstrap_scripts@) == texts(other.bootstrap_scripts@)
        &&& self.source_maps == other.source_maps
    }

    /// Worker compilation enabled, output to `out/workers`, dependencies
    /// inlined, module workers, no bootstrap scripts, source maps on.
    pub fn new() -> (r: Self)
        ensures
            r.enabled,
            r.output_dir@ == "out/workers"@,
            r.inline_dependencies,
            r.worker_type == WorkerType::Module,
            r.bootstrap_scripts@.len() == 0,
            r.source_maps,
    {
        WorkerConfig {
            enabled: true,
            output_dir: owned("out/workers"),
            inline_dependencies: true,
            worker_type: WorkerType::Module,
            bootstrap_scripts: Vec::new(),
            source_maps: true,
        }
    }

    /// A copy of the configuration.
    pub fn copy(&self) -> (r: Self)
        ensures
            r.same(*self),
    {
        let mut scripts: Vec<String> = Vec::new();
        let mut i: usize = 0;
        while i < self.bootstrap_scripts.len()
            invariant
                i <= self.bootstrap_scripts.len(),
                texts(scripts@) == texts(self.bootstrap_scripts@).take(i as int),
            decreases self.bootstrap_scripts.len() - i,
        {
            let ghost before = scripts@;
            let x = self.bootstrap_scripts[i].clone();
            assert(x@ == self.bootstrap_scripts@[i as int]@);
            scripts.push(x);
            assert(texts(scripts@) =~= texts(before).push(x@));
            assert(texts(self.bootstrap_scripts@).take(i + 1) =~= texts(self.bootstrap_scripts@).take(
                i as int,
            ).push(x@));
            i = i + 1;
        }
        assert(texts(self.bootstrap_scripts@).take(self.bootstrap_scripts.len() as int) =~= texts(
            self.bootstrap_scripts@,
        ));
        WorkerConfig {
            enabled: self.enabled,
            output_dir: self.output_dir.clone(),
            inline_dependencies: self.inline_dependencies,
            worker_type: self.worker_type,
            bootstrap_scripts: scripts,
            source_maps: self.source_maps,
        }
    }
}

impl Default for WorkerConfig {
    /// Everything off and empty, module workers.
    fn default() -> (r: Self)
        ensures
            !r.enabled,
            r.output_dir@.len() == 0,
            !r.inline_dependencies,
            r.worker_type == WorkerType::Module,
            r.bootstrap_scripts@.len() == 0,
            !r.source_maps,
    {
        WorkerConfig {
            enabled: false,
            output_dir: String::new(),
            inline_dependencies: false,
            worker_type: WorkerType::Module,
            bootstrap_scripts: Vec::new(),
            source_maps: false,
        }
    }
}

/// Information about a detected worker file.
#[derive(Debug, Clone)]
pub struct WorkerInfo {
    /// Path to the worker source file.
    pub source_path: String,
    /// Path to the output worker bundle.
    pub output_path: String,
    /// Name of the worker (derived from the file name).
    pub name: String,
    /// The type of worker.
    pub worker_type: WorkerType,
    /// Dependencies to bundle.
    pub dependencies: Vec<String>,
    /// Whether this is a shared worker.
    pub is_shared: bool,
}

/// The name of a worker at `path`: the stem of its file name, or `worker`.
pub open spec fn worker_name_of(path: Seq<char>) -> Seq<char> {
    match path_file_name(path) {
        Some(f) => stem_of(f),
        None => "worker"@,
    }
}

impl WorkerInfo {
    /// A worker of type `worker_type` whose source and output are both at
    /// `source_path`, named after the file's stem.
    pub fn new(source_path: &str, worker_type: WorkerType) -> (r: Self)
        ensures
            r.source_path@ == source_path@,
            r.output_path@ == source_path@,
            r.name@ == worker_name_of(source_path@),
            r.worker_type == worker_type,
            r.dependencies@.len() == 0,
            !r.is_shared,
    {
        let name = match file_stem_of(source_path) {
            Some(s) => s,
            None => owned("worker"),
        };
        WorkerInfo {
            source_path: owned(source_path),
            output_path: owned(source_path),
            name,
            worker_type,
            dependencies: Vec::new(),
            is_shared: false,
        }
    }
}

} // verus!
