//! Worker compilation: a worker's source behind its bootstrap, the cache of
//! compiled workers, and the declaration and loader files for a set of
//! workers. Reading sources and writing outputs stay with the caller.
use vstd::prelude::*;

use super::bootstrap::{
    classic_worker_code, generate_worker_declaration, loader_code, module_worker_code,
    worker_declaration, WorkerBootstrap,
};
use super::detect::WorkerDetector;
use super::{WorkerConfig, WorkerInfo, WorkerType};
use crate::strmap::{insert_then_get, lookup, with_pair, Pair, StrMap};
use crate::text::{owned, push_char, push_text, texts};

verus! {

broadcast use vstd::string::group_string_axioms;

/// What separates a worker's bootstrap from its source.
pub open spec fn source_marker() -> Seq<char> {
    "\n// Worker source\n"@
}

/// The compiled form of a worker: its bootstrap, then its source.
pub open spec fn worker_output(scripts: Seq<Seq<char>>, w: WorkerInfo, source: Seq<char>) -> Seq<char> {
    let boot = match w.worker_type {
        WorkerType::Module => module_worker_code(scripts, w.source_path@),
        WorkerType::Classic => classic_worker_code(scripts, w.source_path@),
    };
    boot + source_marker() + source
}

/// The declarations of the workers `ws`, one after the other.
pub open spec fn declarations_of(ws: Seq<WorkerInfo>) -> Seq<char>
    decreases ws.len(),
{
    if ws.len() == 0 {
        seq![]
    } else {
        declarations_of(ws.drop_last()) + worker_declaration(ws.last().name@)
    }
}

/// The loaders of the workers `ws`, each followed by a newline.
pub open spec fn loaders_of(scripts: Seq<Seq<char>>, ws: Seq<WorkerInfo>) -> Seq<char>
    decreases ws.len(),
{
    if ws.len() == 0 {
        seq![]
    } else {
        loaders_of(scripts, ws.drop_last()) + loader_code(
            scripts,
            ws.last().name@,
            "./"@ + ws.last().name@,
        ) + "\n"@
    }
}

/// A compiled worker is read back under its name: after compiling a worker
/// into the cache `cache`, looking its name up gives its output, and every
/// other worker keeps its cached output.
pub proof fn compiled_worker_reads_back(cache: Seq<Pair>, name: Seq<char>, output: Seq<char>, other: Seq<char>)
    ensures
        lookup(with_pair(cache, name, output), name) == Some(output),
        other != name ==> lookup(with_pair(cache, name, output), other) == lookup(cache, other),
{
    insert_then_get(cache, name, output, other);
}

/// Compiles web workers.
#[derive(Debug)]
pub struct WorkerCompiler {
    config: WorkerConfig,
    detector: WorkerDetector,
    bootstrap: WorkerBootstrap,
    /// The compiled workers, by name.
    compiled: StrMap,
}

impl WorkerCompiler {
    /// The configuration.
    pub closed spec fn cfg(&self) -> WorkerConfig {
        self.config
    }

    /// The bootstrap scripts that compiled workers load.
    pub closed spec fn scripts(&self) -> Seq<Seq<char>> {
        self.bootstrap.scripts()
    }

    /// The compiled workers, by name.
    pub closed spec fn cache(&self) -> Seq<Pair> {
        self.compiled@
    }

    /// A compiler for `config`, with nothing compiled yet.
    pub fn new(config: WorkerConfig) -> (r: Self)
        ensures
            r.cfg().same(config),
            r.scripts() == texts(config.bootstrap_scripts@),
            r.cache() == Seq::<Pair>::empty(),
    {
        let c1 = config.copy();
        let c2 = config.copy();
        WorkerCompiler {
            config: c1,
            detector: WorkerDetector::new(c2),
            bootstrap: WorkerBootstrap::new(config),
            compiled: StrMap::new(),
        }
    }

    /// The compiled form of a module worker with source `source`.
    pub fn compile_module_worker(&self, source: &str, worker_info: &WorkerInfo) -> (r: String)
        ensures
            r@ == module_worker_code(self.scripts(), worker_info.source_path@) + source_marker() + source@,
    {
        let mut output = self.bootstrap.generate_module_worker(worker_info.source_path.as_str());
        push_text(&mut output, "\n// Worker source\n");
        push_text(&mut output, source);
        output
    }

    /// The compiled form of a classic worker with source `source`.
    pub fn compile_classic_worker(&self, source: &str, worker_info: &WorkerInfo) -> (r: String)
        ensures
            r@ == classic_worker_code(self.scripts(), worker_info.source_path@) + source_marker() + source@,
    {
        let mut output = self.bootstrap.generate_classic_worker(worker_info.source_path.as_str());
        push_text(&mut output, "\n// Worker source\n");
        push_text(&mut output, source);
        output
    }

    /// Compiles the worker `worker_info` whose source is `source` and whose
    /// dependencies are `dependencies`: records the dependencies, caches the
    /// output under the worker's name, and returns the output.
    pub fn compile_worker_output(
        &mut self,
        worker_info: &mut WorkerInfo,
        source: &str,
        dependencies: Vec<String>,
    ) -> (r: String)
        ensures
            r@ == worker_output(old(self).scripts(), *old(worker_info), source@),
            final(worker_info).dependencies == dependencies,
            final(worker_info).source_path == old(worker_info).source_path,
            final(worker_info).output_path == old(worker_info).output_path,
            final(worker_info).name == old(worker_info).name,
            final(worker_info).worker_type == old(worker_info).worker_type,
            final(worker_info).is_shared == old(worker_info).is_shared,
            final(self).cache() == with_pair(old(self).cache(), old(worker_info).name@, r@),
            final(self).cfg() == old(self).cfg(),
            final(self).scripts() == old(self).scripts(),
    {
        worker_info.dependencies = dependencies;
        let output = match worker_info.worker_type {
            WorkerType::Module => self.compile_module_worker(source, worker_info),
            WorkerType::Classic => self.compile_classic_worker(source, worker_info),
        };
        self.compiled.insert(worker_info.name.clone(), output.clone());
        output
    }

    /// The compiled worker named `name`.
    pub fn get_compiled(&self, name: &str) -> (r: Option<&String>)
        ensures
            r matches Some(v) ==> crate::strmap::lookup(self.cache(), name@) == Some(v@),
            r is None ==> crate::strmap::lookup(self.cache(), name@) is None,
    {
        self.compiled.get(name)
    }

    /// All compiled workers.
    pub fn compiled(&self) -> (r: &StrMap)
        ensures
            r@ == self.cache(),
    {
        &self.compiled
    }

    /// The type declarations of the workers `workers`.
    pub fn generate_declarations(&self, workers: &[WorkerInfo]) -> (r: String)
        ensures
            r@ == "// Worker type declarations\n"@ + "// This file is auto-generated - do not edit\n\n"@
                + declarations_of(workers@),
    {
        let mut declarations = owned("// Worker type declarations\n");
        push_text(&mut declarations, "// This file is auto-generated - do not edit\n\n");
        let ghost head = declarations@;
        let mut i: usize = 0;
        while i < workers.len()
            invariant
                i <= workers@.len(),
                declarations@ == head + declarations_of(workers@.take(i as int)),
            decreases workers@.len() - i,
        {
            let d = generate_worker_declaration(workers[i].name.as_str());
            push_text(&mut declarations, d.as_str());
            assert(workers@.take(i + 1).drop_last() =~= workers@.take(i as int));
            i = i + 1;
        }
        assert(workers@.take(workers@.len() as int) =~= workers@);
        declarations
    }

    /// A loader file that lazily starts each of the workers `workers`.
    pub fn generate_worker_loader(&self, workers: &[WorkerInfo]) -> (r: String)
        ensures
            r@ == "// Worker loader - auto-generated\n"@
                + "// This file provides lazy-loading for web workers\n\n"@ + loaders_of(
                self.scripts(),
                workers@,
            ),
    {
        let mut code = owned("// Worker loader - auto-generated\n");
        push_text(&mut code, "// This file provides lazy-loading for web workers\n\n");
        let ghost head = code@;
        let mut i: usize = 0;
        while i < workers.len()
            invariant
                i <= workers@.len(),
                code@ == head + loaders_of(self.scripts(), workers@.take(i as int)),
            decreases workers@.len() - i,
        {
            let mut url = owned("./");
            push_text(&mut url, workers[i].name.as_str());
            let loader = self.bootstrap.generate_worker_loader(workers[i].name.as_str(), url.as_str());
            push_text(&mut code, loader.as_str());
            push_char(&mut code, '\n');
            proof {
                reveal_strlit("\n");
                assert(workers@.take(i + 1).drop_last() =~= workers@.take(i as int));
                assert(code@ =~= head + loaders_of(self.scripts(), workers@.take(i + 1)));
            }
            i = i + 1;
        }
        assert(workers@.take(workers@.len() as int) =~= workers@);
        code
    }
}

} // verus!
