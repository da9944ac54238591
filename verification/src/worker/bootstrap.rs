//! Bootstrap code for web workers: polyfills, the imports of the bootstrap
//! scripts and of the worker's entry point, loaders and declarations.
use vstd::prelude::*;

use super::{WorkerConfig, WorkerType};
use crate::text::{owned, push_text, replace_text, replaced, texts};

verus! {

broadcast use vstd::string::group_string_axioms;

/// Port handling that a shared worker installs.
pub const SHARED_PORT_HANDLER: &'static str = r#"
self.onconnect = function(event) {
    const port = event.ports[0];
    port.onmessage = function(event) {
        // Handle messages from the main thread
        self.dispatchEvent(new MessageEvent('message', event));
    };
    port.start();
};

"#;

/// Polyfills for module workers.
pub const MODULE_POLYFILLS: &'static str = r#"
// Polyfills for worker environment
(function() {
    // Ensure globalThis is available
    if (typeof globalThis === 'undefined') {
        self.globalThis = self;
    }
    
    // Ensure MessageChannel is available
    if (typeof MessageChannel === 'undefined') {
        self.MessageChannel = class MessageChannel {
            constructor() {
                this.port1 = new MessagePort();
                this.port2 = new MessagePort();
            }
        };
    }
    
    // Ensure MessagePort is available
    if (typeof MessagePort === 'undefined') {
        self.MessagePort = class MessagePort {
            constructor() {
                this.onmessage = null;
                this.onmessageerror = null;
            }
            postMessage(data) {}
            start() {}
            close() {}
        };
    }
})();

"#;

/// Polyfills for classic workers.
pub const CLASSIC_POLYFILLS: &'static str = r#"
// Classic worker polyfills
(function() {
    // Minimal polyfills for classic workers
    if (typeof globalThis === 'undefined') {
        self.globalThis = self;
    }
})();

"#;

/// The worker loader, up to the worker code.
pub const LOADER_HEAD: &'static str = r#"
(function() {
    const workerCode = `
        "#;

/// The worker loader, between the worker code and the worker name.
pub const LOADER_MIDDLE: &'static str = r#"
    `;
    
    const blob = new Blob([workerCode], { type: 'application/javascript' });
    const url = URL.createObjectURL(blob);
    
    self[""#;

/// The worker loader, after the worker name.
pub const LOADER_TAIL: &'static str = r#""] = new Worker(url, { type: 'module' });
    
    // Clean up blob URL after worker is created
    URL.revokeObjectURL(url);
})();
"#;

/// `s` made safe inside a JavaScript template literal: backticks and `${`
/// escaped with a backslash.
pub open spec fn template_escaped(s: Seq<char>) -> Seq<char> {
    replaced(replaced(s, "`"@, "\\`"@), "${"@, "\\${"@)
}

/// An `import '<s>';` line for each script.
pub open spec fn import_lines(scripts: Seq<Seq<char>>) -> Seq<char>
    decreases scripts.len(),
{
    if scripts.len() == 0 {
        seq![]
    } else {
        import_lines(scripts.drop_last()) + "import '"@ + scripts.last() + "';\n"@
    }
}

/// An `importScripts('<s>');` line for each script.
pub open spec fn import_script_lines(scripts: Seq<Seq<char>>) -> Seq<char>
    decreases scripts.len(),
{
    if scripts.len() == 0 {
        seq![]
    } else {
        import_script_lines(scripts.drop_last()) + "importScripts('"@ + scripts.last() + "');\n"@
    }
}

/// The bootstrap of a module worker.
pub open spec fn module_worker_code(scripts: Seq<Seq<char>>, entry: Seq<char>) -> Seq<char> {
    "// Module worker bootstrap\n"@ + MODULE_POLYFILLS@ + import_lines(scripts) + "import '"@ + entry
        + "';\n"@
}

/// The bootstrap of a classic worker.
pub open spec fn classic_worker_code(scripts: Seq<Seq<char>>, entry: Seq<char>) -> Seq<char> {
    "// Classic worker bootstrap\n"@ + CLASSIC_POLYFILLS@ + import_script_lines(scripts)
        + "importScripts('"@ + entry + "');\n"@
}

/// The bootstrap of a shared worker.
pub open spec fn shared_worker_code(entry: Seq<char>) -> Seq<char> {
    "// Shared worker bootstrap\n"@ + SHARED_PORT_HANDLER@ + CLASSIC_POLYFILLS@ + "importScripts('"@
        + entry + "');\n"@
}

/// A loader that starts the module worker at `url` from a blob, as
/// `self[name]`.
pub open spec fn loader_code(scripts: Seq<Seq<char>>, name: Seq<char>, url: Seq<char>) -> Seq<char> {
    LOADER_HEAD@ + template_escaped(module_worker_code(scripts, url)) + LOADER_MIDDLE@ + name
        + LOADER_TAIL@
}

/// An expression that starts a worker running `code` from a blob.
pub open spec fn inline_worker_code(code: Seq<char>, t: WorkerType) -> Seq<char> {
    match t {
        WorkerType::Module => "new Worker(URL.createObjectURL(new Blob([`"@ + template_escaped(code)
            + "`], { type: 'application/javascript' })), { type: 'module' })"@,
        WorkerType::Classic => "new Worker(URL.createObjectURL(new Blob([`"@ + template_escaped(code)
            + "`], { type: 'application/javascript' })))"@,
    }
}

/// A TypeScript declaration of the worker `name`.
pub open spec fn worker_declaration(name: Seq<char>) -> Seq<char> {
    "declare const "@ + name + ": Worker;\nexport { "@ + name + " };\n"@
}

/// `s` with backticks and `${` escaped.
pub fn escape_template(s: &str) -> (r: String)
    ensures
        r@ == template_escaped(s@),
{
    proof {
        reveal_strlit("`");
        reveal_strlit("${");
    }
    let a = replace_text(s, "`", "\\`");
    replace_text(a.as_str(), "${", "\\${")
}

/// Generates bootstrap code for web workers.
#[derive(Debug)]
pub struct WorkerBootstrap {
    config: WorkerConfig,
}

impl WorkerBootstrap {
    /// The configuration.
    pub closed spec fn cfg(&self) -> WorkerConfig {
        self.config
    }

    /// The bootstrap scripts.
    pub open spec fn scripts(&self) -> Seq<Seq<char>> {
        texts(self.cfg().bootstrap_scripts@)
    }

    /// A generator for `config`.
    pub fn new(config: WorkerConfig) -> (r: Self)
        ensures
            r.cfg() == config,
    {
        WorkerBootstrap { config }
    }

    /// The bootstrap of a module worker whose entry point is `entry_point`.
    pub fn generate_module_worker(&self, entry_point: &str) -> (r: String)
        ensures
            r@ == module_worker_code(self.scripts(), entry_point@),
    {
        let mut code = owned("// Module worker bootstrap\n");
        let polyfills = self.generate_polyfills();
        push_text(&mut code, polyfills.as_str());
        let ghost head = code@;
        let mut i: usize = 0;
        while i < self.config.bootstrap_scripts.len()
            invariant
                i <= self.config.bootstrap_scripts.len(),
                code@ == head + import_lines(texts(self.config.bootstrap_scripts@).take(i as int)),
            decreases self.config.bootstrap_scripts.len() - i,
        {
            push_text(&mut code, "import '");
            push_text(&mut code, self.config.bootstrap_scripts[i].as_str());
            push_text(&mut code, "';\n");
            assert(texts(self.config.bootstrap_scripts@).take(i + 1).drop_last() =~= texts(
                self.config.bootstrap_scripts@,
            ).take(i as int));
            i = i + 1;
        }
        assert(texts(self.config.bootstrap_scripts@).take(self.config.bootstrap_scripts.len() as int)
            =~= self.scripts());
        push_text(&mut code, "import '");
        push_text(&mut code, entry_point);
        push_text(&mut code, "';\n");
        code
    }

    /// The bootstrap of a classic worker whose entry point is `entry_point`.
    pub fn generate_classic_worker(&self, entry_point: &str) -> (r: String)
        ensures
            r@ == classic_worker_code(self.scripts(), entry_point@),
    {
        let mut code = owned("// Classic worker bootstrap\n");
        let polyfills = self.generate_classic_polyfills();
        push_text(&mut code, polyfills.as_str());
        let ghost head = code@;
        let mut i: usize = 0;
        while i < self.config.bootstrap_scripts.len()
            invariant
                i <= self.config.bootstrap_scripts.len(),
                code@ == head + import_script_lines(texts(self.config.bootstrap_scripts@).take(i as int)),
            decreases self.config.bootstrap_scripts.len() - i,
        {
            push_text(&mut code, "importScripts('");
            push_text(&mut code, self.config.bootstrap_scripts[i].as_str());
            push_text(&mut code, "');\n");
            assert(texts(self.config.bootstrap_scripts@).take(i + 1).drop_last() =~= texts(
                self.config.bootstrap_scripts@,
            ).take(i as int));
            i = i + 1;
        }
        assert(texts(self.config.bootstrap_scripts@).take(self.config.bootstrap_scripts.len() as int)
            =~= self.scripts());
        push_text(&mut code, "importScripts('");
        push_text(&mut code, entry_point);
        push_text(&mut code, "');\n");
        code
    }

    /// The bootstrap of a shared worker whose entry point is `entry_point`.
    pub fn generate_shared_worker(&self, entry_point: &str) -> (r: String)
        ensures
            r@ == shared_worker_code(entry_point@),
    {
        let mut code = owned("// Shared worker bootstrap\n");
        push_text(&mut code, SHARED_PORT_HANDLER);
        let polyfills = self.generate_classic_polyfills();
        push_text(&mut code, polyfills.as_str());
        push_text(&mut code, "importScripts('");
        push_text(&mut code, entry_point);
        push_text(&mut code, "');\n");
        code
    }

    /// Polyfills for module workers.
    pub fn generate_polyfills(&self) -> (r: String)
        ensures
            r@ == MODULE_POLYFILLS@,
    {
        owned(MODULE_POLYFILLS)
    }

    /// Polyfills for classic workers.
    pub fn generate_classic_polyfills(&self) -> (r: String)
        ensures
            r@ == CLASSIC_POLYFILLS@,
    {
        owned(CLASSIC_POLYFILLS)
    }

    /// A loader that starts the module worker at `module_url` from a blob,
    /// as `self[worker_name]`.
    pub fn generate_worker_loader(&self, worker_name: &str, module_url: &str) -> (r: String)
        ensures
            r@ == loader_code(self.scripts(), worker_name@, module_url@),
    {
        let worker = self.generate_module_worker(module_url);
        let escaped = escape_template(worker.as_str());
        let mut code = owned(LOADER_HEAD);
        push_text(&mut code, escaped.as_str());
        push_text(&mut code, LOADER_MIDDLE);
        push_text(&mut code, worker_name);
        push_text(&mut code, LOADER_TAIL);
        code
    }
}

/// An expression that starts a worker of type `worker_type` running `code`.
pub fn generate_inline_worker(code: &str, worker_type: WorkerType) -> (r: String)
    ensures
        r@ == inline_worker_code(code@, worker_type),
{
    let escaped = escape_template(code);
    let mut r = owned("new Worker(URL.createObjectURL(new Blob([`");
    push_text(&mut r, escaped.as_str());
    match worker_type {
        WorkerType::Module => {
            push_text(&mut r, "`], { type: 'application/javascript' })), { type: 'module' })");
        },
        WorkerType::Classic => {
            push_text(&mut r, "`], { type: 'application/javascript' })))");
        },
    }
    r
}

/// A TypeScript declaration of the worker `worker_name`.
pub fn generate_worker_declaration(worker_name: &str) -> (r: String)
    ensures
        r@ == worker_declaration(worker_name@),
{
    let mut r = owned("declare const ");
    push_text(&mut r, worker_name);
    push_text(&mut r, ": Worker;\nexport { ");
    push_text(&mut r, worker_name);
    push_text(&mut r, " };\n");
    r
}

} // verus!
