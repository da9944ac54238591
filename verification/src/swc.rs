//! Compiler configuration and option types of the SWC-compatible pipeline.
use std::path::PathBuf;
use std::time::{Duration, SystemTime};

use vstd::prelude::*;

use crate::oxc::parser::{extension_of, path_extension};
use crate::text::owned;

verus! {

broadcast use vstd::string::group_string_axioms;

#[verifier::external_type_specification]
#[verifier::external_body]
pub struct ExPathBuf(PathBuf);

#[verifier::external_type_specification]
#[verifier::external_body]
pub struct ExSystemTime(SystemTime);

/// Information about a compiled file.
#[derive(Debug)]
pub struct FileInfo {
    path: PathBuf,
    last_modified: SystemTime,
}

/// Module format options for code generation.
#[derive(Debug, Clone, Copy, PartialEq, Eq, Structural)]
pub enum ModuleFormat {
    /// CommonJS module format (default).
    CommonJs,
    /// ECMAScript Modules (ESM).
    EsModule,
    /// Asynchronous Module Definition (AMD).
    Amd,
    /// Universal Module Definition (UMD).
    Umd,
    /// No modules: imports and exports stay as they are.
    NoModules,
}

/// The lower-case form of `s`, as `str::to_lowercase` computes it.
pub uninterp spec fn lowercased(s: Seq<char>) -> Seq<char>;

/// Whether every character of `s` is ASCII.
pub open spec fn all_ascii(s: Seq<char>) -> bool {
    forall|i: int| 0 <= i < s.len() ==> (s[i] as u32) < 128
}

/// The lower-case form of an ASCII character: `A`..`Z` become `a`..`z`,
/// every other character stays.
pub open spec fn ascii_lower(c: char) -> char {
    if 'A' <= c && c <= 'Z' {
        ((c as u32) + 32) as char
    } else {
        c
    }
}

/// `s` with each character lower-cased as ASCII.
pub open spec fn ascii_lowered(s: Seq<char>) -> Seq<char> {
    s.map_values(|c: char| ascii_lower(c))
}

/// `str::to_lowercase`: on an ASCII text, each upper-case letter becomes
/// its lower-case letter and every other character stays (the Unicode
/// lower-case mapping of ASCII, which `char::to_lowercase` documents).
#[verifier::external_body]
pub(crate) fn to_lower(s: &str) -> (r: String)
    ensures
        r@ == lowercased(s@),
        all_ascii(s@) ==> r@ == ascii_lowered(s@),
{
    s.to_lowercase()
}

/// The format that a lower-case format name denotes; any other name
/// denotes CommonJS.
pub open spec fn format_named(t: Seq<char>) -> ModuleFormat {
    if t == "esmodule"@ || t == "esm"@ || t == "esnext"@ || t == "es"@ {
        ModuleFormat::EsModule
    } else if t == "amd"@ {
        ModuleFormat::Amd
    } else if t == "umd"@ {
        ModuleFormat::Umd
    } else if t == "none"@ {
        ModuleFormat::NoModules
    } else {
        ModuleFormat::CommonJs
    }
}

/// The name of a format.
pub open spec fn format_name(f: ModuleFormat) -> Seq<char> {
    match f {
        ModuleFormat::CommonJs => "commonjs"@,
        ModuleFormat::EsModule => "esmodule"@,
        ModuleFormat::Amd => "amd"@,
        ModuleFormat::Umd => "umd"@,
        ModuleFormat::NoModules => "none"@,
    }
}

impl Default for ModuleFormat {
    fn default() -> (r: Self)
        ensures
            r == ModuleFormat::CommonJs,
    {
        ModuleFormat::CommonJs
    }
}

/// Every format name is ASCII, lower-case, and read back as its format:
/// `from_str(f.as_str()) == f`.
pub proof fn format_names_round_trip(f: ModuleFormat)
    ensures
        all_ascii(format_name(f)),
        ascii_lowered(format_name(f)) == format_name(f),
        format_named(ascii_lowered(format_name(f))) == f,
{
    reveal_strlit("commonjs");
    reveal_strlit("esmodule");
    reveal_strlit("esm");
    reveal_strlit("esnext");
    reveal_strlit("es");
    reveal_strlit("amd");
    reveal_strlit("umd");
    reveal_strlit("none");
    let n = format_name(f);
    assert(ascii_lowered(n) =~= n);
    match f {
        ModuleFormat::CommonJs => {
            assert(n != "esmodule"@ && n != "esm"@ && n != "esnext"@ && n != "es"@) by {
                assert(n[0] == 'c');
            }
            assert(n != "amd"@ && n != "umd"@ && n != "none"@) by {
                assert(n[0] == 'c');
            }
        },
        ModuleFormat::Amd => {
            assert(n != "esmodule"@ && n != "esm"@ && n != "esnext"@ && n != "es"@) by {
                assert(n[0] == 'a');
            }
        },
        ModuleFormat::Umd => {
            assert(n != "esmodule"@ && n != "esm"@ && n != "esnext"@ && n != "es"@ && n != "amd"@) by {
                assert(n[0] == 'u');
            }
        },
        ModuleFormat::NoModules => {
            assert(n != "esmodule"@ && n != "esm"@ && n != "esnext"@ && n != "es"@ && n != "amd"@
                && n != "umd"@) by {
                assert(n[0] == 'n');
            }
        },
        _ => {},
    }
}

/// Lower-casing an ASCII name twice is lower-casing it once, so a name and
/// its lower-case form name the same format.
pub proof fn format_names_ignore_case(s: Seq<char>)
    ensures
        ascii_lowered(ascii_lowered(s)) == ascii_lowered(s),
        format_named(ascii_lowered(ascii_lowered(s))) == format_named(ascii_lowered(s)),
        all_ascii(s) ==> all_ascii(ascii_lowered(s)),
{
    assert(ascii_lowered(ascii_lowered(s)) =~= ascii_lowered(s));
}

impl ModuleFormat {
    /// The format that the lower-case name `t` denotes.
    pub fn from_lowercase(t: &str) -> (r: Self)
        ensures
            r == format_named(t@),
    {
        if crate::text::same_text(t, "esmodule") || crate::text::same_text(t, "esm")
            || crate::text::same_text(t, "esnext") || crate::text::same_text(t, "es") {
            ModuleFormat::EsModule
        } else if crate::text::same_text(t, "amd") {
            ModuleFormat::Amd
        } else if crate::text::same_text(t, "umd") {
            ModuleFormat::Umd
        } else if crate::text::same_text(t, "none") {
            ModuleFormat::NoModules
        } else {
            ModuleFormat::CommonJs
        }
    }

    /// Parses a module format name ("commonjs", "esmodule", "esm", "esnext",
    /// "es", "amd", "umd", "none"), ignoring case; any other name gives
    /// CommonJS.
    pub fn from_str(s: &str) -> (r: Self)
        ensures
            r == format_named(lowercased(s@)),
            all_ascii(s@) ==> r == format_named(ascii_lowered(s@)),
    {
        let t = to_lower(s);
        Self::from_lowercase(t.as_str())
    }

    /// The module format as a lower-case name.
    pub fn as_str(&self) -> (r: &'static str)
        ensures
            r@ == format_name(*self),
    {
        match self {
            ModuleFormat::CommonJs => "commonjs",
            ModuleFormat::EsModule => "esmodule",
            ModuleFormat::Amd => "amd",
            ModuleFormat::Umd => "umd",
            ModuleFormat::NoModules => "none",
        }
    }
}

/// SWC-compatible compiler configuration for OXC-backed compilation.
#[allow(non_snake_case)]
#[derive(Debug, Clone)]
pub struct CompilerConfig {
    /// Target ECMAScript version (e.g. "es2024").
    pub Target: String,
    /// Module system ("commonjs", "esmodule").
    pub Module: String,
    /// Enable strict mode.
    pub Strict: bool,
    /// Emit decorators metadata.
    pub EmitDecoratorsMetadata: bool,
    /// Enable tree-shaking.
    pub TreeShaking: bool,
    /// Enable minification.
    pub Minify: bool,
    /// Module format.
    pub ModuleFormat: ModuleFormat,
}

impl Default for CompilerConfig {
    fn default() -> (r: Self)
        ensures
            r.Target@ == "es2024"@,
            r.Module@ == "commonjs"@,
            r.Strict,
            r.EmitDecoratorsMetadata,
            !r.TreeShaking,
            !r.Minify,
            r.ModuleFormat == ModuleFormat::CommonJs,
    {
        CompilerConfig {
            Target: owned("es2024"),
            Module: owned("commonjs"),
            Strict: true,
            EmitDecoratorsMetadata: true,
            TreeShaking: false,
            Minify: false,
            ModuleFormat: ModuleFormat::CommonJs,
        }
    }
}

impl CompilerConfig {
    /// Whether JSX is enabled: never from the config, as JSX is detected
    /// from the file extension when parsing.
    pub fn jsx(&self) -> (r: bool)
        ensures
            !r,
    {
        false
    }

    /// The module format as a string.
    pub fn module_format(&self) -> (r: String)
        ensures
            r@ == format_name(self.ModuleFormat),
    {
        owned(self.ModuleFormat.as_str())
    }
}

/// Compilation options passed through the build pipeline.
#[derive(Debug, Clone)]
pub struct BuildOption {
    /// Entry points for compilation.
    pub entry: Vec<Vec<String>>,
    /// File path separator character.
    pub separator: char,
    /// File pattern to match (e.g. "**/*.ts").
    pub pattern: String,
    /// Compiler configuration.
    pub config: CompilerConfig,
    /// Output directory for compiled files.
    pub output: String,
    /// VSCode compatibility: use defineForClassFields (false for VSCode).
    pub use_define_for_class_fields: bool,
}

impl Default for BuildOption {
    fn default() -> (r: Self)
        ensures
            r.entry@.len() == 0,
            r.separator == '/',
            r.pattern@ == "**/*.ts"@,
            r.config.Target@ == "es2024"@,
            r.config.Module@ == "commonjs"@,
            r.config.Strict,
            r.config.EmitDecoratorsMetadata,
            !r.config.TreeShaking,
            !r.config.Minify,
            r.config.ModuleFormat == ModuleFormat::CommonJs,
            r.output@ == "out"@,
            !r.use_define_for_class_fields,
    {
        BuildOption {
            entry: Vec::new(),
            separator: '/',
            pattern: owned("**/*.ts"),
            config: CompilerConfig::default(),
            output: owned("out"),
            use_define_for_class_fields: false,
        }
    }
}

/// Whether a change that the watcher reports triggers recompiling `path`:
/// a change of a file's data, on a file with the extension `ts`.
pub fn recompiles_on_change(data_changed: bool, path: &str) -> (r: bool)
    ensures
        r == (data_changed && path_extension(path@) == Some("ts"@)),
{
    if !data_changed {
        return false;
    }
    match extension_of(path) {
        Some(e) => crate::text::same_text(e.as_str(), "ts"),
        None => false,
    }
}

impl BuildOption {
    /// These options narrowed to the single entry `path`, as the watcher
    /// recompiles one changed file.
    pub fn for_file(self, path: String) -> (r: BuildOption)
        ensures
            r.entry@.len() == 1,
            r.entry@[0]@ == seq![path],
            r.separator == self.separator,
            r.pattern == self.pattern,
            r.config == self.config,
            r.output == self.output,
            r.use_define_for_class_fields == self.use_define_for_class_fields,
    {
        let mut file: Vec<String> = Vec::new();
        file.push(path);
        let mut entry: Vec<Vec<String>> = Vec::new();
        entry.push(file);
        BuildOption { entry, ..self }
    }
}

/// Compiler metrics: files processed, time spent and errors.
#[allow(non_snake_case)]
#[derive(Debug, Default)]
pub struct CompilerMetrics {
    /// Total files processed.
    pub Count: usize,
    /// Total elapsed time.
    pub Elapsed: Duration,
    /// Total error count.
    pub Error: usize,
}

} // verus!
