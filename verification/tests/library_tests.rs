use oxc_allocator::Allocator;
use rest::binary::{
    compile_command_config, entry_of, glob_is_match, glob_of, is_excluded, join_parts, parallel_target,
    sequential_target, sequential_targets, split_text,
};
use rest::bundle::builder::BundleBuilder;
use rest::bundle::config::BundleConfig;
use rest::bundle::BundleEntry;
use rest::compiler_config::{CompilationMode, CompilerConfig};
use rest::nls::bundle::{generate_vscode_bundle, NLSBundle};
use rest::nls::replace::{replace_nls_keys, NLSReplacer};
use rest::nls::NLSConfig;
use rest::oxc::codegen::{codegen, CodegenConfig};
use rest::oxc::compiler::{compile_order, get_nesting_depth, nesting_depth_with, output_path_for, CompileError, Compiler};
use rest::oxc::parser::{determine_source_type, parse, ParserConfig, SourceKind};
use rest::oxc::transformer::{diagnostics_outcome, transform, transform_settings, JsxMode, TransformerConfig};
use rest::paths::join_path;
use rest::strmap::StrMap;
use rest::swc::{CompilerConfig as SwcConfig, ModuleFormat};
use rest::transform::private_field::convert_private_fields;
use rest::worker::compile::WorkerCompiler;
use rest::worker::detect::WorkerDetector;
use rest::worker::{WorkerConfig, WorkerInfo, WorkerType};

fn owned(xs: &[&str]) -> Vec<String> {
    xs.iter().map(|x| x.to_string()).collect()
}

#[test]
fn map_get_after_insert() {
    let mut m = StrMap::new();
    m.insert("a".to_string(), "1".to_string());
    m.insert("b".to_string(), "2".to_string());
    m.insert("a".to_string(), "3".to_string());
    assert_eq!(m.get("a"), Some(&"3".to_string()));
    assert_eq!(m.get("b"), Some(&"2".to_string()));
    assert_eq!(m.get("c"), None);
    assert_eq!(m.len(), 2);
    assert_eq!(m.key_at(0), "a");
}

#[test]
fn map_insert_if_absent_keeps_first() {
    let mut m = StrMap::new();
    m.insert_if_absent("k".to_string(), "first".to_string());
    m.insert_if_absent("k".to_string(), "second".to_string());
    assert_eq!(m.get("k"), Some(&"first".to_string()));
    assert_eq!(m.len(), 1);
}

#[test]
fn generated_bundle_gives_map_back() {
    let mut m = StrMap::new();
    m.insert("hello".to_string(), "Hello".to_string());
    m.insert("bye".to_string(), "Bye".to_string());
    let b = generate_vscode_bundle(&m, "de");
    assert_eq!(b.language, "de");
    assert_eq!(b.entries.len(), 2);
    let mut back = StrMap::new();
    for e in &b.entries {
        back.insert(e.key.clone(), e.value.clone());
    }
    assert_eq!(back.get("hello"), Some(&"Hello".to_string()));
    assert_eq!(back.get("bye"), Some(&"Bye".to_string()));
    assert!(!b.hash.is_empty());
}

#[test]
fn later_entry_wins_in_bundle_map() {
    let config = NLSConfig { languages: owned(&["en", "en", "fr"]), ..Default::default() };
    let mut bundle = NLSBundle::new(config);
    assert_eq!(bundle.all_bundles().len(), 2);
    bundle.add_entry("en", "k", "one");
    bundle.add_entry("en", "k", "two");
    bundle.add_entry("xx", "k", "ignored");
    let map = bundle.to_hashmap("en");
    assert_eq!(map.get("k"), Some(&"two".to_string()));
    assert_eq!(map.len(), 1);
    assert!(bundle.to_hashmap("xx").is_empty());
}

#[test]
fn replacement_preserves_call_when_asked() {
    let mut m = StrMap::new();
    m.insert("hello".to_string(), "Hallo".to_string());
    let r = NLSReplacer::new(m).with_preserve_calls(true);
    let out = r.replace("x = nls.localize('hello', 'Hello');");
    assert_eq!(out, "x = /* localize('hello') */ 'Hallo';");
    let untranslated = replace_nls_keys("nls.localize('other', 'x')", &StrMap::new());
    assert_eq!(untranslated, "nls.localize('other', 'x')");
}

#[test]
fn compiled_worker_is_read_back() {
    let mut compiler = WorkerCompiler::new(WorkerConfig::new());
    let mut info = WorkerInfo::new("src/a.worker.ts", WorkerType::Classic);
    let out = compiler.compile_worker_output(&mut info, "postMessage(1);", vec!["dep.js".to_string()]);
    assert_eq!(info.dependencies, vec!["dep.js".to_string()]);
    assert_eq!(compiler.get_compiled(&info.name), Some(&out));
    assert!(out.ends_with("\n// Worker source\npostMessage(1);"));
    assert!(compiler.get_compiled("other").is_none());
}

#[test]
fn worker_info_from_path() {
    let detector = WorkerDetector::new(WorkerConfig::new());
    let info = detector.create_worker_info("src/SharedWorker.ts").unwrap();
    assert!(info.is_shared);
    assert!(detector.create_worker_info("..").is_none());
    assert!(detector.is_worker_file(false, "a.worker.ts", None));
    assert!(!detector.is_worker_file(false, "plain.ts", Some("self.onmessage = f;")));
    assert!(detector.is_worker_file(true, "plain.ts", Some("self.onmessage = f;")));
}

#[test]
fn compile_order_is_stable_by_depth() {
    let files = owned(&["a/b/c.ts", "x.ts", "d/e.ts", "y.ts", "f/g.ts"]);
    let order = compile_order(&files, '/');
    assert_eq!(order, owned(&["x.ts", "y.ts", "d/e.ts", "f/g.ts", "a/b/c.ts"]));
    assert_eq!(compile_order(&Vec::new(), '/'), Vec::<String>::new());
}

#[test]
fn nesting_depth_counts_separators() {
    assert_eq!(nesting_depth_with("a/b/c.ts", '/'), 2);
    assert_eq!(nesting_depth_with("a\\b/c.ts", '\\'), 2);
    assert_eq!(nesting_depth_with("c.ts", '/'), 0);
    assert_eq!(get_nesting_depth("src/x/y.ts"), 2);
}

#[test]
fn output_path_keeps_structure() {
    assert_eq!(output_path_for("src/a/b.ts", "src", "out"), "out/a/b.js");
    assert_eq!(output_path_for("other/c.ts", "src", "out"), "out/other/c.js");
    assert_eq!(join_path("out/", "x"), "out/x");
    assert_eq!(join_path("out", "/abs"), "/abs");
}

#[test]
fn tree_shaking_twice_is_once() {
    let builder = BundleBuilder::new(BundleConfig::bundle());
    let content = "// note\nconst a = 1;\n\n  \nexport { a };".to_string();
    let once = builder.apply_tree_shaking(content);
    assert_eq!(once, "const a = 1;\nexport { a };\n");
    let twice = builder.apply_tree_shaking(once.clone());
    assert_eq!(twice, once);
}

#[test]
fn private_field_conversion_twice_is_once() {
    let once = convert_private_fields("this.#x = 1; this.#.y", "__");
    assert_eq!(once, "this.__x = 1; this.#.y");
    assert_eq!(convert_private_fields("this.#count = 1;", "__"), "this.__count = 1;");
    assert_eq!(convert_private_fields("a.#b; this.__c", "__"), "a.#b; this.__c");
    assert_eq!(convert_private_fields(&once, "__"), once);
    assert_eq!(convert_private_fields("no hash", "__"), "no hash");
}

#[test]
fn builder_entry_added_once() {
    let mut builder = BundleBuilder::new(BundleConfig::bundle());
    builder.add_entry(BundleEntry::entry("src/index.ts"));
    builder.add_entry(BundleEntry::entry("src/index.ts"));
    builder.add_entry(BundleEntry::new("src/lib.ts"));
    assert_eq!(builder.config().entries, owned(&["src/index.ts"]));
}

#[test]
fn module_graph_records_imports() {
    let mut builder = BundleBuilder::new(BundleConfig::bundle());
    builder.build_module_graph("main.ts", "import { a } from \"./a\";\nimport b from './b';\nconst c = 1;");
    let g = builder.module_graph();
    assert_eq!(g.len(), 1);
    assert_eq!(g[0].0, "main.ts");
    assert_eq!(g[0].1, owned(&["./a"]));
    builder.build_module_graph("main.ts", "");
    assert_eq!(builder.module_graph().len(), 1);
    assert!(builder.module_graph()[0].1.is_empty());
}

#[test]
fn bundling_configuration_enables_bundling() {
    let c = CompilerConfig::simple().with_bundling(BundleConfig::bundle());
    assert!(c.is_bundling_enabled());
    assert_eq!(c.mode, CompilationMode::Bundle);
    let s = CompilerConfig::simple().with_bundling(BundleConfig::single_file());
    assert!(!s.is_bundling_enabled());
    assert_eq!(s.mode, CompilationMode::SingleFile);
}

#[test]
fn entries_split_and_excluded() {
    let ex = owned(&["node_modules", ".git"]);
    assert!(is_excluded("a/node_modules/x", &ex, ".git"));
    assert!(!is_excluded("a/.git", &ex, ".git"));
    assert_eq!(entry_of("a/b/.git", &ex, ".git", '/'), Some(owned(&["a", "b", ".git"])));
    assert_eq!(entry_of("node_modules/p", &ex, ".git", '/'), None);
    assert_eq!(split_text("/a//b", '/'), owned(&["", "a", "", "b"]));
    assert_eq!(join_parts(&owned(&["a", "b", "c"]), 2, '/'), "a/b");
}

#[test]
fn sequential_targets_from_matching_entries() {
    let entries = vec![owned(&["repo", "x", ".git"]), owned(&["repo", "y"]), owned(&[".git"]), Vec::new()];
    assert_eq!(sequential_target(&entries[0], ".git", '/'), Some("repo/x".to_string()));
    assert_eq!(sequential_targets(&entries, ".git", '/'), owned(&["repo/x", ""]));
}

#[test]
fn parallel_targets_by_glob() {
    let glob = glob_of("**/*.ts").unwrap();
    assert!(glob_is_match(&glob, "src/a.ts"));
    assert_eq!(parallel_target(&glob, &owned(&["src", "a.ts"]), '/'), Some("src".to_string()));
    assert_eq!(parallel_target(&glob, &owned(&["src", "a.js"]), '/'), None);
    assert!(glob_of("a[").is_none());
}

#[test]
fn compile_command_reads_module_name() {
    let c = compile_command_config("es2022".to_string(), "ESM".to_string());
    assert_eq!(c.ModuleFormat, ModuleFormat::EsModule);
    assert!(c.TreeShaking);
    assert!(!c.Minify);
    let d = compile_command_config("es2024".to_string(), "whatever".to_string());
    assert_eq!(d.ModuleFormat, ModuleFormat::CommonJs);
    assert_eq!(d.module_format(), "commonjs");
}

#[test]
fn source_kind_from_extension() {
    let c = ParserConfig::default();
    assert_eq!(determine_source_type("a/b.tsx", &c), SourceKind::Tsx);
    assert_eq!(determine_source_type("b.mts", &c), SourceKind::Ts);
    assert_eq!(determine_source_type("b.mjs", &c), SourceKind::Mjs);
    assert_eq!(determine_source_type("b.cjs", &c), SourceKind::Cjs);
    assert_eq!(determine_source_type("b.jsx", &c), SourceKind::Jsx);
    assert_eq!(determine_source_type(".ts", &c), SourceKind::Unambiguous);
    assert_eq!(determine_source_type("b", &c), SourceKind::Unambiguous);
}

#[test]
fn transform_settings_follow_config() {
    let mut c = TransformerConfig::default();
    let s = transform_settings(&c);
    assert_eq!(s.jsx, JsxMode::Classic);
    assert!(s.set_public_class_fields);
    assert!(s.only_remove_type_imports);
    c.jsx = true;
    c.use_define_for_class_fields = true;
    let t = transform_settings(&c);
    assert_eq!(t.jsx, JsxMode::Automatic);
    assert!(!t.set_public_class_fields);
}

#[test]
fn codegen_length_counts_bytes() {
    let allocator = Allocator::default();
    let source = "const s = 'héllo ✓';";
    let program = parse(&allocator, source, "a.ts", &ParserConfig::default()).unwrap();
    let out = codegen(&allocator, &program, SourceKind::Ts, &CodegenConfig::default()).unwrap();
    assert_eq!(out.code_len, out.code.len());
    assert!(out.code.contains("héllo ✓"));
}

#[test]
fn compile_reports_parse_errors() {
    let compiler = Compiler::new(SwcConfig::default());
    match compiler.compile_to_code("bad.ts", "let = ;", false) {
        Err(CompileError::Parse(es)) => assert!(!es.is_empty()),
        other => panic!("expected parse errors, got {:?}", other.err()),
    }
    let ok = compiler.compile_to_code("good.ts", "let x: number = 1;", false).unwrap();
    assert!(ok.code.contains("let x = 1"));
}

#[test]
fn compile_keeps_class_fields_assigned() {
    let compiler = Compiler::new(SwcConfig::default());
    let out = compiler.compile_to_code("c.ts", "class A { x = 1; }", false).unwrap();
    assert!(out.code.contains("class A"));
}

#[test]
fn parser_config_derivation_simple() {
    let compiler = Compiler::new(SwcConfig::default());
    let p = compiler.get_parser_config();
    assert_eq!(p.target, "es2024");
    let c = compiler.get_codegen_config();
    assert!(!c.minify && !c.comments && !c.source_map);
}

#[test]
fn single_file_output_takes_file_name() {
    assert_eq!(BundleBuilder::single_file_output_name("src/app.ts"), "app.js");
    assert_eq!(BundleBuilder::single_file_output_name(".."), "output.js");
}

#[test]
fn bundle_output_named_after_first_entry() {
    let config = BundleConfig::bundle().add_entry("src/main.ts").with_output_file("{name}.min.js");
    let builder = BundleBuilder::new(config);
    assert_eq!(builder.generate_output_filename(), "main.min.js");
    assert_eq!(builder.output_path("main.min.js"), "out/main.min.js");
    assert_eq!(builder.source_map_path("main.min.js"), Some("out/main.min.map".to_string()));
}

#[test]
fn extracting_twice_is_extracting_once() {
    let source = "localize('a', 'A'); nls.localize('a', 'B'); localize2('c', 'C1', 'C2');";
    let mut extractor = rest::nls::extract::NLSExtractor::new().with_file("x.ts");
    extractor.extract(source);
    assert_eq!(extractor.entries.get("a"), Some(&"A".to_string()));
    assert_eq!(extractor.entries.get("c"), Some(&"C1".to_string()));
    let n = extractor.entries.len();
    extractor.extract(source);
    assert_eq!(extractor.entries.len(), n);
    assert_eq!(extractor.entries.get("a"), Some(&"A".to_string()));
    assert_eq!(extractor.current_file, Some("x.ts".to_string()));
}

#[test]
fn diagnostics_decide_the_outcome() {
    assert_eq!(diagnostics_outcome(Vec::new()), Ok(()));
    let errors = vec!["bad".to_string()];
    assert_eq!(diagnostics_outcome(errors.clone()), Err(errors));
}

#[test]
fn transform_strips_types_and_keeps_value_imports() {
    let allocator = Allocator::default();
    let source = "import type { T } from './t';\nimport { a } from './a';\nconst x: number = 1;";
    let mut parsed = parse(&allocator, source, "m.ts", &ParserConfig::default()).unwrap();
    let r = transform(&allocator, &mut parsed, "m.ts", SourceKind::Ts, &TransformerConfig::default());
    assert_eq!(r, Ok(()));
    assert_eq!(parsed.program().body.len(), 2);
    let out = codegen(&allocator, &parsed, SourceKind::Ts, &CodegenConfig::default()).unwrap();
    assert!(out.code.contains("import { a } from \"./a\""));
    assert!(out.code.contains("const x = 1"));
    assert!(!out.code.contains("number"));
}

#[test]
fn compile_records_failures() {
    let mut compiler = Compiler::new(SwcConfig::default());
    let bad = compiler.compile_to_code("bad.ts", "let = ;", false);
    compiler.record_result(&bad, std::time::Duration::from_millis(3));
    assert_eq!(compiler.outlook.error, 1);
    assert_eq!(compiler.outlook.count, 0);
    let good = compiler.compile_to_code("good.ts", "let x = 1;", false);
    compiler.record_result(&good, std::time::Duration::from_millis(5));
    assert_eq!(compiler.outlook.count, 1);
    assert_eq!(compiler.outlook.error, 1);
    assert_eq!(compiler.outlook.elapsed, std::time::Duration::from_millis(5));
    compiler.record_failed();
    assert_eq!(compiler.outlook.error, 2);
}

#[test]
fn module_format_names_round_trip() {
    for f in [ModuleFormat::CommonJs, ModuleFormat::EsModule, ModuleFormat::Amd, ModuleFormat::Umd, ModuleFormat::NoModules] {
        assert_eq!(ModuleFormat::from_str(f.as_str()), f);
    }
    assert_eq!(ModuleFormat::from_str("EsNext"), ModuleFormat::EsModule);
    assert_eq!(ModuleFormat::from_str("UMD"), ModuleFormat::Umd);
}

#[test]
fn equal_pairs_give_equal_hashes() {
    let mut b1 = rest::nls::LocalizationBundle::new("en");
    let mut b2 = rest::nls::LocalizationBundle::new("en");
    b1.add_entry("k", "v");
    b2.add_entry("k", "v");
    b2.entries[0].comment = Some("note".to_string());
    b1.compute_hash();
    b2.compute_hash();
    assert_eq!(b1.hash, b2.hash);
    assert!(b1.hash.chars().all(|c| c.is_ascii_hexdigit() && !c.is_ascii_uppercase()));
    let h = b1.hash.clone();
    b1.compute_hash();
    assert_eq!(b1.hash, h);
}

#[test]
fn bundles_follow_configured_languages() {
    let config = NLSConfig { languages: owned(&["en", "de", "en"]), ..Default::default() };
    let mut bundle = NLSBundle::new(config);
    bundle.add_entry("de", "k", "v");
    let mut m = StrMap::new();
    m.insert("a".to_string(), "b".to_string());
    bundle.add_entries("en", &m);
    assert_eq!(bundle.all_bundles().len(), 2);
    assert_eq!(bundle.get_bundle("de").unwrap().language, "de");
    assert_eq!(bundle.get_bundle("en").unwrap().entries.len(), 1);
    assert!(bundle.get_bundle("fr").is_none());
}
