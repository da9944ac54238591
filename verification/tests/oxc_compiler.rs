use oxc_allocator::Allocator;
use rest::compiler_config::CompilerConfig;
use rest::oxc::compiler::Compiler;
use rest::oxc::parser::{parse, ParserConfig, SourceKind};
use rest::oxc::transformer::transform;
use rest::swc::{CompilerConfig as SwcConfig, ModuleFormat};

/// The compiler configuration that the OXC compiler takes, read from the
/// pipeline configuration `config`.
fn swc_config(config: &CompilerConfig) -> SwcConfig {
    SwcConfig {
        Target: config.target.clone(),
        Module: config.module.clone(),
        Strict: config.strict,
        EmitDecoratorsMetadata: config.emit_decorators_metadata,
        TreeShaking: false,
        Minify: false,
        ModuleFormat: ModuleFormat::from_str(&config.module),
    }
}

#[test]
fn test_parser_basic() {
    let source = r#"
        interface User {
            name: string;
            age: number;
        }

        function greet(user: User): string {
            return `Hello, ${user.name}!`;
        }
    "#;
    let config = ParserConfig::new("es2024".to_string(), false, true, true);
    let allocator = Allocator::default();
    let result = parse(&allocator, source, "test.ts", &config);
    assert!(result.is_ok(), "Parser should succeed");
    let parsed = result.unwrap();
    assert!(!parsed.program().body.is_empty(), "AST should have statements");
}

#[test]
fn test_transformer_basic() {
    let source = r#"
        class MyClass {
            private field: string = "value";
            public method(): void {}
        }
    "#;
    let config = CompilerConfig::simple();
    let compiler = Compiler::new(swc_config(&config));
    let parser_config = compiler.get_parser_config();
    let allocator = Allocator::default();
    let mut program = parse(&allocator, source, "test.ts", &parser_config).unwrap();
    let transformer_config = compiler.get_transformer_config();
    let transform_result = transform(&allocator, &mut program, "test.ts", SourceKind::Ts, &transformer_config);
    assert!(transform_result.is_ok(), "Transformation should succeed: {:?}", transform_result.err());
}

#[test]
fn test_sequential_compilation_no_segfault() {
    let config = CompilerConfig::simple();
    let mut compiler = Compiler::new(swc_config(&config));
    let sources = vec![
        r#"export const a: number = 1;"#,
        r#"export const b: number = 2;"#,
        r#"export const c: number = 3;"#,
        r#"export const d: number = 4;"#,
        r#"export const e: number = 5;"#,
    ];
    for (i, source) in sources.iter().enumerate() {
        let start = std::time::Instant::now();
        let result = compiler.compile_to_code(&format!("seq_test_{}.ts", i), source, false);
        assert!(result.is_ok(), "Sequential compilation {} should succeed: {:?}", i, result.err());
        compiler.record_compiled(start.elapsed());
    }
    assert_eq!(compiler.outlook.count, 5, "Should have compiled all 5 files");
}

#[test]
fn test_parse_errors() {
    let invalid_source = r#"
        function test() {
            return ;  // Syntax error
        }
    "#;
    let config = ParserConfig::default();
    let allocator = Allocator::default();
    let result = parse(&allocator, invalid_source, "test.ts", &config);
    match result {
        Ok(_program) => {
            println!("Parsed without diagnostics");
        },
        Err(errors) => {
            assert!(!errors.is_empty(), "Should have parse errors");
        },
    }
}

#[test]
fn test_transformer_config_derivation() {
    let config = CompilerConfig::vscode();
    let compiler = Compiler::new(swc_config(&config));
    let transformer_config = compiler.get_transformer_config();
    assert_eq!(transformer_config.target, "es2024", "Target should be es2024");
    assert_eq!(transformer_config.module_format, "esmodule", "VSCode uses esmodule");
    assert!(transformer_config.emit_decorator_metadata, "Should emit decorator metadata");
    assert!(!transformer_config.use_define_for_class_fields, "VSCode does NOT use defineForClassFields");
}

#[test]
fn test_parser_config_derivation() {
    let config = CompilerConfig::vscode();
    let compiler = Compiler::new(swc_config(&config));
    let parser_config = compiler.get_parser_config();
    assert_eq!(parser_config.target, "es2024");
    assert!(!parser_config.jsx, "Should not have JSX by default");
    assert!(parser_config.decorators, "Decorators should be enabled");
    assert!(parser_config.typescript, "TypeScript should be enabled");
}
