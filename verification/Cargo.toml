[package]
name = "rest"
version = "0.1.0"
edition = "2021"
publish = false

[dependencies]
regex = "=1.13.1"
globset = "=0.4.21"
oxc_allocator = "=0.143.0"
oxc_ast = "=0.143.0"
oxc_parser = "=0.143.0"
oxc_semantic = "=0.143.0"
oxc_span = "=0.143.0"
oxc_transformer = "=0.143.0"
oxc_codegen = "=0.143.0"
serde = { version = "1", features = ["derive"] }
serde_json = "1"
walkdir = "2"
clap = "4"
tokio = { version = "1", features = ["full"] }
futures = "0.3"
rayon = "1"
dashmap = "=6.2.1"
notify = "=8.2.1"
tracing = "0.1"
tracing-subscriber = "0.3"
anyhow = "1"
