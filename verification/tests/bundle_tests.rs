#![allow(non_snake_case)]

use rest::bundle::builder::BundleBuilder;
use rest::bundle::config::BundleConfig;
use rest::bundle::esbuild::EsbuildWrapper;
use rest::bundle::{BundleEntry, BundleMode};

#[test]
fn test_default_config() {
    let config = BundleConfig::default();
    assert_eq!(config.mode, BundleMode::SingleFile);
    assert_eq!(config.target, "es2024");
}

#[test]
fn test_single_file_config() {
    let config = BundleConfig::single_file();
    assert_eq!(config.mode, BundleMode::SingleFile);
    assert!(!config.source_map);
}

#[test]
fn test_bundle_config() {
    let config = BundleConfig::bundle();
    assert_eq!(config.mode, BundleMode::Bundle);
    assert!(config.tree_shaking);
}

#[test]
fn Config_test_builder_pattern() {
    let config = BundleConfig::default()
        .with_output_dir("dist")
        .with_output_file("bundle.js")
        .with_minify(true)
        .add_external("react")
        .add_entry("src/index.ts");
    assert_eq!(config.output_dir, "dist");
    assert_eq!(config.output_file, "bundle.js");
    assert!(config.minify);
    assert_eq!(config.externals.len(), 1);
    assert_eq!(config.entries.len(), 1);
}

#[test]
fn test_builder_creation() {
    let config = BundleConfig::single_file();
    let builder = BundleBuilder::new(config);
    assert!(builder.processed().is_empty());
}

#[test]
fn builder_test_add_entry() {
    let config = BundleConfig::bundle();
    let mut builder = BundleBuilder::new(config);
    builder.add_entry(BundleEntry::entry("src/index.ts"));
    assert_eq!(builder.config().entries.len(), 1);
}

#[test]
fn test_output_filename() {
    let config = BundleConfig::bundle().with_output_file("{name}.bundle.js");
    let builder = BundleBuilder::new(config);
    let filename = builder.generate_output_filename();
    assert_eq!(filename, "index.bundle.js");
}

#[test]
fn test_hash_computation() {
    let config = BundleConfig::bundle().add_entry("src/index.ts").add_entry("src/util.ts");
    let builder = BundleBuilder::new(config);
    let hash = builder.compute_hash();
    assert!(!hash.is_empty());
}

#[test]
fn test_esbuild_wrapper_creation() {
    let wrapper = EsbuildWrapper::new();
    assert!(wrapper.esbuild_path().is_none());
}

#[test]
fn test_esbuild_wrapper_with_path() {
    let wrapper = EsbuildWrapper::new().with_path("/custom/path/esbuild");
    assert!(wrapper.esbuild_path().is_some());
}
