#![allow(non_snake_case)]

use rest::nls::bundle::NLSBundle;
use rest::nls::extract::extract_nls_keys;
use rest::nls::replace::{replace_nls_keys, NLSReplacer};
use rest::nls::NLSConfig;
use rest::strmap::StrMap;

#[test]
fn test_bundle_creation() {
    let config = NLSConfig { languages: vec!["en".to_string(), "de".to_string()], ..Default::default() };
    let bundle = NLSBundle::new(config);
    assert!(bundle.get_bundle("en").is_some());
    assert!(bundle.get_bundle("de").is_some());
}

#[test]
fn Bundle_test_add_entry() {
    let config = NLSConfig { languages: vec!["en".to_string()], ..Default::default() };
    let mut bundle = NLSBundle::new(config);
    bundle.add_entry("en", "hello", "Hello World");
    let en_bundle = bundle.get_bundle("en").unwrap();
    assert_eq!(en_bundle.entries.len(), 1);
    assert_eq!(en_bundle.entries[0].key, "hello");
}

#[test]
fn test_to_hashmap() {
    let config = NLSConfig { languages: vec!["en".to_string()], ..Default::default() };
    let mut bundle = NLSBundle::new(config);
    bundle.add_entry("en", "hello", "Hello World");
    let map = bundle.to_hashmap("en");
    assert_eq!(map.get("hello"), Some(&"Hello World".to_string()));
}

#[test]
fn test_extract_simple_localize() {
    let source = r#"
            const str = nls.localize('hello', 'Hello World');
        "#;
    let keys = extract_nls_keys(source);
    assert_eq!(keys.get("hello"), Some(&"Hello World".to_string()));
}

#[test]
fn test_extract_multiple_keys() {
    let source = r#"
            const a = localize('key1', 'Value 1');
            const b = nls.localize('key2', 'Value 2');
        "#;
    let keys = extract_nls_keys(source);
    assert_eq!(keys.get("key1"), Some(&"Value 1".to_string()));
    assert_eq!(keys.get("key2"), Some(&"Value 2".to_string()));
}

#[test]
fn test_extract_localize2() {
    let source = r#"
            const str = nls.localize2('key', 'Value 1', 'Value 2');
        "#;
    let keys = extract_nls_keys(source);
    assert_eq!(keys.get("key"), Some(&"Value 1".to_string()));
}

#[test]
fn test_replacer_creation() {
    let bundle = StrMap::new();
    let replacer = NLSReplacer::new(bundle);
    assert!(!replacer.preserve_calls());
}

#[test]
fn test_replacer_with_preserve() {
    let bundle = StrMap::new();
    let replacer = NLSReplacer::new(bundle).with_preserve_calls(true);
    assert!(replacer.preserve_calls());
}

#[test]
fn test_replace_keys() {
    let mut bundle = StrMap::new();
    bundle.insert("hello".to_string(), "Hello World".to_string());
    let source = r#"nls.localize('hello', 'default')"#;
    let result = replace_nls_keys(source, &bundle);
    assert!(result.contains("Hello World"));
}
