//! Tests of the Document Namer and the capitalization rule.

use gql_codegen_transform::gql::derive_export_name;
use gql_codegen_transform::gql::GqlDefinition;
use gql_codegen_transform::strutil::capitalize;
use gql_codegen_transform::strutil::str_eq;
use gql_codegen_transform::strutil::upper_char;

#[test]
fn upper_char_ascii_lowercase() {
    assert_eq!(upper_char('a'), 'A');
    assert_eq!(upper_char('z'), 'Z');
}

#[test]
fn upper_char_leaves_others() {
    assert_eq!(upper_char('A'), 'A');
    assert_eq!(upper_char('0'), '0');
    assert_eq!(upper_char('_'), '_');
    assert_eq!(upper_char('\u{e9}'), '\u{e9}');
}

#[test]
fn capitalize_first_only() {
    assert_eq!(capitalize("fooQuery"), "FooQuery");
    assert_eq!(capitalize("Already"), "Already");
    assert_eq!(capitalize("x"), "X");
}

#[test]
fn str_eq_basic() {
    assert!(str_eq("gql", "gql"));
    assert!(!str_eq("gql", "graphql"));
    assert!(!str_eq("gql", "gqL"));
    assert!(str_eq("", ""));
}

#[test]
fn named_query_document() {
    let defs = vec![GqlDefinition::Operation { name: Some(String::from("Foo")) }];
    assert_eq!(derive_export_name(&defs), Some(String::from("FooDocument")));
}

#[test]
fn lowercase_query_capitalized() {
    let defs = vec![GqlDefinition::Operation { name: Some(String::from("fooQuery")) }];
    assert_eq!(derive_export_name(&defs), Some(String::from("FooQueryDocument")));
}

#[test]
fn fragment_doc_name() {
    let defs = vec![GqlDefinition::Fragment { name: String::from("Baz") }];
    assert_eq!(derive_export_name(&defs), Some(String::from("BazFragmentDoc")));
}

#[test]
fn lowercase_fragment_capitalized() {
    let defs = vec![GqlDefinition::Fragment { name: String::from("userFields") }];
    assert_eq!(derive_export_name(&defs), Some(String::from("UserFieldsFragmentDoc")));
}

#[test]
fn anonymous_operation_unnamed() {
    let defs = vec![GqlDefinition::Operation { name: None }];
    assert_eq!(derive_export_name(&defs), None);
}

#[test]
fn empty_document_unnamed() {
    let defs: Vec<GqlDefinition> = Vec::new();
    assert_eq!(derive_export_name(&defs), None);
}

#[test]
fn empty_name_unnamed() {
    let defs = vec![GqlDefinition::Operation { name: Some(String::new()) }];
    assert_eq!(derive_export_name(&defs), None);
    let defs = vec![GqlDefinition::Fragment { name: String::new() }];
    assert_eq!(derive_export_name(&defs), None);
}

#[test]
fn only_first_definition_counts() {
    let defs = vec![
        GqlDefinition::Operation { name: None },
        GqlDefinition::Operation { name: Some(String::from("Second")) },
    ];
    assert_eq!(derive_export_name(&defs), None);
    let defs = vec![
        GqlDefinition::Operation { name: Some(String::from("First")) },
        GqlDefinition::Fragment { name: String::from("Second") },
    ];
    assert_eq!(derive_export_name(&defs), Some(String::from("FirstDocument")));
}
