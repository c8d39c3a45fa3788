use repo_insight::analyzer::FileAnalyzer;
use repo_insight::category::{categorize_file, is_config_file, is_documentation_file, is_test_file};
use repo_insight::closure::build_type_relations;
use repo_insight::types::{FileCategory, Visibility};

fn names(v: &[String]) -> Vec<&str> {
    v.iter().map(|s| s.as_str()).collect()
}

#[test]
fn empty_input_yields_nothing() {
    let a = FileAnalyzer::new();
    let (summary, relations, signatures, configuration) = a.analyze_content("", "empty.rs");
    assert_eq!(summary, "");
    assert!(relations.is_empty());
    assert!(signatures.is_empty());
    assert!(configuration.constants.is_empty());
    assert!(configuration.feature_flags.is_empty());
    assert!(configuration.custom_attributes.is_empty());
}

#[test]
fn no_declarations_yields_no_relations() {
    let a = FileAnalyzer::new();
    let text = "// just a comment\nlet x = 1;\nfn helper(y: i32) -> i32 { y }\n";
    let relations = a.analyze_type_relations(text);
    assert!(relations.is_empty());
}

#[test]
fn binary_looking_text_is_tolerated() {
    let a = FileAnalyzer::new();
    let text = "\u{0}\u{1}\u{2}\u{fffd}\n\u{7f}[\n";
    let (_, relations, signatures, _) = a.analyze_content(text, "blob.bin");
    assert!(relations.is_empty());
    assert!(signatures.is_empty());
}

#[test]
fn cycle_tolerance() {
    let a = FileAnalyzer::new();
    let text = "struct A { b: B }\nstruct B { a: A }\n";
    let relations = a.analyze_type_relations(text);
    assert_eq!(relations.len(), 2);
    assert_eq!(relations[0].name, "A");
    assert_eq!(relations[1].name, "B");
    // Closure over the two-cycle: each type reaches both, itself included.
    assert_eq!(names(&relations[0].depends_on), vec!["A", "B"]);
    assert_eq!(names(&relations[1].depends_on), vec!["A", "B"]);
    assert!(relations[0].depends_on.iter().any(|d| d == "B"));
    assert!(relations[1].depends_on.iter().any(|d| d == "A"));
    assert_eq!(names(&relations[0].used_by), vec!["A", "B"]);
    assert_eq!(names(&relations[1].used_by), vec!["A", "B"]);
}

#[test]
fn first_occurrence_wins_merging() {
    let a = FileAnalyzer::new();
    let text = "pub struct Foo { bar: Bar }\npub struct Foo { baz: Baz }\npub struct Bar {}\npub struct Baz {}\n";
    let relations = a.analyze_type_relations(text);
    let foos: Vec<_> = relations.iter().filter(|r| r.name == "Foo").collect();
    assert_eq!(foos.len(), 1);
    assert_eq!(names(&foos[0].depends_on), vec!["Bar", "Baz"]);
}

#[test]
fn derive_lookahead_attaches_traits() {
    let a = FileAnalyzer::new();
    let text = "#[derive(Debug, Clone)]\npub struct Point(i32,i32)\n";
    let relations = a.analyze_type_relations(text);
    assert_eq!(relations.len(), 1);
    assert_eq!(relations[0].name, "Point");
    assert_eq!(names(&relations[0].implemented_traits), vec!["Debug", "Clone"]);
}

#[test]
fn derive_lookahead_needs_adjacency() {
    let a = FileAnalyzer::new();
    let text = "#[derive(Debug, Clone)]\n\npub struct Point(i32,i32)\n";
    let relations = a.analyze_type_relations(text);
    assert_eq!(relations.len(), 1);
    assert_eq!(relations[0].name, "Point");
    assert!(relations[0].implemented_traits.is_empty());
}

#[test]
fn visibility_mapping() {
    let a = FileAnalyzer::new();
    let sigs = a.analyze_method_signatures("fn helper(x: i32) -> bool");
    assert_eq!(sigs.len(), 1);
    assert_eq!(sigs[0].name, "helper");
    assert_eq!(sigs[0].visibility, Visibility::Private);
    assert_eq!(sigs[0].return_type, "bool");
    assert_eq!(names(&sigs[0].params), vec!["x: i32"]);

    let sigs = a.analyze_method_signatures("pub fn helper(x: i32) -> bool");
    assert_eq!(sigs.len(), 1);
    assert_eq!(sigs[0].visibility, Visibility::Public);

    let sigs = a.analyze_method_signatures("pub(crate) fn helper(x: i32) -> bool");
    assert_eq!(sigs[0].visibility, Visibility::PublicCrate);

    let sigs = a.analyze_method_signatures("pub(super) fn helper(x: i32) -> bool");
    assert_eq!(sigs[0].visibility, Visibility::Private);
}

#[test]
fn signature_without_return_type_uses_unit() {
    let a = FileAnalyzer::new();
    let sigs = a.analyze_method_signatures("fn run()");
    assert_eq!(sigs.len(), 1);
    assert_eq!(sigs[0].return_type, "()");
    assert_eq!(names(&sigs[0].params), vec![""]);
}

#[test]
fn parameter_with_comma_in_generic_is_split_naively() {
    let a = FileAnalyzer::new();
    let sigs = a.analyze_method_signatures("fn f(m: Map<String, i32>) -> bool");
    assert_eq!(sigs.len(), 1);
    assert_eq!(names(&sigs[0].params), vec!["m: Map<String", "i32>"]);
}

#[test]
fn configuration_extraction() {
    let a = FileAnalyzer::new();
    let cfg = a.analyze_configuration("pub const MAX: usize = 10;\n");
    assert_eq!(cfg.constants.len(), 1);
    assert_eq!(cfg.constants[0].0, "MAX");
    assert_eq!(cfg.constants[0].1, "usize");
    assert_eq!(cfg.constants[0].2, "10");
}

#[test]
fn feature_flags_and_custom_attributes() {
    let a = FileAnalyzer::new();
    let text = "#[cfg(feature = \"fast\")]\n#[inline]\n#[cfg(test)]\n#[testing_helper]\n";
    let cfg = a.analyze_configuration(text);
    assert_eq!(names(&cfg.feature_flags), vec!["fast"]);
    // cfg- and test-prefixed bodies are excluded from the custom attributes.
    assert_eq!(names(&cfg.custom_attributes), vec!["inline"]);
}

#[test]
fn lowercase_constant_names_are_not_captured() {
    let a = FileAnalyzer::new();
    let cfg = a.analyze_configuration("const Max: usize = 10;\n");
    assert!(cfg.constants.is_empty());
}

#[test]
fn summary_lists_groups_in_rule_order() {
    let a = FileAnalyzer::new();
    let text = "pub struct X;\n/// doc\nfn foo() {}\n";
    let summary = a.generate_summary(text);
    let expected = "File start:\npub struct X;\n/// doc\nfn foo() {}\n\
Documentation: /// doc\n\
Private method: fn foo() {}\n\
Public struct: pub struct X;\n";
    // Matches are grouped by rule, not by source position: the struct line
    // appears last even though it comes first in the file.
    assert_eq!(summary, expected);
}

#[test]
fn summary_takes_at_most_five_head_lines() {
    let a = FileAnalyzer::new();
    let text = "a\nb\nc\nd\ne\nf\n";
    let summary = a.generate_summary(text);
    assert_eq!(summary, "File start:\na\nb\nc\nd\ne\n");
}

#[test]
fn dependencies_require_declared_types() {
    let a = FileAnalyzer::new();
    // String is not declared in the file, so it is not a dependency.
    let text = "struct A { s: String, b: B }\nstruct B {}\n";
    let relations = a.analyze_type_relations(text);
    assert_eq!(relations[0].name, "A");
    assert_eq!(names(&relations[0].depends_on), vec!["B"]);
}

#[test]
fn impl_for_header_records_trait_dependency() {
    let a = FileAnalyzer::new();
    let text = "struct Display {}\nstruct Foo {}\nimpl Display for Foo {}\n";
    let relations = a.analyze_type_relations(text);
    // The context open at the impl line is Foo, and the captured name is
    // the implemented one.
    let foo = relations.iter().find(|r| r.name == "Foo").unwrap();
    assert_eq!(names(&foo.depends_on), vec!["Display"]);
}

#[test]
fn container_references_are_dependencies() {
    let a = FileAnalyzer::new();
    let text = "struct Item {}\nstruct Bag { items: Vec<Item> }\n";
    let relations = a.analyze_type_relations(text);
    let bag = relations.iter().find(|r| r.name == "Bag").unwrap();
    assert_eq!(names(&bag.depends_on), vec!["Item"]);
    let item = relations.iter().find(|r| r.name == "Item").unwrap();
    assert_eq!(names(&item.used_by), vec!["Bag"]);
}

#[test]
fn categorize_file_by_extension_and_name() {
    assert_eq!(categorize_file("main.rs"), FileCategory::Source("rs".to_string()));
    assert_eq!(categorize_file("app.test.js"), FileCategory::Source("js".to_string()));
    assert_eq!(categorize_file("Cargo.toml"), FileCategory::Configuration);
    assert_eq!(categorize_file("README.md"), FileCategory::Documentation);
    assert_eq!(categorize_file("integration_test.xyz"), FileCategory::Test);
    assert_eq!(categorize_file("mystery.bin"), FileCategory::Unknown);
    assert_eq!(categorize_file(".gitignore"), FileCategory::Unknown);
}

#[test]
fn categorize_is_pure_across_calls() {
    let first = categorize_file("lib.rs");
    let _ = categorize_file("other.go");
    let _ = categorize_file("Makefile");
    let second = categorize_file("lib.rs");
    assert_eq!(first, second);
}

#[test]
fn category_helpers() {
    assert!(is_config_file("go.mod"));
    assert!(!is_config_file("go.sum"));
    assert!(is_documentation_file("CHANGELOG"));
    assert!(is_documentation_file("guide.md"));
    assert!(!is_documentation_file("guide.txt"));
    assert!(is_test_file("ThingTest.java"));
    assert!(is_test_file("spec_test.py"));
    assert!(!is_test_file("main.c"));
}

#[test]
fn closing_an_already_closed_relation_set_changes_nothing() {
    let a = FileAnalyzer::new();
    let text = "struct A { b: B }\nstruct B { c: C }\nstruct C { a: A }\nstruct D { a: A }\n";
    let closed = a.analyze_type_relations(text);
    let mut twice = closed.clone();
    build_type_relations(&mut twice);
    assert_eq!(twice, closed);
}

#[test]
fn arrow_followed_by_brace_or_line_end_yields_empty_return_type() {
    let a = FileAnalyzer::new();
    // With whitespace between the arrow and the body brace, the captured
    // return text is that whitespace, and trimming leaves it empty.
    let sigs = a.analyze_method_signatures("fn f() -> {");
    assert_eq!(sigs.len(), 1);
    assert_eq!(sigs[0].return_type, "");
    let sigs = a.analyze_method_signatures("fn f() -> ");
    assert_eq!(sigs[0].return_type, "");
    // With nothing after the arrow the optional return part does not match
    // at all, so the unit type's text stands in.
    let sigs = a.analyze_method_signatures("fn f() ->");
    assert_eq!(sigs[0].return_type, "()");
    let sigs = a.analyze_method_signatures("fn f() ->{");
    assert_eq!(sigs[0].return_type, "()");
}

#[test]
fn unicode_whitespace_is_trimmed() {
    let a = FileAnalyzer::new();
    // A no-break space before the declaration is whitespace, so the trimmed
    // line still matches the type-declaration rule.
    let text = "\u{a0}struct A { b: B }\nstruct B {}\n";
    let relations = a.analyze_type_relations(text);
    assert_eq!(relations.len(), 2);
    assert_eq!(relations[0].name, "A");
    assert_eq!(names(&relations[0].depends_on), vec!["B"]);
}
