use adrenaline::directives::{Directive, DirectiveSet};
use adrenaline::parser::AdrenalineParser;
use adrenaline::ast_types::Statement;

#[test]
fn from_string_recognizes_the_closed_set() {
    assert_eq!(Directive::from_string("no-compile"), Some(Directive::NoCompile));
    assert_eq!(Directive::from_string("hot"), Some(Directive::Hot));
    assert_eq!(Directive::from_string("inline"), Some(Directive::Inline));
    assert_eq!(Directive::from_string("parallel"), Some(Directive::Parallel));
    assert_eq!(Directive::from_string("simd"), Some(Directive::Simd));
    assert_eq!(Directive::from_string("cache"), Some(Directive::Cache));
    assert_eq!(Directive::from_string("  hot  "), Some(Directive::Hot));
    assert_eq!(Directive::from_string("warm"), None);
    assert_eq!(Directive::from_string(""), None);
}

#[test]
fn from_strings_builds_the_union_and_drops_unknown_names() {
    let raw = vec![
        String::from("hot"),
        String::from("mystery"),
        String::from("simd"),
    ];
    let set = DirectiveSet::from_strings(&raw);
    assert!(set.is_hot());
    assert!(set.simd_eligible());
    assert!(!set.parallelizable());
    assert!(set.should_compile());
}

#[test]
fn directive_round_trip_through_the_parser() {
    // parsing `#adrenaline:hot` then querying is_hot returns true
    let src = "def f():\n    #adrenaline:hot\n    return 1\n";
    let program = AdrenalineParser::parse(src).unwrap();
    match &program.statements[0] {
        Statement::FunctionDef(f) => {
            let set = DirectiveSet::from_strings(&f.directives);
            assert!(set.is_hot());
            assert!(!set.use_cache());
        }
        other => panic!("expected a function definition, got {:?}", other),
    }
}

#[test]
fn unrecognized_directive_leaves_the_set_empty() {
    let src = "def f():\n    #adrenaline:turbo\n    return 1\n";
    let program = AdrenalineParser::parse(src).unwrap();
    match &program.statements[0] {
        Statement::FunctionDef(f) => {
            let set = DirectiveSet::from_strings(&f.directives);
            assert!(set.all().is_empty());
            assert!(set.should_compile());
        }
        other => panic!("expected a function definition, got {:?}", other),
    }
}

#[test]
fn add_and_all_report_members_once() {
    let mut set = DirectiveSet::new();
    set.add(Directive::Cache);
    set.add(Directive::Cache);
    set.add(Directive::Hot);
    let all = set.all();
    assert_eq!(all.len(), 2);
    assert!(all.contains(&Directive::Cache));
    assert!(all.contains(&Directive::Hot));
    assert!(set.use_cache());
    assert!(set.is_hot());
    assert!(!set.should_inline());
}

#[test]
fn no_compile_switches_off_compilation() {
    let set = DirectiveSet::from_strings(&vec![String::from("no-compile")]);
    assert!(!set.should_compile());
}
