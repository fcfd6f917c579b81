//! Tests of the text helpers and of the input values the evaluator consumes.

use rusti::input::Input;
use rusti::text::{join_lines_exec, str_eq, str_starts_with};

#[test]
fn join_lines_separates_with_newlines() {
    assert_eq!(join_lines_exec(&Vec::new()), "".to_string());
    assert_eq!(join_lines_exec(&vec!["a".to_string()]), "a".to_string());
    assert_eq!(
        join_lines_exec(&vec!["a".to_string(), "b".to_string(), "c".to_string()]),
        "a\nb\nc".to_string()
    );
    assert_eq!(join_lines_exec(&vec!["".to_string(), "".to_string()]), "\n".to_string());
}

#[test]
fn prefix_test_matches_string_prefixes() {
    assert!(str_starts_with("block", ""));
    assert!(str_starts_with("block", "b"));
    assert!(str_starts_with("block", "block"));
    assert!(!str_starts_with("block", "blocks"));
    assert!(!str_starts_with("block", "c"));
}

#[test]
fn string_equality_compares_characters() {
    assert!(str_eq("", ""));
    assert!(str_eq("abc", "abc"));
    assert!(!str_eq("abc", "abd"));
    assert!(!str_eq("abc", "ab"));
}

#[test]
fn empty_input_has_nothing_in_it() {
    let i = Input::empty();
    assert_eq!(i.attributes.len(), 0);
    assert_eq!(i.view_items.len(), 0);
    assert_eq!(i.items.len(), 0);
    assert_eq!(i.statements.len(), 0);
    assert!(!i.last_expr);
}
