//! Tests of the evaluator: program synthesis, session commits, commands and
//! the type-query path.

use rusti::analysis::{AnalyzedFn, CrateAnalysis, LastStmt};
use rusti::input::{Input, InputResult, ViewItem};
use rusti::repl::{lookup_command, type_message, EvalAction, Repl};

fn empty_input() -> Input {
    Input {
        attributes: Vec::new(),
        view_items: Vec::new(),
        items: Vec::new(),
        statements: Vec::new(),
        last_expr: false,
    }
}

fn expr_round(expr: &str) -> Input {
    Input { statements: vec![expr.to_string()], last_expr: true, ..empty_input() }
}

fn item_round(item: &str) -> Input {
    Input { items: vec![item.to_string()], ..empty_input() }
}

fn fresh() -> Repl {
    Repl::new(String::new())
}

#[test]
fn synthesize_is_deterministic() {
    let mut r1 = fresh();
    let mut r2 = fresh();
    r1.commit_input(item_round("fn one() -> int { 1 }"));
    r2.commit_input(item_round("fn one() -> int { 1 }"));
    let i = expr_round("one()");
    let p1 = r1.handle_input(&i);
    let p2 = r2.handle_input(&i);
    assert_eq!(p1, p2);
    let p3 = r1.build_program(Some(&i), "tail");
    let p4 = r1.build_program(Some(&i), "tail");
    assert_eq!(p3, p4);
}

#[test]
fn crate_imports_precede_other_imports() {
    let mut r = fresh();
    r.commit_input(Input {
        view_items: vec![
            (ViewItem::OtherImport, "use std::mem;".to_string()),
            (ViewItem::CrateImport, "use core;".to_string()),
        ],
        ..empty_input()
    });
    let i = Input {
        view_items: vec![
            (ViewItem::CrateImport, "use alloc;".to_string()),
            (ViewItem::OtherImport, "use std::rc::Rc;".to_string()),
        ],
        ..empty_input()
    };
    let p = r.build_program(Some(&i), "");
    let block = "use core;\nuse alloc;\nuse std::mem;\nuse std::rc::Rc;";
    assert!(p.contains(block), "view items out of order in:\n{}", p);
}

#[test]
fn commit_appends_in_order_to_all_three_sequences() {
    let mut r = fresh();
    r.commit_input(Input {
        attributes: vec!["#![feature(one)]".to_string()],
        view_items: vec![(ViewItem::CrateImport, "use core;".to_string())],
        items: vec!["fn a() {}".to_string()],
        ..empty_input()
    });
    r.commit_input(Input {
        attributes: vec!["#![feature(two)]".to_string()],
        view_items: vec![(ViewItem::OtherImport, "use std::mem;".to_string())],
        items: vec!["fn b() {}".to_string(), "fn c() {}".to_string()],
        ..empty_input()
    });
    assert_eq!(
        r.session.attributes,
        vec!["#![feature(one)]".to_string(), "#![feature(two)]".to_string()]
    );
    assert_eq!(
        r.session.view_items,
        vec![
            (ViewItem::CrateImport, "use core;".to_string()),
            (ViewItem::OtherImport, "use std::mem;".to_string()),
        ]
    );
    assert_eq!(
        r.session.items,
        vec!["fn a() {}".to_string(), "fn b() {}".to_string(), "fn c() {}".to_string()]
    );
}

#[test]
fn failed_rounds_leave_the_session_unchanged() {
    let mut r = fresh();
    r.commit_input(item_round("fn a() {}"));
    let before = r.session.items.clone();

    // A parse error, a request for more input, blank input, end of input:
    // none of them touches the session.
    let a = r.eval(InputResult::InputError(Some("unterminated string".to_string())));
    assert!(matches!(a, EvalAction::Nothing));
    let a = r.eval(InputResult::InputError(None));
    assert!(matches!(a, EvalAction::Nothing));
    let a = r.eval(InputResult::More);
    assert!(matches!(a, EvalAction::Nothing));
    let a = r.eval(InputResult::Empty);
    assert!(matches!(a, EvalAction::Nothing));
    let a = r.eval(InputResult::Eof);
    assert!(matches!(a, EvalAction::Nothing));

    // A compile failure registers nothing and nothing is committed.
    let h = r.engine.add_module(None);
    assert_eq!(h, None);

    assert_eq!(r.session.attributes.len(), 0);
    assert_eq!(r.session.view_items.len(), 0);
    assert_eq!(r.session.items, before);
    assert!(!r.read_block);
}

#[test]
fn bare_expression_round_displays_its_value() {
    // Scenario: the round "1 + 1" synthesizes a program that displays 2 and
    // adds no declarations.
    let mut r = fresh();
    let a = r.eval(InputResult::Program(expr_round("1 + 1")));
    let expected = "#![allow(dead_code, unused_imports)]\n\n\n\n\n#[no_mangle]\npub fn _rusti_run() {\n    _rusti_inner();\n}\n\nfn _rusti_inner() {\nprintln!(\"{}\", { 1 + 1 });\n}\n\n";
    match a {
        EvalAction::Run { input, program, entry } => {
            assert_eq!(program, expected);
            assert_eq!(entry, "_rusti_run".to_string());
            // The round compiled: commit it.  A bare-expression round adds
            // no declarations.
            r.commit_input(input);
            assert_eq!(r.session.attributes.len(), 0);
            assert_eq!(r.session.view_items.len(), 0);
            assert_eq!(r.session.items.len(), 0);
        },
        _ => panic!("a program round must ask the host to run it"),
    }
}

#[test]
fn committed_declaration_reaches_later_rounds() {
    // Scenario: round one declares `add`; round two calls it, and its
    // synthesized source carries the declaration from the session.
    let mut r = fresh();
    let decl = "fn add(a: int, b: int) -> int { a + b }";
    let a = r.eval(InputResult::Program(item_round(decl)));
    match a {
        EvalAction::Run { input, program, .. } => {
            assert!(program.contains(decl));
            r.commit_input(input);
        },
        _ => panic!("a program round must ask the host to run it"),
    }
    assert_eq!(r.session.items, vec![decl.to_string()]);

    let a = r.eval(InputResult::Program(expr_round("add(2, 3)")));
    match a {
        EvalAction::Run { program, .. } => {
            assert!(program.contains(decl));
            assert!(program.contains("println!(\"{}\", { add(2, 3) });"));
        },
        _ => panic!("a program round must ask the host to run it"),
    }
}

#[test]
fn terminated_statement_is_not_wrapped() {
    let mut r = fresh();
    let i = Input { statements: vec!["let x = 1;".to_string()], last_expr: false, ..empty_input() };
    let a = r.eval(InputResult::Program(i));
    match a {
        EvalAction::Run { program, .. } => {
            assert!(program.contains("fn _rusti_inner() {\nlet x = 1;\n}\n"));
            assert!(!program.contains("println!"));
        },
        _ => panic!("a program round must ask the host to run it"),
    }
}

#[test]
fn type_command_builds_probe_and_reads_analysis() {
    // Scenario: `type 1 + 1` produces an analysis probe, no executed round,
    // and the queried expression with its inferred type.
    let mut r = fresh();
    let a = r.handle_command("type".to_string(), Some("1 + 1".to_string()));
    match a {
        EvalAction::TypeQuery { expr, name, program } => {
            assert_eq!(expr, "1 + 1".to_string());
            assert_eq!(name, "_rusti_type".to_string());
            assert!(program.contains("fn _rusti_type() {\n{ 1 + 1 };\n}\n"));
            // The host runs the analysis-only compile; its result records
            // the numeric type of the probe's final statement.
            let analysis = CrateAnalysis {
                functions: vec![AnalyzedFn {
                    name: "_rusti_type".to_string(),
                    last_stmt: LastStmt::ExprSemi(Some("int".to_string())),
                }],
            };
            let t = r.expr_type(name.as_str(), Some(analysis));
            assert_eq!(t, Some("int".to_string()));
            assert_eq!(type_message(expr.as_str(), "int"), "1 + 1 = int".to_string());
        },
        _ => panic!("`type` with an argument must ask for an analysis"),
    }
    assert_eq!(r.session.attributes.len(), 0);
    assert_eq!(r.session.view_items.len(), 0);
    assert_eq!(r.session.items.len(), 0);
}

#[test]
fn expr_type_misses_yield_nothing() {
    let r = fresh();
    // Compile failed: no analysis at all.
    assert_eq!(r.expr_type("_rusti_type", None), None);
    // No function of the probe's name.
    let a = CrateAnalysis {
        functions: vec![AnalyzedFn {
            name: "other".to_string(),
            last_stmt: LastStmt::ExprSemi(Some("int".to_string())),
        }],
    };
    assert_eq!(r.expr_type("_rusti_type", Some(a)), None);
    // The final statement has the wrong shape.
    let a = CrateAnalysis {
        functions: vec![AnalyzedFn { name: "_rusti_type".to_string(), last_stmt: LastStmt::Other }],
    };
    assert_eq!(r.expr_type("_rusti_type", Some(a)), None);
    // No type was recorded for the expression.
    let a = CrateAnalysis {
        functions: vec![AnalyzedFn {
            name: "_rusti_type".to_string(),
            last_stmt: LastStmt::ExprSemi(None),
        }],
    };
    assert_eq!(r.expr_type("_rusti_type", Some(a)), None);
}

#[test]
fn expr_type_takes_the_latest_matching_function() {
    let r = fresh();
    let a = CrateAnalysis {
        functions: vec![
            AnalyzedFn {
                name: "probe".to_string(),
                last_stmt: LastStmt::ExprSemi(Some("i32".to_string())),
            },
            AnalyzedFn {
                name: "probe".to_string(),
                last_stmt: LastStmt::ExprSemi(Some("u8".to_string())),
            },
            AnalyzedFn { name: "probe".to_string(), last_stmt: LastStmt::Other },
        ],
    };
    assert_eq!(r.expr_type("probe", Some(a)), Some("u8".to_string()));
}

#[test]
fn block_abbreviation_arms_block_mode() {
    // Scenario: `b` resolves to `block` and arms block mode; an unknown
    // prefix reports itself and changes nothing.
    assert_eq!(lookup_command("b"), Some("block".to_string()));
    assert_eq!(lookup_command("bl"), Some("block".to_string()));
    assert_eq!(lookup_command("block"), Some("block".to_string()));
    assert_eq!(lookup_command("t"), Some("type".to_string()));
    assert_eq!(lookup_command("xyz"), None);
    assert_eq!(lookup_command("blocks"), None);
    // The empty name is a prefix of both table entries: ambiguous, so it
    // resolves to nothing.
    assert_eq!(lookup_command(""), None);

    let mut r = fresh();
    assert!(!r.read_block);
    let a = r.handle_command("b".to_string(), None);
    assert!(matches!(a, EvalAction::Nothing));
    assert!(r.read_block);

    let mut r = fresh();
    let a = r.handle_command("xyz".to_string(), None);
    match a {
        EvalAction::Print(m) => assert_eq!(m, "unrecognized command `xyz`".to_string()),
        _ => panic!("an unknown command must report itself"),
    }
    assert!(!r.read_block);
}

#[test]
fn ambiguous_command_prefix_is_unrecognized() {
    // The empty name abbreviates both `block` and `type`; an ambiguous
    // prefix is reported like an unmatched one and changes nothing.
    let mut r = fresh();
    let a = r.handle_command(String::new(), None);
    match a {
        EvalAction::Print(m) => assert_eq!(m, "unrecognized command ``".to_string()),
        _ => panic!("an ambiguous command must report itself"),
    }
    assert!(!r.read_block);
}

#[test]
fn block_rejects_arguments() {
    let mut r = fresh();
    let a = r.handle_command("block".to_string(), Some("now".to_string()));
    match a {
        EvalAction::Print(m) => assert_eq!(m, "command `block` takes no arguments".to_string()),
        _ => panic!("`block` with an argument must report itself"),
    }
    assert!(!r.read_block);
}

#[test]
fn type_requires_an_expression() {
    let mut r = fresh();
    let a = r.handle_command("ty".to_string(), None);
    match a {
        EvalAction::Print(m) => assert_eq!(m, "command `type` expects an expression".to_string()),
        _ => panic!("`type` without an argument must report itself"),
    }
}

#[test]
fn run_command_dispatches_parsed_input() {
    let mut r = fresh();
    let a = r.run_command(InputResult::Command("t".to_string(), Some("1 + 1".to_string())));
    assert!(matches!(a, EvalAction::TypeQuery { .. }));
    let a = r.run_command(InputResult::InputError(Some("bad token".to_string())));
    match a {
        EvalAction::Print(m) => assert_eq!(m, "bad token".to_string()),
        _ => panic!("a parse error's message must be surfaced"),
    }
    let a = r.run_command(InputResult::Empty);
    assert!(matches!(a, EvalAction::Nothing));
}

#[test]
fn session_attributes_and_items_are_emitted_line_by_line() {
    let mut r = fresh();
    r.commit_input(Input {
        attributes: vec!["#![feature(alpha)]".to_string(), "#![feature(beta)]".to_string()],
        items: vec!["fn a() {}".to_string(), "fn b() {}".to_string()],
        ..empty_input()
    });
    let p = r.build_program(None, "tail");
    let expected = "#![allow(dead_code, unused_imports)]\n#![feature(alpha)]\n#![feature(beta)]\n\nfn a() {}\nfn b() {}\ntail\n";
    assert_eq!(p, expected);
}
