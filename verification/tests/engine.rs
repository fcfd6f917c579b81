//! Tests of the execution engine: construction, module registration, and
//! symbol resolution with shadowing.

use rusti::analysis::CrateAnalysis;
use rusti::exec::{CompiledModule, ExecutionEngine};

fn module(fns: Vec<(&str, usize)>, globals: Vec<(&str, usize)>) -> CompiledModule {
    CompiledModule {
        functions: fns.into_iter().map(|(n, a)| (n.to_string(), a)).collect(),
        globals: globals.into_iter().map(|(n, a)| (n.to_string(), a)).collect(),
    }
}

#[test]
fn engine_new_holds_base_module_and_paths() {
    let e = ExecutionEngine::new("/usr".to_string(), vec!["/opt/lib".to_string()]);
    assert_eq!(e.modules.len(), 1);
    assert_eq!(e.modules[0].functions.len(), 0);
    assert_eq!(e.modules[0].globals.len(), 0);
    assert_eq!(e.lib_paths, vec!["/opt/lib".to_string()]);
    assert_eq!(e.sysroot, "/usr".to_string());
}

#[test]
fn fresh_engine_resolves_nothing() {
    let e = ExecutionEngine::new(String::new(), Vec::new());
    assert_eq!(e.get_function("hello"), None);
    assert_eq!(e.get_global("FOO"), None);
}

#[test]
fn add_module_failure_leaves_engine_unchanged() {
    let mut e = ExecutionEngine::new(String::new(), Vec::new());
    let r = e.add_module(None);
    assert_eq!(r, None);
    assert_eq!(e.modules.len(), 1);
}

#[test]
fn add_module_success_appends_and_returns_handle() {
    let mut e = ExecutionEngine::new(String::new(), Vec::new());
    let h1 = e.add_module(Some(module(vec![("hello", 0x1000)], vec![])));
    let h2 = e.add_module(Some(module(vec![("world", 0x2000)], vec![])));
    assert_eq!(h1, Some(1));
    assert_eq!(h2, Some(2));
    assert_eq!(e.modules.len(), 3);
    assert_eq!(e.get_function("hello"), Some(0x1000));
    assert_eq!(e.get_function("world"), Some(0x2000));
}

#[test]
fn later_module_shadows_function_symbol() {
    let mut e = ExecutionEngine::new(String::new(), Vec::new());
    e.add_module(Some(module(vec![("hello", 0x1000), ("only_old", 0x1100)], vec![])));
    e.add_module(Some(module(vec![("hello", 0x2000)], vec![])));
    assert_eq!(e.get_function("hello"), Some(0x2000));
    assert_eq!(e.get_function("only_old"), Some(0x1100));
    assert_eq!(e.get_function("absent"), None);
}

#[test]
fn later_module_shadows_global_symbol() {
    let mut e = ExecutionEngine::new(String::new(), Vec::new());
    e.add_module(Some(module(vec![], vec![("FOO", 0x10), ("BAR", 0x20)])));
    e.add_module(Some(module(vec![], vec![("FOO", 0x30)])));
    assert_eq!(e.get_global("FOO"), Some(0x30));
    assert_eq!(e.get_global("BAR"), Some(0x20));
    assert_eq!(e.get_global("BAZ"), None);
}

#[test]
fn function_and_global_tables_are_separate() {
    let mut e = ExecutionEngine::new(String::new(), Vec::new());
    e.add_module(Some(module(vec![("name", 0x1)], vec![("name", 0x2)])));
    assert_eq!(e.get_function("name"), Some(0x1));
    assert_eq!(e.get_global("name"), Some(0x2));
}

#[test]
fn compile_request_carries_engine_configuration() {
    let e = ExecutionEngine::new("/usr/local".to_string(), vec!["/deps".to_string()]);
    let r = e.compile_request("fn main() {}");
    assert_eq!(r.source, "fn main() {}".to_string());
    assert_eq!(r.sysroot, "/usr/local".to_string());
    assert_eq!(r.lib_paths, vec!["/deps".to_string()]);
    let r2 = e.compile_request("fn f() {}".to_string());
    assert_eq!(r2.source, "fn f() {}".to_string());
}

#[test]
fn with_analysis_skips_probe_on_failed_compile() {
    let e = ExecutionEngine::new(String::new(), Vec::new());
    let r = e.with_analysis(None, |_a| 7usize);
    assert_eq!(r, None);
}

#[test]
fn with_analysis_runs_probe_on_result() {
    let e = ExecutionEngine::new(String::new(), Vec::new());
    let a = CrateAnalysis { functions: Vec::new() };
    let r = e.with_analysis(Some(a), |a: CrateAnalysis| a.functions.len());
    assert_eq!(r, Some(0));
}
