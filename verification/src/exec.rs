//! The execution engine: the registry of compiled modules and symbol
//! resolution across them.
//!
//! Compiling source text, loading native code and taking addresses are the
//! work of an outside toolchain that the embedding program drives.  This
//! module holds what that work produces and what the engine decides over it:
//! a module is a table of exported symbols with their addresses, the engine
//! is the insertion-ordered sequence of registered modules, and lookup scans
//! that sequence from the most recently registered module backwards, so a
//! later module shadows an earlier one.  The module sequence only grows:
//! code already run may have started work that still references a module, so
//! nothing is ever detached.

use vstd::prelude::*;
use vstd::string::*;

use crate::analysis::CrateAnalysis;
use crate::text::{clone_strings, str_eq};

verus! {

/// One compiled module, as the engine sees it: the exported function and
/// global symbols, each with the address the loader gave it.
pub struct CompiledModule {
    /// Exported functions: symbol name and address.
    pub functions: Vec<(String, usize)>,
    /// Exported globals: symbol name and address.
    pub globals: Vec<(String, usize)>,
}

/// The mathematical value of a [`CompiledModule`].
pub struct ModuleView {
    pub functions: Seq<(Seq<char>, usize)>,
    pub globals: Seq<(Seq<char>, usize)>,
}

impl View for CompiledModule {
    type V = ModuleView;

    open spec fn view(&self) -> ModuleView {
        ModuleView { functions: self.functions.deep_view(), globals: self.globals.deep_view() }
    }
}

impl DeepView for CompiledModule {
    type V = ModuleView;

    open spec fn deep_view(&self) -> ModuleView {
        self.view()
    }
}

/// The address the given symbol table exports under `name`: the first entry
/// with that name, or nothing.
pub open spec fn table_lookup(table: Seq<(Seq<char>, usize)>, name: Seq<char>) -> Option<usize>
    decreases table.len(),
{
    if table.len() == 0 {
        None
    } else if table[0].0 == name {
        Some(table[0].1)
    } else {
        table_lookup(table.drop_first(), name)
    }
}

/// Resolution across a sequence of symbol tables, one table per registered
/// module in registration order: the hit in the latest table that exports
/// `name`, or nothing.
pub open spec fn resolve_in(tables: Seq<Seq<(Seq<char>, usize)>>, name: Seq<char>) -> Option<usize>
    decreases tables.len(),
{
    if tables.len() == 0 {
        None
    } else {
        match table_lookup(tables.last(), name) {
            Some(a) => Some(a),
            None => resolve_in(tables.drop_last(), name),
        }
    }
}

/// The function symbol tables of the given modules, in registration order.
pub open spec fn fn_tables(mods: Seq<ModuleView>) -> Seq<Seq<(Seq<char>, usize)>>
    decreases mods.len(),
{
    if mods.len() == 0 {
        Seq::empty()
    } else {
        fn_tables(mods.drop_last()).push(mods.last().functions)
    }
}

/// The global symbol tables of the given modules, in registration order.
pub open spec fn global_tables(mods: Seq<ModuleView>) -> Seq<Seq<(Seq<char>, usize)>>
    decreases mods.len(),
{
    if mods.len() == 0 {
        Seq::empty()
    } else {
        global_tables(mods.drop_last()).push(mods.last().globals)
    }
}

proof fn lemma_fn_tables_index(mods: Seq<ModuleView>, i: int)
    requires
        0 <= i < mods.len(),
    ensures
        fn_tables(mods).len() == mods.len(),
        fn_tables(mods)[i] == mods[i].functions,
    decreases mods.len(),
{
    if mods.len() > 1 && i < mods.len() - 1 {
        lemma_fn_tables_index(mods.drop_last(), i);
    } else if mods.len() > 0 {
        lemma_fn_tables_len(mods.drop_last());
    }
}

proof fn lemma_fn_tables_len(mods: Seq<ModuleView>)
    ensures
        fn_tables(mods).len() == mods.len(),
    decreases mods.len(),
{
    if mods.len() > 0 {
        lemma_fn_tables_len(mods.drop_last());
    }
}

proof fn lemma_global_tables_index(mods: Seq<ModuleView>, i: int)
    requires
        0 <= i < mods.len(),
    ensures
        global_tables(mods).len() == mods.len(),
        global_tables(mods)[i] == mods[i].globals,
    decreases mods.len(),
{
    if mods.len() > 1 && i < mods.len() - 1 {
        lemma_global_tables_index(mods.drop_last(), i);
    } else if mods.len() > 0 {
        lemma_global_tables_len(mods.drop_last());
    }
}

proof fn lemma_global_tables_len(mods: Seq<ModuleView>)
    ensures
        global_tables(mods).len() == mods.len(),
    decreases mods.len(),
{
    if mods.len() > 0 {
        lemma_global_tables_len(mods.drop_last());
    }
}

/// Shadowing law: when the module at position `j` exports `name` and no
/// module registered after it does, resolution returns exactly that module's
/// entry — the latest registration wins.
pub proof fn lemma_symbol_shadowing(
    tables: Seq<Seq<(Seq<char>, usize)>>,
    name: Seq<char>,
    j: int,
)
    requires
        0 <= j < tables.len(),
        table_lookup(tables[j], name) is Some,
        forall|l: int| j < l < tables.len() ==> table_lookup(#[trigger] tables[l], name) is None,
    ensures
        resolve_in(tables, name) == table_lookup(tables[j], name),
    decreases tables.len(),
{
    if j == tables.len() - 1 {
    } else {
        assert(table_lookup(tables.last(), name) is None);
        assert(tables.drop_last()[j] == tables[j]);
        lemma_symbol_shadowing(tables.drop_last(), name, j);
    }
}

/// Resolution succeeds exactly when some registered module exports the
/// name; absence of the symbol everywhere yields nothing, never an error.
pub proof fn lemma_resolution_characterized(tables: Seq<Seq<(Seq<char>, usize)>>, name: Seq<char>)
    ensures
        resolve_in(tables, name) is Some <==> exists|k: int|
            0 <= k < tables.len() && table_lookup(#[trigger] tables[k], name) is Some,
    decreases tables.len(),
{
    if tables.len() > 0 {
        lemma_resolution_characterized(tables.drop_last(), name);
        if table_lookup(tables.last(), name) is Some {
            assert(table_lookup(tables[tables.len() - 1], name) is Some);
        } else if resolve_in(tables.drop_last(), name) is Some {
            let k = choose|k: int|
                0 <= k < tables.drop_last().len() && table_lookup(
                    #[trigger] tables.drop_last()[k],
                    name,
                ) is Some;
            assert(table_lookup(tables[k], name) is Some);
        } else {
            assert forall|k: int|
                0 <= k < tables.len() implies table_lookup(
                #[trigger] tables[k],
                name,
            ) is None by {
                if k < tables.len() - 1 {
                    assert(tables.drop_last()[k] == tables[k]);
                }
            }
        }
    }
}

/// A value that can serve as source input to the engine's compiler
/// collaborator.
pub trait IntoInput: Sized {
    /// The text this value stands for.
    spec fn text_view(&self) -> Seq<char>;

    /// Turns the value into source text.
    fn into_input(self) -> (r: String)
        ensures
            r@ == self.text_view(),
    ;
}

impl IntoInput for String {
    open spec fn text_view(&self) -> Seq<char> {
        self@
    }

    fn into_input(self) -> (r: String) {
        self
    }
}

impl<'a> IntoInput for &'a str {
    open spec fn text_view(&self) -> Seq<char> {
        (*self)@
    }

    fn into_input(self) -> (r: String) {
        String::from_str(self)
    }
}

/// One request to the compiler collaborator: the source text to compile and
/// the toolchain root and library search paths to compile it with.
pub struct CompileRequest {
    pub source: String,
    pub sysroot: String,
    pub lib_paths: Vec<String>,
}

/// Compiles input code into an execution environment.
///
/// The engine owns the modules registered so far, in registration order, the
/// library search paths handed to every compile, and the toolchain root, all
/// fixed at construction (the module sequence grows, the rest never changes).
pub struct ExecutionEngine {
    /// Registered modules, oldest first.
    pub modules: Vec<CompiledModule>,
    /// Additional search paths for libraries.
    pub lib_paths: Vec<String>,
    /// The toolchain installation root, resolved by the embedding program
    /// before the engine is built.
    pub sysroot: String,
}

/// The mathematical value of an [`ExecutionEngine`].
pub struct EngineView {
    pub modules: Seq<ModuleView>,
    pub lib_paths: Seq<Seq<char>>,
    pub sysroot: Seq<char>,
}

impl View for ExecutionEngine {
    type V = EngineView;

    open spec fn view(&self) -> EngineView {
        EngineView {
            modules: self.modules.deep_view(),
            lib_paths: self.lib_paths.deep_view(),
            sysroot: self.sysroot@,
        }
    }
}

impl ExecutionEngine {
    /// Constructs a new engine with the given resolved toolchain root and
    /// library search paths, holding only the initial base module (which
    /// exports nothing).
    pub fn new(sysroot: String, lib_paths: Vec<String>) -> (e: ExecutionEngine)
        ensures
            e@.modules.len() == 1,
            e@.modules[0].functions.len() == 0,
            e@.modules[0].globals.len() == 0,
            e@.lib_paths == lib_paths.deep_view(),
            e@.sysroot == sysroot@,
    {
        let mut modules: Vec<CompiledModule> = Vec::new();
        modules.push(CompiledModule { functions: Vec::new(), globals: Vec::new() });
        ExecutionEngine { modules, lib_paths, sysroot }
    }

    /// Registers the outcome of one compile.  A successful compile appends
    /// its module and returns the module's handle; a failed compile (nothing
    /// was produced) leaves the engine unchanged and returns nothing.
    pub fn add_module(&mut self, compiled: Option<CompiledModule>) -> (r: Option<usize>)
        ensures
            compiled is None ==> *final(self) == *old(self) && r is None,
            compiled matches Some(m) ==> {
                &&& final(self)@.modules == old(self)@.modules.push(m@)
                &&& final(self)@.lib_paths == old(self)@.lib_paths
                &&& final(self)@.sysroot == old(self)@.sysroot
                &&& r == Some((old(self)@.modules.len()) as usize)
            },
    {
        match compiled {
            Some(m) => {
                let handle = self.modules.len();
                self.modules.push(m);
                proof {
                    assert(self@.modules =~= old(self)@.modules.push(m@));
                }
                Some(handle)
            },
            None => None,
        }
    }

    /// The request this engine submits to its compiler collaborator for the
    /// given input: the input's text together with the engine's toolchain
    /// root and library search paths.  Both collaborator operations — the
    /// full compile and the analysis-only compile — take such a request.
    pub fn compile_request<T: IntoInput>(&self, input: T) -> (r: CompileRequest)
        ensures
            r.source@ == input.text_view(),
            r.sysroot@ == self@.sysroot,
            r.lib_paths.deep_view() == self@.lib_paths,
    {
        CompileRequest {
            source: input.into_input(),
            sysroot: self.sysroot.clone(),
            lib_paths: clone_strings(&self.lib_paths),
        }
    }

    /// Hands the outcome of an analysis-only compile to the probe `f`.  The
    /// collaborator's analysis worker either reached the analysis stage
    /// (`Some`) or failed before it (`None`); the probe runs against the
    /// result within that round and its value is returned.
    pub fn with_analysis<F: FnOnce(CrateAnalysis) -> R, R>(
        &self,
        outcome: Option<CrateAnalysis>,
        f: F,
    ) -> (r: Option<R>)
        requires
            outcome matches Some(a) ==> call_requires(f, (a,)),
        ensures
            r is Some <==> outcome is Some,
            outcome matches Some(a) ==> r matches Some(v) && call_ensures(f, (a,), v),
    {
        match outcome {
            Some(a) => Some(f(a)),
            None => None,
        }
    }

    /// Searches for the named function among the registered modules,
    /// beginning with the most recently registered, and returns the address
    /// of the first hit.
    pub fn get_function(&self, name: &str) -> (r: Option<usize>)
        ensures
            r == resolve_in(fn_tables(self@.modules), name@),
    {
        let mut i: usize = self.modules.len();
        proof {
            lemma_fn_tables_len(self@.modules);
            assert(fn_tables(self@.modules).take(i as int) =~= fn_tables(self@.modules));
        }
        while i > 0
            invariant
                i <= self.modules@.len(),
                resolve_in(fn_tables(self@.modules), name@) == resolve_in(
                    fn_tables(self@.modules).take(i as int),
                    name@,
                ),
            decreases i,
        {
            let m: &CompiledModule = &self.modules[i - 1];
            let res = table_get(&m.functions, name);
            proof {
                lemma_fn_tables_len(self@.modules);
                lemma_fn_tables_index(self@.modules, i - 1);
                let tabs = fn_tables(self@.modules);
                assert(tabs.take(i as int).drop_last() =~= tabs.take(i - 1));
                assert(tabs.take(i as int).last() == tabs[i - 1]);
            }
            match res {
                Some(a) => {
                    return Some(a);
                },
                None => {},
            }
            i -= 1;
        }
        proof {
            lemma_fn_tables_len(self@.modules);
            assert(fn_tables(self@.modules).take(0) =~= Seq::<Seq<(Seq<char>, usize)>>::empty());
        }
        None
    }

    /// Searches for the named global among the registered modules, beginning
    /// with the most recently registered, and returns the address of the
    /// first hit.
    pub fn get_global(&self, name: &str) -> (r: Option<usize>)
        ensures
            r == resolve_in(global_tables(self@.modules), name@),
    {
        let mut i: usize = self.modules.len();
        proof {
            lemma_global_tables_len(self@.modules);
            assert(global_tables(self@.modules).take(i as int) =~= global_tables(self@.modules));
        }
        while i > 0
            invariant
                i <= self.modules@.len(),
                resolve_in(global_tables(self@.modules), name@) == resolve_in(
                    global_tables(self@.modules).take(i as int),
                    name@,
                ),
            decreases i,
        {
            let m: &CompiledModule = &self.modules[i - 1];
            let res = table_get(&m.globals, name);
            proof {
                lemma_global_tables_len(self@.modules);
                lemma_global_tables_index(self@.modules, i - 1);
                let tabs = global_tables(self@.modules);
                assert(tabs.take(i as int).drop_last() =~= tabs.take(i - 1));
                assert(tabs.take(i as int).last() == tabs[i - 1]);
            }
            match res {
                Some(a) => {
                    return Some(a);
                },
                None => {},
            }
            i -= 1;
        }
        proof {
            lemma_global_tables_len(self@.modules);
            assert(global_tables(self@.modules).take(0) =~= Seq::<
                Seq<(Seq<char>, usize)>,
            >::empty());
        }
        None
    }
}

/// Scans one symbol table for `name` and returns the address of the first
/// entry carrying it.
fn table_get(table: &Vec<(String, usize)>, name: &str) -> (r: Option<usize>)
    ensures
        r == table_lookup(table.deep_view(), name@),
{
    let mut j: usize = 0;
    proof {
        assert(table.deep_view().skip(0) =~= table.deep_view());
    }
    while j < table.len()
        invariant
            j <= table@.len(),
            table_lookup(table.deep_view(), name@) == table_lookup(
                table.deep_view().skip(j as int),
                name@,
            ),
        decreases table@.len() - j,
    {
        let entry: &(String, usize) = &table[j];
        let hit = str_eq(entry.0.as_str(), name);
        proof {
            let dv = table.deep_view();
            assert(dv.skip(j as int)[0] == dv[j as int]);
            assert(dv.skip(j as int).drop_first() =~= dv.skip(j + 1));
        }
        if hit {
            return Some(entry.1);
        }
        j += 1;
    }
    proof {
        assert(table.deep_view().skip(table@.len() as int) =~= Seq::<(Seq<char>, usize)>::empty());
    }
    None
}

} // verus!
