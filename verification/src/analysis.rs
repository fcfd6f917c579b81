//! The slice of an analysis-only compile that the type-introspection path
//! reads.  The compiler collaborator can stop after its static-analysis
//! stage; what that stage knows and this crate consumes — each function of
//! the analyzed program, the shape of its final statement, and the type
//! recorded for that statement's expression — is held here as plain values.

use vstd::prelude::*;

use crate::text::str_eq;

verus! {

/// The shape of the final statement of an analyzed function's body.
pub enum LastStmt {
    /// A bare expression ended by a statement terminator, with the type the
    /// analysis recorded for that expression, if any.
    ExprSemi(Option<String>),
    /// An empty body, or a final statement of any other form.
    Other,
}

/// The mathematical value of a [`LastStmt`].
pub enum LastStmtView {
    ExprSemi(Option<Seq<char>>),
    Other,
}

impl View for LastStmt {
    type V = LastStmtView;

    open spec fn view(&self) -> LastStmtView {
        match self {
            LastStmt::ExprSemi(t) => LastStmtView::ExprSemi(t.deep_view()),
            LastStmt::Other => LastStmtView::Other,
        }
    }
}

impl DeepView for LastStmt {
    type V = LastStmtView;

    open spec fn deep_view(&self) -> LastStmtView {
        self.view()
    }
}

/// One function of the analyzed program: its name and the shape of its final
/// statement.
pub struct AnalyzedFn {
    pub name: String,
    pub last_stmt: LastStmt,
}

/// The mathematical value of an [`AnalyzedFn`].
pub struct AnalyzedFnView {
    pub name: Seq<char>,
    pub last_stmt: LastStmtView,
}

impl View for AnalyzedFn {
    type V = AnalyzedFnView;

    open spec fn view(&self) -> AnalyzedFnView {
        AnalyzedFnView { name: self.name@, last_stmt: self.last_stmt@ }
    }
}

impl DeepView for AnalyzedFn {
    type V = AnalyzedFnView;

    open spec fn deep_view(&self) -> AnalyzedFnView {
        self.view()
    }
}

/// The result of an analysis-only compile: the functions of the analyzed
/// program, in the order the analysis walks them.
pub struct CrateAnalysis {
    pub functions: Vec<AnalyzedFn>,
}

/// The mathematical value of a [`CrateAnalysis`].
pub struct CrateAnalysisView {
    pub functions: Seq<AnalyzedFnView>,
}

impl View for CrateAnalysis {
    type V = CrateAnalysisView;

    open spec fn view(&self) -> CrateAnalysisView {
        CrateAnalysisView { functions: self.functions.deep_view() }
    }
}

/// The type recorded for the final statement of the latest function named
/// `name`, counted only when that statement is a bare terminated expression
/// with a recorded type; nothing when no function matches that shape.
pub open spec fn analysis_expr_type(fns: Seq<AnalyzedFnView>, name: Seq<char>) -> Option<Seq<char>>
    decreases fns.len(),
{
    if fns.len() == 0 {
        None
    } else {
        match fns.last().last_stmt {
            LastStmtView::ExprSemi(Some(t)) => if fns.last().name == name {
                Some(t)
            } else {
                analysis_expr_type(fns.drop_last(), name)
            },
            _ => analysis_expr_type(fns.drop_last(), name),
        }
    }
}

/// Whether `t` is exactly what a type query over the analyzed functions
/// `fns` yields for the probe name `name`.
pub open spec fn expr_type_result(
    fns: Seq<AnalyzedFnView>,
    name: Seq<char>,
    t: Option<String>,
) -> bool {
    match t {
        Some(ty) => analysis_expr_type(fns, name) == Some(ty@),
        None => analysis_expr_type(fns, name) is None,
    }
}

/// Finds, within an analysis result, the recorded type of the final
/// statement of the function named `fn_name`, as [`analysis_expr_type`]
/// defines it.
pub fn find_expr_type(analysis: &CrateAnalysis, fn_name: &str) -> (r: Option<String>)
    ensures
        expr_type_result(analysis@.functions, fn_name@, r),
{
    let fns = &analysis.functions;
    let mut i: usize = fns.len();
    proof {
        assert(analysis@.functions.take(i as int) =~= analysis@.functions);
    }
    while i > 0
        invariant
            i <= fns@.len(),
            analysis@.functions == fns.deep_view(),
            analysis_expr_type(analysis@.functions, fn_name@) == analysis_expr_type(
                analysis@.functions.take(i as int),
                fn_name@,
            ),
        decreases i,
    {
        let f: &AnalyzedFn = &fns[i - 1];
        proof {
            let dv = analysis@.functions;
            assert(dv.take(i as int).drop_last() =~= dv.take(i - 1));
            assert(dv.take(i as int).last() == dv[i - 1]);
        }
        let name_hit = str_eq(f.name.as_str(), fn_name);
        if name_hit {
            match &f.last_stmt {
                LastStmt::ExprSemi(Some(t)) => {
                    return Some(t.clone());
                },
                _ => {},
            }
        }
        i -= 1;
    }
    None
}

} // verus!
