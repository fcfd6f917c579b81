//! The evaluator: the persistent session of accepted declarations, the
//! program synthesizer that merges the session with one round of input into a
//! single compilable program, the command table, and the decisions of one
//! round.  Reading raw text, compiling, loading and running are performed by
//! the embedding program through its collaborators; this module computes what
//! to hand them and how the session changes when a round succeeds.

use vstd::prelude::*;
use vstd::string::*;

use crate::analysis::{expr_type_result, find_expr_type, CrateAnalysis};
use crate::exec::{EngineView, ExecutionEngine};
use crate::input::{Input, InputResult, InputView, ViewItem};
use crate::text::{
    clone_strings, extend_strings, is_prefix_of, join_lines, join_lines_exec, str_eq,
    str_starts_with,
};

verus! {

/// The persistent state of a session: every attribute, view item and item
/// declaration accepted so far, in acceptance order.  The three sequences
/// only ever grow, and only when a round's compile succeeds.
pub struct SessionState {
    /// Module-level attributes applied to every program.
    pub attributes: Vec<String>,
    /// View items compiled into every program.
    pub view_items: Vec<(ViewItem, String)>,
    /// Items compiled into every program.
    pub items: Vec<String>,
}

/// The mathematical value of a [`SessionState`].
pub struct SessionView {
    pub attributes: Seq<Seq<char>>,
    pub view_items: Seq<(ViewItem, Seq<char>)>,
    pub items: Seq<Seq<char>>,
}

impl View for SessionState {
    type V = SessionView;

    open spec fn view(&self) -> SessionView {
        SessionView {
            attributes: self.attributes.deep_view(),
            view_items: self.view_items.deep_view(),
            items: self.items.deep_view(),
        }
    }
}

/// The view items of `vs` carrying the tag `k`, in their original order.
pub open spec fn with_tag(vs: Seq<(ViewItem, Seq<char>)>, k: ViewItem) -> Seq<
    (ViewItem, Seq<char>),
>
    decreases vs.len(),
{
    if vs.len() == 0 {
        Seq::empty()
    } else if vs.last().0 == k {
        with_tag(vs.drop_last(), k).push(vs.last())
    } else {
        with_tag(vs.drop_last(), k)
    }
}

/// The source texts of the given view items, in order.
pub open spec fn texts_of(vs: Seq<(ViewItem, Seq<char>)>) -> Seq<Seq<char>>
    decreases vs.len(),
{
    if vs.len() == 0 {
        Seq::empty()
    } else {
        texts_of(vs.drop_last()).push(vs.last().1)
    }
}

/// The view items as the synthesizer emits them: every crate import before
/// every other import, each group keeping its original order.
pub open spec fn sorted_view_items(vs: Seq<(ViewItem, Seq<char>)>) -> Seq<(ViewItem, Seq<char>)> {
    with_tag(vs, ViewItem::CrateImport) + with_tag(vs, ViewItem::OtherImport)
}

/// The attributes an optional input contributes: none when it is absent.
pub open spec fn opt_attributes(input: Option<InputView>) -> Seq<Seq<char>> {
    match input {
        Some(i) => i.attributes,
        None => Seq::empty(),
    }
}

/// The view items an optional input contributes: none when it is absent.
pub open spec fn opt_view_items(input: Option<InputView>) -> Seq<(ViewItem, Seq<char>)> {
    match input {
        Some(i) => i.view_items,
        None => Seq::empty(),
    }
}

/// The items an optional input contributes: none when it is absent.
pub open spec fn opt_items(input: Option<InputView>) -> Seq<Seq<char>> {
    match input {
        Some(i) => i.items,
        None => Seq::empty(),
    }
}

/// The complete program synthesized from the session, an optional round of
/// input and a trailing body: a directive silencing unused-code diagnostics
/// (declarations carried from prior rounds look unused in isolation), the
/// attributes, the reordered view items, the items — session entries first,
/// input entries after, one per line — and the body verbatim last.
///
/// This is a total function of its three arguments: identical arguments give
/// identical text.
pub open spec fn program_text(
    session: SessionView,
    input: Option<InputView>,
    body: Seq<char>,
) -> Seq<char> {
    "#![allow(dead_code, unused_imports)]\n"@ + join_lines(
        session.attributes + opt_attributes(input),
    ) + "\n"@ + join_lines(texts_of(sorted_view_items(session.view_items + opt_view_items(input))))
        + "\n"@ + join_lines(session.items + opt_items(input)) + "\n"@ + body + "\n"@
}

/// The view of an optional borrowed input.
pub open spec fn opt_input_view(input: Option<&Input>) -> Option<InputView> {
    match input {
        Some(i) => Some(i@),
        None => None,
    }
}

/// Splitting a concatenation under [`with_tag`] splits its result.
proof fn lemma_with_tag_concat(
    a: Seq<(ViewItem, Seq<char>)>,
    b: Seq<(ViewItem, Seq<char>)>,
    k: ViewItem,
)
    ensures
        with_tag(a + b, k) == with_tag(a, k) + with_tag(b, k),
    decreases b.len(),
{
    if b.len() == 0 {
        assert(a + b =~= a);
        assert(with_tag(b, k) =~= Seq::<(ViewItem, Seq<char>)>::empty());
        assert(with_tag(a, k) + with_tag(b, k) =~= with_tag(a, k));
    } else {
        lemma_with_tag_concat(a, b.drop_last(), k);
        assert((a + b).drop_last() =~= a + b.drop_last());
        assert((a + b).last() == b.last());
        if b.last().0 == k {
            assert(with_tag(a, k) + with_tag(b.drop_last(), k).push(b.last()) =~= (with_tag(a, k)
                + with_tag(b.drop_last(), k)).push(b.last()));
        }
    }
}

/// Splitting a concatenation under [`texts_of`] splits its result.
proof fn lemma_texts_of_concat(a: Seq<(ViewItem, Seq<char>)>, b: Seq<(ViewItem, Seq<char>)>)
    ensures
        texts_of(a + b) == texts_of(a) + texts_of(b),
    decreases b.len(),
{
    if b.len() == 0 {
        assert(a + b =~= a);
        assert(texts_of(b) =~= Seq::<Seq<char>>::empty());
        assert(texts_of(a) + texts_of(b) =~= texts_of(a));
    } else {
        lemma_texts_of_concat(a, b.drop_last());
        assert((a + b).drop_last() =~= a + b.drop_last());
        assert((a + b).last() == b.last());
        assert(texts_of(a) + texts_of(b.drop_last()).push(b.last().1) =~= (texts_of(a) + texts_of(
            b.drop_last(),
        )).push(b.last().1));
    }
}

/// Appends to `out` a copy of the text of every view item in `vs` whose tag
/// is `k`, keeping their order.
fn push_texts_with(out: &mut Vec<String>, vs: &Vec<(ViewItem, String)>, k: ViewItem)
    ensures
        final(out).deep_view() == old(out).deep_view() + texts_of(with_tag(vs.deep_view(), k)),
{
    let mut i: usize = 0;
    proof {
        assert(with_tag(vs.deep_view().take(0), k) =~= Seq::<(ViewItem, Seq<char>)>::empty());
        assert(out.deep_view() =~= old(out).deep_view() + texts_of(
            with_tag(vs.deep_view().take(0), k),
        ));
    }
    while i < vs.len()
        invariant
            i <= vs@.len(),
            out.deep_view() == old(out).deep_view() + texts_of(
                with_tag(vs.deep_view().take(i as int), k),
            ),
        decreases vs@.len() - i,
    {
        let p: &(ViewItem, String) = &vs[i];
        let ghost dv = vs.deep_view();
        let ghost pre = out.deep_view();
        if p.0 == k {
            out.push(p.1.clone());
            proof {
                assert(out.deep_view() =~= pre.push(dv[i as int].1));
            }
        }
        proof {
            assert(dv.take(i + 1).drop_last() =~= dv.take(i as int));
            assert(dv.take(i + 1).last() == dv[i as int]);
            let x = with_tag(dv.take(i as int), k);
            if dv[i as int].0 == k {
                assert(x.push(dv[i as int]).drop_last() =~= x);
                assert(texts_of(with_tag(dv.take(i + 1), k)) == texts_of(x).push(dv[i as int].1));
                assert(pre.push(dv[i as int].1) =~= old(out).deep_view() + texts_of(x).push(
                    dv[i as int].1,
                ));
            }
        }
        i += 1;
    }
    proof {
        assert(vs.deep_view().take(vs@.len() as int) =~= vs.deep_view());
    }
}

/// A statement rewritten so the value of its bare expression is displayed
/// when the round runs.
pub open spec fn display_wrapped(stmt: Seq<char>) -> Seq<char> {
    "println!(\"{}\", { "@ + stmt + " });"@
}

/// The statements of a round as the entry function runs them: when the round
/// ends in a bare value-producing expression, that final statement is
/// rewritten to display its value; statements ending in an explicit
/// terminator are left side-effecting only.
pub open spec fn effective_statements(i: InputView) -> Seq<Seq<char>> {
    if i.last_expr && i.statements.len() > 0 {
        i.statements.update(
            i.statements.len() - 1,
            display_wrapped(i.statements.last()),
        )
    } else {
        i.statements
    }
}

/// The entry function synthesized around one round's statements.  The
/// exported entry symbol is fixed, so the host can resolve and call it after
/// the compile; the host runs the compiled round inside a disposable worker,
/// which is the fault boundary around user code.
pub open spec fn entry_text(stmts: Seq<char>) -> Seq<char> {
    "\n#[no_mangle]\npub fn _rusti_run() {\n    _rusti_inner();\n}\n\nfn _rusti_inner() {\n"@
        + stmts + "\n}\n"@
}

/// The complete program synthesized for one program round.
pub open spec fn input_program_text(session: SessionView, i: InputView) -> Seq<char> {
    program_text(session, Some(i), entry_text(join_lines(effective_statements(i))))
}

/// The probe synthesized for a type query on `expr`: the session's
/// declarations around a probe function that discards the value of `expr` as
/// its final statement.
pub open spec fn probe_text(session: SessionView, expr: Seq<char>) -> Seq<char> {
    program_text(session, None, "\nfn _rusti_type() {\n{ "@ + expr + " };\n}\n"@)
}

/// The full command name that `name` abbreviates: the single entry of the
/// command table that `name` is a prefix of.  A name that is a prefix of
/// more than one entry (only the empty name, with this table) is ambiguous
/// and resolves to nothing, exactly like an unmatched one.
pub open spec fn spec_lookup_command(name: Seq<char>) -> Option<Seq<char>> {
    if is_prefix_of(name, "block"@) && !is_prefix_of(name, "type"@) {
        Some("block"@)
    } else if is_prefix_of(name, "type"@) && !is_prefix_of(name, "block"@) {
        Some("type"@)
    } else {
        None
    }
}

/// Looks up a command name by what may be an abbreviated prefix.
/// Returns the full command name, e.g. `"b"` gives `"block"`; an ambiguous
/// or unmatched prefix gives nothing.
pub fn lookup_command(name: &str) -> (r: Option<String>)
    ensures
        match r {
            Some(c) => spec_lookup_command(name@) == Some(c@),
            None => spec_lookup_command(name@) is None,
        },
{
    let b = str_starts_with("block", name);
    let t = str_starts_with("type", name);
    if b && !t {
        return Some(String::from_str("block"));
    }
    if t && !b {
        return Some(String::from_str("type"));
    }
    None
}

/// The message shown for a completed type query: the queried expression
/// followed by its inferred type.
pub fn type_message(expr: &str, ty: &str) -> (r: String)
    ensures
        r@ == expr@ + " = "@ + ty@,
{
    let mut m = String::from_str(expr);
    m.append(" = ");
    m.append(ty);
    m
}

/// What the embedding program should do after one evaluator step.
pub enum EvalAction {
    /// Compile `program`; on success, load the module's dependencies,
    /// register the module, resolve and call `entry`, and commit `input` to
    /// the session.
    Run { input: Input, program: String, entry: String },
    /// Show this message to the user.
    Print(String),
    /// Compile `program` to the analysis stage only and hand the outcome to
    /// `expr_type` under `name`; `expr` is the queried expression text.
    TypeQuery { expr: String, name: String, program: String },
    /// Nothing left to do for this round.
    Nothing,
}

/// The full effect of one command round on the evaluator: the session and
/// the engine never change; block mode is armed exactly by a `block` command
/// without arguments; `type` with an argument produces an analysis request
/// for its probe; everything else produces a message for the user.
pub open spec fn command_outcome(
    pre: ReplView,
    post: ReplView,
    cmd: Seq<char>,
    args: Option<Seq<char>>,
    a: EvalAction,
) -> bool {
    &&& post.session == pre.session
    &&& post.engine == pre.engine
    &&& post.read_block == (pre.read_block || (spec_lookup_command(cmd) == Some("block"@)
        && args is None))
    &&& (spec_lookup_command(cmd) == Some("block"@) ==> match args {
        Some(_) => a matches EvalAction::Print(m) && m@ == "command `block` takes no arguments"@,
        None => a is Nothing,
    })
    &&& (spec_lookup_command(cmd) == Some("type"@) ==> match args {
        Some(e) => a matches EvalAction::TypeQuery { expr, name, program } && expr@ == e && name@
            == "_rusti_type"@ && program@ == probe_text(pre.session, e),
        None => a matches EvalAction::Print(m) && m@ == "command `type` expects an expression"@,
    })
    &&& (spec_lookup_command(cmd) is None ==> (a matches EvalAction::Print(m) && m@
        == "unrecognized command `"@ + cmd + "`"@))
}

/// Every element of `with_tag(vs, k)` carries the tag `k`.
proof fn lemma_with_tag_tags(vs: Seq<(ViewItem, Seq<char>)>, k: ViewItem)
    ensures
        forall|x: int| 0 <= x < with_tag(vs, k).len() ==> (#[trigger] with_tag(vs, k)[x]).0 == k,
    decreases vs.len(),
{
    if vs.len() > 0 {
        lemma_with_tag_tags(vs.drop_last(), k);
    }
}

/// On a sequence whose elements all carry the tag `k`, `with_tag` keeps
/// everything.
proof fn lemma_with_tag_all(s: Seq<(ViewItem, Seq<char>)>, k: ViewItem)
    requires
        forall|x: int| 0 <= x < s.len() ==> (#[trigger] s[x]).0 == k,
    ensures
        with_tag(s, k) == s,
    decreases s.len(),
{
    if s.len() == 0 {
        assert(with_tag(s, k) =~= s);
    } else {
        lemma_with_tag_all(s.drop_last(), k);
        assert(with_tag(s.drop_last(), k).push(s.last()) =~= s);
    }
}

/// On a sequence none of whose elements carries the tag `k`, `with_tag`
/// keeps nothing.
proof fn lemma_with_tag_empty(s: Seq<(ViewItem, Seq<char>)>, k: ViewItem)
    requires
        forall|x: int| 0 <= x < s.len() ==> (#[trigger] s[x]).0 != k,
    ensures
        with_tag(s, k) == Seq::<(ViewItem, Seq<char>)>::empty(),
    decreases s.len(),
{
    if s.len() == 0 {
        assert(with_tag(s, k) =~= Seq::<(ViewItem, Seq<char>)>::empty());
    } else {
        lemma_with_tag_empty(s.drop_last(), k);
    }
}

/// Determinism law: synthesis is a pure function — identical session, input
/// and body values always yield identical program text, byte for byte.
pub proof fn lemma_synthesize_deterministic(
    s1: SessionView,
    s2: SessionView,
    i1: Option<InputView>,
    i2: Option<InputView>,
    b1: Seq<char>,
    b2: Seq<char>,
)
    requires
        s1 == s2,
        i1 == i2,
        b1 == b2,
    ensures
        program_text(s1, i1, b1) == program_text(s2, i2, b2),
{
}

/// Ordering law: however crate imports and other imports are mixed, the view
/// items as synthesized hold every crate import first and every other import
/// after it, and each group keeps the order of the given sequence — the
/// tag-`k` subsequence of the reordered items equals the tag-`k` subsequence
/// of the originals.
pub proof fn lemma_view_item_ordering(vs: Seq<(ViewItem, Seq<char>)>)
    ensures
        sorted_view_items(vs).len() == with_tag(vs, ViewItem::CrateImport).len() + with_tag(
            vs,
            ViewItem::OtherImport,
        ).len(),
        forall|x: int| 0 <= x < with_tag(vs, ViewItem::CrateImport).len() ==> (#[trigger]
        sorted_view_items(vs)[x]).0 is CrateImport,
        forall|x: int|
            with_tag(vs, ViewItem::CrateImport).len() <= x < sorted_view_items(vs).len() ==> (
            #[trigger] sorted_view_items(vs)[x]).0 is OtherImport,
        with_tag(sorted_view_items(vs), ViewItem::CrateImport) == with_tag(
            vs,
            ViewItem::CrateImport,
        ),
        with_tag(sorted_view_items(vs), ViewItem::OtherImport) == with_tag(
            vs,
            ViewItem::OtherImport,
        ),
{
    let c = with_tag(vs, ViewItem::CrateImport);
    let o = with_tag(vs, ViewItem::OtherImport);
    lemma_with_tag_tags(vs, ViewItem::CrateImport);
    lemma_with_tag_tags(vs, ViewItem::OtherImport);
    lemma_with_tag_concat(c, o, ViewItem::CrateImport);
    lemma_with_tag_concat(c, o, ViewItem::OtherImport);
    lemma_with_tag_all(c, ViewItem::CrateImport);
    lemma_with_tag_all(o, ViewItem::OtherImport);
    lemma_with_tag_empty(o, ViewItem::CrateImport);
    lemma_with_tag_empty(c, ViewItem::OtherImport);
    assert(c + Seq::<(ViewItem, Seq<char>)>::empty() =~= c);
    assert(Seq::<(ViewItem, Seq<char>)>::empty() + o =~= o);
}

/// Executes input code and maintains the state of persistent items.
pub struct Repl {
    /// The execution engine owning every module registered so far.
    pub engine: ExecutionEngine,
    /// The declarations accepted so far.
    pub session: SessionState,
    /// True when the next round should be read as one explicit block.
    pub read_block: bool,
}

/// The mathematical value of a [`Repl`].
pub struct ReplView {
    pub engine: EngineView,
    pub session: SessionView,
    pub read_block: bool,
}

impl View for Repl {
    type V = ReplView;

    open spec fn view(&self) -> ReplView {
        ReplView { engine: self.engine@, session: self.session@, read_block: self.read_block }
    }
}

/// A freshly constructed evaluator: an empty session, block mode off, and an
/// engine holding only its base module, the given toolchain root and the
/// given library search paths.
pub open spec fn fresh_repl(r: ReplView, sysroot: Seq<char>, libs: Seq<Seq<char>>) -> bool {
    &&& r.session.attributes == Seq::<Seq<char>>::empty()
    &&& r.session.view_items == Seq::<(ViewItem, Seq<char>)>::empty()
    &&& r.session.items == Seq::<Seq<char>>::empty()
    &&& r.read_block == false
    &&& r.engine.sysroot == sysroot
    &&& r.engine.lib_paths == libs
    &&& r.engine.modules.len() == 1
    &&& r.engine.modules[0].functions.len() == 0
    &&& r.engine.modules[0].globals.len() == 0
}

impl Repl {
    /// Constructs a new `Repl` with the given resolved toolchain root and no
    /// extra library search paths.
    pub fn new(sysroot: String) -> (r: Repl)
        ensures
            fresh_repl(r@, sysroot@, Seq::empty()),
    {
        let r = Repl::new_with_libs(sysroot, Vec::new());
        proof {
            assert(r@.engine.lib_paths =~= Seq::<Seq<char>>::empty());
        }
        r
    }

    /// Constructs a new `Repl` with the given resolved toolchain root and
    /// additional library lookup paths.
    pub fn new_with_libs(sysroot: String, libs: Vec<String>) -> (r: Repl)
        ensures
            fresh_repl(r@, sysroot@, libs.deep_view()),
    {
        let r = Repl {
            engine: ExecutionEngine::new(sysroot, libs),
            session: SessionState { attributes: Vec::new(), view_items: Vec::new(), items: Vec::new() },
            read_block: false,
        };
        proof {
            assert(r@.session.attributes =~= Seq::<Seq<char>>::empty());
            assert(r@.session.view_items =~= Seq::<(ViewItem, Seq<char>)>::empty());
            assert(r@.session.items =~= Seq::<Seq<char>>::empty());
        }
        r
    }

    /// Builds a program text containing all persistent items seen so far
    /// and, optionally, those from an `input` instance; the `statements`
    /// field of `input` is ignored.  The trailing `program` is appended
    /// verbatim.
    pub fn build_program(&self, input: Option<&Input>, program: &str) -> (r: String)
        ensures
            r@ == program_text(self@.session, opt_input_view(input), program@),
    {
        let ghost iv = opt_input_view(input);

        let mut attrs: Vec<String> = clone_strings(&self.session.attributes);
        match input {
            Some(i) => extend_strings(&mut attrs, &i.attributes),
            None => {
                proof {
                    assert(attrs.deep_view() =~= self@.session.attributes + opt_attributes(iv));
                }
            },
        }
        let attrs_text = join_lines_exec(&attrs);

        let mut vtexts: Vec<String> = Vec::new();
        push_texts_with(&mut vtexts, &self.session.view_items, ViewItem::CrateImport);
        match input {
            Some(i) => push_texts_with(&mut vtexts, &i.view_items, ViewItem::CrateImport),
            None => {},
        }
        push_texts_with(&mut vtexts, &self.session.view_items, ViewItem::OtherImport);
        match input {
            Some(i) => push_texts_with(&mut vtexts, &i.view_items, ViewItem::OtherImport),
            None => {},
        }
        proof {
            let sv = self@.session.view_items;
            let nv = opt_view_items(iv);
            lemma_with_tag_concat(sv, nv, ViewItem::CrateImport);
            lemma_with_tag_concat(sv, nv, ViewItem::OtherImport);
            lemma_texts_of_concat(with_tag(sv, ViewItem::CrateImport), with_tag(nv, ViewItem::CrateImport));
            lemma_texts_of_concat(with_tag(sv, ViewItem::OtherImport), with_tag(nv, ViewItem::OtherImport));
            lemma_texts_of_concat(
                with_tag(sv + nv, ViewItem::CrateImport),
                with_tag(sv + nv, ViewItem::OtherImport),
            );
            if input is None {
                assert(with_tag(nv, ViewItem::CrateImport) =~= Seq::<(ViewItem, Seq<char>)>::empty());
                assert(with_tag(nv, ViewItem::OtherImport) =~= Seq::<(ViewItem, Seq<char>)>::empty());
                assert(texts_of(with_tag(nv, ViewItem::CrateImport)) =~= Seq::<Seq<char>>::empty());
                assert(texts_of(with_tag(nv, ViewItem::OtherImport)) =~= Seq::<Seq<char>>::empty());
            }
            assert(vtexts.deep_view() =~= texts_of(sorted_view_items(sv + nv)));
        }
        let vitems_text = join_lines_exec(&vtexts);

        let mut items: Vec<String> = clone_strings(&self.session.items);
        match input {
            Some(i) => extend_strings(&mut items, &i.items),
            None => {
                proof {
                    assert(items.deep_view() =~= self@.session.items + opt_items(iv));
                }
            },
        }
        let items_text = join_lines_exec(&items);

        let mut out = String::new();
        out.append("#![allow(dead_code, unused_imports)]\n");
        out.append(attrs_text.as_str());
        out.append("\n");
        out.append(vitems_text.as_str());
        out.append("\n");
        out.append(items_text.as_str());
        out.append("\n");
        out.append(program);
        out.append("\n");
        proof {
            assert(out@ =~= program_text(self@.session, iv, program@));
        }
        out
    }

    /// Synthesizes the complete program for one round of program input: the
    /// session's declarations, the round's declarations, and an entry
    /// function running the round's statements, the final one rewritten to
    /// display its value when the round ends in a bare expression.
    pub fn handle_input(&self, input: &Input) -> (prog: String)
        ensures
            prog@ == input_program_text(self@.session, input@),
    {
        let mut stmts = clone_strings(&input.statements);
        if input.last_expr && stmts.len() > 0 {
            let last_i = stmts.len() - 1;
            let mut w = String::new();
            w.append("println!(\"{}\", { ");
            w.append(stmts[last_i].as_str());
            w.append(" });");
            let ghost pre = stmts.deep_view();
            stmts.set(last_i, w);
            proof {
                assert(w@ == display_wrapped(input@.statements.last()));
                assert(stmts.deep_view() =~= effective_statements(input@));
            }
        } else {
            proof {
                assert(stmts.deep_view() =~= effective_statements(input@));
            }
        }
        let joined = join_lines_exec(&stmts);
        let mut body = String::new();
        body.append(
            "\n#[no_mangle]\npub fn _rusti_run() {\n    _rusti_inner();\n}\n\nfn _rusti_inner() {\n",
        );
        body.append(joined.as_str());
        body.append("\n}\n");
        proof {
            assert(body@ =~= entry_text(joined@));
        }
        self.build_program(Some(input), body.as_str())
    }

    /// Evaluates one round of parsed input.  Only a program round produces
    /// work: the returned action asks the host to compile and run the
    /// synthesized program and, on compile success, to commit the round.
    /// Every other parse outcome is ignored here, and the evaluator itself
    /// never changes — in particular, a parse error leaves the session as it
    /// was.
    pub fn eval(&mut self, res: InputResult) -> (a: EvalAction)
        ensures
            *final(self) == *old(self),
            res matches InputResult::Program(i) ==> a matches EvalAction::Run {
                input,
                program,
                entry,
            } && input == i && program@ == input_program_text(old(self)@.session, i@) && entry@
                == "_rusti_run"@,
            !(res matches InputResult::Program(_)) ==> a is Nothing,
    {
        match res {
            InputResult::Program(i) => {
                let program = self.handle_input(&i);
                EvalAction::Run { input: i, program, entry: String::from_str("_rusti_run") }
            },
            _ => EvalAction::Nothing,
        }
    }

    /// Commits one successfully compiled round: the round's attributes, view
    /// items and items are appended, in order, to the session's sequences.
    /// Nothing else changes — a round is committed whole or not at all.
    pub fn commit_input(&mut self, input: Input)
        ensures
            final(self)@.session.attributes == old(self)@.session.attributes + input@.attributes,
            final(self)@.session.view_items == old(self)@.session.view_items + input@.view_items,
            final(self)@.session.items == old(self)@.session.items + input@.items,
            final(self)@.engine == old(self)@.engine,
            final(self)@.read_block == old(self)@.read_block,
    {
        let ghost iv = input@;
        let Input { mut attributes, mut view_items, mut items, statements: _, last_expr: _ } =
            input;
        proof {
            assert(attributes.deep_view() == iv.attributes);
            assert(view_items.deep_view() == iv.view_items);
            assert(items.deep_view() == iv.items);
        }
        self.session.attributes.append(&mut attributes);
        self.session.view_items.append(&mut view_items);
        self.session.items.append(&mut items);
        proof {
            assert(self@.session.attributes =~= old(self)@.session.attributes + iv.attributes);
            assert(self@.session.view_items =~= old(self)@.session.view_items + iv.view_items);
            assert(self@.session.items =~= old(self)@.session.items + iv.items);
        }
    }

    /// Runs a single command round.
    pub fn handle_command(&mut self, cmd: String, args: Option<String>) -> (a: EvalAction)
        ensures
            command_outcome(old(self)@, final(self)@, cmd@, args.deep_view(), a),
    {
        proof {
            reveal_strlit("block");
            reveal_strlit("type");
        }
        let full = lookup_command(cmd.as_str());
        match full {
            Some(c) => {
                if str_eq(c.as_str(), "block") {
                    match args {
                        Some(_) => EvalAction::Print(
                            String::from_str("command `block` takes no arguments"),
                        ),
                        None => {
                            self.read_block = true;
                            EvalAction::Nothing
                        },
                    }
                } else {
                    proof {
                        assert(c@ == "type"@);
                    }
                    match args {
                        Some(e) => {
                            let program = self.type_command(e.as_str());
                            EvalAction::TypeQuery {
                                expr: e,
                                name: String::from_str("_rusti_type"),
                                program,
                            }
                        },
                        None => EvalAction::Print(
                            String::from_str("command `type` expects an expression"),
                        ),
                    }
                }
            },
            None => {
                let mut m = String::from_str("unrecognized command `");
                m.append(cmd.as_str());
                m.append("`");
                EvalAction::Print(m)
            },
        }
    }

    /// Runs a single parsed command input: commands are dispatched, a parse
    /// error's message is surfaced, anything else is ignored.
    pub fn run_command(&mut self, parsed: InputResult) -> (a: EvalAction)
        ensures
            parsed matches InputResult::Command(name, cargs) ==> command_outcome(
                old(self)@,
                final(self)@,
                name@,
                cargs.deep_view(),
                a,
            ),
            parsed matches InputResult::InputError(Some(m)) ==> *final(self) == *old(self) && (a
                matches EvalAction::Print(pm) && pm@ == m@),
            !(parsed matches InputResult::Command(_, _)) && !(parsed
                matches InputResult::InputError(Some(_))) ==> *final(self) == *old(self)
                && a is Nothing,
    {
        match parsed {
            InputResult::Command(name, cargs) => self.handle_command(name, cargs),
            InputResult::InputError(err) => {
                match err {
                    Some(m) => EvalAction::Print(m),
                    None => EvalAction::Nothing,
                }
            },
            _ => EvalAction::Nothing,
        }
    }

    /// Builds the analysis probe for a type query: a program whose probe
    /// function discards the value of `expr` as its final statement.
    pub fn type_command(&self, expr: &str) -> (prog: String)
        ensures
            prog@ == probe_text(self@.session, expr@),
    {
        let mut body = String::new();
        body.append("\nfn _rusti_type() {\n{ ");
        body.append(expr);
        body.append(" };\n}\n");
        proof {
            assert(body@ =~= "\nfn _rusti_type() {\n{ "@ + expr@ + " };\n}\n"@);
        }
        self.build_program(None, body.as_str())
    }

    /// Extracts the queried type from the outcome of the probe's
    /// analysis-only compile: the type the analysis recorded for the final
    /// statement of the function named `fn_name`.  Nothing comes back when
    /// the compile failed or when nothing of the probe's shape was found —
    /// the probe's shape is fully controlled here, so such a miss is an
    /// unexpected failure, not a user error.  The session is never touched.
    pub fn expr_type(&self, fn_name: &str, outcome: Option<CrateAnalysis>) -> (r: Option<String>)
        ensures
            outcome is None ==> r is None,
            outcome matches Some(a) ==> expr_type_result(a@.functions, fn_name@, r),
    {
        let name = String::from_str(fn_name);
        let probe = |analysis: CrateAnalysis| -> (t: Option<String>)
            ensures
                expr_type_result(analysis@.functions, name@, t),
            {
                find_expr_type(&analysis, name.as_str())
            };
        let res = self.engine.with_analysis(outcome, probe);
        match res {
            Some(t) => t,
            None => None,
        }
    }
}

} // verus!
