//! The data handed to the evaluator by its collaborators: one parsed round of
//! input, and the outcome of reading a round from the user.  Raw text is
//! parsed by an outside collaborator; this crate only ever sees the
//! structured values below.

use vstd::prelude::*;

verus! {

/// The kind tag of a view item.  When a program is synthesized, every crate
/// import is placed before every other import, each group keeping its own
/// order.
#[derive(Clone, Copy, PartialEq, Eq, Structural, Debug)]
pub enum ViewItem {
    /// An import that brings a whole crate into scope.
    CrateImport,
    /// Any other import.
    OtherImport,
}

impl View for ViewItem {
    type V = ViewItem;

    open spec fn view(&self) -> ViewItem {
        *self
    }
}

impl DeepView for ViewItem {
    type V = ViewItem;

    open spec fn deep_view(&self) -> ViewItem {
        *self
    }
}

/// One parsed round of program input: the texts of its attributes, view
/// items, item declarations and statements, in source order, and whether the
/// final statement is a bare value-producing expression rather than a
/// terminated statement.  Immutable once parsed.
pub struct Input {
    /// Attribute texts, one per line when synthesized.
    pub attributes: Vec<String>,
    /// View items, each with its kind tag and source text.
    pub view_items: Vec<(ViewItem, String)>,
    /// Item declaration texts.
    pub items: Vec<String>,
    /// Statement texts, run once inside the round's entry function.
    pub statements: Vec<String>,
    /// True when the final statement is a bare expression whose value the
    /// round should display.
    pub last_expr: bool,
}

/// The mathematical value of an [`Input`]: the same fields over character
/// sequences.
pub struct InputView {
    pub attributes: Seq<Seq<char>>,
    pub view_items: Seq<(ViewItem, Seq<char>)>,
    pub items: Seq<Seq<char>>,
    pub statements: Seq<Seq<char>>,
    pub last_expr: bool,
}

impl View for Input {
    type V = InputView;

    open spec fn view(&self) -> InputView {
        InputView {
            attributes: self.attributes.deep_view(),
            view_items: self.view_items.deep_view(),
            items: self.items.deep_view(),
            statements: self.statements.deep_view(),
            last_expr: self.last_expr,
        }
    }
}

impl Input {
    /// An input with nothing in it.
    pub fn empty() -> (r: Input)
        ensures
            r@.attributes == Seq::<Seq<char>>::empty(),
            r@.view_items == Seq::<(ViewItem, Seq<char>)>::empty(),
            r@.items == Seq::<Seq<char>>::empty(),
            r@.statements == Seq::<Seq<char>>::empty(),
            r@.last_expr == false,
    {
        let r = Input {
            attributes: Vec::new(),
            view_items: Vec::new(),
            items: Vec::new(),
            statements: Vec::new(),
            last_expr: false,
        };
        proof {
            assert(r@.attributes =~= Seq::<Seq<char>>::empty());
            assert(r@.view_items =~= Seq::<(ViewItem, Seq<char>)>::empty());
            assert(r@.items =~= Seq::<Seq<char>>::empty());
            assert(r@.statements =~= Seq::<Seq<char>>::empty());
        }
        r
    }
}

/// What reading one round of raw text produced: a command, a program, nothing,
/// a request for more text, the end of the input, or a parse error with an
/// optional message.  The raw text itself is parsed by an outside collaborator.
pub enum InputResult {
    /// A command: its (possibly abbreviated) name and optional argument text.
    Command(String, Option<String>),
    /// A program fragment.
    Program(Input),
    /// Blank input; nothing to do.
    Empty,
    /// The text so far is incomplete; more lines are needed.
    More,
    /// The end of the input was reached.
    Eof,
    /// The text could not be parsed; an optional message for the user.
    InputError(Option<String>),
}

} // verus!
