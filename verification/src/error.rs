//! Source positions and the errors an assembly run can report.

use vstd::prelude::*;
use vstd::string::*;

verus! {

/// A 1-indexed position in the source text.
#[derive(Debug, Clone, Copy, PartialEq, Eq, Structural)]
pub struct SourceLocation {
    pub line: u64,
    pub col: u64,
}

/// The stage of the pipeline that rejected the input.
#[derive(Debug, Clone, Copy, PartialEq, Eq, Structural)]
pub enum ErrorKind {
    /// Malformed lexical input.
    Tokenizer,
    /// A structurally invalid statement.
    Parser,
    /// A symbol that is referenced but never defined.
    Symbol,
    /// Address-space overflow, or a value that does not fit its encoding field.
    Fatal,
}

/// One structured error: what went wrong, and where.
#[derive(Debug, Clone)]
pub struct Diagnostic {
    pub kind: ErrorKind,
    pub message: String,
    pub location: SourceLocation,
}

/// The mathematical content of a [`Diagnostic`].
pub struct DiagnosticView {
    pub kind: ErrorKind,
    pub message: Seq<char>,
    pub location: SourceLocation,
}

impl View for Diagnostic {
    type V = DiagnosticView;

    open spec fn view(&self) -> DiagnosticView {
        DiagnosticView { kind: self.kind, message: self.message@, location: self.location }
    }
}

/// The views of a list of diagnostics, in order.
pub open spec fn diagnostic_views(list: Seq<Diagnostic>) -> Seq<DiagnosticView> {
    Seq::new(list.len(), |i: int| list[i]@)
}

/// What an assembly run reports on failure: one error, or an ordered list
/// of at least two.
#[derive(Debug, Clone)]
pub enum AssemblerError {
    Single(Diagnostic),
    MultipleErrors(Vec<Diagnostic>),
}

impl View for AssemblerError {
    type V = Seq<DiagnosticView>;

    /// The reported errors, in order.
    open spec fn view(&self) -> Seq<DiagnosticView> {
        match self {
            AssemblerError::Single(d) => seq![d@],
            AssemblerError::MultipleErrors(list) => diagnostic_views(list@),
        }
    }
}

impl AssemblerError {
    /// A single error is surfaced directly; an aggregate holds at least two.
    pub open spec fn wf(&self) -> bool {
        match self {
            AssemblerError::Single(_) => true,
            AssemblerError::MultipleErrors(list) => list@.len() >= 2,
        }
    }

    /// Wraps a non-empty list of diagnostics: a lone diagnostic is surfaced
    /// directly, several become an aggregate that keeps their order.
    pub fn from_diagnostics(list: Vec<Diagnostic>) -> (e: AssemblerError)
        requires
            list@.len() >= 1,
        ensures
            e.wf(),
            e@ == diagnostic_views(list@),
            e is Single <==> list@.len() == 1,
    {
        let mut list = list;
        if list.len() == 1 {
            let ghost before = list@;
            let d = list.remove(0);
            proof {
                assert(diagnostic_views(before) =~= seq![d@]);
            }
            AssemblerError::Single(d)
        } else {
            AssemblerError::MultipleErrors(list)
        }
    }

    /// The number of errors reported.
    pub fn len(&self) -> (n: usize)
        ensures
            n == self@.len(),
    {
        match self {
            AssemblerError::Single(_) => 1,
            AssemblerError::MultipleErrors(list) => list.len(),
        }
    }
}

} // verus!
