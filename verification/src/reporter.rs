//! Diagnostics: what went wrong, and where in the source it is reported.

use vstd::prelude::*;

verus! {

/// The place in the source that a diagnostic points at.
#[derive(Clone, Copy, Debug, PartialEq, Eq, Structural)]
pub enum Anchor {
    /// The annotation as a whole.
    Annotation,
    /// The annotated item.
    Template,
    /// The argument of the annotation: the pattern literal, or what stands
    /// in its place.
    Pattern,
    /// The declared parameter at this position, counted from zero.
    Parameter(usize),
}

/// One error of a generation pass.
#[derive(Debug, PartialEq, Eq)]
pub struct Diagnostic {
    pub anchor: Anchor,
    pub message: String,
}

/// The mathematical value of a [`Diagnostic`].
pub struct DiagnosticView {
    pub anchor: Anchor,
    pub message: Seq<char>,
}

impl View for Diagnostic {
    type V = DiagnosticView;

    open spec fn view(&self) -> DiagnosticView {
        DiagnosticView { anchor: self.anchor, message: self.message@ }
    }
}

impl DeepView for Diagnostic {
    type V = DiagnosticView;

    open spec fn deep_view(&self) -> DiagnosticView {
        self@
    }
}

impl Clone for Diagnostic {
    fn clone(&self) -> (copy: Self)
        ensures
            copy@ == self@,
    {
        Diagnostic { anchor: self.anchor, message: self.message.clone() }
    }
}

impl Diagnostic {
    /// A diagnostic that reports `message` at `anchor`.
    pub fn new(anchor: Anchor, message: &str) -> (diagnostic: Diagnostic)
        ensures
            diagnostic@ == (DiagnosticView { anchor, message: message@ }),
    {
        Diagnostic { anchor, message: message.to_owned() }
    }
}

/// The errors of one generation pass, in the order in which they were
/// reported. Reporting never stops the pass: each error is kept, so that
/// several independent ones all reach the author.
#[derive(Debug, PartialEq, Eq)]
pub struct Reporter {
    pub emitted: Vec<Diagnostic>,
}

impl View for Reporter {
    type V = Seq<DiagnosticView>;

    open spec fn view(&self) -> Seq<DiagnosticView> {
        self.emitted.deep_view()
    }
}

impl Reporter {
    /// A reporter that holds no error yet.
    pub fn new() -> (reporter: Reporter)
        ensures
            reporter@ == Seq::<DiagnosticView>::empty(),
    {
        Reporter { emitted: Vec::new() }
    }

    /// Whether nothing was reported so far.
    pub fn is_empty(&self) -> (empty: bool)
        ensures
            empty == (self@.len() == 0),
    {
        self.emitted.len() == 0
    }

    /// Reports one error.
    pub fn emit(&mut self, diagnostic: Diagnostic)
        ensures
            final(self)@ == old(self)@.push(diagnostic@),
    {
        self.emitted.push(diagnostic);
    }

    /// Unwraps a result: a value is handed on, an error is reported and
    /// `None` comes back.
    pub fn emit_result<T>(&mut self, result: Result<T, Diagnostic>) -> (value: Option<T>)
        ensures
            match result {
                Ok(v) => value == Some(v) && final(self)@ == old(self)@,
                Err(e) => value.is_none() && final(self)@ == old(self)@.push(e@),
            },
    {
        match result {
            Ok(v) => Some(v),
            Err(e) => {
                self.emit(e);
                None
            },
        }
    }
}

} // verus!
