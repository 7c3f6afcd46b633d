//! Template declarations: an annotation and the function under it, once
//! both are understood.

use vstd::prelude::*;
use crate::classifier::{classify, roles_of, Arg, ArgView, Param, ParamView};
use crate::reporter::{Anchor, Diagnostic, DiagnosticView, Reporter};

verus! {

/// The signature of an annotated function, as it was declared.
#[derive(Debug, PartialEq, Eq)]
pub struct Signature {
    /// The name of the function.
    pub name: String,
    /// Its parameters, in the declared order.
    pub params: Vec<Param>,
    /// Its declared return type, if it has one.
    pub output: Option<String>,
}

/// The mathematical value of a [`Signature`].
pub struct SignatureView {
    pub name: Seq<char>,
    pub params: Seq<ParamView>,
    pub output: Option<Seq<char>>,
}

impl View for Signature {
    type V = SignatureView;

    open spec fn view(&self) -> SignatureView {
        SignatureView {
            name: self.name@,
            params: self.params.deep_view(),
            output: self.output.deep_view(),
        }
    }
}

/// A template declaration: the function that every generated case calls,
/// the role of each of its parameters, its return type, and the pattern
/// that selects its files.
#[derive(Debug, PartialEq, Eq)]
pub struct Declaration {
    /// The name of the template function.
    pub name: String,
    /// The roles of its parameters, in the declared order.
    pub args: Vec<Arg>,
    /// Its declared return type, if it has one. A generated case has
    /// the same, so that a failure of the template is the failure of the
    /// case.
    pub output: Option<String>,
    /// The pattern of the annotation, relative to the base directory.
    pub pattern: String,
}

/// The mathematical value of a [`Declaration`].
pub struct DeclarationView {
    pub name: Seq<char>,
    pub args: Seq<ArgView>,
    pub output: Option<Seq<char>>,
    pub pattern: Seq<char>,
}

impl View for Declaration {
    type V = DeclarationView;

    open spec fn view(&self) -> DeclarationView {
        DeclarationView {
            name: self.name@,
            args: self.args.deep_view(),
            output: self.output.deep_view(),
            pattern: self.pattern@,
        }
    }
}

/// Whether a role is bound to the contents of a file.
pub open spec fn reads(arg: ArgView) -> bool {
    arg is Bytes || arg is Text
}

impl Declaration {
    /// Whether some parameter of the template is bound to the contents of
    /// the files. Where none is, the files need not be read at all.
    pub fn reads_contents(&self) -> (any: bool)
        ensures
            any == exists|i: int| 0 <= i < self@.args.len() && reads(#[trigger] self@.args[i]),
    {
        let mut i: usize = 0;
        while i < self.args.len()
            invariant
                i <= self.args.len(),
                forall|k: int| 0 <= k < i ==> !reads(#[trigger] self@.args[k]),
            decreases self.args.len() - i,
        {
            match &self.args[i] {
                Arg::Bytes | Arg::Text => {
                    assert(reads(self@.args[i as int]));
                    return true;
                },
                _ => {},
            }
            i += 1;
        }
        false
    }
}

/// What is reported for a template without parameters.
pub open spec fn no_args() -> DiagnosticView {
    DiagnosticView { anchor: Anchor::Annotation, message: "no arguments declared"@ }
}

/// What is reported for an annotation whose argument is no pattern literal.
pub open spec fn annotation_fault(attr: Result<String, String>) -> Seq<DiagnosticView> {
    match attr {
        Ok(_) => seq![],
        Err(reason) => seq![DiagnosticView { anchor: Anchor::Pattern, message: reason@ }],
    }
}

/// What is reported for the annotated item: that it is no function, or that
/// the function declares no parameter.
pub open spec fn item_fault(item: Result<Signature, String>) -> Seq<DiagnosticView> {
    match item {
        Ok(signature) => if signature@.params.len() == 0 {
            seq![no_args()]
        } else {
            seq![]
        },
        Err(reason) => seq![DiagnosticView { anchor: Anchor::Template, message: reason@ }],
    }
}

/// The declaration that a pattern and a signature make.
pub open spec fn declaration_of(pattern: Seq<char>, signature: SignatureView) -> DeclarationView {
    DeclarationView {
        name: signature.name,
        args: roles_of(signature.params),
        output: signature.output,
        pattern,
    }
}

/// Turns the message of a failure into a diagnostic at `anchor`.
fn located<T>(result: Result<T, String>, anchor: Anchor) -> (located: Result<T, Diagnostic>)
    ensures
        match result {
            Ok(value) => located == Ok::<T, Diagnostic>(value),
            Err(reason) => located is Err && located->Err_0@ == (DiagnosticView {
                anchor,
                message: reason@,
            }),
        },
{
    match result {
        Ok(value) => Ok(value),
        Err(message) => Err(Diagnostic { anchor, message }),
    }
}

/// Puts an annotation and the item under it together.
///
/// `attr` is the argument of the annotation read as a string literal, and
/// `item` the annotated item read as a function; either is an error message
/// where it could not be read. Every fault is reported, the annotation's
/// first: a fault of one does not hide a fault of the other. A declaration
/// comes back when both were read. A function without parameters is reported
/// and still declared. A parameter whose name has no role, or was declared
/// before, is not reported here: it is illegal in the declaration, and an
/// error in every case that is generated from it.
pub fn declare(
    attr: Result<String, String>,
    item: Result<Signature, String>,
    reporter: &mut Reporter,
) -> (declaration: Option<Declaration>)
    ensures
        final(reporter)@ == old(reporter)@ + annotation_fault(attr) + item_fault(item),
        declaration is Some <==> attr is Ok && item is Ok,
        declaration is Some ==> declaration->Some_0@ == declaration_of(
            attr->Ok_0@,
            item->Ok_0@,
        ),
{
    let pattern = reporter.emit_result(located(attr, Anchor::Pattern));
    let signature = reporter.emit_result(located(item, Anchor::Template));
    let signature = signature?;
    let args = classify(&signature.params);
    assert(signature@.params.len() == roles_of(signature@.params).len());
    if args.len() == 0 {
        reporter.emit(Diagnostic::new(Anchor::Annotation, "no arguments declared"));
    }
    match pattern {
        Some(pattern) => Some(
            Declaration { name: signature.name, args, output: signature.output, pattern },
        ),
        None => None,
    }
}

} // verus!
