//! The signature classifier: from a declared parameter to its role.

use vstd::prelude::*;
use crate::reporter::{Anchor, Diagnostic, DiagnosticView};

verus! {

/// One declared parameter of a template function. Only its name is looked
/// at; its declared type is not.
#[derive(Debug, PartialEq, Eq)]
pub enum Param {
    /// A parameter bound to a single identifier.
    Named(String),
    /// A receiver, or a parameter bound by any other pattern.
    Unnamed,
}

/// The mathematical value of a [`Param`].
pub enum ParamView {
    Named(Seq<char>),
    Unnamed,
}

impl View for Param {
    type V = ParamView;

    open spec fn view(&self) -> ParamView {
        match self {
            Param::Named(name) => ParamView::Named(name@),
            Param::Unnamed => ParamView::Unnamed,
        }
    }
}

impl DeepView for Param {
    type V = ParamView;

    open spec fn deep_view(&self) -> ParamView {
        self@
    }
}

/// The role of a declared parameter: what a generated case passes for it.
#[derive(Debug, PartialEq, Eq)]
pub enum Arg {
    /// The absolute path of the file.
    Path,
    /// The contents of the file as bytes.
    Bytes,
    /// The contents of the file as text.
    Text,
    /// No role: the parameter is reported wherever a case would use it.
    Illegal(Diagnostic),
}

/// The mathematical value of an [`Arg`].
pub enum ArgView {
    Path,
    Bytes,
    Text,
    Illegal(DiagnosticView),
}

impl View for Arg {
    type V = ArgView;

    open spec fn view(&self) -> ArgView {
        match self {
            Arg::Path => ArgView::Path,
            Arg::Bytes => ArgView::Bytes,
            Arg::Text => ArgView::Text,
            Arg::Illegal(diagnostic) => ArgView::Illegal(diagnostic@),
        }
    }
}

impl DeepView for Arg {
    type V = ArgView;

    open spec fn deep_view(&self) -> ArgView {
        self@
    }
}

impl Clone for Arg {
    fn clone(&self) -> (copy: Self)
        ensures
            copy@ == self@,
    {
        match self {
            Arg::Path => Arg::Path,
            Arg::Bytes => Arg::Bytes,
            Arg::Text => Arg::Text,
            Arg::Illegal(diagnostic) => Arg::Illegal(diagnostic.clone()),
        }
    }
}

/// Whether a parameter carries one of the three names that have a role.
pub open spec fn is_recognized(param: ParamView) -> bool {
    match param {
        ParamView::Named(name) => name == "path"@ || name == "bytes"@ || name == "text"@,
        ParamView::Unnamed => false,
    }
}

/// What is reported for a parameter without a role.
pub open spec fn invalid_argument(index: usize) -> DiagnosticView {
    DiagnosticView {
        anchor: Anchor::Parameter(index),
        message: "invalid argument for filetest"@,
    }
}

/// The role of the parameter declared at position `index`.
pub open spec fn role_of(index: usize, param: ParamView) -> ArgView {
    match param {
        ParamView::Named(name) => if name == "path"@ {
            ArgView::Path
        } else if name == "bytes"@ {
            ArgView::Bytes
        } else if name == "text"@ {
            ArgView::Text
        } else {
            ArgView::Illegal(invalid_argument(index))
        },
        ParamView::Unnamed => ArgView::Illegal(invalid_argument(index)),
    }
}

/// What is reported for a parameter whose name was declared before it.
pub open spec fn duplicate_argument(index: usize) -> DiagnosticView {
    DiagnosticView {
        anchor: Anchor::Parameter(index),
        message: "duplicate argument for filetest"@,
    }
}

/// Whether the parameter at `index` repeats an earlier one: its name has a
/// role, and a parameter before it carries the same name.
pub open spec fn repeats(params: Seq<ParamView>, index: int) -> bool {
    is_recognized(params[index]) && exists|j: int|
        0 <= j < index && #[trigger] params[j] == params[index]
}

/// The roles of a parameter list, one per parameter and in its order. A
/// name gives its role once, where it is declared first; every later
/// parameter of that name is illegal.
pub open spec fn roles_of(params: Seq<ParamView>) -> Seq<ArgView> {
    Seq::new(
        params.len(),
        |i: int|
            if repeats(params, i) {
                ArgView::Illegal(duplicate_argument(i as usize))
            } else {
                role_of(i as usize, params[i])
            },
    )
}

/// No role is given twice: of the parameters of one list, at most one is
/// bound to the path, one to the bytes and one to the text.
pub proof fn lemma_each_role_is_given_once(params: Seq<ParamView>, i: int, j: int)
    requires
        0 <= i < j < params.len(),
    ensures
        !(roles_of(params)[i] is Path && roles_of(params)[j] is Path),
        !(roles_of(params)[i] is Bytes && roles_of(params)[j] is Bytes),
        !(roles_of(params)[i] is Text && roles_of(params)[j] is Text),
{
    if params[i] == params[j] && is_recognized(params[j]) {
        assert(repeats(params, j));
    }
}

fn is_word(name: &String, word: &str) -> (same: bool)
    ensures
        same == (name@ == word@),
{
    let word = word.to_owned();
    *name == word
}

impl Arg {
    /// Classifies the parameter declared at position `index` by its name
    /// alone: `path`, `bytes` and `text` have a role, and anything else is
    /// illegal and carries the diagnostic that points at the parameter.
    ///
    /// The other parameters play no part here. Whether the name was
    /// declared before is decided by [`classify`], which sees the whole
    /// list.
    pub fn from_fnarg(index: usize, param: &Param) -> (arg: Arg)
        ensures
            arg@ == role_of(index, param@),
            arg@ is Illegal <==> !is_recognized(param@),
            arg@ is Illegal ==> arg@->Illegal_0 == invalid_argument(index),
    {
        if let Param::Named(name) = param {
            if is_word(name, "path") {
                return Arg::Path;
            }
            if is_word(name, "bytes") {
                return Arg::Bytes;
            }
            if is_word(name, "text") {
                return Arg::Text;
            }
        }
        Arg::Illegal(Diagnostic::new(Anchor::Parameter(index), "invalid argument for filetest"))
    }
}

impl Param {
    /// Whether two parameters are declared alike: by the same name, or both
    /// without one.
    pub fn same_as(&self, other: &Param) -> (same: bool)
        ensures
            same == (self@ == other@),
    {
        match (self, other) {
            (Param::Named(a), Param::Named(b)) => *a == *b,
            (Param::Unnamed, Param::Unnamed) => true,
            _ => false,
        }
    }
}

/// Whether a parameter before the one at `index` is declared like it.
fn declared_before(params: &Vec<Param>, index: usize) -> (found: bool)
    requires
        index < params.len(),
    ensures
        found == exists|j: int|
            0 <= j < index && #[trigger] params.deep_view()[j] == params.deep_view()[index as int],
{
    let mut j: usize = 0;
    while j < index
        invariant
            j <= index < params.len(),
            forall|k: int|
                0 <= k < j ==> #[trigger] params.deep_view()[k] != params.deep_view()[index as int],
        decreases index - j,
    {
        if params[j].same_as(&params[index]) {
            assert(params.deep_view()[j as int] == params.deep_view()[index as int]);
            return true;
        }
        j += 1;
    }
    false
}

/// Classifies every parameter of a declaration, in the declared order:
/// each by its name, but that a name which has a role gives it only where it
/// is declared first. A later parameter of the same name is illegal and
/// carries a diagnostic that points at it.
pub fn classify(params: &Vec<Param>) -> (args: Vec<Arg>)
    ensures
        args.deep_view() == roles_of(params.deep_view()),
{
    let mut args: Vec<Arg> = Vec::new();
    let mut i: usize = 0;
    while i < params.len()
        invariant
            i <= params.len(),
            args.len() == i,
            forall|k: int|
                0 <= k < i ==> (#[trigger] args[k])@ == roles_of(params.deep_view())[k],
        decreases params.len() - i,
    {
        let alone = Arg::from_fnarg(i, &params[i]);
        let arg = match alone {
            Arg::Illegal(_) => alone,
            _ => if declared_before(params, i) {
                Arg::Illegal(
                    Diagnostic::new(Anchor::Parameter(i), "duplicate argument for filetest"),
                )
            } else {
                alone
            },
        };
        args.push(arg);
        i += 1;
    }
    args
}

} // verus!
