//! The case emitter: one generated case per matched file.

use vstd::prelude::*;
use vstd::utf8::{
    decode_utf8, decode_utf8_encode_utf8, encode_utf8, encode_utf8_decode_utf8, valid_utf8,
};
use crate::classifier::{
    duplicate_argument, invalid_argument, is_recognized, repeats, Arg, ArgView, ParamView,
};
use crate::reporter::{Anchor, Diagnostic, DiagnosticView, Reporter};
use crate::resolver::{
    usable, Expansion, ExpansionView, Match, MatchView, MatchedFile, MatchedFileView,
};
use crate::sanitizer::{
    case_identifier, collide, is_identifier, lemma_case_identifier_is_legal,
    lemma_same_identifier_iff_collide, test_name,
};
use crate::template::{declaration_of, reads, Declaration, DeclarationView, SignatureView};

verus! {

/// What a generated case passes for one parameter of the template.
#[derive(Debug, PartialEq, Eq)]
pub enum Binding {
    /// The file's absolute path.
    Path(String),
    /// The file's contents as bytes.
    Bytes(Vec<u8>),
    /// The file's contents decoded as text.
    Text(String),
    /// No usable argument: this error stands in its place, and the case
    /// fails with it when it is built.
    Invalid(Diagnostic),
}

/// The mathematical value of a [`Binding`].
pub enum BindingView {
    Path(Seq<char>),
    Bytes(Seq<u8>),
    Text(Seq<char>),
    Invalid(DiagnosticView),
}

impl View for Binding {
    type V = BindingView;

    open spec fn view(&self) -> BindingView {
        match self {
            Binding::Path(path) => BindingView::Path(path@),
            Binding::Bytes(bytes) => BindingView::Bytes(bytes@),
            Binding::Text(text) => BindingView::Text(text@),
            Binding::Invalid(diagnostic) => BindingView::Invalid(diagnostic@),
        }
    }
}

impl DeepView for Binding {
    type V = BindingView;

    open spec fn deep_view(&self) -> BindingView {
        self@
    }
}

/// One generated test case.
#[derive(Debug, PartialEq, Eq)]
pub struct GeneratedCase {
    /// The identifier of the case.
    pub name: String,
    /// The name of the template function that the case calls.
    pub template: String,
    /// The path of the file, relative to the base directory: the generated
    /// code includes the contents from there.
    pub relative: String,
    /// What the call passes, one binding per parameter of the template.
    pub args: Vec<Binding>,
    /// The return type of the case: that of the template, whose result the
    /// case hands on unchanged.
    pub output: Option<String>,
}

/// The mathematical value of a [`GeneratedCase`].
pub struct GeneratedCaseView {
    pub name: Seq<char>,
    pub template: Seq<char>,
    pub relative: Seq<char>,
    pub args: Seq<BindingView>,
    pub output: Option<Seq<char>>,
}

impl View for GeneratedCase {
    type V = GeneratedCaseView;

    open spec fn view(&self) -> GeneratedCaseView {
        GeneratedCaseView {
            name: self.name@,
            template: self.template@,
            relative: self.relative@,
            args: self.args.deep_view(),
            output: self.output.deep_view(),
        }
    }
}

impl DeepView for GeneratedCase {
    type V = GeneratedCaseView;

    open spec fn deep_view(&self) -> GeneratedCaseView {
        self@
    }
}

/// The cases generated for one template, under the template's own name.
#[derive(Debug, PartialEq, Eq)]
pub struct Namespace {
    /// The name of the namespace: that of the template function.
    pub name: String,
    /// The cases, in the order of the expansion.
    pub cases: Vec<GeneratedCase>,
}

/// The mathematical value of a [`Namespace`].
pub struct NamespaceView {
    pub name: Seq<char>,
    pub cases: Seq<GeneratedCaseView>,
}

impl View for Namespace {
    type V = NamespaceView;

    open spec fn view(&self) -> NamespaceView {
        NamespaceView { name: self.name@, cases: self.cases.deep_view() }
    }
}

/// What stands in the place of a text that cannot be decoded: an error
/// that names the file.
pub open spec fn undecodable(relative: Seq<char>) -> DiagnosticView {
    DiagnosticView { anchor: Anchor::Pattern, message: relative + ": not valid UTF-8"@ }
}

/// What a parameter with the role `arg` is bound to for the file `file`: a
/// path to the file's absolute path, bytes to its contents, text to its
/// contents decoded as UTF-8. Contents that are no valid UTF-8 leave an
/// error in the place of the text, and a parameter without a role leaves
/// the error that it carries.
pub open spec fn binding_of(arg: ArgView, file: MatchedFileView) -> BindingView {
    match arg {
        ArgView::Path => BindingView::Path(file.absolute),
        ArgView::Bytes => BindingView::Bytes(file.contents),
        ArgView::Text => if valid_utf8(file.contents) {
            BindingView::Text(decode_utf8(file.contents))
        } else {
            BindingView::Invalid(undecodable(file.relative))
        },
        ArgView::Illegal(diagnostic) => BindingView::Invalid(diagnostic),
    }
}

/// The case generated for one file.
pub open spec fn case_of(declaration: DeclarationView, file: MatchedFileView) -> GeneratedCaseView {
    GeneratedCaseView {
        name: case_identifier(file.file_name),
        template: declaration.name,
        relative: file.relative,
        args: declaration.args.map_values(|arg: ArgView| binding_of(arg, file)),
        output: declaration.output,
    }
}

/// The cases generated for the entries of an expansion: one per file, in
/// the order of the expansion.
pub open spec fn cases_of(
    declaration: DeclarationView,
    entries: Seq<MatchView>,
) -> Seq<GeneratedCaseView> {
    usable(entries).map_values(|file: MatchedFileView| case_of(declaration, file))
}

/// What is reported for the entries that could not be read, in the order
/// of the expansion.
pub open spec fn unreadable(entries: Seq<MatchView>) -> Seq<DiagnosticView> {
    entries.filter(|e: MatchView| e is Unreadable).map_values(
        |e: MatchView| DiagnosticView { anchor: Anchor::Pattern, message: e->Unreadable_0 },
    )
}

/// What is reported when no case was generated.
pub open spec fn no_files_found() -> DiagnosticView {
    DiagnosticView { anchor: Anchor::Annotation, message: "no files found"@ }
}

/// Everything that is reported for an expansion.
pub open spec fn expansion_faults(expansion: ExpansionView) -> Seq<DiagnosticView> {
    match expansion {
        ExpansionView::Malformed(reason) => seq![
            DiagnosticView { anchor: Anchor::Pattern, message: reason },
        ],
        ExpansionView::Matches(entries) => unreadable(entries) + if usable(entries).len() == 0 {
            seq![no_files_found()]
        } else {
            seq![]
        },
    }
}

/// The namespace generated for an expansion: none for a malformed pattern.
pub open spec fn namespace_of(
    declaration: DeclarationView,
    expansion: ExpansionView,
) -> Option<NamespaceView> {
    match expansion {
        ExpansionView::Malformed(_) => None,
        ExpansionView::Matches(entries) => Some(
            NamespaceView { name: declaration.name, cases: cases_of(declaration, entries) },
        ),
    }
}

fn copy_type(output: &Option<String>) -> (copy: Option<String>)
    ensures
        copy.deep_view() == output.deep_view(),
{
    match output {
        Some(text) => Some(text.clone()),
        None => None,
    }
}

/// The error of `core::str::from_utf8`.
#[verifier::external_type_specification]
#[verifier::external_body]
pub struct ExUtf8Error(core::str::Utf8Error);

/// `core::str::from_utf8` of std. Trusted: it succeeds exactly on valid
/// UTF-8, and the text that it gives is made of the very bytes it was given.
pub assume_specification[ core::str::from_utf8 ](v: &[u8]) -> (text: Result<
    &str,
    core::str::Utf8Error,
>)
    ensures
        text is Ok <==> valid_utf8(v@),
        text is Ok ==> encode_utf8(text->Ok_0@) == v@,
;

/// Decodes the contents of a file as text: `None` where they are no valid
/// UTF-8.
pub fn decode(contents: &Vec<u8>) -> (text: Option<String>)
    ensures
        text is Some <==> valid_utf8(contents@),
        text is Some ==> text->Some_0@ == decode_utf8(contents@),
        text is Some ==> encode_utf8(text->Some_0@) == contents@,
{
    match core::str::from_utf8(contents.as_slice()) {
        Ok(text) => {
            proof {
                encode_utf8_decode_utf8(text@);
            }
            Some(text.to_owned())
        },
        Err(_) => None,
    }
}

impl Arg {
    /// Binds a parameter with this role to a file: a path is bound to the
    /// absolute path, bytes to the contents, text to the contents decoded
    /// as UTF-8, and a parameter without a role to the diagnostic that it
    /// carries. Where the contents cannot be decoded, an error that names
    /// the file stands in the place of the text.
    pub fn bind(&self, file: &MatchedFile) -> (binding: Binding)
        ensures
            binding@ == binding_of(self@, file@),
    {
        match self {
            Arg::Path => Binding::Path(file.absolute.clone()),
            Arg::Bytes => {
                let bytes = file.contents.clone();
                Binding::Bytes(bytes)
            },
            Arg::Text => match decode(&file.contents) {
                Some(text) => Binding::Text(text),
                None => {
                    let message = file.relative.clone().concat(": not valid UTF-8");
                    Binding::Invalid(Diagnostic { anchor: Anchor::Pattern, message })
                },
            },
            Arg::Illegal(diagnostic) => Binding::Invalid(diagnostic.clone()),
        }
    }
}

/// Generates the case for one matched file: it is named by the identifier
/// of the file's name and calls the template with one binding per declared
/// parameter, in the declared order.
pub fn emit_case(declaration: &Declaration, file: &MatchedFile) -> (case: GeneratedCase)
    ensures
        case@ == case_of(declaration@, file@),
{
    let mut args: Vec<Binding> = Vec::new();
    let mut i: usize = 0;
    while i < declaration.args.len()
        invariant
            i <= declaration.args.len(),
            args.len() == i,
            forall|k: int|
                0 <= k < i ==> (#[trigger] args[k])@ == binding_of(declaration.args[k]@, file@),
        decreases declaration.args.len() - i,
    {
        args.push(declaration.args[i].bind(file));
        i += 1;
    }
    let case = GeneratedCase {
        name: test_name(file.file_name.as_str()),
        template: declaration.name.clone(),
        relative: file.relative.clone(),
        args,
        output: copy_type(&declaration.output),
    };
    assert(case@.args =~= case_of(declaration@, file@).args);
    case
}

/// Every file of an expansion gets one case, and nothing else does: there
/// are as many cases as files, and the case at each place is that of the
/// file at the same place. Where every entry is a file, that is one case
/// per entry.
pub proof fn lemma_one_case_per_file(declaration: DeclarationView, entries: Seq<MatchView>)
    ensures
        cases_of(declaration, entries).len() == usable(entries).len(),
        usable(entries).len() <= entries.len(),
        forall|k: int|
            0 <= k < usable(entries).len() ==> #[trigger] cases_of(declaration, entries)[k]
                == case_of(declaration, usable(entries)[k]),
        (forall|i: int| 0 <= i < entries.len() ==> #[trigger] entries[i] is File) ==> {
            &&& usable(entries).len() == entries.len()
            &&& forall|i: int|
                0 <= i < entries.len() ==> #[trigger] usable(entries)[i] == entries[i]->File_0
        },
    decreases entries.len(),
{
    entries.lemma_filter_len(|e: MatchView| e is File);
    if entries.len() > 0 {
        let front = entries.drop_last();
        lemma_one_case_per_file(declaration, front);
        assert(front.push(entries.last()) =~= entries);
        lemma_usable_push(front, entries.last());
    }
}

/// Every case of a namespace is named by a legal identifier, given that
/// every file has a name.
pub proof fn lemma_case_names_are_legal(declaration: DeclarationView, entries: Seq<MatchView>)
    requires
        forall|k: int|
            0 <= k < usable(entries).len() ==> (#[trigger] usable(entries)[k]).file_name.len() > 0,
    ensures
        forall|k: int|
            0 <= k < cases_of(declaration, entries).len() ==> is_identifier(
                (#[trigger] cases_of(declaration, entries)[k]).name,
            ),
{
    let files = usable(entries);
    let cases = cases_of(declaration, entries);
    assert forall|k: int| 0 <= k < cases.len() implies is_identifier((#[trigger] cases[k]).name) by {
        lemma_case_identifier_is_legal(files[k].file_name);
    }
}

/// No two cases of a namespace share a name, unless the names of two of
/// its files collide.
pub proof fn lemma_case_names_distinct(declaration: DeclarationView, entries: Seq<MatchView>)
    requires
        forall|i: int, j: int|
            0 <= i < j < usable(entries).len() ==> !collide(
                (#[trigger] usable(entries)[i]).file_name,
                (#[trigger] usable(entries)[j]).file_name,
            ),
    ensures
        forall|i: int, j: int|
            0 <= i < j < cases_of(declaration, entries).len() ==> (#[trigger] cases_of(
                declaration,
                entries,
            )[i]).name != (#[trigger] cases_of(declaration, entries)[j]).name,
{
    let files = usable(entries);
    let cases = cases_of(declaration, entries);
    assert forall|i: int, j: int| 0 <= i < j < cases.len() implies (#[trigger] cases[i]).name
        != (#[trigger] cases[j]).name by {
        lemma_same_identifier_iff_collide(files[i].file_name, files[j].file_name);
    }
}

/// The bindings of one case all speak of one file, that of the case: a
/// path is the file's absolute path, bytes are its contents, and a text is
/// its contents decoded. An error stands only for a parameter without a
/// role, or for a text whose file cannot be decoded.
pub proof fn lemma_bindings_speak_of_one_file(
    declaration: DeclarationView,
    entries: Seq<MatchView>,
    k: int,
)
    requires
        0 <= k < cases_of(declaration, entries).len(),
    ensures
        ({
            let file = usable(entries)[k];
            let case = cases_of(declaration, entries)[k];
            &&& case.relative == file.relative
            &&& case.args.len() == declaration.args.len()
            &&& forall|i: int|
                0 <= i < case.args.len() ==> match #[trigger] case.args[i] {
                    BindingView::Path(path) => declaration.args[i] is Path && path == file.absolute,
                    BindingView::Bytes(bytes) => declaration.args[i] is Bytes && bytes
                        == file.contents,
                    BindingView::Text(text) => declaration.args[i] is Text && valid_utf8(
                        file.contents,
                    ) && text == decode_utf8(file.contents),
                    BindingView::Invalid(diagnostic) => declaration.args[i] == ArgView::Illegal(
                        diagnostic,
                    ) || (declaration.args[i] is Text && !valid_utf8(file.contents) && diagnostic
                        == undecodable(file.relative)),
                }
        }),
{
}

/// Where no parameter of the template is bound to contents, the case of a
/// file is the same whatever the file holds.
pub proof fn lemma_unread_contents_do_not_matter(
    declaration: DeclarationView,
    file: MatchedFileView,
    contents: Seq<u8>,
)
    requires
        forall|i: int| 0 <= i < declaration.args.len() ==> !reads(#[trigger] declaration.args[i]),
    ensures
        case_of(declaration, file) == case_of(declaration, MatchedFileView { contents, ..file }),
{
    let other = MatchedFileView { contents, ..file };
    assert forall|i: int| 0 <= i < declaration.args.len() implies binding_of(
        #[trigger] declaration.args[i],
        file,
    ) == binding_of(declaration.args[i], other) by {}
    assert(case_of(declaration, file).args =~= case_of(declaration, other).args);
}

/// Where a case passes both the bytes and the text of its file, the text
/// is made of exactly these bytes.
pub proof fn lemma_text_as_bytes_is_bytes(
    declaration: DeclarationView,
    entries: Seq<MatchView>,
    k: int,
    i: int,
    j: int,
)
    requires
        0 <= k < cases_of(declaration, entries).len(),
        0 <= i < cases_of(declaration, entries)[k].args.len(),
        0 <= j < cases_of(declaration, entries)[k].args.len(),
        cases_of(declaration, entries)[k].args[i] is Bytes,
        cases_of(declaration, entries)[k].args[j] is Text,
    ensures
        encode_utf8(cases_of(declaration, entries)[k].args[j]->Text_0) == cases_of(
            declaration,
            entries,
        )[k].args[i]->Bytes_0,
{
    lemma_bindings_speak_of_one_file(declaration, entries, k);
    decode_utf8_encode_utf8(usable(entries)[k].contents);
}

/// A parameter whose name is none of `path`, `bytes` and `text`, and one
/// whose name was declared before it, is an error at that parameter in
/// every generated case. Any other parameter is bound to a value, but for
/// a text that cannot be decoded.
pub proof fn lemma_invalid_parameter_is_reported(
    pattern: Seq<char>,
    signature: SignatureView,
    entries: Seq<MatchView>,
    k: int,
    i: int,
)
    requires
        0 <= k < cases_of(declaration_of(pattern, signature), entries).len(),
        0 <= i < signature.params.len(),
    ensures
        ({
            let case = cases_of(declaration_of(pattern, signature), entries)[k];
            let file = usable(entries)[k];
            &&& case.args.len() == signature.params.len()
            &&& !is_recognized(signature.params[i]) ==> case.args[i] == BindingView::Invalid(
                invalid_argument(i as usize),
            )
            &&& repeats(signature.params, i) ==> case.args[i] == BindingView::Invalid(
                duplicate_argument(i as usize),
            )
            &&& is_recognized(signature.params[i]) && !repeats(signature.params, i) ==> (
            case.args[i] is Invalid <==> {
                &&& signature.params[i] == ParamView::Named("text"@)
                &&& !valid_utf8(file.contents)
            })
        }),
{
    reveal_strlit("path");
    reveal_strlit("bytes");
    reveal_strlit("text");
    assert("path"@[0] == 'p' && "text"@[0] == 't');
}

/// Entries that are all files leave nothing to report as unreadable.
proof fn lemma_files_only(entries: Seq<MatchView>)
    requires
        forall|i: int| 0 <= i < entries.len() ==> #[trigger] entries[i] is File,
    ensures
        unreadable(entries).len() == 0,
    decreases entries.len(),
{
    if entries.len() > 0 {
        let front = entries.drop_last();
        lemma_files_only(front);
        assert(front.push(entries.last()) =~= entries);
        lemma_unreadable_push(front, entries.last());
    } else {
        entries.lemma_filter_len(|e: MatchView| e is Unreadable);
    }
}

/// A template that declares `path`, `bytes` and `text`, in this order, over
/// an expansion of files that can all be decoded: nothing is reported, and
/// every file has its case, named by the identifier of the file's name and
/// called with the file's absolute path, its contents and its text.
pub proof fn lemma_path_bytes_text_of_every_file(
    pattern: Seq<char>,
    signature: SignatureView,
    entries: Seq<MatchView>,
)
    requires
        signature.params == seq![
            ParamView::Named("path"@),
            ParamView::Named("bytes"@),
            ParamView::Named("text"@),
        ],
        entries.len() > 0,
        forall|i: int|
            0 <= i < entries.len() ==> (#[trigger] entries[i]) is File && valid_utf8(
                entries[i]->File_0.contents,
            ),
    ensures
        expansion_faults(ExpansionView::Matches(entries)) == Seq::<DiagnosticView>::empty(),
        cases_of(declaration_of(pattern, signature), entries).len() == entries.len(),
        forall|i: int|
            0 <= i < entries.len() ==> #[trigger] cases_of(
                declaration_of(pattern, signature),
                entries,
            )[i] == ({
                let file = entries[i]->File_0;
                GeneratedCaseView {
                    name: case_identifier(file.file_name),
                    template: signature.name,
                    relative: file.relative,
                    args: seq![
                        BindingView::Path(file.absolute),
                        BindingView::Bytes(file.contents),
                        BindingView::Text(decode_utf8(file.contents)),
                    ],
                    output: signature.output,
                }
            }),
{
    reveal_strlit("path");
    reveal_strlit("bytes");
    reveal_strlit("text");
    assert("path"@[0] == 'p' && "text"@[0] == 't');
    let declaration = declaration_of(pattern, signature);
    lemma_one_case_per_file(declaration, entries);
    lemma_files_only(entries);
    let cases = cases_of(declaration, entries);
    assert forall|i: int| 0 <= i < entries.len() implies #[trigger] cases[i] == ({
        let file = entries[i]->File_0;
        GeneratedCaseView {
            name: case_identifier(file.file_name),
            template: signature.name,
            relative: file.relative,
            args: seq![
                BindingView::Path(file.absolute),
                BindingView::Bytes(file.contents),
                BindingView::Text(decode_utf8(file.contents)),
            ],
            output: signature.output,
        }
    }) by {
        let file = entries[i]->File_0;
        assert(cases[i].args =~= seq![
            BindingView::Path(file.absolute),
            BindingView::Bytes(file.contents),
            BindingView::Text(decode_utf8(file.contents)),
        ]);
    }
}

/// What one more entry adds to the files of an expansion.
proof fn lemma_usable_push(entries: Seq<MatchView>, entry: MatchView)
    ensures
        usable(entries.push(entry)) == match entry {
            MatchView::File(file) => usable(entries).push(file),
            MatchView::Unreadable(_) => usable(entries),
        },
{
    reveal(Seq::filter);
    assert(entries.push(entry).drop_last() =~= entries);
}

/// What one more entry adds to the cases of an expansion.
proof fn lemma_cases_push(declaration: DeclarationView, entries: Seq<MatchView>, entry: MatchView)
    ensures
        cases_of(declaration, entries.push(entry)) == match entry {
            MatchView::File(file) => cases_of(declaration, entries).push(
                case_of(declaration, file),
            ),
            MatchView::Unreadable(_) => cases_of(declaration, entries),
        },
{
    lemma_usable_push(entries, entry);
    match entry {
        MatchView::File(file) => {
            assert(cases_of(declaration, entries.push(entry)) =~= cases_of(
                declaration,
                entries,
            ).push(case_of(declaration, file)));
        },
        MatchView::Unreadable(_) => {},
    }
}

/// What one more entry adds to the reports on unreadable entries.
proof fn lemma_unreadable_push(entries: Seq<MatchView>, entry: MatchView)
    ensures
        unreadable(entries.push(entry)) == match entry {
            MatchView::File(_) => unreadable(entries),
            MatchView::Unreadable(reason) => unreadable(entries).push(
                DiagnosticView { anchor: Anchor::Pattern, message: reason },
            ),
        },
{
    reveal(Seq::filter);
    assert(entries.push(entry).drop_last() =~= entries);
    match entry {
        MatchView::File(_) => {},
        MatchView::Unreadable(reason) => {
            assert(unreadable(entries.push(entry)) =~= unreadable(entries).push(
                DiagnosticView { anchor: Anchor::Pattern, message: reason },
            ));
        },
    }
}

/// Generates the cases of a template from the expansion of its pattern.
///
/// A malformed pattern is reported at the pattern and ends the pass: no
/// namespace comes back. Otherwise the namespace carries the template's name
/// and holds one case for each file of the expansion, in its order. An entry
/// that could not be read is reported at the pattern and left out; the
/// entries after it are still used. Where no case at all was generated, that
/// is reported too, at the annotation: an empty namespace never comes back
/// without this error.
///
/// A fault of one file or of one parameter does not stop the pass: it
/// stands as an error inside the cases that it concerns.
///
/// Whether two files get the same identifier is not checked. Cases whose
/// file names collide carry the same name, and what builds the generated
/// code refuses the second of them.
pub fn process(
    declaration: &Declaration,
    expansion: &Expansion,
    reporter: &mut Reporter,
) -> (namespace: Option<Namespace>)
    ensures
        final(reporter)@ == old(reporter)@ + expansion_faults(expansion@),
        match namespace {
            Some(namespace) => namespace_of(declaration@, expansion@) == Some(namespace@),
            None => namespace_of(declaration@, expansion@).is_none(),
        },
        namespace is Some <==> expansion is Matches,
        namespace is Some && namespace->Some_0@.cases.len() == 0 ==> final(reporter)@.len() > 0
            && final(reporter)@.last() == no_files_found(),
{
    let entries = match expansion {
        Expansion::Malformed(reason) => {
            reporter.emit(Diagnostic { anchor: Anchor::Pattern, message: reason.clone() });
            return None;
        },
        Expansion::Matches(entries) => entries,
    };
    let ghost all = entries.deep_view();
    let mut cases: Vec<GeneratedCase> = Vec::new();
    let mut i: usize = 0;
    while i < entries.len()
        invariant
            i <= entries.len(),
            all == entries.deep_view(),
            cases.deep_view() == cases_of(declaration@, all.take(i as int)),
            reporter@ == old(reporter)@ + unreadable(all.take(i as int)),
        decreases entries.len() - i,
    {
        proof {
            assert(all.take(i as int + 1) =~= all.take(i as int).push(entries[i as int]@));
            lemma_cases_push(declaration@, all.take(i as int), entries[i as int]@);
            lemma_unreadable_push(all.take(i as int), entries[i as int]@);
        }
        match &entries[i] {
            Match::File(file) => {
                let case = emit_case(declaration, file);
                cases.push(case);
            },
            Match::Unreadable(reason) => {
                reporter.emit(Diagnostic { anchor: Anchor::Pattern, message: reason.clone() });
            },
        }
        i += 1;
    }
    assert(all.take(entries.len() as int) =~= all);
    if cases.len() == 0 {
        reporter.emit(Diagnostic::new(Anchor::Annotation, "no files found"));
    }
    Some(Namespace { name: declaration.name.clone(), cases })
}

} // verus!
