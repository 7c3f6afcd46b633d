//! The pattern resolver: the pattern that is expanded, and what an
//! expansion hands back.

use vstd::prelude::*;

verus! {

/// Whether a character has a meaning of its own in a glob pattern.
pub open spec fn is_metacharacter(c: char) -> bool {
    c == '?' || c == '*' || c == '[' || c == ']'
}

/// One character of a literal path, as it stands in a pattern: a
/// metacharacter is put between brackets, any other is kept.
pub open spec fn escaped_char(c: char) -> Seq<char> {
    if is_metacharacter(c) {
        seq!['[', c, ']']
    } else {
        seq![c]
    }
}

/// A literal path as it stands in a pattern: escaped character by character.
pub open spec fn escaped(path: Seq<char>) -> Seq<char> {
    path.map_values(|c: char| escaped_char(c)).flatten()
}

/// The pattern that is expanded for a template: the directory of the
/// annotated source file, taken literally, then a slash, then the pattern
/// of the annotation.
pub open spec fn anchored_pattern(base_dir: Seq<char>, pattern: Seq<char>) -> Seq<char> {
    escaped(base_dir) + seq!['/'] + pattern
}

/// Escaping goes character by character: what it makes of a text and one
/// more character is what it makes of the text, then of the character.
pub proof fn lemma_escaped_push(path: Seq<char>, c: char)
    ensures
        escaped(path.push(c)) == escaped(path) + escaped_char(c),
{
    let units = path.map_values(|c: char| escaped_char(c));
    assert(path.push(c).map_values(|c: char| escaped_char(c)) =~= units.push(escaped_char(c)));
    units.lemma_flatten_push(escaped_char(c));
}

/// A base directory without metacharacters stands in the pattern as it is.
pub proof fn lemma_plain_directory_is_kept(base_dir: Seq<char>, pattern: Seq<char>)
    requires
        forall|i: int| 0 <= i < base_dir.len() ==> !is_metacharacter(#[trigger] base_dir[i]),
    ensures
        escaped(base_dir) == base_dir,
        anchored_pattern(base_dir, pattern) == base_dir + seq!['/'] + pattern,
    decreases base_dir.len(),
{
    if base_dir.len() > 0 {
        let front = base_dir.drop_last();
        lemma_plain_directory_is_kept(front, pattern);
        lemma_escaped_push(front, base_dir.last());
        assert(front.push(base_dir.last()) =~= base_dir);
    }
}

/// Calls `glob::Pattern::escape`. Trusted: each of `?`, `*`, `[` and `]` comes
/// back between brackets, every other character as it is, in the order of the
/// input.
#[verifier::external_body]
fn escape(path: &str) -> (pattern: String)
    ensures
        pattern@ == escaped(path@),
{
    glob::Pattern::escape(path)
}

/// Builds the pattern to expand for an annotation found in a source file of
/// the directory `base_dir`. The pattern of the annotation is relative to
/// that directory, whose own path is escaped so that no character of it
/// is read as a wildcard.
pub fn glob_pattern(base_dir: &str, pattern: &str) -> (anchored: String)
    ensures
        anchored@ == anchored_pattern(base_dir@, pattern@),
{
    let anchored = escape(base_dir).concat("/").concat(pattern);
    proof {
        reveal_strlit("/");
    }
    anchored
}

/// A file that the pattern matched.
#[derive(Debug, PartialEq, Eq)]
pub struct MatchedFile {
    /// Its absolute path.
    pub absolute: String,
    /// Its path relative to the base directory.
    pub relative: String,
    /// The final component of its path, extension included.
    pub file_name: String,
    /// Its contents, as they were read when the pattern was expanded. They
    /// are looked at only where a parameter of the template asks for
    /// bytes or for text.
    pub contents: Vec<u8>,
}

/// The mathematical value of a [`MatchedFile`].
pub struct MatchedFileView {
    pub absolute: Seq<char>,
    pub relative: Seq<char>,
    pub file_name: Seq<char>,
    pub contents: Seq<u8>,
}

impl View for MatchedFile {
    type V = MatchedFileView;

    open spec fn view(&self) -> MatchedFileView {
        MatchedFileView {
            absolute: self.absolute@,
            relative: self.relative@,
            file_name: self.file_name@,
            contents: self.contents@,
        }
    }
}

impl DeepView for MatchedFile {
    type V = MatchedFileView;

    open spec fn deep_view(&self) -> MatchedFileView {
        self@
    }
}

/// One entry of an expansion.
#[derive(Debug, PartialEq, Eq)]
pub enum Match {
    /// A file that can be used.
    File(MatchedFile),
    /// An entry, or the contents of a file, that could not be read, with
    /// the reason.
    Unreadable(String),
}

/// The mathematical value of a [`Match`].
pub enum MatchView {
    File(MatchedFileView),
    Unreadable(Seq<char>),
}

impl View for Match {
    type V = MatchView;

    open spec fn view(&self) -> MatchView {
        match self {
            Match::File(file) => MatchView::File(file@),
            Match::Unreadable(reason) => MatchView::Unreadable(reason@),
        }
    }
}

impl DeepView for Match {
    type V = MatchView;

    open spec fn deep_view(&self) -> MatchView {
        self@
    }
}

/// What expanding a pattern against the file system gave.
#[derive(Debug, PartialEq, Eq)]
pub enum Expansion {
    /// The pattern is malformed, with the reason. Nothing was looked up.
    Malformed(String),
    /// The entries that the pattern matched, in the order of the expansion.
    Matches(Vec<Match>),
}

/// The mathematical value of an [`Expansion`].
pub enum ExpansionView {
    Malformed(Seq<char>),
    Matches(Seq<MatchView>),
}

impl View for Expansion {
    type V = ExpansionView;

    open spec fn view(&self) -> ExpansionView {
        match self {
            Expansion::Malformed(reason) => ExpansionView::Malformed(reason@),
            Expansion::Matches(entries) => ExpansionView::Matches(entries.deep_view()),
        }
    }
}

/// The files among the entries of an expansion, in their order.
pub open spec fn usable(entries: Seq<MatchView>) -> Seq<MatchedFileView> {
    entries.filter(|e: MatchView| e is File).map_values(|e: MatchView| e->File_0)
}

} // verus!
