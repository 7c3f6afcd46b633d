//! Case identifiers: from a file's name to a legal identifier.

use vstd::prelude::*;

verus! {

/// Whether `unicode_ident::is_xid_start` accepts `c`.
pub uninterp spec fn xid_start(c: char) -> bool;

/// Whether `unicode_ident::is_xid_continue` accepts `c`.
pub uninterp spec fn xid_continue(c: char) -> bool;

/// The character that stands in for whatever an identifier cannot hold.
pub const SUBSTITUTE: char = '_';

/// A character that may open an identifier. The underscore is none.
pub open spec fn starts_identifier(c: char) -> bool {
    c != '_' && xid_start(c)
}

/// A character that may stand inside an identifier. The underscore is one.
pub open spec fn continues_identifier(c: char) -> bool {
    c == '_' || xid_continue(c)
}

/// A legal identifier: a start character followed by continuation
/// characters, or an underscore followed by at least one of them.
pub open spec fn is_identifier(s: Seq<char>) -> bool {
    &&& s.len() > 0
    &&& forall|i: int| 0 <= i < s.len() ==> continues_identifier(#[trigger] s[i])
    &&& (starts_identifier(s[0]) || (s[0] == '_' && s.len() > 1))
}

/// What a character becomes, given whether an identifier can hold it.
pub open spec fn replaced(c: char, fits: bool) -> char {
    if fits {
        c
    } else {
        SUBSTITUTE
    }
}

/// What one character of a file name becomes.
pub open spec fn substitute(c: char) -> char {
    replaced(c, continues_identifier(c))
}

/// The text of an identifier, given whether its first character may open
/// one: unchanged if so, and behind an underscore if not.
pub open spec fn opened(body: Seq<char>, opens: bool) -> Seq<char> {
    if opens {
        body
    } else {
        seq![SUBSTITUTE] + body
    }
}

/// The identifier of the case generated for the file named `file_name`.
pub open spec fn case_identifier(file_name: Seq<char>) -> Seq<char> {
    let body = file_name.map_values(|c: char| substitute(c));
    opened(body, body.len() > 0 && starts_identifier(body[0]))
}

/// Two file names collide when they are equally long and, place by place,
/// their characters become the same character of an identifier.
pub open spec fn collide(a: Seq<char>, b: Seq<char>) -> bool {
    &&& a.len() == b.len()
    &&& forall|i: int| 0 <= i < a.len() ==> substitute(#[trigger] a[i]) == substitute(b[i])
}

/// The identifier derived from a file name is a legal identifier. (The
/// empty text is no file name: its identifier is a lone underscore.)
pub proof fn lemma_case_identifier_is_legal(file_name: Seq<char>)
    requires
        file_name.len() > 0,
    ensures
        is_identifier(case_identifier(file_name)),
{
    let body = file_name.map_values(|c: char| substitute(c));
    if !starts_identifier(body[0]) {
        let name = seq![SUBSTITUTE] + body;
        assert forall|i: int| 0 <= i < name.len() implies continues_identifier(
            #[trigger] name[i],
        ) by {}
    }
}

/// An identifier is as long as the file name, or one longer, and keeps
/// every character of the name that an identifier can hold, in its place.
pub proof fn lemma_case_identifier_keeps_name(file_name: Seq<char>)
    ensures
        ({
            let name = case_identifier(file_name);
            let shift = name.len() - file_name.len();
            &&& (shift == 0 || shift == 1)
            &&& shift == 1 ==> name[0] == '_'
            &&& forall|i: int|
                0 <= i < file_name.len() ==> name[i + shift] == substitute(#[trigger] file_name[i])
        }),
{
}

/// Two file names get the same identifier exactly when they collide.
pub proof fn lemma_same_identifier_iff_collide(a: Seq<char>, b: Seq<char>)
    ensures
        case_identifier(a) == case_identifier(b) <==> collide(a, b),
{
    let body_a = a.map_values(|c: char| substitute(c));
    let body_b = b.map_values(|c: char| substitute(c));
    let name_a = case_identifier(a);
    let name_b = case_identifier(b);
    if collide(a, b) {
        assert(body_a =~= body_b);
    }
    if name_a == name_b {
        if body_a.len() > 0 && !starts_identifier(body_a[0]) && !starts_identifier(body_b[0]) {
            assert(body_b =~= name_b.subrange(1, name_b.len() as int));
        }
        assert forall|i: int| 0 <= i < a.len() implies substitute(#[trigger] a[i]) == substitute(
            b[i],
        ) by {
            assert(body_b[i] == substitute(b[i]));
        }
    }
}

/// Calls `unicode_ident::is_xid_start`. Trusted: the answer is the one that
/// `xid_start` names, and it is `false` for the underscore.
#[verifier::external_body]
fn is_xid_start(c: char) -> (b: bool)
    ensures
        b == xid_start(c),
        c == '_' ==> !b,
{
    unicode_ident::is_xid_start(c)
}

/// Calls `unicode_ident::is_xid_continue`. Trusted: the answer is the one
/// that `xid_continue` names, and it is `true` for the underscore.
#[verifier::external_body]
fn is_xid_continue(c: char) -> (b: bool)
    ensures
        b == xid_continue(c),
        c == '_' ==> b,
{
    unicode_ident::is_xid_continue(c)
}

/// `String::push` of std. Trusted: the character is appended at the end and
/// nothing else changes.
pub assume_specification[ String::push ](s: &mut String, c: char)
    ensures
        final(s)@ == old(s)@.push(c),
;

/// Keeps a character that an identifier can hold, and puts the substitute
/// in the place of one that it cannot.
pub fn replace(c: char, fits: bool) -> (kept: char)
    ensures
        kept == replaced(c, fits),
{
    if fits {
        c
    } else {
        SUBSTITUTE
    }
}

/// Makes the text of an identifier start as an identifier must: where the
/// first character may not open one, the substitute is put in front.
pub fn open_with(body: String, opens: bool) -> (name: String)
    ensures
        name@ == opened(body@, opens),
{
    if opens {
        body
    } else {
        let name = "_".to_owned().concat(body.as_str());
        proof {
            reveal_strlit("_");
        }
        name
    }
}

/// Derives the case identifier from a file's name: every character that
/// cannot stand inside an identifier becomes an underscore, and one more
/// underscore is put in front unless the first character may open an
/// identifier.
///
/// The identifier depends on the name alone. Names that collide get the
/// same identifier, and only they do.
pub fn test_name(file_name: &str) -> (name: String)
    ensures
        name@ == case_identifier(file_name@),
        file_name@.len() > 0 ==> is_identifier(name@),
{
    proof {
        if file_name@.len() > 0 {
            lemma_case_identifier_is_legal(file_name@);
        }
    }
    let mut body = String::new();
    for c in it: file_name.chars()
        invariant
            it.seq() == file_name@,
            body@ == file_name@.take(it.index()).map_values(|c: char| substitute(c)),
    {
        body.push(replace(c, is_xid_continue(c)));
    }
    let opens = match body.as_str().chars().next() {
        Some(c) => is_xid_start(c),
        None => false,
    };
    open_with(body, opens)
}

} // verus!
