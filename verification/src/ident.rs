//! The shape of an identifier, and how a fragment goes into a made name:
//! lower-cased, with an underscore in place of every character that no
//! identifier holds.

use vstd::prelude::*;
use crate::lex::{lex, lexed};
use crate::text::{is_digit, is_lower, is_upper};
use crate::token::{lemma_lexeme_group_view, lexemes_view, Lexeme, LexemeModel};

verus! {

/// The text `_c`, which is read to see whether `c` may stand in an
/// identifier.
pub open spec fn probe(c: char) -> Seq<char> {
    seq!['_', c]
}

/// The lexer reads `_c` as one identifier: `c` may stand in an identifier
/// behind its first character.
pub open spec fn continues_ident(c: char) -> bool {
    lexed(probe(c)) == Some(seq![LexemeModel::Ident(probe(c))])
}

/// A character that may stand in an identifier: an ASCII letter, a digit,
/// an underscore, or a character beyond ASCII that the lexer reads as part
/// of an identifier.
pub open spec fn is_ident_char(c: char) -> bool {
    is_lower(c) || is_upper(c) || is_digit(c) || c == '_' || (c > '\u{7f}' && continues_ident(c))
}

/// Every character of `s` may stand in an identifier.
pub open spec fn all_ident_chars(s: Seq<char>) -> bool {
    forall|i: int| 0 <= i < s.len() ==> is_ident_char(#[trigger] s[i])
}

/// `s` has the shape of an identifier: characters that may stand in an
/// identifier, not starting with a digit, and more than a lone underscore.
pub open spec fn is_ident(s: Seq<char>) -> bool {
    &&& s.len() > 0
    &&& all_ident_chars(s)
    &&& !is_digit(s[0])
    &&& !(s.len() == 1 && s[0] == '_')
}

/// The lower-case form of a text.
pub uninterp spec fn lowercase(text: Seq<char>) -> Seq<char>;

/// `str::to_lowercase` of the standard library: the lower-case form of
/// the text. Nothing is claimed of what that form is.
#[verifier::external_body]
fn to_lowercase(s: &str) -> (r: String)
    ensures
        r@ == lowercase(s@),
{
    s.to_lowercase()
}

/// The character as it goes into a made name: as it is where it may stand
/// in an identifier, and an underscore in its place where it may not.
pub open spec fn plain_char(c: char) -> char {
    if is_ident_char(c) {
        c
    } else {
        '_'
    }
}

/// The text with an underscore in place of every character that may not
/// stand in an identifier.
pub open spec fn plain(s: Seq<char>) -> Seq<char> {
    s.map_values(|c: char| plain_char(c))
}

/// The fragment as it goes into a made name: lower-cased, and then with
/// an underscore in place of every character that no identifier holds,
/// such as the `#` of a raw identifier.
pub open spec fn fragment_text(s: Seq<char>) -> Seq<char> {
    plain(lowercase(s))
}

/// Whatever a text holds, with the underscores in place it holds
/// characters that may stand in an identifier, one for each of its own.
pub proof fn lemma_plain_chars(s: Seq<char>)
    ensures
        plain(s).len() == s.len(),
        all_ident_chars(plain(s)),
{
    assert forall|i: int| 0 <= i < plain(s).len() implies is_ident_char(#[trigger] plain(s)[i]) by {
        assert(plain(s)[i] == plain_char(s[i]));
    }
}

/// In a text of identifier characters nothing gives way to an underscore.
pub proof fn lemma_plain_keeps_identifiers(s: Seq<char>)
    requires
        all_ident_chars(s),
    ensures
        plain(s) == s,
{
    assert forall|i: int| 0 <= i < s.len() implies plain(s)[i] == s[i] by {
        assert(is_ident_char(s[i]));
    }
    assert(plain(s) =~= s);
}

/// Whether the lexer reads `_c` as one identifier.
pub(crate) fn continues(c: char) -> (r: bool)
    ensures
        r == continues_ident(c),
{
    let mut text = String::new();
    text.push('_');
    text.push(c);
    assert(text@ =~= probe(c));
    match lex(text.as_str()) {
        None => false,
        Some(lexemes) => {
            if lexemes.len() != 1 {
                assert(lexemes_view(lexemes@).len() != 1);
                return false;
            }
            let ghost want = seq![LexemeModel::Ident(probe(c))];
            assert(lexemes_view(lexemes@)[0] == lexemes@[0]@);
            match &lexemes[0] {
                Lexeme::Ident(name) => {
                    let same = name.eq(&text);
                    assert(same ==> lexemes_view(lexemes@) =~= want);
                    assert(!same ==> lexemes_view(lexemes@)[0] != want[0]);
                    same
                },
                Lexeme::Group(delim, inner) => {
                    proof {
                        lemma_lexeme_group_view(*delim, *inner);
                    }
                    assert(lexemes_view(lexemes@)[0] != want[0]);
                    false
                },
                _ => {
                    assert(lexemes_view(lexemes@)[0] != want[0]);
                    false
                },
            }
        },
    }
}

/// Computes [`is_ident_char`].
pub(crate) fn ident_char(c: char) -> (r: bool)
    ensures
        r == is_ident_char(c),
{
    if ('a' <= c && c <= 'z') || ('A' <= c && c <= 'Z') || ('0' <= c && c <= '9') || c == '_' {
        true
    } else if c > '\u{7f}' {
        continues(c)
    } else {
        false
    }
}

/// Appends the fragment `s` to `out` as it goes into a made name.
pub(crate) fn push_fragment(out: &mut String, s: &str)
    ensures
        final(out)@ == old(out)@ + fragment_text(s@),
{
    let ghost before = out@;
    let lowered = to_lowercase(s);
    let text = lowered.as_str();
    for c in it: text.chars()
        invariant
            it.seq() == text@,
            out@ == before + plain(text@.take(it.index() as int)),
    {
        let ghost i = it.index() as int;
        if ident_char(c) {
            out.push(c);
        } else {
            out.push('_');
        }
        assert(plain(text@.take(i + 1)) =~= plain(text@.take(i)).push(plain_char(text@[i])));
    }
    assert(text@.take(text@.len() as int) =~= text@);
}

/// Whether `s` has the shape of an identifier.
pub fn check_ident(s: &str) -> (ok: bool)
    ensures
        ok == is_ident(s@),
{
    let mut started = false;
    let mut first_digit = false;
    let mut lone_underscore = false;
    let mut good = true;
    for c in it: s.chars()
        invariant
            it.seq() == s@,
            started == (it.index() > 0),
            good == all_ident_chars(s@.take(it.index() as int)),
            started ==> first_digit == is_digit(s@[0]),
            started ==> lone_underscore == (it.index() == 1 && s@[0] == '_'),
    {
        let ghost i = it.index() as int;
        let here = ident_char(c);
        if !started {
            first_digit = '0' <= c && c <= '9';
            lone_underscore = c == '_';
        } else {
            lone_underscore = false;
        }
        proof {
            let a = s@.take(i);
            let b = s@.take(i + 1);
            assert(b[i] == s@[i]);
            assert forall|j: int| 0 <= j < a.len() implies a[j] == b[j] by {}
            if all_ident_chars(b) {
                assert forall|j: int| 0 <= j < a.len() implies is_ident_char(#[trigger] a[j]) by {
                    assert(is_ident_char(b[j]));
                }
            }
            if all_ident_chars(a) && here {
                assert forall|j: int| 0 <= j < b.len() implies is_ident_char(#[trigger] b[j]) by {
                    if j < i {
                        assert(is_ident_char(a[j]));
                    }
                }
            }
        }
        good = good && here;
        started = true;
    }
    assert(s@.take(s@.len() as int) =~= s@);
    good && started && !first_digit && !lone_underscore
}

} // verus!
