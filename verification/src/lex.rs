//! What is left to the lexer and to the parser of Rust's own grammar:
//! the lexemes of a text, and whether a text is a closure, a path, a type,
//! a list of generic parameters, a `where` clause or a generic argument.

use std::str::FromStr;
use vstd::prelude::*;
use crate::token::{lexemes_view, Delim, Lexeme, LexemeModel};
use crate::types::ArgKind;

verus! {

#[verifier::external_type_specification]
#[verifier::external_body]
pub struct ExTokenStream(proc_macro2::TokenStream);

#[verifier::external_type_specification]
#[verifier::external_body]
pub struct ExLexError(proc_macro2::LexError);

/// The lexemes that a token stream holds, in their order.
pub uninterp spec fn stream_lexemes(stream: proc_macro2::TokenStream) -> Seq<LexemeModel>;

/// The lexemes of a source text; `None` for a text that cannot be lexed.
pub uninterp spec fn lexed(src: Seq<char>) -> Option<Seq<LexemeModel>>;

/// Whether a text is one closure expression.
pub uninterp spec fn closure_syntax(text: Seq<char>) -> bool;

/// What kind of generic argument a text is; `None` for a text that is
/// none.
pub uninterp spec fn generic_arg_kind(text: Seq<char>) -> Option<ArgKind>;

/// Whether a text is one path, with or without generic arguments.
pub uninterp spec fn path_syntax(text: Seq<char>) -> bool;

/// Whether a text is one type.
pub uninterp spec fn type_syntax(text: Seq<char>) -> bool;

/// Whether a text is a list of generic parameters in angle brackets, or
/// nothing.
pub uninterp spec fn generics_syntax(text: Seq<char>) -> bool;

/// Whether a text is one `where` clause.
pub uninterp spec fn where_syntax(text: Seq<char>) -> bool;

/// `proc_macro2::TokenStream::from_str`: lexes a source text. The crate is
/// built without its `proc-macro` feature, so the lexer is always its own,
/// and what comes back depends on the text alone. Nothing is claimed of
/// what the lexemes are: only that the stream that comes back holds the
/// lexemes of this text, and that an error comes back where it has none.
#[verifier::external_body]
fn token_stream(src: &str) -> (r: Result<proc_macro2::TokenStream, proc_macro2::LexError>)
    ensures
        match r {
            Ok(stream) => lexed(src@) == Some(stream_lexemes(stream)),
            Err(_) => lexed(src@) is None,
        },
{
    proc_macro2::TokenStream::from_str(src)
}

/// Walks a `proc_macro2::TokenStream` and hands each of its token trees
/// over as a lexeme, one for one: an identifier and a literal by their
/// text, a punctuation mark by its character and whether it is joint, a
/// group by its delimiter and the lexemes of its stream.
#[verifier::external_body]
fn lexemes_of(stream: proc_macro2::TokenStream) -> (lexemes: Vec<Lexeme>)
    ensures
        lexemes_view(lexemes@) == stream_lexemes(stream),
{
    stream.into_iter().map(|tree| match tree {
        proc_macro2::TokenTree::Ident(i) => Lexeme::Ident(i.to_string()),
        proc_macro2::TokenTree::Punct(p) => {
            Lexeme::Punct(p.as_char(), p.spacing() == proc_macro2::Spacing::Joint)
        },
        proc_macro2::TokenTree::Literal(l) => Lexeme::Literal(l.to_string()),
        proc_macro2::TokenTree::Group(g) => Lexeme::Group(match g.delimiter() {
            proc_macro2::Delimiter::Parenthesis => Delim::Paren,
            proc_macro2::Delimiter::Brace => Delim::Brace,
            proc_macro2::Delimiter::Bracket => Delim::Bracket,
            proc_macro2::Delimiter::None => Delim::Invisible,
        }, lexemes_of(g.stream())),
    }).collect()
}

/// `syn::parse_str::<syn::ExprClosure>`: whether the whole text parses as
/// one closure expression.
#[verifier::external_body]
pub(crate) fn is_closure(text: &str) -> (ok: bool)
    ensures
        ok == closure_syntax(text@),
{
    syn::parse_str::<syn::ExprClosure>(text).is_ok()
}

/// `syn::parse_str::<syn::GenericArgument>`: parses the whole text as one
/// generic argument and tells which kind came back: a lifetime, a type, a
/// constant, or one of the forms that name an associated item.
#[verifier::external_body]
pub(crate) fn classify_generic_arg(text: &str) -> (kind: Option<ArgKind>)
    ensures
        kind == generic_arg_kind(text@),
{
    match syn::parse_str::<syn::GenericArgument>(text) {
        Ok(syn::GenericArgument::Lifetime(_)) => Some(ArgKind::Lifetime),
        Ok(syn::GenericArgument::Type(_)) => Some(ArgKind::Type),
        Ok(syn::GenericArgument::Const(_)) => Some(ArgKind::Const),
        Ok(_) => Some(ArgKind::Binding),
        Err(_) => None,
    }
}

/// `syn::parse_str::<syn::Path>`: whether the whole text parses as one
/// path.
#[verifier::external_body]
pub(crate) fn is_path(text: &str) -> (ok: bool)
    ensures
        ok == path_syntax(text@),
{
    syn::parse_str::<syn::Path>(text).is_ok()
}

/// `syn::parse_str::<syn::Type>`: whether the whole text parses as one
/// type.
#[verifier::external_body]
pub(crate) fn is_type(text: &str) -> (ok: bool)
    ensures
        ok == type_syntax(text@),
{
    syn::parse_str::<syn::Type>(text).is_ok()
}

/// `syn::parse_str::<syn::Generics>`: whether the whole text parses as the
/// generic parameters of an item.
#[verifier::external_body]
pub(crate) fn is_generics(text: &str) -> (ok: bool)
    ensures
        ok == generics_syntax(text@),
{
    syn::parse_str::<syn::Generics>(text).is_ok()
}

/// `syn::parse_str::<syn::WhereClause>`: whether the whole text parses as
/// one `where` clause.
#[verifier::external_body]
pub(crate) fn is_where_clause(text: &str) -> (ok: bool)
    ensures
        ok == where_syntax(text@),
{
    syn::parse_str::<syn::WhereClause>(text).is_ok()
}

/// The view of lexemes that may be missing.
pub open spec fn opt_lexemes(r: Option<Vec<Lexeme>>) -> Option<Seq<LexemeModel>> {
    match r {
        Some(lexemes) => Some(lexemes_view(lexemes@)),
        None => None,
    }
}

/// Lexes a source text; `None` for a text that cannot be lexed.
pub fn lex(src: &str) -> (r: Option<Vec<Lexeme>>)
    ensures
        opt_lexemes(r) == lexed(src@),
{
    match token_stream(src) {
        Ok(stream) => Some(lexemes_of(stream)),
        Err(_) => None,
    }
}

} // verus!
