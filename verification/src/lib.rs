//! Turns a declarative, nested description of a widget tree into the
//! imperative code that builds, wires and refreshes the widgets.
//!
//! The description is the `view!` of an implementation block:
//!
//! ```text
//! impl Widgets<AppModel, ()> for AppWidgets {
//!     view! {
//!         gtk::ApplicationWindow {
//!             set_title: Some("Simple app"),
//!             set_child = Some(&gtk::Box) {
//!                 append = &gtk::Button {
//!                     set_label: "Increment",
//!                     connect_clicked(sender) => move |_| {
//!                         send!(sender, AppMsg::Increment);
//!                     },
//!                 },
//!                 append = &gtk::Label {
//!                     set_label: watch! { &format!("Counter: {}", model.counter) },
//!                 },
//!             },
//!         }
//!     }
//! }
//! ```
//!
//! [`widget`] takes such an item as text and writes the struct that holds
//! the widgets and the implementation of the trait for it. On the way the
//! text passes through these stages, each in a module of its own:
//!
//! - [`lex`] hands the text to the lexer and [`token`] gives every token
//!   its place;
//! - [`members`], [`item`] and [`parse`] read the attributes, the head of
//!   the item, the members of its block and the tree of widgets;
//!   [`types`] takes the model and the parent model from the generic
//!   arguments of the trait; [`declaration`] puts the parts together;
//! - [`flatten`] names the widgets that have no name, with the names that
//!   [`names`] makes and [`ident`] keeps identifiers, and lists the widgets
//!   parents first;
//! - [`emit`] writes the sections of the component from the list, and
//!   [`component`] collects them;
//! - [`render`] writes the source text.
//!
//! [`update`] says what an update cycle of a component does. [`order`],
//! [`unique`] and [`count`] hold what is proved of the building routine,
//! of the names and of the sections.
//!
//! Whatever is wrong with the input is reported as one [`error::Error`]
//! with the place it is about, and nothing is written.

use vstd::prelude::*;

pub mod text;

pub mod error;

pub mod types;

pub mod token;

pub mod lex;

pub mod parse;

pub mod ident;

pub mod names;

pub mod tree;

pub mod flatten;

pub mod emit;

pub mod order;

pub mod unique;

pub mod count;

pub mod update;

pub mod component;

pub mod render;

pub mod item;

pub mod members;

pub mod declaration;

use crate::component::{component_of, generate};
use crate::declaration::{declaration_of, parse_declaration};
use crate::error::{Error, ErrorKind, Span};
use crate::flatten::anon_count;
use crate::lex::{lex, lexed};
use crate::names::NameGen;
use crate::render::{component_text, render};
use crate::token::{
    lexemes_view, locate_both, located_all, size_prefix, Lexeme, LexemeModel, TokenModel,
};

verus! {

/// The view of a result that holds a text.
pub open spec fn text_result(r: Result<String, Error>) -> Result<Seq<char>, Error> {
    match r {
        Ok(text) => Ok(text@),
        Err(e) => Err(e),
    }
}

/// The tokens of the item, whose places count on from the tokens of the
/// attributes.
pub open spec fn item_tokens(attrs: Seq<LexemeModel>, item: Seq<LexemeModel>) -> Seq<TokenModel> {
    located_all(item, size_prefix(attrs, attrs.len()))
}

/// The source text of the component that the attributes and the item
/// declare, where names are made from the counter value `k` on; the error
/// where they declare none.
pub open spec fn expansion(attrs: Seq<LexemeModel>, item: Seq<LexemeModel>, k: nat) -> Result<
    Seq<char>,
    Error,
> {
    match declaration_of(located_all(attrs, 0), item_tokens(attrs, item)) {
        Err(e) => Err(e),
        Ok(decl) => Ok(component_text(component_of(decl, k))),
    }
}

/// The number of names that are made for the component: one for each
/// widget without a name; none where there is an error.
pub open spec fn names_made(attrs: Seq<LexemeModel>, item: Seq<LexemeModel>) -> nat {
    match declaration_of(located_all(attrs, 0), item_tokens(attrs, item)) {
        Err(e) => 0,
        Ok(decl) => anon_count(decl.tree),
    }
}

/// Writes the component that the lexemes of the attributes and of the item
/// declare. Nothing is written where anything is wrong: the result is then
/// the first error, and no name is made.
pub fn expand(attrs: &Vec<Lexeme>, item: &Vec<Lexeme>, names: &mut NameGen) -> (r: Result<
    String,
    Error,
>)
    ensures
        text_result(r) == expansion(
            lexemes_view(attrs@),
            lexemes_view(item@),
            old(names).value(),
        ),
        final(names).value() == old(names).value() + names_made(
            lexemes_view(attrs@),
            lexemes_view(item@),
        ),
{
    let (attr_tokens, item_tokens) = locate_both(attrs, item);
    match parse_declaration(&attr_tokens, &item_tokens) {
        Err(e) => Err(e),
        Ok(decl) => {
            let component = generate(decl, names);
            Ok(render(&component))
        },
    }
}

/// What [`widget`] gives for the lexemes of its two texts: the expansion
/// where both have lexemes, else the error of a widget that is not
/// written as one, at the start of the source.
pub open spec fn widget_text(
    attrs: Option<Seq<LexemeModel>>,
    item: Option<Seq<LexemeModel>>,
    k: nat,
) -> Result<Seq<char>, Error> {
    match (attrs, item) {
        (Some(a), Some(i)) => expansion(a, i, k),
        _ => Err(Error { kind: ErrorKind::WidgetSyntax, span: Span { start: 0, end: 0 } }),
    }
}

/// The number of names that [`widget`] makes.
pub open spec fn widget_names(
    attrs: Option<Seq<LexemeModel>>,
    item: Option<Seq<LexemeModel>>,
) -> nat {
    match (attrs, item) {
        (Some(a), Some(i)) => names_made(a, i),
        _ => 0,
    }
}

/// Writes the struct of widgets and the implementation of the trait for
/// the item `input`, an implementation block that holds a `view!`, under
/// the attributes `attributes`.
pub fn widget(attributes: &str, input: &str, names: &mut NameGen) -> (r: Result<String, Error>)
    ensures
        text_result(r) == widget_text(lexed(attributes@), lexed(input@), old(names).value()),
        final(names).value() == old(names).value() + widget_names(
            lexed(attributes@),
            lexed(input@),
        ),
{
    match (lex(attributes), lex(input)) {
        (Some(attrs), Some(item)) => expand(&attrs, &item, names),
        _ => Err(Error::new(ErrorKind::WidgetSyntax, Span { start: 0, end: 0 })),
    }
}

} // verus!
