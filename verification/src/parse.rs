//! The grammar of a widget declaration, over token trees.
//!
//! ```text
//! widget   := [ name `=` ] value `{` item { `,` item } [ `,` ] `}`
//! value    := func | `Some` `(` func `)`
//! func     := [ `&` ] path [ `(` arguments `)` [ `->` path ] ]
//!           | [ `&` ] expression `->` path
//! path     := ident { `::` ident }
//! item     := setter `:` expression
//!           | setter `:` `watch` `!` group
//!           | `track` `!` group
//!           | method `=` widget
//!           | signal `(` [ ident { `,` ident } [ `,` ] ] `)` `=>` closure
//! ```
//!
//! An expression is any run of tokens without a comma outside brackets;
//! the commas between the parameters of a closure belong to the closure.

use vstd::prelude::*;
use vstd::string::StringExecFns;
use crate::error::{Error, ErrorKind, Span};
use crate::lex::{closure_syntax, is_closure};
use crate::text::strs;
use crate::token::{
    lemma_group_view, push_text, render_tokens, text_between, text_of, tokens_view, Delim, Token,
    TokenModel,
};
use crate::tree::{
    events_view, lemma_children_view, nodes_view, opt_str, properties_view, Attach, AttachModel,
    Event, EventModel, NodeModel, Property, PropertyModel, WidgetNode,
};

verus! {

/// The token is the punctuation mark `c`.
pub open spec fn is_punct(token: TokenModel, c: char) -> bool {
    match token {
        TokenModel::Punct { ch, .. } => ch == c,
        _ => false,
    }
}

/// The token is the punctuation mark `c`, not joined to the next token.
pub open spec fn is_alone(token: TokenModel, c: char) -> bool {
    match token {
        TokenModel::Punct { ch, joint, .. } => ch == c && !joint,
        _ => false,
    }
}

/// The token is the punctuation mark `c`, joined to the next token.
pub open spec fn is_joint(token: TokenModel, c: char) -> bool {
    match token {
        TokenModel::Punct { ch, joint, .. } => ch == c && joint,
        _ => false,
    }
}

/// The punctuation mark `c` and the token `next` behind it make one
/// operator of two characters: `::`, `=>`, `==`, `&&` or `&=`.
pub open spec fn pairs(c: char, next: TokenModel) -> bool {
    (c == ':' && is_punct(next, ':')) || (c == '=' && (is_punct(next, '>') || is_punct(next, '=')))
        || (c == '&' && (is_punct(next, '&') || is_punct(next, '=')))
}

/// The token at `at` is the punctuation mark `c` by itself: not the first
/// character of an operator of two characters.
pub open spec fn is_single(tokens: Seq<TokenModel>, at: int, c: char) -> bool {
    0 <= at < tokens.len() && is_punct(tokens[at], c) && !(is_joint(tokens[at], c) && at + 1
        < tokens.len() && pairs(c, tokens[at + 1]))
}

/// The token is the identifier `word`.
pub open spec fn is_word(token: TokenModel, word: Seq<char>) -> bool {
    match token {
        TokenModel::Ident { text, .. } => text == word,
        _ => false,
    }
}

/// The text of an identifier; the empty text for another token.
pub open spec fn ident_text(token: TokenModel) -> Seq<char> {
    match token {
        TokenModel::Ident { text, .. } => text,
        _ => Seq::empty(),
    }
}

/// The token is a group in the brackets `d`.
pub open spec fn is_group(token: TokenModel, d: Delim) -> bool {
    match token {
        TokenModel::Group { delim, .. } => delim == d,
        _ => false,
    }
}

/// The tokens inside a group; none for another token.
pub open spec fn inner_of(token: TokenModel) -> Seq<TokenModel> {
    match token {
        TokenModel::Group { inner, .. } => inner,
        _ => Seq::empty(),
    }
}

/// The place from the token at `lo` to the token before `hi`; `fallback`
/// where there is no token between them.
pub open spec fn cover(tokens: Seq<TokenModel>, lo: int, hi: int, fallback: Span) -> Span {
    if 0 <= lo < hi <= tokens.len() {
        Span { start: tokens[lo].span().start, end: tokens[hi - 1].span().end }
    } else {
        fallback
    }
}

/// The position of the first comma at or behind `from`; the number of
/// tokens where there is none.
pub open spec fn item_end(tokens: Seq<TokenModel>, from: int) -> int
    decreases tokens.len() - from,
{
    if from < 0 || from >= tokens.len() {
        tokens.len() as int
    } else if is_punct(tokens[from], ',') {
        from
    } else {
        item_end(tokens, from + 1)
    }
}

/// How far the reading of an item has come with respect to a closure:
/// `0` before the arrow `=>`, `1` behind the arrow and before the
/// parameters of the closure, `2` inside the parameters, between the two
/// bars, and `3` behind them or where no closure follows the arrow.
pub open spec fn after(tokens: Seq<TokenModel>, at: int, state: nat) -> nat {
    if state == 0 {
        if at > 0 && is_joint(tokens[at - 1], '=') && is_punct(tokens[at], '>') {
            1
        } else {
            0
        }
    } else if state == 1 {
        if is_word(tokens[at], "move"@) {
            1
        } else if is_punct(tokens[at], '|') {
            2
        } else {
            3
        }
    } else if state == 2 {
        if is_punct(tokens[at], '|') {
            3
        } else {
            2
        }
    } else {
        3
    }
}

/// The position of the comma that ends the item that is read from `from`
/// on in the state `state`: the first comma that does not stand between
/// the parameters of a closure behind an arrow. The number of tokens
/// where there is none.
pub open spec fn item_stop(tokens: Seq<TokenModel>, from: int, state: nat) -> int
    decreases tokens.len() - from,
{
    if from < 0 || from >= tokens.len() {
        tokens.len() as int
    } else if is_punct(tokens[from], ',') && state != 2 {
        from
    } else {
        item_stop(tokens, from + 1, after(tokens, from, state))
    }
}

/// Where a path ends that has a segment ending before `at`: behind each
/// further `::` and identifier, up to `hi`.
pub open spec fn path_end(tokens: Seq<TokenModel>, at: int, hi: int) -> int
    decreases hi - at,
{
    if 0 <= at && at + 3 <= hi <= tokens.len() && is_joint(tokens[at], ':') && is_punct(
        tokens[at + 1],
        ':',
    ) && tokens[at + 2] is Ident {
        path_end(tokens, at + 3, hi)
    } else {
        at
    }
}

/// The segments of the path from `lo` to `end`.
pub open spec fn path_segments(tokens: Seq<TokenModel>, lo: int, end: int) -> Seq<Seq<char>>
    decreases end - lo,
{
    if end <= lo || end > tokens.len() || lo < 0 {
        Seq::empty()
    } else if end - 3 <= lo {
        seq![ident_text(tokens[end - 1])]
    } else {
        path_segments(tokens, lo, end - 3).push(ident_text(tokens[end - 1]))
    }
}

/// The first `i` segments as a path: joined by `::`.
pub open spec fn path_text(segments: Seq<Seq<char>>, i: nat) -> Seq<char>
    decreases i,
{
    if i == 0 || i > segments.len() {
        Seq::empty()
    } else if i == 1 {
        segments[0]
    } else {
        path_text(segments, (i - 1) as nat) + "::"@ + segments[i - 1]
    }
}

/// What the part of a widget before its block says: how the widget is
/// constructed, what type it has, and whether it is passed by reference.
pub ghost struct FuncModel {
    pub by_ref: bool,
    pub ctor: Seq<char>,
    pub ty: Seq<char>,
}

/// The type of a widget that a constructor call makes, where none is
/// written: the path of the call without its last segment.
pub open spec fn called_type(segments: Seq<Seq<char>>) -> Seq<char> {
    if segments.len() >= 2 {
        path_text(segments, (segments.len() - 1) as nat)
    } else {
        path_text(segments, segments.len())
    }
}

/// Reads the tokens from `start` to `hi` as a path, with or without
/// arguments. A bare path constructs the default value of the type it
/// names. A path with arguments is a constructor call; the type is the
/// one written behind `->`, else the path without its last segment.
pub open spec fn plain_func(tokens: Seq<TokenModel>, start: int, hi: int, by_ref: bool) -> Option<
    FuncModel,
> {
    if !(0 <= start < hi <= tokens.len() && tokens[start] is Ident) {
        None
    } else {
        let end = path_end(tokens, start + 1, hi);
        let segments = path_segments(tokens, start, end);
        let path = path_text(segments, segments.len());
        if end == hi {
            Some(FuncModel { by_ref, ctor: path + "::default()"@, ty: path })
        } else if !is_group(tokens[end], Delim::Paren) {
            None
        } else {
            let ctor = path + "("@ + text_of(inner_of(tokens[end])) + ")"@;
            if end + 1 == hi {
                Some(FuncModel { by_ref, ctor, ty: called_type(segments) })
            } else if is_type_arrow(tokens, end + 1, hi) {
                let written = path_segments(tokens, end + 3, hi);
                Some(FuncModel { by_ref, ctor, ty: path_text(written, written.len()) })
            } else {
                None
            }
        }
    }
}

/// An arrow `->` stands at `at`, and what follows it up to `hi` is a path.
pub open spec fn is_type_arrow(tokens: Seq<TokenModel>, at: int, hi: int) -> bool {
    0 <= at && at + 3 <= hi <= tokens.len() && is_joint(tokens[at], '-') && is_punct(
        tokens[at + 1],
        '>',
    ) && tokens[at + 2] is Ident && path_end(tokens, at + 3, hi) == hi
}

/// The first position from `from` on and before `hi` at which an arrow
/// stands that a path follows up to `hi`; `hi` where there is none.
pub open spec fn arrow_at(tokens: Seq<TokenModel>, from: int, hi: int) -> int
    decreases hi - from,
{
    if !(0 <= from < hi <= tokens.len()) {
        hi
    } else if is_type_arrow(tokens, from, hi) {
        from
    } else {
        arrow_at(tokens, from + 1, hi)
    }
}

/// Reads the tokens from `lo` to `hi` as `func`: a `&` where the widget is
/// passed by reference, and then how the widget is constructed. That is a
/// path, with or without arguments, as [`plain_func`] reads it; or any
/// other expression, which then names the type of the widget behind an
/// arrow: `expression -> path`.
pub open spec fn func_of(tokens: Seq<TokenModel>, lo: int, hi: int) -> Option<FuncModel> {
    let by_ref = lo < hi && is_single(tokens, lo, '&');
    let start = if by_ref {
        lo + 1
    } else {
        lo
    };
    if !(0 <= lo && start < hi <= tokens.len()) {
        None
    } else if plain_func(tokens, start, hi, by_ref) is Some {
        plain_func(tokens, start, hi, by_ref)
    } else {
        let arrow = arrow_at(tokens, start, hi);
        if start < arrow < hi {
            let written = path_segments(tokens, arrow + 2, hi);
            Some(
                FuncModel {
                    by_ref,
                    ctor: text_of(tokens.subrange(start, arrow)),
                    ty: path_text(written, written.len()),
                },
            )
        } else {
            None
        }
    }
}

/// The names in a list of captured variables, behind those in `acc`:
/// identifiers with a comma between two of them, and maybe one at the end.
/// `None` for any other run of tokens.
pub open spec fn captured_names(tokens: Seq<TokenModel>, at: int, acc: Seq<Seq<char>>) -> Option<
    Seq<Seq<char>>,
>
    decreases tokens.len() - at,
{
    if at < 0 || at >= tokens.len() {
        Some(acc)
    } else if tokens[at] is Ident && at + 1 == tokens.len() {
        Some(acc.push(ident_text(tokens[at])))
    } else if tokens[at] is Ident && is_punct(tokens[at + 1], ',') {
        captured_names(tokens, at + 2, acc.push(ident_text(tokens[at])))
    } else {
        None
    }
}

/// What the block of a widget holds.
pub ghost struct BodyModel {
    pub properties: Seq<PropertyModel>,
    pub events: Seq<EventModel>,
    pub track: Option<Seq<char>>,
    pub children: Seq<NodeModel>,
}

/// The block that holds nothing.
pub open spec fn empty_body() -> BodyModel {
    BodyModel {
        properties: Seq::empty(),
        events: Seq::empty(),
        track: None,
        children: Seq::empty(),
    }
}

/// The error for a widget that is not written as one.
pub open spec fn widget_error(span: Span) -> Error {
    Error { kind: ErrorKind::WidgetSyntax, span }
}

/// The error for an event connection that is not written as one.
pub open spec fn event_error(span: Span) -> Error {
    Error { kind: ErrorKind::EventSyntax, span }
}

/// Reads the tokens from `lo` to `hi` as a widget, added to its parent by
/// `attach` where that is given. What is wrong with the widget itself is
/// an error at the place of the whole declaration, and at `fallback` where
/// nothing is written; what is wrong inside its block is the error of the
/// item.
pub open spec fn widget_of(
    tokens: Seq<TokenModel>,
    lo: int,
    hi: int,
    attach: Option<Seq<char>>,
    fallback: Span,
) -> Result<NodeModel, Error>
    decreases tokens, 0nat,
{
    let bad = Err(widget_error(cover(tokens, lo, hi, fallback)));
    if !(0 <= lo <= hi <= tokens.len()) {
        bad
    } else {
        let named = hi - lo >= 2 && tokens[lo] is Ident && is_single(tokens, lo + 1, '=');
        let start = if named {
            lo + 2
        } else {
            lo
        };
        if !(start < hi) {
            bad
        } else {
            match tokens[hi - 1] {
                TokenModel::Group { delim: Delim::Brace, inner, span } => {
                    let wrapped = hi - 1 - start == 2 && is_word(tokens[start], "Some"@)
                        && is_group(tokens[start + 1], Delim::Paren);
                    let func = if wrapped {
                        func_of(
                            inner_of(tokens[start + 1]),
                            0,
                            inner_of(tokens[start + 1]).len() as int,
                        )
                    } else {
                        func_of(tokens, start, hi - 1)
                    };
                    match func {
                        None => bad,
                        Some(f) => match body_of(inner, 0, empty_body()) {
                            Err(e) => Err(e),
                            Ok(body) => Ok(
                                NodeModel {
                                    name: if named {
                                        Some(ident_text(tokens[lo]))
                                    } else {
                                        None
                                    },
                                    ctor: f.ctor,
                                    ty: f.ty,
                                    attach: match attach {
                                        Some(method) => Some(
                                            AttachModel {
                                                method,
                                                wrapper: if wrapped {
                                                    Some("Some"@)
                                                } else {
                                                    None
                                                },
                                                by_ref: f.by_ref,
                                            },
                                        ),
                                        None => None,
                                    },
                                    properties: body.properties,
                                    events: body.events,
                                    track: body.track,
                                    children: body.children,
                                },
                            ),
                        },
                    }
                },
                _ => bad,
            }
        }
    }
}

/// Reads the items of a block from the position `from` on, behind what
/// `acc` holds of the items before. Items end at commas, but for the
/// commas between the parameters of a handler; a comma may follow the
/// last item.
pub open spec fn body_of(tokens: Seq<TokenModel>, from: int, acc: BodyModel) -> Result<
    BodyModel,
    Error,
>
    decreases tokens, tokens.len() - from + 2,
{
    if from < 0 || from >= tokens.len() {
        Ok(acc)
    } else {
        let end = item_stop(tokens, from, 0);
        match with_item(tokens, from, end, acc) {
            Err(e) => Err(e),
            Ok(next) => if from <= end < tokens.len() {
                body_of(tokens, end + 1, next)
            } else {
                Ok(next)
            },
        }
    }
}

/// The place of the item from `lo` to `hi`; for an item without any token
/// the place of the comma that ends it.
pub open spec fn item_place(tokens: Seq<TokenModel>, lo: int, hi: int) -> Span {
    cover(
        tokens,
        lo,
        hi,
        if 0 <= hi < tokens.len() {
            tokens[hi].span()
        } else {
            Span { start: 0, end: 0 }
        },
    )
}

/// Reads the tokens from `lo` to `hi`, a name and `!` and what follows, as
/// the guard of the widget: `track`, `!` and a group that is not empty,
/// once in a block.
pub open spec fn with_track(tokens: Seq<TokenModel>, lo: int, hi: int, acc: BodyModel) -> Result<
    BodyModel,
    Error,
> {
    if 0 <= lo && lo + 3 == hi <= tokens.len() && is_word(tokens[lo], "track"@) && tokens[lo
        + 2] is Group && inner_of(tokens[lo + 2]).len() > 0 && acc.track is None {
        Ok(BodyModel { track: Some(text_of(inner_of(tokens[lo + 2]))), ..acc })
    } else {
        Err(widget_error(item_place(tokens, lo, hi)))
    }
}

/// Reads the tokens from `lo` to `hi`, a name and `:` and what follows, as
/// a property: watched where `watch`, `!` and a group follow, which may
/// not be empty, else assigned once the expression that follows.
pub open spec fn with_property(
    tokens: Seq<TokenModel>,
    lo: int,
    hi: int,
    acc: BodyModel,
) -> Result<BodyModel, Error> {
    let bad = Err(widget_error(item_place(tokens, lo, hi)));
    if !(0 <= lo && lo + 3 <= hi <= tokens.len()) {
        bad
    } else if lo + 5 == hi && is_word(tokens[lo + 2], "watch"@) && is_alone(tokens[lo + 3], '!')
        && tokens[lo + 4] is Group {
        if inner_of(tokens[lo + 4]).len() == 0 {
            bad
        } else {
            Ok(
                BodyModel {
                    properties: acc.properties.push(
                        PropertyModel {
                            setter: ident_text(tokens[lo]),
                            value: text_of(inner_of(tokens[lo + 4])),
                            watch: true,
                        },
                    ),
                    ..acc
                },
            )
        }
    } else {
        Ok(
            BodyModel {
                properties: acc.properties.push(
                    PropertyModel {
                        setter: ident_text(tokens[lo]),
                        value: text_of(tokens.subrange(lo + 2, hi)),
                        watch: false,
                    },
                ),
                ..acc
            },
        )
    }
}

/// Reads the tokens from `lo` to `hi` as one item of a block and adds it
/// to `acc`. An item that is no item is an error at its place; an item
/// without any token is an error at the comma that ends it.
pub open spec fn with_item(tokens: Seq<TokenModel>, lo: int, hi: int, acc: BodyModel) -> Result<
    BodyModel,
    Error,
>
    decreases tokens, 1nat,
{
    if !(0 <= lo && lo + 2 <= hi <= tokens.len()) || !(tokens[lo] is Ident) {
        Err(widget_error(item_place(tokens, lo, hi)))
    } else if is_alone(tokens[lo + 1], '!') {
        with_track(tokens, lo, hi, acc)
    } else if is_single(tokens, lo + 1, ':') {
        with_property(tokens, lo, hi, acc)
    } else if is_single(tokens, lo + 1, '=') {
        match widget_of(tokens, lo + 2, hi, Some(ident_text(tokens[lo])), tokens[lo + 1].span()) {
            Err(e) => Err(e),
            Ok(node) => Ok(BodyModel { children: acc.children.push(node), ..acc }),
        }
    } else if is_group(tokens[lo + 1], Delim::Paren) {
        with_event(tokens, lo, hi, acc, closure_syntax(text_of(tokens.subrange(lo + 4, hi))))
    } else {
        Err(widget_error(item_place(tokens, lo, hi)))
    }
}

/// Reads the tokens from `lo` to `hi` as an event connection and adds it
/// to `acc`, where `closure` says whether what follows the arrow is a
/// closure: a signal, the captured variables in parentheses, the arrow
/// and the handler. Anything else, and a handler that is no closure, is
/// an error at the place of the item.
pub open spec fn with_event(
    tokens: Seq<TokenModel>,
    lo: int,
    hi: int,
    acc: BodyModel,
    closure: bool,
) -> Result<BodyModel, Error> {
    let bad = Err(event_error(cover(tokens, lo, hi, Span { start: 0, end: 0 })));
    if 0 <= lo && lo + 5 <= hi <= tokens.len() && is_group(tokens[lo + 1], Delim::Paren)
        && is_joint(tokens[lo + 2], '=') && is_punct(tokens[lo + 3], '>') && closure {
        match captured_names(inner_of(tokens[lo + 1]), 0, Seq::empty()) {
            None => bad,
            Some(names) => Ok(
                BodyModel {
                    events: acc.events.push(
                        EventModel {
                            signal: ident_text(tokens[lo]),
                            captured: names,
                            handler: text_of(tokens.subrange(lo + 4, hi)),
                        },
                    ),
                    ..acc
                },
            ),
        }
    } else {
        bad
    }
}

/// Every node below `node` has a way to be added to its parent.
pub open spec fn attached_below(node: NodeModel) -> bool
    decreases node,
{
    forall|i: int|
        0 <= i < node.children.len() ==> (#[trigger] node.children[i]).attach is Some
            && attached_below(node.children[i])
}

/// Every one of the nodes has a way to be added to its parent, and so has
/// every node below them.
pub open spec fn all_attached(nodes: Seq<NodeModel>) -> bool {
    forall|i: int|
        0 <= i < nodes.len() ==> (#[trigger] nodes[i]).attach is Some && attached_below(nodes[i])
}

/// An item that is read adds no child without a way to be added.
pub proof fn lemma_item_attached(tokens: Seq<TokenModel>, lo: int, hi: int, acc: BodyModel)
    requires
        all_attached(acc.children),
    ensures
        with_item(tokens, lo, hi, acc) matches Ok(body) ==> all_attached(body.children),
    decreases tokens, 1nat,
{
    if (0 <= lo && lo + 2 <= hi <= tokens.len()) && tokens[lo] is Ident && !is_alone(
        tokens[lo + 1],
        '!',
    ) && !is_single(tokens, lo + 1, ':') && is_single(tokens, lo + 1, '=') {
        let method = Some(ident_text(tokens[lo]));
        lemma_widget_attached(tokens, lo + 2, hi, method, tokens[lo + 1].span());
        match widget_of(tokens, lo + 2, hi, method, tokens[lo + 1].span()) {
            Ok(node) => {
                let children = acc.children.push(node);
                assert forall|i: int| 0 <= i < children.len() implies (#[trigger] children[i]).attach is Some
                    && attached_below(children[i]) by {
                    if i < acc.children.len() {
                        assert(children[i] == acc.children[i]);
                    }
                }
            },
            Err(_) => {},
        }
    }
}

/// The items of a block that is read add no child without a way to be
/// added.
pub proof fn lemma_body_attached(tokens: Seq<TokenModel>, from: int, acc: BodyModel)
    requires
        all_attached(acc.children),
    ensures
        body_of(tokens, from, acc) matches Ok(body) ==> all_attached(body.children),
    decreases tokens, tokens.len() - from + 2,
{
    if !(from < 0 || from >= tokens.len()) {
        let end = item_stop(tokens, from, 0);
        lemma_item_attached(tokens, from, end, acc);
        match with_item(tokens, from, end, acc) {
            Ok(next) => {
                if from <= end < tokens.len() {
                    lemma_body_attached(tokens, end + 1, next);
                }
            },
            Err(_) => {},
        }
    }
}

/// In a tree that is read from tokens, every node but the root has a way
/// to be added to its parent: a widget that is read has one exactly where
/// it is read as a child, and every widget below it has one.
pub proof fn lemma_widget_attached(
    tokens: Seq<TokenModel>,
    lo: int,
    hi: int,
    attach: Option<Seq<char>>,
    fallback: Span,
)
    ensures
        widget_of(tokens, lo, hi, attach, fallback) matches Ok(node) ==> (node.attach is Some
            <==> attach is Some) && attached_below(node),
    decreases tokens, 0nat,
{
    match widget_of(tokens, lo, hi, attach, fallback) {
        Ok(node) => {
            match tokens[hi - 1] {
                TokenModel::Group { delim: Delim::Brace, inner, span } => {
                    lemma_body_attached(inner, 0, empty_body());
                    assert(body_of(inner, 0, empty_body()) is Ok);
                    assert(node.children == body_of(inner, 0, empty_body())->Ok_0.children);
                },
                _ => {},
            }
        },
        Err(_) => {},
    }
}

/// A widget of which only the block is written, with or without a name
/// before it, has no type and is not read: the result is the error of a
/// widget that is not written as one, at the place of the declaration,
/// which for a block alone is the place of the block.
pub proof fn lemma_block_without_type(
    tokens: Seq<TokenModel>,
    lo: int,
    hi: int,
    attach: Option<Seq<char>>,
    fallback: Span,
)
    requires
        0 <= lo < hi <= tokens.len(),
        is_group(tokens[hi - 1], Delim::Brace),
        hi - lo == 1 || (hi - lo == 3 && tokens[lo] is Ident && is_single(tokens, lo + 1, '=')),
    ensures
        widget_of(tokens, lo, hi, attach, fallback) == Err::<NodeModel, Error>(
            widget_error(cover(tokens, lo, hi, fallback)),
        ),
        hi - lo == 1 ==> cover(tokens, lo, hi, fallback) == tokens[lo].span(),
{
}

/// Whether the text of `a` is `b`.
pub(crate) fn same_text(a: &String, b: &str) -> (r: bool)
    ensures
        r == (a@ == b@),
{
    let other = String::from_str(b);
    a.eq(&other)
}

/// Computes [`is_punct`].
pub(crate) fn punct(token: &Token, c: char) -> (r: bool)
    ensures
        r == is_punct(token@, c),
{
    match token {
        Token::Punct { ch, .. } => *ch == c,
        _ => false,
    }
}

/// Computes [`is_alone`].
pub(crate) fn alone(token: &Token, c: char) -> (r: bool)
    ensures
        r == is_alone(token@, c),
{
    match token {
        Token::Punct { ch, joint, .. } => *ch == c && !*joint,
        _ => false,
    }
}

/// Computes [`is_joint`].
pub(crate) fn joint(token: &Token, c: char) -> (r: bool)
    ensures
        r == is_joint(token@, c),
{
    match token {
        Token::Punct { ch, joint, .. } => *ch == c && *joint,
        _ => false,
    }
}

/// Computes [`is_single`].
pub(crate) fn single(tokens: &Vec<Token>, at: usize, c: char) -> (r: bool)
    ensures
        r == is_single(tokens_view(tokens@), at as int, c),
{
    if at >= tokens.len() || !punct(&tokens[at], c) {
        return false;
    }
    if !joint(&tokens[at], c) || tokens.len() - at < 2 {
        return true;
    }
    let next = &tokens[at + 1];
    let pair = (c == ':' && punct(next, ':')) || (c == '=' && (punct(next, '>') || punct(next, '=')))
        || (c == '&' && (punct(next, '&') || punct(next, '=')));
    !pair
}

/// Computes [`is_word`].
pub(crate) fn word(token: &Token, w: &str) -> (r: bool)
    ensures
        r == is_word(token@, w@),
{
    match token {
        Token::Ident { text, .. } => same_text(text, w),
        _ => false,
    }
}

/// Whether the token is an identifier.
pub(crate) fn ident(token: &Token) -> (r: bool)
    ensures
        r == (token@ is Ident),
{
    match token {
        Token::Ident { .. } => true,
        _ => false,
    }
}

/// Computes [`ident_text`].
pub(crate) fn ident_name(token: &Token) -> (r: String)
    ensures
        r@ == ident_text(token@),
{
    match token {
        Token::Ident { text, .. } => text.clone(),
        _ => String::new(),
    }
}

/// Computes [`is_group`].
pub(crate) fn group(token: &Token, d: Delim) -> (r: bool)
    ensures
        r == is_group(token@, d),
{
    match token {
        Token::Group { delim, .. } => *delim == d,
        _ => false,
    }
}

/// Computes [`cover`].
pub(crate) fn cover_span(tokens: &Vec<Token>, lo: usize, hi: usize, fallback: Span) -> (r: Span)
    ensures
        r == cover(tokens_view(tokens@), lo as int, hi as int, fallback),
{
    if lo < hi && hi <= tokens.len() {
        Span { start: tokens[lo].span().start, end: tokens[hi - 1].span().end }
    } else {
        fallback
    }
}

/// Computes [`item_end`].
pub(crate) fn find_item_end(tokens: &Vec<Token>, from: usize) -> (end: usize)
    ensures
        end == item_end(tokens_view(tokens@), from as int),
        from <= tokens.len() ==> from <= end <= tokens.len(),
{
    let mut at: usize = from;
    while at < tokens.len() && !punct(&tokens[at], ',')
        invariant
            from <= at,
            item_end(tokens_view(tokens@), from as int) == item_end(
                tokens_view(tokens@),
                at as int,
            ),
        decreases tokens.len() - at,
    {
        at = at + 1;
    }
    if at > tokens.len() {
        tokens.len()
    } else {
        at
    }
}

/// Computes [`item_stop`] for an item that starts at `from`.
pub(crate) fn find_item_stop(tokens: &Vec<Token>, from: usize) -> (end: usize)
    ensures
        end == item_stop(tokens_view(tokens@), from as int, 0),
        from <= tokens.len() ==> from <= end <= tokens.len(),
{
    let ghost view = tokens_view(tokens@);
    let mut at: usize = from;
    let mut state: u8 = 0;
    while at < tokens.len()
        invariant
            from <= at,
            state <= 3,
            view == tokens_view(tokens@),
            item_stop(view, from as int, 0) == item_stop(view, at as int, state as nat),
        decreases tokens.len() - at,
    {
        let token = &tokens[at];
        if punct(token, ',') && state != 2 {
            return at;
        }
        if state == 0 {
            if at > 0 && joint(&tokens[at - 1], '=') && punct(token, '>') {
                state = 1;
            }
        } else if state == 1 {
            if word(token, "move") {
                state = 1;
            } else if punct(token, '|') {
                state = 2;
            } else {
                state = 3;
            }
        } else if state == 2 {
            if punct(token, '|') {
                state = 3;
            }
        }
        at = at + 1;
    }
    tokens.len()
}

/// Reads a path that starts with the identifier at `start`, and gives
/// the position behind it and its segments.
pub(crate) fn read_path(tokens: &Vec<Token>, start: usize, hi: usize) -> (r: (usize, Vec<String>))
    requires
        start < hi <= tokens.len(),
        tokens_view(tokens@)[start as int] is Ident,
    ensures
        r.0 == path_end(tokens_view(tokens@), start + 1, hi as int),
        start < r.0 <= hi,
        strs(r.1@) == path_segments(tokens_view(tokens@), start as int, r.0 as int),
        r.1@.len() >= 1,
{
    let ghost view = tokens_view(tokens@);
    let mut segments: Vec<String> = Vec::new();
    segments.push(ident_name(&tokens[start]));
    assert(strs(segments@) =~= path_segments(view, start as int, start + 1));
    let mut at: usize = start + 1;
    while hi - at >= 3 && joint(&tokens[at], ':') && punct(&tokens[at + 1], ':') && ident(
        &tokens[at + 2],
    )
        invariant
            start < at <= hi <= tokens.len(),
            view == tokens_view(tokens@),
            path_end(view, start + 1, hi as int) == path_end(view, at as int, hi as int),
            strs(segments@) == path_segments(view, start as int, at as int),
            segments@.len() >= 1,
        decreases hi - at,
    {
        segments.push(ident_name(&tokens[at + 2]));
        assert(strs(segments@) =~= path_segments(view, start as int, at + 3));
        at = at + 3;
    }
    (at, segments)
}

/// Appends the first `n` segments as a path.
pub(crate) fn push_path(out: &mut String, segments: &Vec<String>, n: usize)
    requires
        n <= segments.len(),
    ensures
        final(out)@ == old(out)@ + path_text(strs(segments@), n as nat),
{
    let ghost before = out@;
    let mut i: usize = 0;
    assert(out@ =~= before + path_text(strs(segments@), 0));
    while i < n
        invariant
            i <= n <= segments.len(),
            out@ == before + path_text(strs(segments@), i as nat),
        decreases n - i,
    {
        if i > 0 {
            out.append("::");
        }
        out.append(segments[i].as_str());
        assert(strs(segments@)[i as int] == segments@[i as int]@);
        assert(out@ =~= before + path_text(strs(segments@), (i + 1) as nat));
        i = i + 1;
    }
}

/// What the part of a widget before its block says.
#[derive(Debug, PartialEq, Eq)]
pub struct Func {
    pub by_ref: bool,
    pub ctor: String,
    pub ty: String,
}

impl View for Func {
    type V = FuncModel;

    open spec fn view(&self) -> FuncModel {
        FuncModel { by_ref: self.by_ref, ctor: self.ctor@, ty: self.ty@ }
    }
}

/// The view of a `func` that may be missing.
pub open spec fn opt_func(f: Option<Func>) -> Option<FuncModel> {
    match f {
        Some(func) => Some(func@),
        None => None,
    }
}

/// The path behind the arrow at `at`, as text, where an arrow stands
/// there that a path follows up to `hi`.
pub(crate) fn read_arrow_type(tokens: &Vec<Token>, at: usize, hi: usize) -> (r: Option<String>)
    requires
        at <= hi <= tokens.len(),
    ensures
        (r is Some) <==> is_type_arrow(tokens_view(tokens@), at as int, hi as int),
        r matches Some(ty) ==> ty@ == path_text(
            path_segments(tokens_view(tokens@), at + 2, hi as int),
            path_segments(tokens_view(tokens@), at + 2, hi as int).len(),
        ),
{
    if !(hi - at >= 3 && joint(&tokens[at], '-') && punct(&tokens[at + 1], '>') && ident(
        &tokens[at + 2],
    )) {
        return None;
    }
    let (last, written) = read_path(tokens, at + 2, hi);
    if last != hi {
        return None;
    }
    let mut ty = String::new();
    push_path(&mut ty, &written, written.len());
    assert(ty@ =~= path_text(strs(written@), written@.len()));
    Some(ty)
}

/// Computes [`plain_func`].
pub(crate) fn parse_plain_func(tokens: &Vec<Token>, start: usize, hi: usize, by_ref: bool) -> (r:
    Option<Func>)
    requires
        start <= hi <= tokens.len(),
    ensures
        opt_func(r) == plain_func(tokens_view(tokens@), start as int, hi as int, by_ref),
{
    if !(start < hi && ident(&tokens[start])) {
        return None;
    }
    let (end, segments) = read_path(tokens, start, hi);
    let mut path = String::new();
    push_path(&mut path, &segments, segments.len());
    assert(path@ =~= path_text(strs(segments@), segments@.len()));
    if end == hi {
        let mut ctor = path.clone();
        ctor.append("::default()");
        return Some(Func { by_ref, ctor, ty: path });
    }
    match &tokens[end] {
        Token::Group { delim: Delim::Paren, inner, span } => {
            proof {
                lemma_group_view(Delim::Paren, *inner, *span);
                assert(tokens_view(inner@).subrange(0, inner@.len() as int) =~= tokens_view(
                    inner@,
                ));
            }
            let mut ctor = path;
            ctor.append("(");
            push_text(&mut ctor, inner, 0, inner.len());
            ctor.append(")");
            if end + 1 == hi {
                let mut ty = String::new();
                let n: usize = if segments.len() >= 2 {
                    segments.len() - 1
                } else {
                    segments.len()
                };
                push_path(&mut ty, &segments, n);
                assert(ty@ =~= called_type(strs(segments@)));
                Some(Func { by_ref, ctor, ty })
            } else {
                match read_arrow_type(tokens, end + 1, hi) {
                    Some(ty) => Some(Func { by_ref, ctor, ty }),
                    None => None,
                }
            }
        },
        _ => None,
    }
}

/// Reads the tokens from `lo` to `hi` as the part of a widget before its
/// block.
pub(crate) fn parse_func(tokens: &Vec<Token>, lo: usize, hi: usize) -> (r: Option<Func>)
    requires
        lo <= hi <= tokens.len(),
    ensures
        opt_func(r) == func_of(tokens_view(tokens@), lo as int, hi as int),
{
    let ghost view = tokens_view(tokens@);
    let by_ref = lo < hi && single(tokens, lo, '&');
    let start: usize = if by_ref {
        lo + 1
    } else {
        lo
    };
    if !(start < hi) {
        return None;
    }
    match parse_plain_func(tokens, start, hi, by_ref) {
        Some(func) => {
            return Some(func);
        },
        None => {},
    }
    let mut at: usize = start;
    while at < hi
        invariant
            lo <= start <= at <= hi <= tokens.len(),
            view == tokens_view(tokens@),
            by_ref == (lo < hi && is_single(view, lo as int, '&')),
            start == (if by_ref {
                lo + 1
            } else {
                lo as int
            }),
            plain_func(view, start as int, hi as int, by_ref) is None,
            arrow_at(view, start as int, hi as int) == arrow_at(view, at as int, hi as int),
        decreases hi - at,
    {
        match read_arrow_type(tokens, at, hi) {
            Some(ty) => {
                if at == start {
                    return None;
                }
                return Some(Func { by_ref, ctor: text_between(tokens, start, at), ty });
            },
            None => {},
        }
        at = at + 1;
    }
    None
}

/// The view of a list of names that may be missing.
pub open spec fn opt_names(r: Option<Vec<String>>) -> Option<Seq<Seq<char>>> {
    match r {
        Some(names) => Some(strs(names@)),
        None => None,
    }
}

/// Reads a list of captured variables.
pub(crate) fn read_captured(tokens: &Vec<Token>) -> (r: Option<Vec<String>>)
    ensures
        opt_names(r) == captured_names(tokens_view(tokens@), 0, Seq::empty()),
{
    let ghost view = tokens_view(tokens@);
    let mut names: Vec<String> = Vec::new();
    assert(strs(names@) =~= Seq::<Seq<char>>::empty());
    let mut at: usize = 0;
    while at < tokens.len()
        invariant
            view == tokens_view(tokens@),
            captured_names(view, 0, Seq::empty()) == captured_names(view, at as int, strs(names@)),
        decreases tokens.len() - at,
    {
        let ghost before = strs(names@);
        if !ident(&tokens[at]) {
            return None;
        }
        names.push(ident_name(&tokens[at]));
        assert(strs(names@) =~= before.push(ident_text(view[at as int])));
        if at + 1 == tokens.len() {
            return Some(names);
        }
        if !punct(&tokens[at + 1], ',') {
            return None;
        }
        at = at + 2;
    }
    Some(names)
}

/// What the block of a widget holds.
#[derive(Debug, PartialEq, Eq)]
pub struct Body {
    pub properties: Vec<Property>,
    pub events: Vec<Event>,
    pub track: Option<String>,
    pub children: Vec<WidgetNode>,
}

impl View for Body {
    type V = BodyModel;

    open spec fn view(&self) -> BodyModel {
        BodyModel {
            properties: properties_view(self.properties@),
            events: events_view(self.events@),
            track: opt_str(self.track),
            children: nodes_view(self.children@),
        }
    }
}

/// The view of a result that holds a block.
pub open spec fn body_result(r: Result<Body, Error>) -> Result<BodyModel, Error> {
    match r {
        Ok(body) => Ok(body@),
        Err(e) => Err(e),
    }
}

/// The view of a result that holds a widget.
pub open spec fn node_result(r: Result<WidgetNode, Error>) -> Result<NodeModel, Error> {
    match r {
        Ok(node) => Ok(node@),
        Err(e) => Err(e),
    }
}

/// Decides what becomes of an event connection once it is known whether
/// what follows its arrow is a closure.
pub fn add_event(tokens: &Vec<Token>, lo: usize, hi: usize, acc: Body, closure: bool) -> (r:
    Result<Body, Error>)
    ensures
        body_result(r) == with_event(tokens_view(tokens@), lo as int, hi as int, acc@, closure),
{
    let bad = Error::new(ErrorKind::EventSyntax, cover_span(tokens, lo, hi, Span { start: 0, end: 0 }));
    if !(lo <= hi && hi <= tokens.len() && hi - lo >= 5 && joint(&tokens[lo + 2], '=') && punct(
        &tokens[lo + 3],
        '>',
    ) && closure) {
        return Err(bad);
    }
    match &tokens[lo + 1] {
        Token::Group { delim: Delim::Paren, inner, span } => {
            proof {
                lemma_group_view(Delim::Paren, *inner, *span);
            }
            match read_captured(inner) {
                None => Err(bad),
                Some(names) => {
                    let mut acc = acc;
                    let ghost before = events_view(acc.events@);
                    let event = Event {
                        signal: ident_name(&tokens[lo]),
                        captured: names,
                        handler: text_between(tokens, lo + 4, hi),
                    };
                    acc.events.push(event);
                    assert(events_view(acc.events@) =~= before.push(event@));
                    Ok(acc)
                },
            }
        },
        _ => Err(bad),
    }
}

/// Computes [`item_place`].
pub(crate) fn item_span(tokens: &Vec<Token>, lo: usize, hi: usize) -> (r: Span)
    ensures
        r == item_place(tokens_view(tokens@), lo as int, hi as int),
{
    let comma = if hi < tokens.len() {
        tokens[hi].span()
    } else {
        Span { start: 0, end: 0 }
    };
    cover_span(tokens, lo, hi, comma)
}

/// Reads the guard of a widget.
pub(crate) fn add_track(tokens: &Vec<Token>, lo: usize, hi: usize, acc: Body) -> (r: Result<Body, Error>)
    requires
        lo + 2 <= hi <= tokens.len(),
    ensures
        body_result(r) == with_track(tokens_view(tokens@), lo as int, hi as int, acc@),
{
    let bad = Error::new(ErrorKind::WidgetSyntax, item_span(tokens, lo, hi));
    if !(hi - lo == 3 && word(&tokens[lo], "track") && acc.track.is_none()) {
        return Err(bad);
    }
    match &tokens[lo + 2] {
        Token::Group { delim, inner, span } => {
            proof {
                lemma_group_view(*delim, *inner, *span);
            }
            if inner.len() == 0 {
                return Err(bad);
            }
            let mut acc = acc;
            acc.track = Some(render_tokens(inner));
            Ok(acc)
        },
        _ => Err(bad),
    }
}

/// Reads a property.
pub(crate) fn add_property(tokens: &Vec<Token>, lo: usize, hi: usize, acc: Body) -> (r: Result<
    Body,
    Error,
>)
    requires
        lo + 2 <= hi <= tokens.len(),
    ensures
        body_result(r) == with_property(tokens_view(tokens@), lo as int, hi as int, acc@),
{
    let bad = Error::new(ErrorKind::WidgetSyntax, item_span(tokens, lo, hi));
    if hi - lo < 3 {
        return Err(bad);
    }
    let mut acc = acc;
    let ghost before = properties_view(acc.properties@);
    if hi - lo == 5 && word(&tokens[lo + 2], "watch") && alone(&tokens[lo + 3], '!') {
        match &tokens[lo + 4] {
            Token::Group { delim, inner, span } => {
                proof {
                    lemma_group_view(*delim, *inner, *span);
                }
                if inner.len() == 0 {
                    return Err(bad);
                }
                let property = Property {
                    setter: ident_name(&tokens[lo]),
                    value: render_tokens(inner),
                    watch: true,
                };
                acc.properties.push(property);
                assert(properties_view(acc.properties@) =~= before.push(property@));
                return Ok(acc);
            },
            _ => {},
        }
    }
    let property = Property {
        setter: ident_name(&tokens[lo]),
        value: text_between(tokens, lo + 2, hi),
        watch: false,
    };
    acc.properties.push(property);
    assert(properties_view(acc.properties@) =~= before.push(property@));
    Ok(acc)
}

/// Reads the tokens from `lo` to `hi` as one item of a block and adds it
/// to `acc`.
pub(crate) fn add_item(tokens: &Vec<Token>, lo: usize, hi: usize, acc: Body) -> (r: Result<Body, Error>)
    requires
        lo <= hi <= tokens.len(),
    ensures
        body_result(r) == with_item(tokens_view(tokens@), lo as int, hi as int, acc@),
    decreases tokens, 1nat,
{
    if hi - lo < 2 || !ident(&tokens[lo]) {
        return Err(Error::new(ErrorKind::WidgetSyntax, item_span(tokens, lo, hi)));
    }
    if alone(&tokens[lo + 1], '!') {
        add_track(tokens, lo, hi, acc)
    } else if single(tokens, lo + 1, ':') {
        add_property(tokens, lo, hi, acc)
    } else if single(tokens, lo + 1, '=') {
        let mut acc = acc;
        let ghost before = nodes_view(acc.children@);
        let method = ident_name(&tokens[lo]);
        match parse_widget(tokens, lo + 2, hi, Some(method), tokens[lo + 1].span()) {
            Err(e) => Err(e),
            Ok(node) => {
                acc.children.push(node);
                assert(nodes_view(acc.children@) =~= before.push(node@));
                Ok(acc)
            },
        }
    } else if group(&tokens[lo + 1], Delim::Paren) {
        let closure = if hi - lo >= 4 {
            is_closure(text_between(tokens, lo + 4, hi).as_str())
        } else {
            false
        };
        add_event(tokens, lo, hi, acc, closure)
    } else {
        Err(Error::new(ErrorKind::WidgetSyntax, item_span(tokens, lo, hi)))
    }
}

/// Reads the items of a block.
pub(crate) fn parse_body(tokens: &Vec<Token>) -> (r: Result<Body, Error>)
    ensures
        body_result(r) == body_of(tokens_view(tokens@), 0, empty_body()),
    decreases tokens, 2nat,
{
    let ghost view = tokens_view(tokens@);
    let mut acc = Body {
        properties: Vec::new(),
        events: Vec::new(),
        track: None,
        children: Vec::new(),
    };
    assert(acc@.properties =~= empty_body().properties);
    assert(acc@.events =~= empty_body().events);
    assert(acc@.children =~= empty_body().children);
    let mut from: usize = 0;
    while from < tokens.len()
        invariant
            view == tokens_view(tokens@),
            body_of(view, 0, empty_body()) == body_of(view, from as int, acc@),
        decreases tokens.len() - from,
    {
        let end = find_item_stop(tokens, from);
        match add_item(tokens, from, end, acc) {
            Err(e) => {
                return Err(e);
            },
            Ok(next) => {
                acc = next;
                if end < tokens.len() {
                    from = end + 1;
                } else {
                    return Ok(acc);
                }
            },
        }
    }
    Ok(acc)
}

/// Reads the tokens from `lo` to `hi` as a widget, added to its parent by
/// `attach` where that is given.
pub(crate) fn parse_widget(
    tokens: &Vec<Token>,
    lo: usize,
    hi: usize,
    attach: Option<String>,
    fallback: Span,
) -> (r: Result<WidgetNode, Error>)
    requires
        lo <= hi <= tokens.len(),
    ensures
        node_result(r) == widget_of(
            tokens_view(tokens@),
            lo as int,
            hi as int,
            opt_str(attach),
            fallback,
        ),
    decreases tokens, 0nat,
{
    let bad = Error::new(ErrorKind::WidgetSyntax, cover_span(tokens, lo, hi, fallback));
    let named = hi - lo >= 2 && ident(&tokens[lo]) && single(tokens, lo + 1, '=');
    let start: usize = if named {
        lo + 2
    } else {
        lo
    };
    if !(start < hi) {
        return Err(bad);
    }
    match &tokens[hi - 1] {
        Token::Group { delim: Delim::Brace, inner, span } => {
            proof {
                lemma_group_view(Delim::Brace, *inner, *span);
            }
            let wrapped = hi - 1 - start == 2 && word(&tokens[start], "Some") && group(
                &tokens[start + 1],
                Delim::Paren,
            );
            let func = if wrapped {
                match &tokens[start + 1] {
                    Token::Group { delim: d, inner: wrapped_inner, span: s } => {
                        proof {
                            lemma_group_view(*d, *wrapped_inner, *s);
                        }
                        parse_func(wrapped_inner, 0, wrapped_inner.len())
                    },
                    _ => None,
                }
            } else {
                parse_func(tokens, start, hi - 1)
            };
            match func {
                None => Err(bad),
                Some(f) => match parse_body(inner) {
                    Err(e) => Err(e),
                    Ok(body) => {
                        let node = WidgetNode {
                            name: if named {
                                Some(ident_name(&tokens[lo]))
                            } else {
                                None
                            },
                            ctor: f.ctor,
                            ty: f.ty,
                            attach: match attach {
                                Some(method) => Some(
                                    Attach {
                                        method,
                                        wrapper: if wrapped {
                                            Some(String::from_str("Some"))
                                        } else {
                                            None
                                        },
                                        by_ref: f.by_ref,
                                    },
                                ),
                                None => None,
                            },
                            properties: body.properties,
                            events: body.events,
                            track: body.track,
                            children: body.children,
                        };
                        proof {
                            lemma_children_view(&node);
                        }
                        Ok(node)
                    },
                },
            }
        },
        _ => Err(bad),
    }
}

/// Reads the tokens of a view as the root widget. An error is at the place
/// of what is wrong, and at `fallback` where nothing is written. In the
/// tree that is read, every widget but the root has a way to be added to
/// its parent.
pub fn parse_view(tokens: &Vec<Token>, fallback: Span) -> (r: Result<WidgetNode, Error>)
    ensures
        node_result(r) == widget_of(
            tokens_view(tokens@),
            0,
            tokens@.len() as int,
            None,
            fallback,
        ),
        r matches Ok(node) ==> node@.attach is None && attached_below(node@),
{
    proof {
        lemma_widget_attached(tokens_view(tokens@), 0, tokens@.len() as int, None, fallback);
    }
    parse_widget(tokens, 0, tokens.len(), None, fallback)
}

} // verus!
