//! The grammar of what stands around the widgets, over token trees.
//!
//! ```text
//! attributes := [ attribute { `,` attribute } [ `,` ] ]
//! attribute  := `pub` ... | `visibility` `=` ... | `relm4` `=` path
//! item       := { `#` `[` ... `]` } `impl` [ `<` ... `>` ] trait `for` type
//!               [ `where` ... ] `{` { member } `}`
//! trait      := ... [ `<` argument { `,` argument } [ `,` ] `>` ]
//! member     := `view` `!` group [ `;` ]
//!             | `additional_fields` `!` group [ `;` ]
//!             | `fn` name `(` `)` `{` ... `}`
//! ```
//!
//! Angle brackets are matched by counting, to find where the parts of the
//! head begin and end; the `>` of an arrow `->` does not count. Whether a
//! part is what it should be, a path, a type, generic parameters, a
//! `where` clause or a generic argument, is asked of the parser of Rust.

use vstd::prelude::*;
use crate::error::{Error, ErrorKind, Span};
use crate::lex::{
    classify_generic_arg, generic_arg_kind, generics_syntax, is_generics, is_path, is_type,
    is_where_clause, path_syntax, type_syntax, where_syntax,
};
use crate::parse::{
    alone, cover, cover_span, group, is_alone, is_group, is_joint, is_punct, is_word, item_place,
    item_span, joint, punct, widget_error, word,
};
use crate::token::{text_between, text_of, tokens_view, Delim, Token, TokenModel};
use crate::types::{
    args_view, opt_args, ArgKind, GenericArg, GenericArgModel, GenericArgs, GenericArgsModel,
};

verus! {

/// What a scan over tokens stops at.
#[derive(Debug, PartialEq, Eq)]
pub enum Stop {
    /// A comma outside angle brackets.
    Comma,
    /// The identifier, outside angle brackets.
    Word(String),
    /// The `>` that closes the angle bracket that is open.
    Close,
}

/// The view of [`Stop`]: its texts as sequences of characters.
pub ghost enum StopModel {
    Comma,
    Word(Seq<char>),
    Close,
}

impl View for Stop {
    type V = StopModel;

    open spec fn view(&self) -> StopModel {
        match *self {
            Stop::Comma => StopModel::Comma,
            Stop::Word(w) => StopModel::Word(w@),
            Stop::Close => StopModel::Close,
        }
    }
}

/// The token at `at` is a `>` that closes an angle bracket: one that is
/// not the head of an arrow.
pub open spec fn closes(tokens: Seq<TokenModel>, at: int) -> bool {
    is_punct(tokens[at], '>') && !(at > 0 && is_joint(tokens[at - 1], '-'))
}

/// How many angle brackets are open behind the token at `at`, where
/// `depth` are open before it.
pub open spec fn step(tokens: Seq<TokenModel>, at: int, depth: nat) -> nat {
    if is_punct(tokens[at], '<') {
        depth + 1
    } else if closes(tokens, at) && depth > 0 {
        (depth - 1) as nat
    } else {
        depth
    }
}

/// The scan stops at the token at `at`, before which `depth` angle
/// brackets are open.
pub open spec fn hits(tokens: Seq<TokenModel>, at: int, depth: nat, stop: StopModel) -> bool {
    match stop {
        StopModel::Comma => depth == 0 && is_punct(tokens[at], ','),
        StopModel::Word(w) => depth == 0 && is_word(tokens[at], w),
        StopModel::Close => depth == 1 && closes(tokens, at),
    }
}

/// The first position from `from` on and before `hi` at which the scan
/// stops, where `depth` angle brackets are open at `from`; `hi` where it
/// stops nowhere.
pub open spec fn scan(tokens: Seq<TokenModel>, from: int, hi: int, depth: nat, stop: StopModel) -> int
    decreases hi - from,
{
    if !(0 <= from < hi <= tokens.len()) {
        hi
    } else if hits(tokens, from, depth, stop) {
        from
    } else {
        scan(tokens, from + 1, hi, step(tokens, from, depth), stop)
    }
}

/// The first position from `from` on and before `hi` that holds the
/// punctuation mark `c`; `hi` where none does.
pub open spec fn find(tokens: Seq<TokenModel>, from: int, hi: int, c: char) -> int
    decreases hi - from,
{
    if !(0 <= from < hi <= tokens.len()) {
        hi
    } else if is_punct(tokens[from], c) {
        from
    } else {
        find(tokens, from + 1, hi, c)
    }
}

/// The position behind the attributes that start at `at`: each is a `#`
/// and a group in square brackets.
pub open spec fn attrs_end(tokens: Seq<TokenModel>, at: int) -> int
    decreases tokens.len() - at,
{
    if 0 <= at && at + 2 <= tokens.len() && is_alone(tokens[at], '#') && is_group(
        tokens[at + 1],
        Delim::Bracket,
    ) {
        attrs_end(tokens, at + 2)
    } else {
        at
    }
}

/// The error for generic arguments that do not name the model types.
pub open spec fn generics_error(span: Span) -> Error {
    Error { kind: ErrorKind::GenericArgument, span }
}

/// Adds the argument with the text `text` at `span` to `acc`, where `kind`
/// says what the text is: an error at the argument where it is no generic
/// argument.
pub open spec fn with_arg(
    acc: Seq<GenericArgModel>,
    text: Seq<char>,
    span: Span,
    kind: Option<ArgKind>,
) -> Result<Seq<GenericArgModel>, Error> {
    match kind {
        Some(k) => Ok(acc.push(GenericArgModel { kind: k, text, span })),
        None => Err(generics_error(span)),
    }
}

/// Reads the generic arguments from `from` to `hi`, behind those in
/// `acc`. Arguments end at commas outside angle brackets; a comma may
/// follow the last.
pub open spec fn args_of(
    tokens: Seq<TokenModel>,
    from: int,
    hi: int,
    acc: Seq<GenericArgModel>,
) -> Result<Seq<GenericArgModel>, Error>
    decreases hi - from,
{
    if !(0 <= from < hi <= tokens.len()) {
        Ok(acc)
    } else {
        let end = scan(tokens, from, hi, 0, StopModel::Comma);
        let text = text_of(tokens.subrange(from, end));
        match with_arg(acc, text, item_place(tokens, from, end), generic_arg_kind(text)) {
            Err(e) => Err(e),
            Ok(next) => if from <= end < hi {
                args_of(tokens, end + 1, hi, next)
            } else {
                Ok(next)
            },
        }
    }
}

/// The generic arguments of the trait from `lo` to `hi`: those between
/// its first `<` and a `>` at its end; none where it has no such list.
pub open spec fn trait_generics(tokens: Seq<TokenModel>, lo: int, hi: int) -> Result<
    Option<GenericArgsModel>,
    Error,
> {
    let lt = find(tokens, lo, hi, '<');
    if 0 <= lo && lt + 1 < hi <= tokens.len() && closes(tokens, hi - 1) {
        match args_of(tokens, lt + 1, hi - 1, Seq::empty()) {
            Err(e) => Err(e),
            Ok(args) => Ok(
                Some(
                    GenericArgsModel { args, span: cover(tokens, lt, hi, Span { start: 0, end: 0 }) },
                ),
            ),
        }
    } else {
        Ok(None)
    }
}

/// What the item says before its block.
pub ghost struct HeadModel {
    pub outer_attrs: Seq<char>,
    pub impl_generics: Seq<char>,
    pub trait_path: Seq<char>,
    pub self_ty: Seq<char>,
    pub where_clause: Seq<char>,
    pub generics: Option<GenericArgsModel>,
    pub trait_span: Span,
}

/// Where the parts of an item are: `impl` at `start`, the trait from
/// `trait_lo` to `for` at `for_at`, the type up to `where_at`, and the
/// block at `body`.
pub ghost struct Layout {
    pub start: int,
    pub trait_lo: int,
    pub for_at: int,
    pub where_at: int,
    pub body: int,
}

/// The layout of an item; `None` where the tokens are no implementation
/// of a trait for a type with a block.
pub open spec fn layout_of(tokens: Seq<TokenModel>) -> Option<Layout> {
    let start = attrs_end(tokens, 0);
    let body = tokens.len() - 1;
    if !(0 <= start && start + 1 <= body && is_word(tokens[start], "impl"@) && is_group(
        tokens[body],
        Delim::Brace,
    )) {
        None
    } else {
        let trait_lo = if start + 1 < body && is_punct(tokens[start + 1], '<') {
            scan(tokens, start + 2, body, 1, StopModel::Close) + 1
        } else {
            start + 1
        };
        let for_at = scan(tokens, trait_lo, body, 0, StopModel::Word("for"@));
        let where_at = scan(tokens, for_at + 1, body, 0, StopModel::Word("where"@));
        if trait_lo < for_at < body && for_at + 1 < where_at {
            Some(Layout { start, trait_lo, for_at, where_at, body })
        } else {
            None
        }
    }
}

/// What the parser of Rust says of the parts of a head: the generic
/// parameters are generic parameters, the trait is a path, the type is a
/// type, and the `where` clause, where there is one, is a `where` clause.
pub open spec fn rust_parts(
    impl_generics: Seq<char>,
    trait_path: Seq<char>,
    self_ty: Seq<char>,
    where_clause: Seq<char>,
) -> bool {
    generics_syntax(impl_generics) && path_syntax(trait_path) && type_syntax(self_ty) && (
    where_clause.len() == 0 || where_syntax(where_clause))
}

/// What the parser of Rust says of the parts of the head of an item, as
/// its layout gives them; `false` for tokens without a layout.
pub open spec fn rust_head(tokens: Seq<TokenModel>) -> bool {
    match layout_of(tokens) {
        None => false,
        Some(at) => rust_parts(
            text_of(tokens.subrange(at.start + 1, at.trait_lo)),
            text_of(tokens.subrange(at.trait_lo, at.for_at)),
            text_of(tokens.subrange(at.for_at + 1, at.where_at)),
            text_of(tokens.subrange(at.where_at, at.body)),
        ),
    }
}

/// Reads what an item says before its block, where `rust` says whether
/// the parts of the head are what the grammar of Rust asks them to be.
/// The layout finds the parts and the generic arguments of the trait are
/// read one by one. Tokens that are no implementation of a trait for a
/// type, or whose parts are not what they should be, are an error at the
/// place of the item, and at `fallback` where nothing is written.
pub open spec fn head_with(tokens: Seq<TokenModel>, fallback: Span, rust: bool) -> Result<
    HeadModel,
    Error,
> {
    let bad = Err(widget_error(cover(tokens, 0, tokens.len() as int, fallback)));
    match layout_of(tokens) {
        None => bad,
        Some(at) => match trait_generics(tokens, at.trait_lo, at.for_at) {
            Err(e) => Err(e),
            Ok(generics) => if rust {
                Ok(
                    HeadModel {
                        outer_attrs: text_of(tokens.subrange(0, at.start)),
                        impl_generics: text_of(tokens.subrange(at.start + 1, at.trait_lo)),
                        trait_path: text_of(tokens.subrange(at.trait_lo, at.for_at)),
                        self_ty: text_of(tokens.subrange(at.for_at + 1, at.where_at)),
                        where_clause: text_of(tokens.subrange(at.where_at, at.body)),
                        generics,
                        trait_span: cover(tokens, at.trait_lo, at.for_at, fallback),
                    },
                )
            } else {
                bad
            },
        },
    }
}

/// Reads what an item says before its block.
pub open spec fn head_of(tokens: Seq<TokenModel>, fallback: Span) -> Result<HeadModel, Error> {
    head_with(tokens, fallback, rust_head(tokens))
}

/// Computes [`scan`].
pub(crate) fn scan_to(tokens: &Vec<Token>, from: usize, hi: usize, depth: usize, stop: &Stop) -> (at: usize)
    requires
        from <= hi <= tokens.len(),
        depth <= from,
    ensures
        at == scan(tokens_view(tokens@), from as int, hi as int, depth as nat, stop@),
        from <= at <= hi,
{
    let ghost view = tokens_view(tokens@);
    let mut at: usize = from;
    let mut open: usize = depth;
    while at < hi
        invariant
            from <= at <= hi <= tokens.len(),
            open <= at,
            view == tokens_view(tokens@),
            scan(view, from as int, hi as int, depth as nat, stop@) == scan(
                view,
                at as int,
                hi as int,
                open as nat,
                stop@,
            ),
        decreases hi - at,
    {
        let token = &tokens[at];
        let closing = punct(token, '>') && !(at > 0 && joint(&tokens[at - 1], '-'));
        let hit = match stop {
            Stop::Comma => open == 0 && punct(token, ','),
            Stop::Word(w) => open == 0 && word(token, w.as_str()),
            Stop::Close => open == 1 && closing,
        };
        if hit {
            return at;
        }
        if punct(token, '<') {
            open = open + 1;
        } else if closing && open > 0 {
            open = open - 1;
        }
        at = at + 1;
    }
    hi
}

/// Computes [`find`].
pub(crate) fn find_punct(tokens: &Vec<Token>, from: usize, hi: usize, c: char) -> (at: usize)
    requires
        from <= hi <= tokens.len(),
    ensures
        at == find(tokens_view(tokens@), from as int, hi as int, c),
        from <= at <= hi,
{
    let mut at: usize = from;
    while at < hi && !punct(&tokens[at], c)
        invariant
            from <= at <= hi <= tokens.len(),
            find(tokens_view(tokens@), from as int, hi as int, c) == find(
                tokens_view(tokens@),
                at as int,
                hi as int,
                c,
            ),
        decreases hi - at,
    {
        at = at + 1;
    }
    at
}

/// Computes [`attrs_end`] from the first token on.
pub(crate) fn skip_attrs(tokens: &Vec<Token>) -> (at: usize)
    ensures
        at == attrs_end(tokens_view(tokens@), 0),
        at <= tokens.len(),
{
    let mut at: usize = 0;
    while tokens.len() - at >= 2 && alone(&tokens[at], '#') && group(&tokens[at + 1], Delim::Bracket)
        invariant
            at <= tokens.len(),
            attrs_end(tokens_view(tokens@), 0) == attrs_end(tokens_view(tokens@), at as int),
        decreases tokens.len() - at,
    {
        at = at + 2;
    }
    at
}

/// The view of a result that holds generic arguments.
pub open spec fn args_result(r: Result<Vec<GenericArg>, Error>) -> Result<
    Seq<GenericArgModel>,
    Error,
> {
    match r {
        Ok(args) => Ok(args_view(args@)),
        Err(e) => Err(e),
    }
}

/// Decides what becomes of a generic argument once it is known what kind
/// of argument its text is.
pub fn add_arg(acc: Vec<GenericArg>, text: String, span: Span, kind: Option<ArgKind>) -> (r: Result<
    Vec<GenericArg>,
    Error,
>)
    ensures
        args_result(r) == with_arg(args_view(acc@), text@, span, kind),
{
    match kind {
        Some(k) => {
            let mut acc = acc;
            let ghost before = args_view(acc@);
            let arg = GenericArg { kind: k, text, span };
            acc.push(arg);
            assert(args_view(acc@) =~= before.push(arg@));
            Ok(acc)
        },
        None => Err(Error::new(ErrorKind::GenericArgument, span)),
    }
}

/// Reads the generic arguments from `from` to `hi`.
pub(crate) fn read_args(tokens: &Vec<Token>, from: usize, hi: usize) -> (r: Result<Vec<GenericArg>, Error>)
    requires
        from <= hi <= tokens.len(),
    ensures
        args_result(r) == args_of(tokens_view(tokens@), from as int, hi as int, Seq::empty()),
{
    let ghost view = tokens_view(tokens@);
    let mut acc: Vec<GenericArg> = Vec::new();
    assert(args_view(acc@) =~= Seq::<GenericArgModel>::empty());
    let mut at: usize = from;
    while at < hi
        invariant
            from <= at <= hi <= tokens.len(),
            view == tokens_view(tokens@),
            args_of(view, from as int, hi as int, Seq::empty()) == args_of(
                view,
                at as int,
                hi as int,
                args_view(acc@),
            ),
        decreases hi - at,
    {
        let end = scan_to(tokens, at, hi, 0, &Stop::Comma);
        let text = text_between(tokens, at, end);
        let kind = classify_generic_arg(text.as_str());
        match add_arg(acc, text, item_span(tokens, at, end), kind) {
            Err(e) => {
                return Err(e);
            },
            Ok(next) => {
                acc = next;
                if end < hi {
                    at = end + 1;
                } else {
                    return Ok(acc);
                }
            },
        }
    }
    Ok(acc)
}

/// The view of a result that holds generic arguments that may be missing.
pub open spec fn generics_result(r: Result<Option<GenericArgs>, Error>) -> Result<
    Option<GenericArgsModel>,
    Error,
> {
    match r {
        Ok(generics) => Ok(opt_args(generics)),
        Err(e) => Err(e),
    }
}

/// Reads the generic arguments of the trait from `lo` to `hi`.
pub(crate) fn read_trait_generics(tokens: &Vec<Token>, lo: usize, hi: usize) -> (r: Result<
    Option<GenericArgs>,
    Error,
>)
    requires
        lo <= hi <= tokens.len(),
    ensures
        generics_result(r) == trait_generics(tokens_view(tokens@), lo as int, hi as int),
{
    let lt = find_punct(tokens, lo, hi, '<');
    if hi - lt >= 2 && punct(&tokens[hi - 1], '>') && !(hi - 1 > 0 && joint(&tokens[hi - 2], '-')) {
        match read_args(tokens, lt + 1, hi - 1) {
            Err(e) => Err(e),
            Ok(args) => Ok(
                Some(GenericArgs { args, span: cover_span(tokens, lt, hi, Span { start: 0, end: 0 }) }),
            ),
        }
    } else {
        Ok(None)
    }
}

/// What the item says before its block.
#[derive(Debug, PartialEq, Eq)]
pub struct Head {
    pub outer_attrs: String,
    pub impl_generics: String,
    pub trait_path: String,
    pub self_ty: String,
    pub where_clause: String,
    pub generics: Option<GenericArgs>,
    pub trait_span: Span,
}

impl View for Head {
    type V = HeadModel;

    open spec fn view(&self) -> HeadModel {
        HeadModel {
            outer_attrs: self.outer_attrs@,
            impl_generics: self.impl_generics@,
            trait_path: self.trait_path@,
            self_ty: self.self_ty@,
            where_clause: self.where_clause@,
            generics: opt_args(self.generics),
            trait_span: self.trait_span,
        }
    }
}

/// The view of a result that holds a head.
pub open spec fn head_result(r: Result<Head, Error>) -> Result<HeadModel, Error> {
    match r {
        Ok(head) => Ok(head@),
        Err(e) => Err(e),
    }
}

/// Where the parts of an item are.
#[derive(Clone, Copy, Debug, PartialEq, Eq)]
pub struct Places {
    pub start: usize,
    pub trait_lo: usize,
    pub for_at: usize,
    pub where_at: usize,
    pub body: usize,
}

impl View for Places {
    type V = Layout;

    open spec fn view(&self) -> Layout {
        Layout {
            start: self.start as int,
            trait_lo: self.trait_lo as int,
            for_at: self.for_at as int,
            where_at: self.where_at as int,
            body: self.body as int,
        }
    }
}

/// The view of places that may be missing.
pub open spec fn opt_places(p: Option<Places>) -> Option<Layout> {
    match p {
        Some(places) => Some(places@),
        None => None,
    }
}

/// Finds the parts of an item.
pub(crate) fn find_layout(tokens: &Vec<Token>) -> (r: Option<Places>)
    ensures
        opt_places(r) == layout_of(tokens_view(tokens@)),
        r matches Some(p) ==> p.start < p.trait_lo < p.for_at < p.where_at <= p.body
            == tokens.len() - 1,
{
    let start = skip_attrs(tokens);
    if tokens.len() < 2 || start > tokens.len() - 2 {
        return None;
    }
    let body: usize = tokens.len() - 1;
    if !(word(&tokens[start], "impl") && group(&tokens[body], Delim::Brace)) {
        return None;
    }
    let trait_lo: usize = if start + 1 < body && punct(&tokens[start + 1], '<') {
        scan_to(tokens, start + 2, body, 1, &Stop::Close) + 1
    } else {
        start + 1
    };
    if trait_lo > body {
        assert(scan(tokens_view(tokens@), trait_lo as int, body as int, 0, StopModel::Word("for"@))
            == body);
        return None;
    }
    let for_at = scan_to(tokens, trait_lo, body, 0, &Stop::Word(String::from_str("for")));
    if !(trait_lo < for_at && for_at < body) {
        return None;
    }
    let where_at = scan_to(tokens, for_at + 1, body, 0, &Stop::Word(String::from_str("where")));
    if for_at + 1 < where_at {
        Some(Places { start, trait_lo, for_at, where_at, body })
    } else {
        None
    }
}

/// Decides what the head of an item is once it is known whether its
/// parts are what the grammar of Rust asks them to be.
pub fn head_from(tokens: &Vec<Token>, fallback: Span, rust: bool) -> (r: Result<Head, Error>)
    ensures
        head_result(r) == head_with(tokens_view(tokens@), fallback, rust),
{
    let bad = Error::new(ErrorKind::WidgetSyntax, cover_span(tokens, 0, tokens.len(), fallback));
    match find_layout(tokens) {
        None => Err(bad),
        Some(at) => match read_trait_generics(tokens, at.trait_lo, at.for_at) {
            Err(e) => Err(e),
            Ok(generics) => if rust {
                Ok(
                    Head {
                        outer_attrs: text_between(tokens, 0, at.start),
                        impl_generics: text_between(tokens, at.start + 1, at.trait_lo),
                        trait_path: text_between(tokens, at.trait_lo, at.for_at),
                        self_ty: text_between(tokens, at.for_at + 1, at.where_at),
                        where_clause: text_between(tokens, at.where_at, at.body),
                        generics,
                        trait_span: cover_span(tokens, at.trait_lo, at.for_at, fallback),
                    },
                )
            } else {
                Err(bad)
            },
        },
    }
}

/// Asks the parser of Rust about the parts of the head of an item.
pub(crate) fn check_rust_head(tokens: &Vec<Token>) -> (rust: bool)
    ensures
        rust == rust_head(tokens_view(tokens@)),
{
    match find_layout(tokens) {
        None => false,
        Some(at) => {
            let where_clause = text_between(tokens, at.where_at, at.body);
            is_generics(text_between(tokens, at.start + 1, at.trait_lo).as_str()) && is_path(
                text_between(tokens, at.trait_lo, at.for_at).as_str(),
            ) && is_type(text_between(tokens, at.for_at + 1, at.where_at).as_str()) && (
            where_clause.as_str().is_empty() || is_where_clause(where_clause.as_str()))
        },
    }
}

/// Reads what an item says before its block.
pub fn parse_head(tokens: &Vec<Token>, fallback: Span) -> (r: Result<Head, Error>)
    ensures
        head_result(r) == head_of(tokens_view(tokens@), fallback),
{
    let rust = check_rust_head(tokens);
    head_from(tokens, fallback, rust)
}

} // verus!
