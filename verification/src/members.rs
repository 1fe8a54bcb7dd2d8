//! The attributes of the macro and the members of the implementation
//! block: the view, the additional fields and the user's blocks.

use vstd::prelude::*;
use crate::component::{Funcs, FuncsModel};
use crate::emit::{fields_view, Field, FieldModel};
use crate::error::{Error, ErrorKind, Span};
use crate::item::{scan, scan_to, Stop, StopModel};
use crate::lex::{is_type, type_syntax};
use crate::parse::{
    alone, cover, cover_span, find_item_end, group, ident, ident_name, ident_text, inner_of,
    is_alone, is_group, is_punct, is_single, is_word, item_end, item_place, item_span, punct,
    same_text, single, widget_error, word,
};
use crate::token::{
    lemma_group_view, render_tokens, text_between, text_of, tokens_view, Delim, Token, TokenModel,
};

verus! {

/// What the attributes of the macro say.
#[derive(Debug, PartialEq, Eq)]
pub struct Attrs {
    /// The visibility of the struct; empty for private.
    pub visibility: String,
    /// The path under which the toolkit's crate is reached.
    pub relm4_path: String,
}

/// The view of [`Attrs`]: its texts as sequences of characters.
pub ghost struct AttrsModel {
    pub visibility: Seq<char>,
    pub relm4_path: Seq<char>,
}

impl View for Attrs {
    type V = AttrsModel;

    open spec fn view(&self) -> AttrsModel {
        AttrsModel { visibility: self.visibility@, relm4_path: self.relm4_path@ }
    }
}

/// The view of a result that holds attributes.
pub open spec fn attrs_result(r: Result<Attrs, Error>) -> Result<AttrsModel, Error> {
    match r {
        Ok(attrs) => Ok(attrs@),
        Err(e) => Err(e),
    }
}

/// What holds without attributes: a private struct, and the toolkit's
/// crate under its own name.
pub open spec fn default_attrs() -> AttrsModel {
    AttrsModel { visibility: Seq::empty(), relm4_path: "::relm4"@ }
}

/// Reads the tokens from `lo` to `hi` as one attribute and changes `acc`
/// by it: a visibility that starts with `pub`, `visibility = ..` or
/// `relm4 = ..`. Anything else is an error at its place.
pub open spec fn with_attr(tokens: Seq<TokenModel>, lo: int, hi: int, acc: AttrsModel) -> Result<
    AttrsModel,
    Error,
> {
    if !(0 <= lo < hi <= tokens.len()) {
        Err(widget_error(item_place(tokens, lo, hi)))
    } else if is_word(tokens[lo], "pub"@) {
        Ok(AttrsModel { visibility: text_of(tokens.subrange(lo, hi)), ..acc })
    } else if lo + 3 <= hi && is_single(tokens, lo + 1, '=') && is_word(tokens[lo], "visibility"@) {
        Ok(AttrsModel { visibility: text_of(tokens.subrange(lo + 2, hi)), ..acc })
    } else if lo + 3 <= hi && is_single(tokens, lo + 1, '=') && is_word(tokens[lo], "relm4"@) {
        Ok(AttrsModel { relm4_path: text_of(tokens.subrange(lo + 2, hi)), ..acc })
    } else {
        Err(widget_error(item_place(tokens, lo, hi)))
    }
}

/// Reads the attributes from the position `from` on, behind what `acc`
/// holds of those before. Attributes end at commas; a later attribute
/// replaces an earlier one.
pub open spec fn attrs_of(tokens: Seq<TokenModel>, from: int, acc: AttrsModel) -> Result<
    AttrsModel,
    Error,
>
    decreases tokens.len() - from,
{
    if from < 0 || from >= tokens.len() {
        Ok(acc)
    } else {
        let end = item_end(tokens, from);
        match with_attr(tokens, from, end, acc) {
            Err(e) => Err(e),
            Ok(next) => if from <= end < tokens.len() {
                attrs_of(tokens, end + 1, next)
            } else {
                Ok(next)
            },
        }
    }
}

/// Reads one attribute.
pub(crate) fn add_attr(tokens: &Vec<Token>, lo: usize, hi: usize, acc: Attrs) -> (r: Result<Attrs, Error>)
    requires
        lo <= hi <= tokens.len(),
    ensures
        attrs_result(r) == with_attr(tokens_view(tokens@), lo as int, hi as int, acc@),
{
    let mut acc = acc;
    if !(lo < hi) {
        Err(Error::new(ErrorKind::WidgetSyntax, item_span(tokens, lo, hi)))
    } else if word(&tokens[lo], "pub") {
        acc.visibility = text_between(tokens, lo, hi);
        Ok(acc)
    } else if hi - lo >= 3 && single(tokens, lo + 1, '=') && word(&tokens[lo], "visibility") {
        acc.visibility = text_between(tokens, lo + 2, hi);
        Ok(acc)
    } else if hi - lo >= 3 && single(tokens, lo + 1, '=') && word(&tokens[lo], "relm4") {
        acc.relm4_path = text_between(tokens, lo + 2, hi);
        Ok(acc)
    } else {
        Err(Error::new(ErrorKind::WidgetSyntax, item_span(tokens, lo, hi)))
    }
}

/// Reads the attributes of the macro.
pub fn parse_attrs(tokens: &Vec<Token>) -> (r: Result<Attrs, Error>)
    ensures
        attrs_result(r) == attrs_of(tokens_view(tokens@), 0, default_attrs()),
{
    let ghost view = tokens_view(tokens@);
    let mut acc = Attrs { visibility: String::new(), relm4_path: String::from_str("::relm4") };
    let mut from: usize = 0;
    while from < tokens.len()
        invariant
            view == tokens_view(tokens@),
            attrs_of(view, 0, default_attrs()) == attrs_of(view, from as int, acc@),
        decreases tokens.len() - from,
    {
        let end = find_item_end(tokens, from);
        match add_attr(tokens, from, end, acc) {
            Err(e) => {
                return Err(e);
            },
            Ok(next) => {
                acc = next;
                if end < tokens.len() {
                    from = end + 1;
                } else {
                    return Ok(acc);
                }
            },
        }
    }
    Ok(acc)
}

/// The view of a result that holds fields.
pub open spec fn fields_result(r: Result<Vec<Field>, Error>) -> Result<Seq<FieldModel>, Error> {
    match r {
        Ok(fields) => Ok(fields_view(fields@)),
        Err(e) => Err(e),
    }
}

/// The first position from `from` on and before `hi` that holds a colon
/// by itself; `hi` where none does.
pub open spec fn colon_at(tokens: Seq<TokenModel>, from: int, hi: int) -> int
    decreases hi - from,
{
    if !(0 <= from < hi <= tokens.len()) {
        hi
    } else if is_single(tokens, from, ':') {
        from
    } else {
        colon_at(tokens, from + 1, hi)
    }
}

/// What stands behind the first colon of the tokens from `lo` to `hi`, as
/// text: the type of a field.
pub open spec fn field_type(tokens: Seq<TokenModel>, lo: int, hi: int) -> Seq<char> {
    text_of(tokens.subrange(colon_at(tokens, lo, hi) + 1, hi))
}

/// Reads the tokens from `lo` to `hi` as one additional field, where
/// `typed` says whether what stands behind the colon is a type: what the
/// user writes before the name, which may be attributes and a visibility,
/// then the name, a colon and the type. `None` for anything else.
pub open spec fn field_with(tokens: Seq<TokenModel>, lo: int, hi: int, typed: bool) -> Option<
    FieldModel,
> {
    let colon = colon_at(tokens, lo, hi);
    if typed && 0 <= lo < colon && colon + 1 < hi <= tokens.len() && tokens[colon - 1] is Ident {
        Some(
            FieldModel {
                name: ident_text(tokens[colon - 1]),
                ty: text_of(tokens.subrange(colon + 1, hi)),
                written: Some(text_of(tokens.subrange(lo, colon - 1))),
            },
        )
    } else {
        None
    }
}

/// Reads the tokens from `lo` to `hi` as one additional field.
pub open spec fn field_of(tokens: Seq<TokenModel>, lo: int, hi: int) -> Option<FieldModel> {
    field_with(tokens, lo, hi, type_syntax(field_type(tokens, lo, hi)))
}

/// Reads the additional fields from the position `from` on, behind those
/// in `acc`. They end at commas outside angle brackets; a comma may follow
/// the last. What is no field is an error at its place.
pub open spec fn fields_of(tokens: Seq<TokenModel>, from: int, acc: Seq<FieldModel>) -> Result<
    Seq<FieldModel>,
    Error,
>
    decreases tokens.len() - from,
{
    if from < 0 || from >= tokens.len() {
        Ok(acc)
    } else {
        let end = scan(tokens, from, tokens.len() as int, 0, StopModel::Comma);
        match field_of(tokens, from, end) {
            Some(field) => if from <= end < tokens.len() {
                fields_of(tokens, end + 1, acc.push(field))
            } else {
                Ok(acc.push(field))
            },
            None => Err(widget_error(item_place(tokens, from, end))),
        }
    }
}

/// The view of a field that may be missing.
pub open spec fn opt_field(f: Option<Field>) -> Option<FieldModel> {
    match f {
        Some(field) => Some(field@),
        None => None,
    }
}

/// Computes [`colon_at`].
pub(crate) fn find_colon(tokens: &Vec<Token>, lo: usize, hi: usize) -> (colon: usize)
    requires
        lo <= hi <= tokens.len(),
    ensures
        colon == colon_at(tokens_view(tokens@), lo as int, hi as int),
        lo <= colon <= hi,
{
    let mut colon: usize = lo;
    while colon < hi && !single(tokens, colon, ':')
        invariant
            lo <= colon <= hi <= tokens.len(),
            colon_at(tokens_view(tokens@), lo as int, hi as int) == colon_at(
                tokens_view(tokens@),
                colon as int,
                hi as int,
            ),
        decreases hi - colon,
    {
        colon = colon + 1;
    }
    colon
}

/// Decides what an additional field is once it is known whether what
/// stands behind its colon is a type.
pub fn field_from(tokens: &Vec<Token>, lo: usize, hi: usize, typed: bool) -> (r: Option<Field>)
    ensures
        opt_field(r) == field_with(tokens_view(tokens@), lo as int, hi as int, typed),
{
    if !(lo <= hi && hi <= tokens.len()) {
        return None;
    }
    let colon = find_colon(tokens, lo, hi);
    if typed && lo < colon && hi - colon >= 2 && ident(&tokens[colon - 1]) {
        Some(
            Field {
                name: ident_name(&tokens[colon - 1]),
                ty: text_between(tokens, colon + 1, hi),
                written: Some(text_between(tokens, lo, colon - 1)),
            },
        )
    } else {
        None
    }
}

/// Reads one additional field.
pub(crate) fn parse_field(tokens: &Vec<Token>, lo: usize, hi: usize) -> (r: Option<Field>)
    requires
        lo <= hi <= tokens.len(),
    ensures
        opt_field(r) == field_of(tokens_view(tokens@), lo as int, hi as int),
{
    let colon = find_colon(tokens, lo, hi);
    let typed = if colon < hi {
        is_type(text_between(tokens, colon + 1, hi).as_str())
    } else {
        false
    };
    field_from(tokens, lo, hi, typed)
}

/// Reads the additional fields.
pub fn parse_fields(tokens: &Vec<Token>) -> (r: Result<Vec<Field>, Error>)
    ensures
        fields_result(r) == fields_of(tokens_view(tokens@), 0, Seq::empty()),
{
    let ghost view = tokens_view(tokens@);
    let mut acc: Vec<Field> = Vec::new();
    assert(fields_view(acc@) =~= Seq::<FieldModel>::empty());
    let mut from: usize = 0;
    while from < tokens.len()
        invariant
            view == tokens_view(tokens@),
            fields_of(view, 0, Seq::empty()) == fields_of(view, from as int, fields_view(acc@)),
        decreases tokens.len() - from,
    {
        let end = scan_to(tokens, from, tokens.len(), 0, &Stop::Comma);
        match parse_field(tokens, from, end) {
            Some(field) => {
                let ghost before = fields_view(acc@);
                acc.push(field);
                assert(fields_view(acc@) =~= before.push(field@));
                if end < tokens.len() {
                    from = end + 1;
                } else {
                    return Ok(acc);
                }
            },
            None => {
                return Err(Error::new(ErrorKind::WidgetSyntax, item_span(tokens, from, end)));
            },
        }
    }
    Ok(acc)
}

/// No block of the user.
pub open spec fn no_funcs() -> FuncsModel {
    FuncsModel {
        pre_init: None,
        post_init: None,
        pre_connect_components: None,
        post_connect_components: None,
        manual_view: None,
    }
}

/// The user's blocks with the block `body` under the name `name`: `None`
/// where the name is none of the five or is taken.
pub open spec fn with_func(funcs: FuncsModel, name: Seq<char>, body: Seq<char>) -> Option<
    FuncsModel,
> {
    if name == "pre_init"@ && funcs.pre_init is None {
        Some(FuncsModel { pre_init: Some(body), ..funcs })
    } else if name == "post_init"@ && funcs.post_init is None {
        Some(FuncsModel { post_init: Some(body), ..funcs })
    } else if name == "pre_connect_components"@ && funcs.pre_connect_components is None {
        Some(FuncsModel { pre_connect_components: Some(body), ..funcs })
    } else if name == "post_connect_components"@ && funcs.post_connect_components is None {
        Some(FuncsModel { post_connect_components: Some(body), ..funcs })
    } else if name == "manual_view"@ && funcs.manual_view is None {
        Some(FuncsModel { manual_view: Some(body), ..funcs })
    } else {
        None
    }
}

/// The view of blocks that may be missing.
pub open spec fn opt_funcs(r: Option<Funcs>) -> Option<FuncsModel> {
    match r {
        Some(funcs) => Some(funcs@),
        None => None,
    }
}

/// Puts a block of the user under its name.
pub(crate) fn add_func(funcs: Funcs, name: &String, body: String) -> (r: Option<Funcs>)
    ensures
        opt_funcs(r) == with_func(funcs@, name@, body@),
{
    let mut funcs = funcs;
    if same_text(name, "pre_init") && funcs.pre_init.is_none() {
        funcs.pre_init = Some(body);
        Some(funcs)
    } else if same_text(name, "post_init") && funcs.post_init.is_none() {
        funcs.post_init = Some(body);
        Some(funcs)
    } else if same_text(name, "pre_connect_components") && funcs.pre_connect_components.is_none() {
        funcs.pre_connect_components = Some(body);
        Some(funcs)
    } else if same_text(name, "post_connect_components")
        && funcs.post_connect_components.is_none() {
        funcs.post_connect_components = Some(body);
        Some(funcs)
    } else if same_text(name, "manual_view") && funcs.manual_view.is_none() {
        funcs.manual_view = Some(body);
        Some(funcs)
    } else {
        None
    }
}

/// What the block of the implementation holds: the position of the group
/// of the view, the additional fields and the user's blocks.
#[derive(Debug, PartialEq, Eq)]
pub struct Members {
    pub view: Option<usize>,
    pub fields: Option<Vec<Field>>,
    pub funcs: Funcs,
}

/// The view of [`Members`]: its texts as sequences of characters.
pub ghost struct MembersModel {
    pub view: Option<int>,
    pub fields: Option<Seq<FieldModel>>,
    pub funcs: FuncsModel,
}

impl View for Members {
    type V = MembersModel;

    open spec fn view(&self) -> MembersModel {
        MembersModel {
            view: match self.view {
                Some(at) => Some(at as int),
                None => None,
            },
            fields: match self.fields {
                Some(fields) => Some(fields_view(fields@)),
                None => None,
            },
            funcs: self.funcs@,
        }
    }
}

/// The view of a result that holds members.
pub open spec fn members_result(r: Result<Members, Error>) -> Result<MembersModel, Error> {
    match r {
        Ok(members) => Ok(members@),
        Err(e) => Err(e),
    }
}

/// The block that holds nothing.
pub open spec fn no_members() -> MembersModel {
    MembersModel { view: None, fields: None, funcs: no_funcs() }
}

/// The member at `from` is a macro call: a name, `!` and a group.
pub open spec fn is_macro(tokens: Seq<TokenModel>, from: int) -> bool {
    0 <= from && from + 3 <= tokens.len() && tokens[from] is Ident && is_alone(
        tokens[from + 1],
        '!',
    ) && tokens[from + 2] is Group
}

/// The member at `from` is a function without parameters: `fn`, a name,
/// empty parentheses and a block.
pub open spec fn is_func(tokens: Seq<TokenModel>, from: int) -> bool {
    0 <= from && from + 4 <= tokens.len() && is_word(tokens[from], "fn"@) && tokens[from
        + 1] is Ident && is_group(tokens[from + 2], Delim::Paren) && inner_of(
        tokens[from + 2],
    ).len() == 0 && is_group(tokens[from + 3], Delim::Brace)
}

/// Reads the macro call at `from` into `acc`: the one view or the one
/// list of additional fields.
pub open spec fn with_macro(tokens: Seq<TokenModel>, from: int, acc: MembersModel) -> Result<
    MembersModel,
    Error,
> {
    if is_word(tokens[from], "view"@) && acc.view is None {
        Ok(MembersModel { view: Some(from + 2), ..acc })
    } else if is_word(tokens[from], "additional_fields"@) && acc.fields is None {
        match fields_of(inner_of(tokens[from + 2]), 0, Seq::empty()) {
            Err(e) => Err(e),
            Ok(fields) => Ok(MembersModel { fields: Some(fields), ..acc }),
        }
    } else {
        Err(widget_error(cover(tokens, from, from + 3, Span { start: 0, end: 0 })))
    }
}

/// Reads the members of the block from the position `from` on, behind
/// what `acc` holds of those before. Semicolons between members are
/// passed over; a member that is none, or that comes a second time, is an
/// error at its place.
pub open spec fn members_of(tokens: Seq<TokenModel>, from: int, acc: MembersModel) -> Result<
    MembersModel,
    Error,
>
    decreases tokens.len() - from,
{
    if from < 0 || from >= tokens.len() {
        Ok(acc)
    } else if is_punct(tokens[from], ';') {
        members_of(tokens, from + 1, acc)
    } else if is_macro(tokens, from) {
        match with_macro(tokens, from, acc) {
            Err(e) => Err(e),
            Ok(next) => members_of(tokens, from + 3, next),
        }
    } else if is_func(tokens, from) {
        match with_func(
            acc.funcs,
            ident_text(tokens[from + 1]),
            text_of(inner_of(tokens[from + 3])),
        ) {
            None => Err(widget_error(cover(tokens, from, from + 4, Span { start: 0, end: 0 }))),
            Some(funcs) => members_of(tokens, from + 4, MembersModel { funcs, ..acc }),
        }
    } else {
        Err(widget_error(tokens[from].span()))
    }
}

/// Reads the macro call at `from`.
pub(crate) fn add_macro(tokens: &Vec<Token>, from: usize, acc: Members) -> (r: Result<Members, Error>)
    requires
        from + 3 <= tokens.len(),
        is_macro(tokens_view(tokens@), from as int),
    ensures
        members_result(r) == with_macro(tokens_view(tokens@), from as int, acc@),
{
    let mut acc = acc;
    if word(&tokens[from], "view") && acc.view.is_none() {
        acc.view = Some(from + 2);
        Ok(acc)
    } else if word(&tokens[from], "additional_fields") && acc.fields.is_none() {
        match &tokens[from + 2] {
            Token::Group { delim, inner, span } => {
                proof {
                    lemma_group_view(*delim, *inner, *span);
                }
                match parse_fields(inner) {
                    Err(e) => Err(e),
                    Ok(fields) => {
                        acc.fields = Some(fields);
                        Ok(acc)
                    },
                }
            },
            _ => Err(
                Error::new(
                    ErrorKind::WidgetSyntax,
                    cover_span(tokens, from, from + 3, Span { start: 0, end: 0 }),
                ),
            ),
        }
    } else {
        Err(
            Error::new(
                ErrorKind::WidgetSyntax,
                cover_span(tokens, from, from + 3, Span { start: 0, end: 0 }),
            ),
        )
    }
}

/// Whether the member at `from` is a function without parameters, and if
/// so its block as text.
pub(crate) fn func_body(tokens: &Vec<Token>, from: usize) -> (r: Option<String>)
    requires
        from < tokens.len(),
    ensures
        (r is Some) <==> is_func(tokens_view(tokens@), from as int),
        r matches Some(body) ==> body@ == text_of(inner_of(tokens_view(tokens@)[from + 3])),
{
    if !(tokens.len() - from >= 4 && word(&tokens[from], "fn") && ident(&tokens[from + 1])) {
        return None;
    }
    match &tokens[from + 2] {
        Token::Group { delim: Delim::Paren, inner, span } => {
            proof {
                lemma_group_view(Delim::Paren, *inner, *span);
            }
            if inner.len() != 0 {
                return None;
            }
        },
        _ => {
            return None;
        },
    }
    match &tokens[from + 3] {
        Token::Group { delim: Delim::Brace, inner, span } => {
            proof {
                lemma_group_view(Delim::Brace, *inner, *span);
            }
            Some(render_tokens(inner))
        },
        _ => None,
    }
}

/// Reads the members of the block of the implementation.
pub fn parse_members(tokens: &Vec<Token>) -> (r: Result<Members, Error>)
    ensures
        members_result(r) == members_of(tokens_view(tokens@), 0, no_members()),
        r matches Ok(m) ==> (m.view matches Some(at) ==> at < tokens.len()),
{
    let ghost view = tokens_view(tokens@);
    let mut acc = Members {
        view: None,
        fields: None,
        funcs: Funcs {
            pre_init: None,
            post_init: None,
            pre_connect_components: None,
            post_connect_components: None,
            manual_view: None,
        },
    };
    let mut from: usize = 0;
    while from < tokens.len()
        invariant
            view == tokens_view(tokens@),
            members_of(view, 0, no_members()) == members_of(view, from as int, acc@),
            acc.view matches Some(at) ==> at < tokens.len(),
        decreases tokens.len() - from,
    {
        if punct(&tokens[from], ';') {
            from = from + 1;
        } else if tokens.len() - from >= 3 && ident(&tokens[from]) && alone(&tokens[from + 1], '!')
            && is_any_group(&tokens[from + 2]) {
            match add_macro(tokens, from, acc) {
                Err(e) => {
                    return Err(e);
                },
                Ok(next) => {
                    acc = next;
                    from = from + 3;
                },
            }
        } else {
            match func_body(tokens, from) {
                Some(body) => {
                    let name = ident_name(&tokens[from + 1]);
                    let Members { view: seen, fields, funcs } = acc;
                    match add_func(funcs, &name, body) {
                        None => {
                            return Err(
                                Error::new(
                                    ErrorKind::WidgetSyntax,
                                    cover_span(tokens, from, from + 4, Span { start: 0, end: 0 }),
                                ),
                            );
                        },
                        Some(next) => {
                            acc = Members { view: seen, fields, funcs: next };
                            from = from + 4;
                        },
                    }
                },
                None => {
                    return Err(Error::new(ErrorKind::WidgetSyntax, tokens[from].span()));
                },
            }
        }
    }
    Ok(acc)
}

/// Whether the token is a group.
pub(crate) fn is_any_group(token: &Token) -> (r: bool)
    ensures
        r == (token@ is Group),
{
    match token {
        Token::Group { .. } => true,
        _ => false,
    }
}

} // verus!
