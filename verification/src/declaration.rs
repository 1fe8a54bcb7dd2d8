//! From the tokens of the attributes and of the item to the declaration.

use vstd::prelude::*;
use crate::component::{Declaration, DeclarationModel, Header, HeaderModel};
use crate::emit::{fields_view, Field};
use crate::error::{Error, ErrorKind, Span};
use crate::item::{head_of, layout_of, parse_head};
use crate::members::{attrs_of, default_attrs, members_of, no_members, parse_attrs, parse_members};
use crate::parse::{attached_below, inner_of, parse_view, widget_error, widget_of};
use crate::token::{lemma_group_view, tokens_view, Token, TokenModel};
use crate::types::{resolve_model_types, resolved};

verus! {

/// The view of a result that holds a declaration.
pub open spec fn declaration_result(r: Result<Declaration, Error>) -> Result<
    DeclarationModel,
    Error,
> {
    match r {
        Ok(decl) => Ok(decl@),
        Err(e) => Err(e),
    }
}

/// Reads the attributes of the macro and the item it stands on. The
/// attributes are read first, then the head of the item, then the model
/// types, then the members of the block, then the widgets of the view;
/// the first error ends the reading. A block without a view is an error
/// at the place of the block.
pub open spec fn declaration_of(attrs: Seq<TokenModel>, item: Seq<TokenModel>) -> Result<
    DeclarationModel,
    Error,
> {
    match attrs_of(attrs, 0, default_attrs()) {
        Err(e) => Err(e),
        Ok(a) => match head_of(item, Span { start: 0, end: 0 }) {
            Err(e) => Err(e),
            Ok(head) => match resolved(head.generics, head.trait_span) {
                Err(e) => Err(e),
                Ok(types) => {
                    let block = item[item.len() - 1];
                    match members_of(inner_of(block), 0, no_members()) {
                        Err(e) => Err(e),
                        Ok(members) => match members.view {
                            None => Err(widget_error(block.span())),
                            Some(at) => {
                                let group = inner_of(block)[at];
                                match widget_of(
                                    inner_of(group),
                                    0,
                                    inner_of(group).len() as int,
                                    None,
                                    group.span(),
                                ) {
                                    Err(e) => Err(e),
                                    Ok(tree) => Ok(
                                        DeclarationModel {
                                            header: HeaderModel {
                                                visibility: a.visibility,
                                                relm4_path: a.relm4_path,
                                                outer_attrs: head.outer_attrs,
                                                impl_generics: head.impl_generics,
                                                trait_path: head.trait_path,
                                                self_ty: head.self_ty,
                                                where_clause: head.where_clause,
                                            },
                                            types,
                                            tree,
                                            additional_fields: match members.fields {
                                                Some(fields) => fields,
                                                None => Seq::empty(),
                                            },
                                            funcs: members.funcs,
                                        },
                                    ),
                                }
                            },
                        },
                    }
                },
            },
        },
    }
}

/// Reads the attributes of the macro and the item it stands on. In the
/// tree of the declaration every widget but the root has a way to be added
/// to its parent.
pub fn parse_declaration(attrs: &Vec<Token>, item: &Vec<Token>) -> (r: Result<Declaration, Error>)
    ensures
        declaration_result(r) == declaration_of(tokens_view(attrs@), tokens_view(item@)),
        r matches Ok(decl) ==> decl@.tree.attach is None && attached_below(decl@.tree),
{
    let a = match parse_attrs(attrs) {
        Err(e) => {
            return Err(e);
        },
        Ok(a) => a,
    };
    let head = match parse_head(item, Span { start: 0, end: 0 }) {
        Err(e) => {
            return Err(e);
        },
        Ok(head) => head,
    };
    assert(layout_of(tokens_view(item@)) is Some);
    let types = match resolve_model_types(&head.generics, head.trait_span) {
        Err(e) => {
            return Err(e);
        },
        Ok(types) => types,
    };
    assert(tokens_view(item@)[item.len() - 1] == item@[item.len() - 1]@);
    match &item[item.len() - 1] {
        Token::Group { delim, inner, span } => {
            proof {
                lemma_group_view(*delim, *inner, *span);
            }
            let members = match parse_members(inner) {
                Err(e) => {
                    return Err(e);
                },
                Ok(members) => members,
            };
            let at = match members.view {
                None => {
                    return Err(Error::new(ErrorKind::WidgetSyntax, *span));
                },
                Some(at) => at,
            };
            assert(tokens_view(inner@)[at as int] == inner@[at as int]@);
            match &inner[at] {
                Token::Group { delim: d, inner: view_tokens, span: s } => {
                    proof {
                        lemma_group_view(*d, *view_tokens, *s);
                    }
                    match parse_view(view_tokens, *s) {
                        Err(e) => Err(e),
                        Ok(tree) => {
                            let additional_fields: Vec<Field> = match members.fields {
                                Some(fields) => fields,
                                None => Vec::new(),
                            };
                            assert(members.fields is None ==> fields_view(additional_fields@)
                                =~= Seq::empty());
                            Ok(
                                Declaration {
                                    header: Header {
                                        visibility: a.visibility,
                                        relm4_path: a.relm4_path,
                                        outer_attrs: head.outer_attrs,
                                        impl_generics: head.impl_generics,
                                        trait_path: head.trait_path,
                                        self_ty: head.self_ty,
                                        where_clause: head.where_clause,
                                    },
                                    types,
                                    tree,
                                    additional_fields,
                                    funcs: members.funcs,
                                },
                            )
                        },
                    }
                },
                _ => Err(Error::new(ErrorKind::WidgetSyntax, inner[at].span())),
            }
        },
        _ => Err(Error::new(ErrorKind::WidgetSyntax, Span { start: 0, end: 0 })),
    }
}

} // verus!
