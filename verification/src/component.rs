//! From a declaration to the component: the struct, the routine that
//! builds the widgets, and the routine that updates them.

use vstd::prelude::*;
use crate::emit::{
    assignments, connections, constructions, field_list, fields_view, init_stmts, stmts_view,
    struct_fields, update_list, updates, updates_view, Field, FieldModel, Stmt, StmtModel, Update,
    UpdateModel,
};
use crate::flatten::{anon_count, flat, flatten, named, widgets_view};
use crate::names::NameGen;
use crate::order::{
    constructed_once, defined_before_use, lemma_constructed_once, lemma_construction_precedes_use,
};
use crate::unique::{distinct_names, given_once, given_without_underscore};
use crate::tree::{opt_str, NodeModel, WidgetNode};
use crate::types::{ModelTypes, ModelTypesModel};

verus! {

/// What stands around the widgets of a component: how the struct is
/// declared and which trait is implemented for it.
#[derive(Debug, PartialEq, Eq)]
pub struct Header {
    /// The visibility of the struct and of its fields; empty for private.
    pub visibility: String,
    /// The path under which the toolkit's crate is reached.
    pub relm4_path: String,
    /// The attributes written above the implementation.
    pub outer_attrs: String,
    /// The generic parameters of the implementation, in their brackets.
    pub impl_generics: String,
    /// The trait with its generic arguments.
    pub trait_path: String,
    /// The type that the trait is implemented for.
    pub self_ty: String,
    /// The `where` clause of the implementation; empty where it has none.
    pub where_clause: String,
}

/// The view of [`Header`]: its texts as sequences of characters.
pub ghost struct HeaderModel {
    pub visibility: Seq<char>,
    pub relm4_path: Seq<char>,
    pub outer_attrs: Seq<char>,
    pub impl_generics: Seq<char>,
    pub trait_path: Seq<char>,
    pub self_ty: Seq<char>,
    pub where_clause: Seq<char>,
}

impl View for Header {
    type V = HeaderModel;

    open spec fn view(&self) -> HeaderModel {
        HeaderModel {
            visibility: self.visibility@,
            relm4_path: self.relm4_path@,
            outer_attrs: self.outer_attrs@,
            impl_generics: self.impl_generics@,
            trait_path: self.trait_path@,
            self_ty: self.self_ty@,
            where_clause: self.where_clause@,
        }
    }
}

/// The blocks that the user adds to the routines of the component. They
/// are placed, never read.
#[derive(Debug, PartialEq, Eq)]
pub struct Funcs {
    pub pre_init: Option<String>,
    pub post_init: Option<String>,
    pub pre_connect_components: Option<String>,
    pub post_connect_components: Option<String>,
    pub manual_view: Option<String>,
}

/// The view of [`Funcs`]: its texts as sequences of characters.
pub ghost struct FuncsModel {
    pub pre_init: Option<Seq<char>>,
    pub post_init: Option<Seq<char>>,
    pub pre_connect_components: Option<Seq<char>>,
    pub post_connect_components: Option<Seq<char>>,
    pub manual_view: Option<Seq<char>>,
}

impl View for Funcs {
    type V = FuncsModel;

    open spec fn view(&self) -> FuncsModel {
        FuncsModel {
            pre_init: opt_str(self.pre_init),
            post_init: opt_str(self.post_init),
            pre_connect_components: opt_str(self.pre_connect_components),
            post_connect_components: opt_str(self.post_connect_components),
            manual_view: opt_str(self.manual_view),
        }
    }
}

/// A declaration as it was read: the header, the model types, the tree of
/// widgets and what the user adds.
#[derive(Debug, PartialEq, Eq)]
pub struct Declaration {
    pub header: Header,
    pub types: ModelTypes,
    pub tree: WidgetNode,
    pub additional_fields: Vec<Field>,
    pub funcs: Funcs,
}

/// The view of [`Declaration`]: its texts as sequences of characters.
pub ghost struct DeclarationModel {
    pub header: HeaderModel,
    pub types: ModelTypesModel,
    pub tree: NodeModel,
    pub additional_fields: Seq<FieldModel>,
    pub funcs: FuncsModel,
}

impl View for Declaration {
    type V = DeclarationModel;

    open spec fn view(&self) -> DeclarationModel {
        DeclarationModel {
            header: self.header@,
            types: self.types@,
            tree: self.tree@,
            additional_fields: fields_view(self.additional_fields@),
            funcs: self.funcs@,
        }
    }
}

/// A component: everything that its source text is written from.
#[derive(Debug, PartialEq, Eq)]
pub struct Component {
    pub header: Header,
    pub types: ModelTypes,
    pub funcs: Funcs,
    /// The name of the root widget.
    pub root_name: String,
    /// The type of the root widget.
    pub root_type: String,
    /// The fields of the struct: one for each widget, then the additional
    /// fields.
    pub fields: Vec<Field>,
    /// The statements that build the widgets.
    pub init: Vec<Stmt>,
    /// The reactive bindings of the update routine.
    pub updates: Vec<Update>,
}

/// The view of [`Component`]: its texts as sequences of characters.
pub ghost struct ComponentModel {
    pub header: HeaderModel,
    pub types: ModelTypesModel,
    pub funcs: FuncsModel,
    pub root_name: Seq<char>,
    pub root_type: Seq<char>,
    pub fields: Seq<FieldModel>,
    pub init: Seq<StmtModel>,
    pub updates: Seq<UpdateModel>,
}

impl View for Component {
    type V = ComponentModel;

    open spec fn view(&self) -> ComponentModel {
        ComponentModel {
            header: self.header@,
            types: self.types@,
            funcs: self.funcs@,
            root_name: self.root_name@,
            root_type: self.root_type@,
            fields: fields_view(self.fields@),
            init: stmts_view(self.init@),
            updates: updates_view(self.updates@),
        }
    }
}

/// The component of a declaration, where names are made from the counter
/// value `k` on. The widgets are those of the named tree, parents first;
/// the root of the component is the first of them.
pub open spec fn component_of(decl: DeclarationModel, k: nat) -> ComponentModel {
    let list = flat(named(decl.tree, Seq::empty(), k), None);
    ComponentModel {
        header: decl.header,
        types: decl.types,
        funcs: decl.funcs,
        root_name: list[0].name,
        root_type: list[0].ty,
        fields: field_list(list, decl.additional_fields),
        init: init_stmts(list),
        updates: update_list(list, list.len()),
    }
}

/// Appends copies of the statements of `more` to `stmts`.
fn append_stmts(stmts: &mut Vec<Stmt>, more: Vec<Stmt>)
    ensures
        stmts_view(final(stmts)@) == stmts_view(old(stmts)@) + stmts_view(more@),
{
    let ghost before = stmts@;
    let ghost added = more@;
    let mut more = more;
    stmts.append(&mut more);
    assert(stmts_view(stmts@) =~= stmts_view(before) + stmts_view(added));
}

/// Makes the component of a declaration: names the widgets that have no
/// name, lists the widgets parents first, and runs each emitter once over
/// the list. In the routine that builds the widgets, no statement works on
/// a widget that is not yet constructed. Where no name is given to two
/// widgets and no given name starts with an underscore, every widget has a
/// name of its own and is constructed by one statement only.
pub fn generate(decl: Declaration, names: &mut NameGen) -> (component: Component)
    ensures
        component@ == component_of(decl@, old(names).value()),
        final(names).value() == old(names).value() + anon_count(decl@.tree),
        defined_before_use(component@.init),
        given_once(decl@.tree) && given_without_underscore(decl@.tree) ==> distinct_names(
            flat(named(decl@.tree, Seq::empty(), old(names).value()), None),
        ),
        given_once(decl@.tree) && given_without_underscore(decl@.tree) ==> constructed_once(
            component@.init,
        ),
{
    let ghost k = names.value();
    let list = flatten(&decl.tree, names);
    proof {
        lemma_construction_precedes_use(named(decl@.tree, Seq::empty(), k));
        if given_once(decl@.tree) && given_without_underscore(decl@.tree) {
            lemma_constructed_once(widgets_view(list@));
        }
    }
    let fields = struct_fields(&list, &decl.additional_fields);
    let mut init = constructions(&list);
    append_stmts(&mut init, assignments(&list));
    append_stmts(&mut init, connections(&list));
    let bindings = updates(&list);
    Component {
        header: decl.header,
        types: decl.types,
        funcs: decl.funcs,
        root_name: list[0].name.clone(),
        root_type: list[0].ty.clone(),
        fields,
        init,
        updates: bindings,
    }
}

} // verus!
