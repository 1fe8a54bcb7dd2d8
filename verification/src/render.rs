//! The source text of a component.

use vstd::prelude::*;
use vstd::string::StringExecFns;
use crate::component::{Component, ComponentModel};
use crate::emit::{
    fields_view, stmts_view, updates_view, Field, FieldModel, Stmt, StmtModel, Update,
    UpdateModel,
};
use crate::text::strs;
use crate::tree::opt_str;

verus! {

/// A text and one space behind it; nothing for the empty text.
pub open spec fn spaced_text(text: Seq<char>) -> Seq<char> {
    if text.len() == 0 {
        Seq::empty()
    } else {
        text + " "@
    }
}

/// Appends [`spaced_text`].
pub(crate) fn push_spaced(out: &mut String, text: &String)
    ensures
        final(out)@ == old(out)@ + spaced_text(text@),
{
    let ghost before = out@;
    if !text.as_str().is_empty() {
        out.append(text.as_str());
        out.append(" ");
    }
    assert(out@ =~= before + spaced_text(text@));
}

/// A text on a line of its own; nothing for the empty text.
pub open spec fn lined_text(text: Seq<char>) -> Seq<char> {
    if text.len() == 0 {
        Seq::empty()
    } else {
        text + "\n"@
    }
}

/// Appends [`lined_text`].
pub(crate) fn push_lined(out: &mut String, text: &String)
    ensures
        final(out)@ == old(out)@ + lined_text(text@),
{
    let ghost before = out@;
    if !text.as_str().is_empty() {
        out.append(text.as_str());
        out.append("\n");
    }
    assert(out@ =~= before + lined_text(text@));
}

/// A field of the struct. The field of a widget is written as
/// `visibility name: ty,` under an attribute that allows it to be without
/// documentation; a field that the user added is written as the user
/// wrote it.
pub open spec fn field_text(field: FieldModel, visibility: Seq<char>) -> Seq<char> {
    match field.written {
        None => "    #[allow(missing_docs)]\n    "@ + spaced_text(visibility) + field.name + ": "@
            + field.ty + ",\n"@,
        Some(before) => "    "@ + spaced_text(before) + field.name + ": "@ + field.ty + ",\n"@,
    }
}

/// Appends [`field_text`].
pub(crate) fn push_field(out: &mut String, field: &Field, visibility: &String)
    ensures
        final(out)@ == old(out)@ + field_text(field@, visibility@),
{
    let ghost before = out@;
    match &field.written {
        None => {
            out.append("    #[allow(missing_docs)]\n    ");
            push_spaced(out, visibility);
        },
        Some(written) => {
            out.append("    ");
            push_spaced(out, written);
        },
    }
    out.append(field.name.as_str());
    out.append(": ");
    out.append(field.ty.as_str());
    out.append(",\n");
    assert(out@ =~= before + field_text(field@, visibility@));
}

/// The first `i` fields of the struct, one after the other.
pub open spec fn fields_text(items: Seq<FieldModel>, visibility: Seq<char>, i: nat) -> Seq<char>
    decreases i,
{
    if i == 0 || i > items.len() {
        Seq::empty()
    } else {
        fields_text(items, visibility, (i - 1) as nat) + field_text(items[i - 1], visibility)
    }
}

/// Appends [`fields_text`] of all the items.
pub(crate) fn push_fields(out: &mut String, items: &Vec<Field>, visibility: &String)
    ensures
        final(out)@ == old(out)@ + fields_text(fields_view(items@), visibility@, items@.len()),
{
    let ghost before = out@;
    let mut i: usize = 0;
    assert(out@ =~= before + fields_text(fields_view(items@), visibility@, 0));
    while i < items.len()
        invariant
            i <= items.len(),
            out@ == before + fields_text(fields_view(items@), visibility@, i as nat),
        decreases items.len() - i,
    {
        assert(fields_view(items@)[i as int] == items@[i as int]@);
        push_field(out, &items[i], visibility);
        assert(out@ =~= before + fields_text(fields_view(items@), visibility@, (i + 1) as nat));
        i = i + 1;
    }
}

/// A field in the value that the building routine returns: `name,`.
pub open spec fn return_text(field: FieldModel) -> Seq<char> {
    "            "@ + field.name + ",\n"@
}

/// Appends [`return_text`].
pub(crate) fn push_return(out: &mut String, field: &Field)
    ensures
        final(out)@ == old(out)@ + return_text(field@),
{
    let ghost before = out@;
    out.append("            ");
    out.append(field.name.as_str());
    out.append(",\n");
    assert(out@ =~= before + return_text(field@));
}

/// The first `i` fields of the value that the building routine returns.
pub open spec fn returns_text(items: Seq<FieldModel>, i: nat) -> Seq<char>
    decreases i,
{
    if i == 0 || i > items.len() {
        Seq::empty()
    } else {
        returns_text(items, (i - 1) as nat) + return_text(items[i - 1])
    }
}

/// Appends [`returns_text`] of all the items.
pub(crate) fn push_returns(out: &mut String, items: &Vec<Field>)
    ensures
        final(out)@ == old(out)@ + returns_text(fields_view(items@), items@.len()),
{
    let ghost before = out@;
    let mut i: usize = 0;
    assert(out@ =~= before + returns_text(fields_view(items@), 0));
    while i < items.len()
        invariant
            i <= items.len(),
            out@ == before + returns_text(fields_view(items@), i as nat),
        decreases items.len() - i,
    {
        assert(fields_view(items@)[i as int] == items@[i as int]@);
        push_return(out, &items[i]);
        assert(out@ =~= before + returns_text(fields_view(items@), (i + 1) as nat));
        i = i + 1;
    }
}

/// The copy of a captured variable that a handler takes with it:
/// `let name = name.clone();`.
pub open spec fn clone_text(name: Seq<char>) -> Seq<char> {
    "let "@ + name + " = "@ + name + ".clone(); "@
}

/// Appends [`clone_text`].
pub(crate) fn push_clone(out: &mut String, name: &String)
    ensures
        final(out)@ == old(out)@ + clone_text(name@),
{
    let ghost before = out@;
    out.append("let ");
    out.append(name.as_str());
    out.append(" = ");
    out.append(name.as_str());
    out.append(".clone(); ");
    assert(out@ =~= before + clone_text(name@));
}

/// The copies of the first `i` captured variables.
pub open spec fn clones_text(names: Seq<Seq<char>>, i: nat) -> Seq<char>
    decreases i,
{
    if i == 0 || i > names.len() {
        Seq::empty()
    } else {
        clones_text(names, (i - 1) as nat) + clone_text(names[i - 1])
    }
}

/// Appends [`clones_text`] of all the names.
pub(crate) fn push_clones(out: &mut String, names: &Vec<String>)
    ensures
        final(out)@ == old(out)@ + clones_text(strs(names@), names@.len()),
{
    let ghost before = out@;
    let mut i: usize = 0;
    assert(out@ =~= before + clones_text(strs(names@), 0));
    while i < names.len()
        invariant
            i <= names.len(),
            out@ == before + clones_text(strs(names@), i as nat),
        decreases names.len() - i,
    {
        assert(strs(names@)[i as int] == names@[i as int]@);
        push_clone(out, &names[i]);
        assert(out@ =~= before + clones_text(strs(names@), (i + 1) as nat));
        i = i + 1;
    }
}

/// How a child is handed to the method that adds it: by reference where
/// `by_ref`, and inside the call of `wrapper` where there is one.
pub open spec fn attach_arg_text(wrapper: Option<Seq<char>>, by_ref: bool, child: Seq<char>) -> Seq<
    char,
> {
    let plain = (if by_ref {
        "&"@
    } else {
        Seq::empty()
    }) + child;
    match wrapper {
        Some(w) => w + "("@ + plain + ")"@,
        None => plain,
    }
}

/// Appends [`attach_arg_text`].
pub(crate) fn push_attach_arg(out: &mut String, wrapper: &Option<String>, by_ref: bool, child: &String)
    ensures
        final(out)@ == old(out)@ + attach_arg_text(opt_str(*wrapper), by_ref, child@),
{
    let ghost before = out@;
    match wrapper {
        Some(w) => {
            out.append(w.as_str());
            out.append("(");
        },
        None => {},
    }
    if by_ref {
        out.append("&");
    }
    out.append(child.as_str());
    match wrapper {
        Some(w) => {
            out.append(")");
        },
        None => {},
    }
    assert(out@ =~= before + attach_arg_text(opt_str(*wrapper), by_ref, child@));
}

/// The text of a statement of the building routine:
/// `let name = ctor;`, `widget.setter(value);`, `parent.method(child);`
/// with the child as [`attach_arg_text`] says, or a block that copies the
/// captured variables and then calls `widget.signal(handler);`.
pub open spec fn stmt_text(stmt: StmtModel) -> Seq<char> {
    match stmt {
        StmtModel::Construct { name, ctor } => "let "@ + name + " = "@ + ctor + ";"@,
        StmtModel::Assign { widget, setter, value } => widget + "."@ + setter + "("@ + value
            + ");"@,
        StmtModel::Attach { parent, method, wrapper, by_ref, child } => parent + "."@ + method
            + "("@ + attach_arg_text(wrapper, by_ref, child) + ");"@,
        StmtModel::Connect { widget, signal, captured, handler } => "{ "@ + clones_text(
            captured,
            captured.len(),
        ) + widget + "."@ + signal + "("@ + handler + "); }"@,
    }
}

/// Appends [`stmt_text`].
pub(crate) fn push_stmt(out: &mut String, stmt: &Stmt)
    ensures
        final(out)@ == old(out)@ + stmt_text(stmt@),
{
    let ghost before = out@;
    match stmt {
        Stmt::Construct { name, ctor } => {
            out.append("let ");
            out.append(name.as_str());
            out.append(" = ");
            out.append(ctor.as_str());
            out.append(";");
        },
        Stmt::Assign { widget, setter, value } => {
            out.append(widget.as_str());
            out.append(".");
            out.append(setter.as_str());
            out.append("(");
            out.append(value.as_str());
            out.append(");");
        },
        Stmt::Attach { parent, method, wrapper, by_ref, child } => {
            out.append(parent.as_str());
            out.append(".");
            out.append(method.as_str());
            out.append("(");
            push_attach_arg(out, wrapper, *by_ref, child);
            out.append(");");
        },
        Stmt::Connect { widget, signal, captured, handler } => {
            out.append("{ ");
            push_clones(out, captured);
            out.append(widget.as_str());
            out.append(".");
            out.append(signal.as_str());
            out.append("(");
            out.append(handler.as_str());
            out.append("); }");
        },
    }
    assert(out@ =~= before + stmt_text(stmt@));
}

/// A statement on a line of its own.
pub open spec fn line_text(stmt: StmtModel) -> Seq<char> {
    "        "@ + stmt_text(stmt) + "\n"@
}

/// Appends [`line_text`].
pub(crate) fn push_line(out: &mut String, stmt: &Stmt)
    ensures
        final(out)@ == old(out)@ + line_text(stmt@),
{
    let ghost before = out@;
    out.append("        ");
    push_stmt(out, stmt);
    out.append("\n");
    assert(out@ =~= before + line_text(stmt@));
}

/// The first `i` statements, each on a line of its own.
pub open spec fn stmts_text(items: Seq<StmtModel>, i: nat) -> Seq<char>
    decreases i,
{
    if i == 0 || i > items.len() {
        Seq::empty()
    } else {
        stmts_text(items, (i - 1) as nat) + line_text(items[i - 1])
    }
}

/// Appends [`stmts_text`] of all the items.
pub(crate) fn push_stmts(out: &mut String, items: &Vec<Stmt>)
    ensures
        final(out)@ == old(out)@ + stmts_text(stmts_view(items@), items@.len()),
{
    let ghost before = out@;
    let mut i: usize = 0;
    assert(out@ =~= before + stmts_text(stmts_view(items@), 0));
    while i < items.len()
        invariant
            i <= items.len(),
            out@ == before + stmts_text(stmts_view(items@), i as nat),
        decreases items.len() - i,
    {
        assert(stmts_view(items@)[i as int] == items@[i as int]@);
        push_line(out, &items[i]);
        assert(out@ =~= before + stmts_text(stmts_view(items@), (i + 1) as nat));
        i = i + 1;
    }
}

/// The call that a reactive binding makes: `self.widget.setter(value);`.
pub open spec fn call_text(update: UpdateModel) -> Seq<char> {
    "self."@ + update.widget + "."@ + update.setter + "("@ + update.value + ");"@
}

/// Appends [`call_text`].
pub(crate) fn push_call(out: &mut String, update: &Update)
    ensures
        final(out)@ == old(out)@ + call_text(update@),
{
    let ghost before = out@;
    out.append("self.");
    out.append(update.widget.as_str());
    out.append(".");
    out.append(update.setter.as_str());
    out.append("(");
    out.append(update.value.as_str());
    out.append(");");
    assert(out@ =~= before + call_text(update@));
}

/// A reactive binding on a line of its own: the call, inside
/// `if guard { .. }` where the binding has a guard.
pub open spec fn update_text(update: UpdateModel) -> Seq<char> {
    match update.guard {
        Some(guard) => "        if "@ + guard + " { "@ + call_text(update) + " }\n"@,
        None => "        "@ + call_text(update) + "\n"@,
    }
}

/// Appends [`update_text`].
pub(crate) fn push_update(out: &mut String, update: &Update)
    ensures
        final(out)@ == old(out)@ + update_text(update@),
{
    let ghost before = out@;
    match &update.guard {
        Some(guard) => {
            out.append("        if ");
            out.append(guard.as_str());
            out.append(" { ");
            push_call(out, update);
            out.append(" }\n");
        },
        None => {
            out.append("        ");
            push_call(out, update);
            out.append("\n");
        },
    }
    assert(out@ =~= before + update_text(update@));
}

/// The first `i` reactive bindings, each on a line of its own.
pub open spec fn updates_text(items: Seq<UpdateModel>, i: nat) -> Seq<char>
    decreases i,
{
    if i == 0 || i > items.len() {
        Seq::empty()
    } else {
        updates_text(items, (i - 1) as nat) + update_text(items[i - 1])
    }
}

/// Appends [`updates_text`] of all the items.
pub(crate) fn push_updates(out: &mut String, items: &Vec<Update>)
    ensures
        final(out)@ == old(out)@ + updates_text(updates_view(items@), items@.len()),
{
    let ghost before = out@;
    let mut i: usize = 0;
    assert(out@ =~= before + updates_text(updates_view(items@), 0));
    while i < items.len()
        invariant
            i <= items.len(),
            out@ == before + updates_text(updates_view(items@), i as nat),
        decreases items.len() - i,
    {
        assert(updates_view(items@)[i as int] == items@[i as int]@);
        push_update(out, &items[i]);
        assert(out@ =~= before + updates_text(updates_view(items@), (i + 1) as nat));
        i = i + 1;
    }
}

/// A block of the user on a line of its own; nothing where there is none.
pub open spec fn block_text(block: Option<Seq<char>>) -> Seq<char> {
    match block {
        Some(text) => "        "@ + text + "\n"@,
        None => Seq::empty(),
    }
}

/// Appends [`block_text`].
pub(crate) fn push_block(out: &mut String, block: &Option<String>)
    ensures
        final(out)@ == old(out)@ + block_text(opt_str(*block)),
{
    let ghost before = out@;
    match block {
        Some(text) => {
            out.append("        ");
            out.append(text.as_str());
            out.append("\n");
        },
        None => {},
    }
    assert(out@ =~= before + block_text(opt_str(*block)));
}

/// The type of the handle that sends messages to the model.
pub open spec fn sender_text(c: ComponentModel) -> Seq<char> {
    c.header.relm4_path + "::Sender<<"@ + c.types.model + " as "@ + c.header.relm4_path
        + "::Model>::Msg>"@
}

/// Appends [`sender_text`].
pub(crate) fn push_sender(out: &mut String, c: &Component)
    ensures
        final(out)@ == old(out)@ + sender_text(c@),
{
    let ghost before = out@;
    out.append(c.header.relm4_path.as_str());
    out.append("::Sender<<");
    out.append(c.types.model.as_str());
    out.append(" as ");
    out.append(c.header.relm4_path.as_str());
    out.append("::Model>::Msg>");
    assert(out@ =~= before + sender_text(c@));
}

/// The struct of the component: one field for each widget and the
/// additional fields.
pub open spec fn struct_text(c: ComponentModel) -> Seq<char> {
    "#[allow(dead_code)]\n"@ + lined_text(c.header.outer_attrs) + spaced_text(c.header.visibility)
        + "struct "@ + c.header.self_ty + " {\n"@
        + fields_text(c.fields, c.header.visibility, c.fields.len()) + "}\n"@
}

/// Appends [`struct_text`].
pub(crate) fn push_struct(out: &mut String, c: &Component)
    ensures
        final(out)@ == old(out)@ + struct_text(c@),
{
    let ghost before = out@;
    out.append("#[allow(dead_code)]\n");
    push_lined(out, &c.header.outer_attrs);
    push_spaced(out, &c.header.visibility);
    out.append("struct ");
    out.append(c.header.self_ty.as_str());
    out.append(" {\n");
    push_fields(out, &c.fields, &c.header.visibility);
    out.append("}\n");
    assert(out@ =~= before + struct_text(c@));
}

/// The opening of the implementation and the type of the root widget.
pub open spec fn impl_head_text(c: ComponentModel) -> Seq<char> {
    "impl"@ + c.header.impl_generics + " "@ + c.header.trait_path + " for "@ + c.header.self_ty
        + " "@ + spaced_text(c.header.where_clause) + "{\n    type Root = "@ + c.root_type
        + ";\n\n"@
}

/// Appends [`impl_head_text`].
pub(crate) fn push_impl_head(out: &mut String, c: &Component)
    ensures
        final(out)@ == old(out)@ + impl_head_text(c@),
{
    let ghost before = out@;
    out.append("impl");
    out.append(c.header.impl_generics.as_str());
    out.append(" ");
    out.append(c.header.trait_path.as_str());
    out.append(" for ");
    out.append(c.header.self_ty.as_str());
    out.append(" ");
    push_spaced(out, &c.header.where_clause);
    out.append("{\n    type Root = ");
    out.append(c.root_type.as_str());
    out.append(";\n\n");
    assert(out@ =~= before + impl_head_text(c@));
}

/// The signature of the routine that builds the widgets.
pub open spec fn init_head_text(c: ComponentModel) -> Seq<char> {
    "    /// Initialize the UI.\n    fn init_view(model: &"@ + c.types.model
        + ", parent_widgets: &<"@ + c.types.parent_model + " as "@ + c.header.relm4_path
        + "::Model>::Widgets, sender: "@ + sender_text(c) + ") -> Self {\n"@
}

/// Appends [`init_head_text`].
pub(crate) fn push_init_head(out: &mut String, c: &Component)
    ensures
        final(out)@ == old(out)@ + init_head_text(c@),
{
    let ghost before = out@;
    out.append("    /// Initialize the UI.\n    fn init_view(model: &");
    out.append(c.types.model.as_str());
    out.append(", parent_widgets: &<");
    out.append(c.types.parent_model.as_str());
    out.append(" as ");
    out.append(c.header.relm4_path.as_str());
    out.append("::Model>::Widgets, sender: ");
    push_sender(out, c);
    out.append(") -> Self {\n");
    assert(out@ =~= before + init_head_text(c@));
}

/// The routine that builds the widgets: the user's block, the
/// statements in their order, the user's block, and the value of the struct.
pub open spec fn init_view_text(c: ComponentModel) -> Seq<char> {
    init_head_text(c) + block_text(c.funcs.pre_init) + stmts_text(c.init, c.init.len())
        + block_text(c.funcs.post_init) + "        Self {\n"@
        + returns_text(c.fields, c.fields.len()) + "        }\n    }\n\n"@
}

/// Appends [`init_view_text`].
pub(crate) fn push_init_view(out: &mut String, c: &Component)
    ensures
        final(out)@ == old(out)@ + init_view_text(c@),
{
    let ghost before = out@;
    push_init_head(out, c);
    push_block(out, &c.funcs.pre_init);
    push_stmts(out, &c.init);
    push_block(out, &c.funcs.post_init);
    out.append("        Self {\n");
    push_returns(out, &c.fields);
    out.append("        }\n    }\n\n");
    assert(out@ =~= before + init_view_text(c@));
}

/// The routine that connects the components: the user's blocks.
pub open spec fn connect_components_text(c: ComponentModel) -> Seq<char> {
    "    fn connect_components(&self, model: &"@ + c.types.model + ", components: &<"@
        + c.types.model + " as "@ + c.header.relm4_path + "::Model>::Components) {\n"@
        + block_text(c.funcs.pre_connect_components) + block_text(c.funcs.post_connect_components)
        + "    }\n\n"@
}

/// Appends [`connect_components_text`].
pub(crate) fn push_connect_components(out: &mut String, c: &Component)
    ensures
        final(out)@ == old(out)@ + connect_components_text(c@),
{
    let ghost before = out@;
    out.append("    fn connect_components(&self, model: &");
    out.append(c.types.model.as_str());
    out.append(", components: &<");
    out.append(c.types.model.as_str());
    out.append(" as ");
    out.append(c.header.relm4_path.as_str());
    out.append("::Model>::Components) {\n");
    push_block(out, &c.funcs.pre_connect_components);
    push_block(out, &c.funcs.post_connect_components);
    out.append("    }\n\n");
    assert(out@ =~= before + connect_components_text(c@));
}

/// The routine that hands out the root widget.
pub open spec fn root_widget_text(c: ComponentModel) -> Seq<char> {
    "    /// Return the root widget.\n    fn root_widget(&self) -> Self::Root {\n        self."@
        + c.root_name + ".clone()\n    }\n\n"@
}

/// Appends [`root_widget_text`].
pub(crate) fn push_root_widget(out: &mut String, c: &Component)
    ensures
        final(out)@ == old(out)@ + root_widget_text(c@),
{
    let ghost before = out@;
    out.append("    /// Return the root widget.\n    fn root_widget(&self) -> Self::Root {\n        self.");
    out.append(c.root_name.as_str());
    out.append(".clone()\n    }\n\n");
    assert(out@ =~= before + root_widget_text(c@));
}

/// The routine that updates the widgets: the user's block, then the
/// reactive bindings in their order.
pub open spec fn view_text(c: ComponentModel) -> Seq<char> {
    "    /// Update the view to represent the updated model.\n    fn view(&mut self, model: &"@
        + c.types.model + ", sender: "@ + sender_text(c) + ") {\n"@
        + block_text(c.funcs.manual_view) + updates_text(c.updates, c.updates.len()) + "    }\n"@
}

/// Appends [`view_text`].
pub(crate) fn push_view(out: &mut String, c: &Component)
    ensures
        final(out)@ == old(out)@ + view_text(c@),
{
    let ghost before = out@;
    out.append("    /// Update the view to represent the updated model.\n    fn view(&mut self, model: &");
    out.append(c.types.model.as_str());
    out.append(", sender: ");
    push_sender(out, c);
    out.append(") {\n");
    push_block(out, &c.funcs.manual_view);
    push_updates(out, &c.updates);
    out.append("    }\n");
    assert(out@ =~= before + view_text(c@));
}

/// The source text of a component: the struct, then the implementation
/// of the trait with the root type and the four routines.
pub open spec fn component_text(c: ComponentModel) -> Seq<char> {
    struct_text(c) + "\n"@ + impl_head_text(c) + init_view_text(c) + connect_components_text(c)
        + root_widget_text(c) + view_text(c) + "}\n"@
}

/// Appends [`component_text`].
pub(crate) fn push_component(out: &mut String, c: &Component)
    ensures
        final(out)@ == old(out)@ + component_text(c@),
{
    let ghost before = out@;
    push_struct(out, c);
    out.append("\n");
    push_impl_head(out, c);
    push_init_view(out, c);
    push_connect_components(out, c);
    push_root_widget(out, c);
    push_view(out, c);
    out.append("}\n");
    assert(out@ =~= before + component_text(c@));
}

/// Writes the source text of a component.
pub fn render(component: &Component) -> (text: String)
    ensures
        text@ == component_text(component@),
{
    let mut text = String::new();
    push_component(&mut text, component);
    assert(Seq::<char>::empty() + component_text(component@) =~= component_text(component@));
    text
}

} // verus!
