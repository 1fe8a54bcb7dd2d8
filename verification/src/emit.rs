//! The emitters: each walks the list of widgets once and writes one
//! section of the component.

use vstd::prelude::*;
use crate::flatten::{widgets_view, Widget, WidgetModel};
use crate::text::strs;
use crate::tree::{clone_opt_string, clone_strings, opt_str, PropertyModel};

verus! {

/// A statement of the routine that builds the widgets.
#[derive(Debug, PartialEq, Eq)]
pub enum Stmt {
    /// Binds the widget `name` to what its constructor gives.
    Construct { name: String, ctor: String },
    /// Calls a setter of a widget once.
    Assign { widget: String, setter: String, value: String },
    /// Adds the widget `child` to the widget `parent`.
    Attach { parent: String, method: String, wrapper: Option<String>, by_ref: bool, child: String },
    /// Registers a handler for a signal of a widget; the handler takes
    /// copies of the captured variables with it.
    Connect { widget: String, signal: String, captured: Vec<String>, handler: String },
}

/// The view of [`Stmt`]: its texts as sequences of characters.
pub ghost enum StmtModel {
    Construct { name: Seq<char>, ctor: Seq<char> },
    Assign { widget: Seq<char>, setter: Seq<char>, value: Seq<char> },
    Attach {
        parent: Seq<char>,
        method: Seq<char>,
        wrapper: Option<Seq<char>>,
        by_ref: bool,
        child: Seq<char>,
    },
    Connect { widget: Seq<char>, signal: Seq<char>, captured: Seq<Seq<char>>, handler: Seq<char> },
}

impl View for Stmt {
    type V = StmtModel;

    open spec fn view(&self) -> StmtModel {
        match *self {
            Stmt::Construct { name, ctor } => StmtModel::Construct { name: name@, ctor: ctor@ },
            Stmt::Assign { widget, setter, value } => StmtModel::Assign {
                widget: widget@,
                setter: setter@,
                value: value@,
            },
            Stmt::Attach { parent, method, wrapper, by_ref, child } => StmtModel::Attach {
                parent: parent@,
                method: method@,
                wrapper: opt_str(wrapper),
                by_ref,
                child: child@,
            },
            Stmt::Connect { widget, signal, captured, handler } => StmtModel::Connect {
                widget: widget@,
                signal: signal@,
                captured: strs(captured@),
                handler: handler@,
            },
        }
    }
}

/// The views of a sequence of statements.
pub open spec fn stmts_view(v: Seq<Stmt>) -> Seq<StmtModel> {
    v.map_values(|s: Stmt| s@)
}

/// A field of the component's struct.
#[derive(Debug, PartialEq, Eq)]
pub struct Field {
    pub name: String,
    pub ty: String,
    /// For a field that the user added: what is written before its name,
    /// its attributes and its visibility, which may be nothing. `None` for
    /// the field of a widget.
    pub written: Option<String>,
}

/// The view of [`Field`]: its texts as sequences of characters.
pub ghost struct FieldModel {
    pub name: Seq<char>,
    pub ty: Seq<char>,
    pub written: Option<Seq<char>>,
}

impl View for Field {
    type V = FieldModel;

    open spec fn view(&self) -> FieldModel {
        FieldModel { name: self.name@, ty: self.ty@, written: opt_str(self.written) }
    }
}

/// The field of a widget: its name and its type.
pub open spec fn widget_field(w: WidgetModel) -> FieldModel {
    FieldModel { name: w.name, ty: w.ty, written: None }
}

/// The views of a sequence of fields.
pub open spec fn fields_view(v: Seq<Field>) -> Seq<FieldModel> {
    v.map_values(|f: Field| f@)
}

/// A reactive binding: in every update cycle the setter is called with the
/// value computed anew, unless the guard is there and does not hold.
#[derive(Debug, PartialEq, Eq)]
pub struct Update {
    pub widget: String,
    pub setter: String,
    pub value: String,
    pub guard: Option<String>,
}

/// The view of [`Update`]: its texts as sequences of characters.
pub ghost struct UpdateModel {
    pub widget: Seq<char>,
    pub setter: Seq<char>,
    pub value: Seq<char>,
    pub guard: Option<Seq<char>>,
}

impl View for Update {
    type V = UpdateModel;

    open spec fn view(&self) -> UpdateModel {
        UpdateModel {
            widget: self.widget@,
            setter: self.setter@,
            value: self.value@,
            guard: opt_str(self.guard),
        }
    }
}

/// The views of a sequence of reactive bindings.
pub open spec fn updates_view(v: Seq<Update>) -> Seq<UpdateModel> {
    v.map_values(|u: Update| u@)
}

/// One field for each widget, of the widget's type, in the order of the
/// list, and then the additional fields as they are.
pub open spec fn field_list(list: Seq<WidgetModel>, additional: Seq<FieldModel>) -> Seq<
    FieldModel,
> {
    Seq::new(list.len(), |i: int| widget_field(list[i])) + additional
}

/// One construction for each widget, in the order of the list.
pub open spec fn construct_stmts(list: Seq<WidgetModel>) -> Seq<StmtModel> {
    Seq::new(list.len(), |i: int| StmtModel::Construct { name: list[i].name, ctor: list[i].ctor })
}

/// The statement that adds a widget to its parent, where it has a parent
/// and a way to be added.
pub open spec fn attach_stmts(w: WidgetModel) -> Seq<StmtModel> {
    match (w.parent, w.attach) {
        (Some(parent), Some(attach)) => seq![
            StmtModel::Attach {
                parent,
                method: attach.method,
                wrapper: attach.wrapper,
                by_ref: attach.by_ref,
                child: w.name,
            },
        ],
        _ => Seq::empty(),
    }
}

/// The one-shot assignments for the first `i` properties of a widget:
/// one for each property that is not watched, in their order.
pub open spec fn set_stmts(widget: Seq<char>, properties: Seq<PropertyModel>, i: nat) -> Seq<
    StmtModel,
>
    decreases i,
{
    if i == 0 || i > properties.len() {
        Seq::empty()
    } else {
        let p = properties[i - 1];
        set_stmts(widget, properties, (i - 1) as nat) + (if p.watch {
            Seq::empty()
        } else {
            seq![StmtModel::Assign { widget, setter: p.setter, value: p.value }]
        })
    }
}

/// What the property section holds for one widget: its attachment to its
/// parent, then its one-shot assignments.
pub open spec fn widget_assign_stmts(w: WidgetModel) -> Seq<StmtModel> {
    attach_stmts(w) + set_stmts(w.name, w.properties, w.properties.len())
}

/// The property section for the first `i` widgets of the list.
pub open spec fn assign_stmts(list: Seq<WidgetModel>, i: nat) -> Seq<StmtModel>
    decreases i,
{
    if i == 0 || i > list.len() {
        Seq::empty()
    } else {
        assign_stmts(list, (i - 1) as nat) + widget_assign_stmts(list[i - 1])
    }
}

/// The connections of one widget: one for each of its events, in their
/// order.
pub open spec fn widget_connect_stmts(w: WidgetModel) -> Seq<StmtModel> {
    Seq::new(
        w.events.len(),
        |j: int|
            StmtModel::Connect {
                widget: w.name,
                signal: w.events[j].signal,
                captured: w.events[j].captured,
                handler: w.events[j].handler,
            },
    )
}

/// The connection section for the first `i` widgets of the list.
pub open spec fn connect_stmts(list: Seq<WidgetModel>, i: nat) -> Seq<StmtModel>
    decreases i,
{
    if i == 0 || i > list.len() {
        Seq::empty()
    } else {
        connect_stmts(list, (i - 1) as nat) + widget_connect_stmts(list[i - 1])
    }
}

/// The reactive bindings for the first `i` properties of a widget: one for
/// each watched property, in their order, each under the widget's guard.
pub open spec fn property_updates(w: WidgetModel, i: nat) -> Seq<UpdateModel>
    decreases i,
{
    if i == 0 || i > w.properties.len() {
        Seq::empty()
    } else {
        let p = w.properties[i - 1];
        property_updates(w, (i - 1) as nat) + (if p.watch {
            seq![UpdateModel { widget: w.name, setter: p.setter, value: p.value, guard: w.track }]
        } else {
            Seq::empty()
        })
    }
}

/// The update section for the first `i` widgets of the list.
pub open spec fn update_list(list: Seq<WidgetModel>, i: nat) -> Seq<UpdateModel>
    decreases i,
{
    if i == 0 || i > list.len() {
        Seq::empty()
    } else {
        update_list(list, (i - 1) as nat) + property_updates(
            list[i - 1],
            list[i - 1].properties.len(),
        )
    }
}

/// The statements that build the widgets: all constructions, then the
/// property section, then the connection section.
pub open spec fn init_stmts(list: Seq<WidgetModel>) -> Seq<StmtModel> {
    construct_stmts(list) + assign_stmts(list, list.len()) + connect_stmts(list, list.len())
}

/// Writes the fields of the component's struct.
pub fn struct_fields(list: &Vec<Widget>, additional: &Vec<Field>) -> (fields: Vec<Field>)
    ensures
        fields_view(fields@) == field_list(widgets_view(list@), fields_view(additional@)),
{
    let mut fields: Vec<Field> = Vec::new();
    let mut i: usize = 0;
    while i < list.len()
        invariant
            i <= list.len(),
            fields.len() == i,
            forall|j: int|
                0 <= j < i ==> (#[trigger] fields@[j])@ == widget_field(list@[j]@),
        decreases list.len() - i,
    {
        fields.push(Field { name: list[i].name.clone(), ty: list[i].ty.clone(), written: None });
        i = i + 1;
    }
    let mut k: usize = 0;
    while k < additional.len()
        invariant
            k <= additional.len(),
            fields.len() == list.len() + k,
            forall|j: int|
                0 <= j < list.len() ==> (#[trigger] fields@[j])@ == widget_field(list@[j]@),
            forall|j: int|
                list.len() <= j < list.len() + k ==> (#[trigger] fields@[j])@ == additional@[j
                    - list.len()]@,
        decreases additional.len() - k,
    {
        fields.push(
            Field {
                name: additional[k].name.clone(),
                ty: additional[k].ty.clone(),
                written: clone_opt_string(&additional[k].written),
            },
        );
        k = k + 1;
    }
    proof {
        let got = fields_view(fields@);
        let want = field_list(widgets_view(list@), fields_view(additional@));
        assert(got.len() == want.len());
        assert forall|j: int| 0 <= j < got.len() implies got[j] == want[j] by {
            if j >= list.len() {
                assert(want[j] == fields_view(additional@)[j - list.len()]);
            }
        }
        assert(got =~= want);
    }
    fields
}

/// Writes the construction of every widget.
pub fn constructions(list: &Vec<Widget>) -> (stmts: Vec<Stmt>)
    ensures
        stmts_view(stmts@) == construct_stmts(widgets_view(list@)),
{
    let mut stmts: Vec<Stmt> = Vec::new();
    let mut i: usize = 0;
    while i < list.len()
        invariant
            i <= list.len(),
            stmts.len() == i,
            forall|j: int|
                0 <= j < i ==> (#[trigger] stmts@[j])@ == (StmtModel::Construct {
                    name: list@[j]@.name,
                    ctor: list@[j]@.ctor,
                }),
        decreases list.len() - i,
    {
        stmts.push(Stmt::Construct { name: list[i].name.clone(), ctor: list[i].ctor.clone() });
        i = i + 1;
    }
    assert(stmts_view(stmts@) =~= construct_stmts(widgets_view(list@)));
    stmts
}

/// Appends what the property section holds for one widget.
fn push_widget_assignments(w: &Widget, stmts: &mut Vec<Stmt>)
    ensures
        stmts_view(final(stmts)@) == stmts_view(old(stmts)@) + widget_assign_stmts(w@),
{
    let ghost before = stmts_view(stmts@);
    match (&w.parent, &w.attach) {
        (Some(parent), Some(attach)) => {
            stmts.push(
                Stmt::Attach {
                    parent: parent.clone(),
                    method: attach.method.clone(),
                    wrapper: clone_opt_string(&attach.wrapper),
                    by_ref: attach.by_ref,
                    child: w.name.clone(),
                },
            );
        },
        _ => {},
    }
    assert(stmts_view(stmts@) =~= before + attach_stmts(w@));
    let mut i: usize = 0;
    while i < w.properties.len()
        invariant
            i <= w.properties.len(),
            stmts_view(stmts@) == before + attach_stmts(w@) + set_stmts(
                w@.name,
                w@.properties,
                i as nat,
            ),
        decreases w.properties.len() - i,
    {
        let ghost sofar = stmts_view(stmts@);
        let p = &w.properties[i];
        assert(w@.properties[i as int] == p@);
        if !p.watch {
            stmts.push(
                Stmt::Assign {
                    widget: w.name.clone(),
                    setter: p.setter.clone(),
                    value: p.value.clone(),
                },
            );
            assert(stmts_view(stmts@) =~= sofar + seq![
                StmtModel::Assign { widget: w@.name, setter: p@.setter, value: p@.value },
            ]);
        }
        assert(stmts_view(stmts@) =~= before + attach_stmts(w@) + set_stmts(
            w@.name,
            w@.properties,
            (i + 1) as nat,
        ));
        i = i + 1;
    }
    assert(stmts_view(stmts@) =~= before + widget_assign_stmts(w@));
}

/// Writes the property section: for each widget its attachment to its
/// parent and then a setter call for each property that is not watched.
pub fn assignments(list: &Vec<Widget>) -> (stmts: Vec<Stmt>)
    ensures
        stmts_view(stmts@) == assign_stmts(widgets_view(list@), list@.len()),
{
    let mut stmts: Vec<Stmt> = Vec::new();
    assert(stmts_view(stmts@) =~= Seq::<StmtModel>::empty());
    let mut i: usize = 0;
    while i < list.len()
        invariant
            i <= list.len(),
            stmts_view(stmts@) == assign_stmts(widgets_view(list@), i as nat),
        decreases list.len() - i,
    {
        push_widget_assignments(&list[i], &mut stmts);
        i = i + 1;
    }
    stmts
}

/// Writes the connection section: a handler registration for each event of
/// each widget.
pub fn connections(list: &Vec<Widget>) -> (stmts: Vec<Stmt>)
    ensures
        stmts_view(stmts@) == connect_stmts(widgets_view(list@), list@.len()),
{
    let mut stmts: Vec<Stmt> = Vec::new();
    assert(stmts_view(stmts@) =~= Seq::<StmtModel>::empty());
    let mut i: usize = 0;
    while i < list.len()
        invariant
            i <= list.len(),
            stmts_view(stmts@) == connect_stmts(widgets_view(list@), i as nat),
        decreases list.len() - i,
    {
        let ghost before = stmts_view(stmts@);
        let w = &list[i];
        let mut j: usize = 0;
        while j < w.events.len()
            invariant
                j <= w.events.len(),
                stmts_view(stmts@) == before + widget_connect_stmts(w@).take(j as int),
            decreases w.events.len() - j,
        {
            let ghost sofar = stmts_view(stmts@);
            let e = &w.events[j];
            assert(w@.events[j as int] == e@);
            stmts.push(
                Stmt::Connect {
                    widget: w.name.clone(),
                    signal: e.signal.clone(),
                    captured: clone_strings(&e.captured),
                    handler: e.handler.clone(),
                },
            );
            assert(stmts_view(stmts@) =~= sofar + seq![widget_connect_stmts(w@)[j as int]]);
            assert(widget_connect_stmts(w@).take(j + 1) =~= widget_connect_stmts(w@).take(
                j as int,
            ) + seq![widget_connect_stmts(w@)[j as int]]);
            j = j + 1;
        }
        assert(widget_connect_stmts(w@).take(w.events.len() as int) =~= widget_connect_stmts(w@));
        i = i + 1;
    }
    stmts
}

/// Writes the update section: a reactive binding for each watched
/// property of each widget, under the widget's guard where it has one.
///
/// The bindings stand in the order of the widgets and, for one widget, of
/// its properties. No other order is worked out: where one watched
/// expression reads what another binding of the same cycle has just set,
/// it is for the author of the view to write them in the order that is
/// needed.
pub fn updates(list: &Vec<Widget>) -> (bindings: Vec<Update>)
    ensures
        updates_view(bindings@) == update_list(widgets_view(list@), list@.len()),
{
    let mut bindings: Vec<Update> = Vec::new();
    assert(updates_view(bindings@) =~= Seq::<UpdateModel>::empty());
    let mut i: usize = 0;
    while i < list.len()
        invariant
            i <= list.len(),
            updates_view(bindings@) == update_list(widgets_view(list@), i as nat),
        decreases list.len() - i,
    {
        let ghost before = updates_view(bindings@);
        let w = &list[i];
        let mut j: usize = 0;
        while j < w.properties.len()
            invariant
                j <= w.properties.len(),
                updates_view(bindings@) == before + property_updates(w@, j as nat),
            decreases w.properties.len() - j,
        {
            let ghost sofar = updates_view(bindings@);
            let p = &w.properties[j];
            assert(w@.properties[j as int] == p@);
            if p.watch {
                bindings.push(
                    Update {
                        widget: w.name.clone(),
                        setter: p.setter.clone(),
                        value: p.value.clone(),
                        guard: clone_opt_string(&w.track),
                    },
                );
                assert(updates_view(bindings@) =~= sofar + seq![
                    UpdateModel {
                        widget: w@.name,
                        setter: p@.setter,
                        value: p@.value,
                        guard: w@.track,
                    },
                ]);
            }
            assert(updates_view(bindings@) =~= before + property_updates(w@, (j + 1) as nat));
            j = j + 1;
        }
        i = i + 1;
    }
    bindings
}

} // verus!
