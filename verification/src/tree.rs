//! The widget tree as it is written down: nested nodes with their
//! properties, event connections and reactive annotations.

use vstd::prelude::*;
use crate::text::strs;

verus! {

/// One property assignment of a widget: the setter, the expression that is
/// handed to it, and whether the expression is recomputed on every update.
#[derive(Debug, PartialEq, Eq)]
pub struct Property {
    pub setter: String,
    pub value: String,
    pub watch: bool,
}

/// The view of [`Property`]: its texts as sequences of characters.
pub ghost struct PropertyModel {
    pub setter: Seq<char>,
    pub value: Seq<char>,
    pub watch: bool,
}

impl View for Property {
    type V = PropertyModel;

    open spec fn view(&self) -> PropertyModel {
        PropertyModel { setter: self.setter@, value: self.value@, watch: self.watch }
    }
}

/// One event connection of a widget: the signal, the variables that the
/// handler takes with it, and the handler.
#[derive(Debug, PartialEq, Eq)]
pub struct Event {
    pub signal: String,
    pub captured: Vec<String>,
    pub handler: String,
}

/// The view of [`Event`]: its texts as sequences of characters.
pub ghost struct EventModel {
    pub signal: Seq<char>,
    pub captured: Seq<Seq<char>>,
    pub handler: Seq<char>,
}

impl View for Event {
    type V = EventModel;

    open spec fn view(&self) -> EventModel {
        EventModel { signal: self.signal@, captured: strs(self.captured@), handler: self.handler@ }
    }
}

/// How a widget is added to its parent: the parent's method, the function
/// that the child is wrapped in, if any, and whether it is passed by
/// reference.
#[derive(Debug, PartialEq, Eq)]
pub struct Attach {
    pub method: String,
    pub wrapper: Option<String>,
    pub by_ref: bool,
}

/// The view of [`Attach`]: its texts as sequences of characters.
pub ghost struct AttachModel {
    pub method: Seq<char>,
    pub wrapper: Option<Seq<char>>,
    pub by_ref: bool,
}

/// The view of a text that may be missing.
pub open spec fn opt_str(s: Option<String>) -> Option<Seq<char>> {
    match s {
        Some(t) => Some(t@),
        None => None,
    }
}

impl View for Attach {
    type V = AttachModel;

    open spec fn view(&self) -> AttachModel {
        AttachModel { method: self.method@, wrapper: opt_str(self.wrapper), by_ref: self.by_ref }
    }
}

/// The view of an attach operation that may be missing.
pub open spec fn opt_attach(a: Option<Attach>) -> Option<AttachModel> {
    match a {
        Some(t) => Some(t@),
        None => None,
    }
}

/// The views of a sequence of properties.
pub open spec fn properties_view(v: Seq<Property>) -> Seq<PropertyModel> {
    v.map_values(|p: Property| p@)
}

/// The views of a sequence of events.
pub open spec fn events_view(v: Seq<Event>) -> Seq<EventModel> {
    v.map_values(|e: Event| e@)
}

/// A widget of the tree.
#[derive(Debug, PartialEq, Eq)]
pub struct WidgetNode {
    /// The widget's name; `None` until one is given or made.
    pub name: Option<String>,
    /// The expression that constructs the widget.
    pub ctor: String,
    /// The widget's type.
    pub ty: String,
    /// How the widget is added to its parent; `None` for the root.
    pub attach: Option<Attach>,
    pub properties: Vec<Property>,
    pub events: Vec<Event>,
    /// The expression that decides whether the watched properties are
    /// recomputed in an update cycle; `None` where they always are.
    pub track: Option<String>,
    pub children: Vec<WidgetNode>,
}

/// The view of [`WidgetNode`]: its texts as sequences of characters, its
/// children as their views.
pub ghost struct NodeModel {
    pub name: Option<Seq<char>>,
    pub ctor: Seq<char>,
    pub ty: Seq<char>,
    pub attach: Option<AttachModel>,
    pub properties: Seq<PropertyModel>,
    pub events: Seq<EventModel>,
    pub track: Option<Seq<char>>,
    pub children: Seq<NodeModel>,
}

/// The view of a node: its texts as sequences of characters, its children
/// as their views.
pub open spec fn node_model(node: WidgetNode) -> NodeModel
    decreases node,
{
    NodeModel {
        name: opt_str(node.name),
        ctor: node.ctor@,
        ty: node.ty@,
        attach: opt_attach(node.attach),
        properties: properties_view(node.properties@),
        events: events_view(node.events@),
        track: opt_str(node.track),
        children: Seq::new(
            node.children@.len(),
            |i: int|
                if 0 <= i < node.children@.len() {
                    node_model(node.children@[i])
                } else {
                    arbitrary()
                },
        ),
    }
}

impl View for WidgetNode {
    type V = NodeModel;

    open spec fn view(&self) -> NodeModel {
        node_model(*self)
    }
}

/// The views of a sequence of nodes.
pub open spec fn nodes_view(v: Seq<WidgetNode>) -> Seq<NodeModel> {
    v.map_values(|n: WidgetNode| n@)
}

/// The children of a node's view are the views of its children.
pub proof fn lemma_children_view(node: &WidgetNode)
    ensures
        node@.children == nodes_view(node.children@),
{
    assert(node@.children =~= nodes_view(node.children@));
}

impl Clone for Property {
    fn clone(&self) -> (r: Self)
        ensures
            r@ == self@,
    {
        Property { setter: self.setter.clone(), value: self.value.clone(), watch: self.watch }
    }
}

impl Clone for Event {
    fn clone(&self) -> (r: Self)
        ensures
            r@ == self@,
    {
        Event {
            signal: self.signal.clone(),
            captured: clone_strings(&self.captured),
            handler: self.handler.clone(),
        }
    }
}

impl Clone for Attach {
    fn clone(&self) -> (r: Self)
        ensures
            r@ == self@,
    {
        Attach {
            method: self.method.clone(),
            wrapper: clone_opt_string(&self.wrapper),
            by_ref: self.by_ref,
        }
    }
}

/// A copy of a text that may be missing.
pub(crate) fn clone_opt_string(s: &Option<String>) -> (r: Option<String>)
    ensures
        opt_str(r) == opt_str(*s),
{
    match s {
        Some(t) => Some(t.clone()),
        None => None,
    }
}

/// A copy of an attach operation that may be missing.
pub(crate) fn clone_opt_attach(a: &Option<Attach>) -> (r: Option<Attach>)
    ensures
        opt_attach(r) == opt_attach(*a),
{
    match a {
        Some(t) => Some(t.clone()),
        None => None,
    }
}

/// A copy of a list of texts.
pub(crate) fn clone_strings(v: &Vec<String>) -> (r: Vec<String>)
    ensures
        strs(r@) == strs(v@),
{
    let mut r: Vec<String> = Vec::new();
    let mut i: usize = 0;
    while i < v.len()
        invariant
            i <= v.len(),
            r.len() == i,
            forall|j: int| 0 <= j < i ==> (#[trigger] r@[j])@ == v@[j]@,
        decreases v.len() - i,
    {
        r.push(v[i].clone());
        i = i + 1;
    }
    assert(strs(r@) =~= strs(v@));
    r
}

/// A copy of a list of properties.
pub(crate) fn clone_properties(v: &Vec<Property>) -> (r: Vec<Property>)
    ensures
        properties_view(r@) == properties_view(v@),
{
    let mut r: Vec<Property> = Vec::new();
    let mut i: usize = 0;
    while i < v.len()
        invariant
            i <= v.len(),
            r.len() == i,
            forall|j: int| 0 <= j < i ==> (#[trigger] r@[j])@ == v@[j]@,
        decreases v.len() - i,
    {
        r.push(v[i].clone());
        i = i + 1;
    }
    assert(properties_view(r@) =~= properties_view(v@));
    r
}

/// A copy of a list of events.
pub(crate) fn clone_events(v: &Vec<Event>) -> (r: Vec<Event>)
    ensures
        events_view(r@) == events_view(v@),
{
    let mut r: Vec<Event> = Vec::new();
    let mut i: usize = 0;
    while i < v.len()
        invariant
            i <= v.len(),
            r.len() == i,
            forall|j: int| 0 <= j < i ==> (#[trigger] r@[j])@ == v@[j]@,
        decreases v.len() - i,
    {
        r.push(v[i].clone());
        i = i + 1;
    }
    assert(events_view(r@) =~= events_view(v@));
    r
}

} // verus!
