//! Naming and flattening: every widget gets a name, and the tree becomes
//! the list of its widgets, parents before children.

use vstd::prelude::*;
use crate::names::{
    counter_of, idents_to_snake_case, lemma_counter_of_snake_name, lemma_snake_name_is_ident,
    snake_name, NameGen,
};
use crate::ident::is_ident;
use crate::text::strs;
use crate::tree::{
    clone_events, clone_opt_attach, clone_opt_string, clone_properties, clone_strings,
    events_view, lemma_children_view, nodes_view, opt_attach, opt_str, properties_view, Attach,
    AttachModel, Event, EventModel, NodeModel, Property, PropertyModel, WidgetNode,
};
use crate::unique::{
    distinct_names, given_once, given_without_underscore, lemma_names_distinct,
};

verus! {

/// The number of nodes without a name in a tree.
pub open spec fn anon_count(node: NodeModel) -> nat
    decreases node, 0nat,
{
    (if node.name is None {
        1nat
    } else {
        0nat
    }) + anon_prefix(node.children, node.children.len())
}

/// The number of nodes without a name in the first `i` trees of `nodes`.
pub open spec fn anon_prefix(nodes: Seq<NodeModel>, i: nat) -> nat
    decreases nodes, i,
{
    if i == 0 || i > nodes.len() {
        0
    } else {
        anon_prefix(nodes, (i - 1) as nat) + anon_count(nodes[i - 1])
    }
}

/// The name that a node has once names are assigned: its own, or the one
/// made of the names of its ancestors and the counter value `k`.
pub open spec fn name_given(node: NodeModel, ancestors: Seq<Seq<char>>, k: nat) -> Seq<char> {
    match node.name {
        Some(name) => name,
        None => snake_name(ancestors, k),
    }
}

/// The counter value after a node itself was named.
pub open spec fn counter_past(node: NodeModel, k: nat) -> nat {
    if node.name is None {
        k + 1
    } else {
        k
    }
}

/// The tree with a name on every node. Nodes are visited parents first and
/// siblings in their order; a node that has a name keeps it, and each node
/// without one takes the next counter value, starting at `k`, behind the
/// names of its ancestors, outermost first.
pub open spec fn named(node: NodeModel, ancestors: Seq<Seq<char>>, k: nat) -> NodeModel
    decreases node,
{
    let name = name_given(node, ancestors, k);
    NodeModel {
        name: Some(name),
        ctor: node.ctor,
        ty: node.ty,
        attach: node.attach,
        properties: node.properties,
        events: node.events,
        track: node.track,
        children: Seq::new(
            node.children.len(),
            |i: int|
                if 0 <= i < node.children.len() {
                    named(
                        node.children[i],
                        ancestors.push(name),
                        counter_past(node, k) + anon_prefix(node.children, i as nat),
                    )
                } else {
                    arbitrary()
                },
        ),
    }
}

/// Every node of the tree has a name.
pub open spec fn fully_named(node: NodeModel) -> bool
    decreases node,
{
    &&& node.name is Some
    &&& forall|i: int|
        0 <= i < node.children.len() ==> fully_named(#[trigger] node.children[i])
}

/// Among trees that all have their names, none is without a name.
pub proof fn lemma_named_prefix_counts_none(nodes: Seq<NodeModel>, i: nat)
    requires
        forall|j: int| 0 <= j < nodes.len() ==> fully_named(#[trigger] nodes[j]),
    ensures
        anon_prefix(nodes, i) == 0,
    decreases nodes, i,
{
    if i == 0 || i > nodes.len() {
    } else {
        lemma_named_prefix_counts_none(nodes, (i - 1) as nat);
        assert(fully_named(nodes[i - 1]));
        lemma_naming_keeps_named(nodes[i - 1], Seq::empty(), 0);
    }
}

/// Naming is a no-op on a tree whose nodes all have names: the tree comes
/// back as it is and no counter value is used, whatever the ancestors and
/// the counter.
pub proof fn lemma_naming_keeps_named(node: NodeModel, ancestors: Seq<Seq<char>>, k: nat)
    requires
        fully_named(node),
    ensures
        named(node, ancestors, k) == node,
        anon_count(node) == 0,
    decreases node, 0nat,
{
    let out = named(node, ancestors, k);
    lemma_named_prefix_counts_none(node.children, node.children.len());
    assert forall|i: int| 0 <= i < node.children.len() implies out.children[i]
        == node.children[i] by {
        assert(fully_named(node.children[i]));
        lemma_naming_keeps_named(
            node.children[i],
            ancestors.push(name_given(node, ancestors, k)),
            counter_past(node, k) + anon_prefix(node.children, i as nat),
        );
    }
    assert(out.children =~= node.children);
}

/// After naming, every node has a name.
pub proof fn lemma_named_is_fully_named(node: NodeModel, ancestors: Seq<Seq<char>>, k: nat)
    ensures
        fully_named(named(node, ancestors, k)),
    decreases node,
{
    let out = named(node, ancestors, k);
    assert forall|i: int| 0 <= i < out.children.len() implies fully_named(
        #[trigger] out.children[i],
    ) by {
        lemma_named_is_fully_named(
            node.children[i],
            ancestors.push(name_given(node, ancestors, k)),
            counter_past(node, k) + anon_prefix(node.children, i as nat),
        );
    }
}

/// Naming twice is naming once: the second pass changes no name, made or
/// given, and uses no counter value.
pub proof fn lemma_naming_idempotent(
    node: NodeModel,
    ancestors: Seq<Seq<char>>,
    k: nat,
    ancestors2: Seq<Seq<char>>,
    k2: nat,
)
    ensures
        named(named(node, ancestors, k), ancestors2, k2) == named(node, ancestors, k),
        anon_count(named(node, ancestors, k)) == 0,
{
    lemma_named_is_fully_named(node, ancestors, k);
    lemma_naming_keeps_named(named(node, ancestors, k), ancestors2, k2);
}

/// A node that was given a name keeps it when names are assigned.
pub proof fn lemma_naming_keeps_given_name(node: NodeModel, ancestors: Seq<Seq<char>>, k: nat)
    requires
        node.name is Some,
    ensures
        named(node, ancestors, k).name == node.name,
{
}

/// The names that `after` holds where `before` holds none, parents first
/// and siblings in their order, for two trees of one shape.
pub open spec fn made_names(before: NodeModel, after: NodeModel) -> Seq<Seq<char>>
    decreases before, 0nat,
{
    (if before.name is None && after.name is Some {
        seq![after.name->0]
    } else {
        Seq::empty()
    }) + made_prefix(before.children, after.children, before.children.len())
}

/// [`made_names`] of the first `i` trees of two sequences.
pub open spec fn made_prefix(before: Seq<NodeModel>, after: Seq<NodeModel>, i: nat) -> Seq<
    Seq<char>,
>
    decreases before, i,
{
    if i == 0 || i > before.len() || i > after.len() {
        Seq::empty()
    } else {
        made_prefix(before, after, (i - 1) as nat) + made_names(before[i - 1], after[i - 1])
    }
}

/// The names made for the first `i` children of a node carry the counter
/// values from `from` on, one after the other.
pub proof fn lemma_made_prefix_counters(
    node: NodeModel,
    ancestors: Seq<Seq<char>>,
    k: nat,
    i: nat,
)
    requires
        i <= node.children.len(),
    ensures
        ({
            let made = made_prefix(node.children, named(node, ancestors, k).children, i);
            &&& made.len() == anon_prefix(node.children, i)
            &&& forall|j: int|
                0 <= j < made.len() ==> counter_of(#[trigger] made[j]) == counter_past(node, k)
                    + j
        }),
    decreases node, i,
{
    if i > 0 {
        let out = named(node, ancestors, k);
        lemma_made_prefix_counters(node, ancestors, k, (i - 1) as nat);
        lemma_made_name_counters(
            node.children[i - 1],
            ancestors.push(name_given(node, ancestors, k)),
            counter_past(node, k) + anon_prefix(node.children, (i - 1) as nat),
        );
        assert(out.children[i - 1] == named(
            node.children[i - 1],
            ancestors.push(name_given(node, ancestors, k)),
            counter_past(node, k) + anon_prefix(node.children, (i - 1) as nat),
        ));
    }
}

/// The names made for a tree with `n` nodes without a name are `n` names
/// that carry the counter values `k`, `k + 1`, ... in the order in which
/// the nodes are visited, whatever the names of the ancestors are.
pub proof fn lemma_made_name_counters(node: NodeModel, ancestors: Seq<Seq<char>>, k: nat)
    ensures
        ({
            let made = made_names(node, named(node, ancestors, k));
            &&& made.len() == anon_count(node)
            &&& forall|j: int| 0 <= j < made.len() ==> counter_of(#[trigger] made[j]) == k + j
        }),
    decreases node, node.children.len() + 1,
{
    lemma_made_prefix_counters(node, ancestors, k, node.children.len());
    if node.name is None {
        lemma_counter_of_snake_name(ancestors, k);
    }
}

/// The names made for the nodes of one tree are pairwise distinct, even
/// where nodes in different branches have ancestors of the same names.
pub proof fn lemma_made_names_distinct(node: NodeModel, ancestors: Seq<Seq<char>>, k: nat)
    ensures
        ({
            let made = made_names(node, named(node, ancestors, k));
            &&& made.len() == anon_count(node)
            &&& forall|i: int, j: int|
                0 <= i < j < made.len() ==> #[trigger] made[i] != #[trigger] made[j]
        }),
{
    lemma_made_name_counters(node, ancestors, k);
}

/// Every name made for the first `i` children of a node has the shape of
/// an identifier, whatever the names of the nodes above hold.
pub proof fn lemma_made_prefix_identifiers(
    node: NodeModel,
    ancestors: Seq<Seq<char>>,
    k: nat,
    i: nat,
)
    requires
        i <= node.children.len(),
    ensures
        ({
            let made = made_prefix(node.children, named(node, ancestors, k).children, i);
            forall|j: int| 0 <= j < made.len() ==> is_ident(#[trigger] made[j])
        }),
    decreases node, i,
{
    if i > 0 {
        let chain = ancestors.push(name_given(node, ancestors, k));
        let from = counter_past(node, k) + anon_prefix(node.children, (i - 1) as nat);
        let out = named(node, ancestors, k);
        lemma_made_prefix_identifiers(node, ancestors, k, (i - 1) as nat);
        lemma_made_names_identifiers(node.children[i - 1], chain, from);
        assert(out.children[i - 1] == named(node.children[i - 1], chain, from));
        let front = made_prefix(node.children, out.children, (i - 1) as nat);
        let back = made_names(node.children[i - 1], out.children[i - 1]);
        let made = made_prefix(node.children, out.children, i);
        assert(made == front + back);
        assert forall|j: int| 0 <= j < made.len() implies is_ident(#[trigger] made[j]) by {
            if j < front.len() {
                assert(made[j] == front[j]);
            } else {
                assert(made[j] == back[j - front.len()]);
            }
        }
    }
}

/// Every name that is made for a node of a tree has the shape of an
/// identifier, whatever the given names of the tree and of the nodes above
/// it hold.
pub proof fn lemma_made_names_identifiers(node: NodeModel, ancestors: Seq<Seq<char>>, k: nat)
    ensures
        ({
            let made = made_names(node, named(node, ancestors, k));
            forall|j: int| 0 <= j < made.len() ==> is_ident(#[trigger] made[j])
        }),
    decreases node, node.children.len() + 1,
{
    lemma_made_prefix_identifiers(node, ancestors, k, node.children.len());
    let out = named(node, ancestors, k);
    let rest = made_prefix(node.children, out.children, node.children.len());
    let made = made_names(node, out);
    if node.name is None {
        lemma_snake_name_is_ident(ancestors, k);
        assert(made == seq![snake_name(ancestors, k)] + rest);
        assert forall|j: int| 0 <= j < made.len() implies is_ident(#[trigger] made[j]) by {
            if j > 0 {
                assert(made[j] == rest[j - 1]);
            }
        }
    } else {
        assert(made =~= rest);
    }
}

/// Names the nodes of the tree under `node`, whose ancestors have the names
/// `ancestors`, outermost first.
pub(crate) fn assign_names_under(node: &WidgetNode, ancestors: &Vec<String>, names: &mut NameGen) -> (r:
    WidgetNode)
    ensures
        r@ == named(node@, strs(ancestors@), old(names).value()),
        final(names).value() == old(names).value() + anon_count(node@),
    decreases node,
{
    let ghost k = names.value();
    let ghost from = counter_past(node@, k);
    let name = match &node.name {
        Some(given) => given.clone(),
        None => idents_to_snake_case(ancestors, names),
    };
    assert(name@ == name_given(node@, strs(ancestors@), k));
    let mut chain = clone_strings(ancestors);
    chain.push(name.clone());
    assert(strs(chain@) =~= strs(ancestors@).push(name@));
    proof {
        lemma_children_view(node);
    }
    let mut children: Vec<WidgetNode> = Vec::new();
    let mut i: usize = 0;
    while i < node.children.len()
        invariant
            i <= node.children.len(),
            node@.children == nodes_view(node.children@),
            names.value() == from + anon_prefix(node@.children, i as nat),
            children.len() == i,
            forall|j: int|
                0 <= j < i ==> (#[trigger] children@[j])@ == named(
                    node@.children[j],
                    strs(chain@),
                    from + anon_prefix(node@.children, j as nat),
                ),
        decreases node.children.len() - i,
    {
        let child = assign_names_under(&node.children[i], &chain, names);
        children.push(child);
        i = i + 1;
    }
    let r = WidgetNode {
        name: Some(name),
        ctor: node.ctor.clone(),
        ty: node.ty.clone(),
        attach: clone_opt_attach(&node.attach),
        properties: clone_properties(&node.properties),
        events: clone_events(&node.events),
        track: clone_opt_string(&node.track),
        children,
    };
    proof {
        lemma_children_view(&r);
        let want = named(node@, strs(ancestors@), k);
        assert(r@.children =~= want.children);
    }
    r
}

/// Gives every node of the tree a name: a node that has one keeps it, and
/// each node without one gets a made name. Every made name has the shape
/// of an identifier, whatever the names that were given hold.
pub fn assign_names(tree: &WidgetNode, names: &mut NameGen) -> (r: WidgetNode)
    ensures
        r@ == named(tree@, Seq::empty(), old(names).value()),
        final(names).value() == old(names).value() + anon_count(tree@),
        forall|j: int|
            0 <= j < made_names(tree@, r@).len() ==> is_ident(#[trigger] made_names(tree@, r@)[j]),
{
    proof {
        lemma_made_names_identifiers(tree@, Seq::empty(), names.value());
    }
    let ancestors: Vec<String> = Vec::new();
    assert(strs(ancestors@) =~= Seq::<Seq<char>>::empty());
    assign_names_under(tree, &ancestors, names)
}

/// A widget of the flattened tree: what its node holds, and the name of the
/// node above it.
#[derive(Debug, PartialEq, Eq)]
pub struct Widget {
    pub name: String,
    pub ctor: String,
    pub ty: String,
    /// The name of the parent; `None` for the root.
    pub parent: Option<String>,
    pub attach: Option<Attach>,
    pub properties: Vec<Property>,
    pub events: Vec<Event>,
    pub track: Option<String>,
}

/// The view of [`Widget`]: its texts as sequences of characters.
pub ghost struct WidgetModel {
    pub name: Seq<char>,
    pub ctor: Seq<char>,
    pub ty: Seq<char>,
    pub parent: Option<Seq<char>>,
    pub attach: Option<AttachModel>,
    pub properties: Seq<PropertyModel>,
    pub events: Seq<EventModel>,
    pub track: Option<Seq<char>>,
}

impl View for Widget {
    type V = WidgetModel;

    open spec fn view(&self) -> WidgetModel {
        WidgetModel {
            name: self.name@,
            ctor: self.ctor@,
            ty: self.ty@,
            parent: opt_str(self.parent),
            attach: opt_attach(self.attach),
            properties: properties_view(self.properties@),
            events: events_view(self.events@),
            track: opt_str(self.track),
        }
    }
}

/// The views of a sequence of widgets.
pub open spec fn widgets_view(v: Seq<Widget>) -> Seq<WidgetModel> {
    v.map_values(|w: Widget| w@)
}

/// The name of a node; the empty text where it has none.
pub open spec fn node_name(node: NodeModel) -> Seq<char> {
    match node.name {
        Some(name) => name,
        None => Seq::empty(),
    }
}

/// The widget that stands for a node below the node named `parent`.
pub open spec fn record(node: NodeModel, parent: Option<Seq<char>>) -> WidgetModel {
    WidgetModel {
        name: node_name(node),
        ctor: node.ctor,
        ty: node.ty,
        parent,
        attach: node.attach,
        properties: node.properties,
        events: node.events,
        track: node.track,
    }
}

/// The widgets of a tree: the node itself, then the widgets of each of its
/// children's trees, the children in their order.
pub open spec fn flat(node: NodeModel, parent: Option<Seq<char>>) -> Seq<WidgetModel>
    decreases node, 0nat,
{
    seq![record(node, parent)] + flat_prefix(
        node.children,
        node_name(node),
        node.children.len(),
    )
}

/// The widgets of the first `i` trees of `nodes`, all below the node named
/// `parent`.
pub open spec fn flat_prefix(nodes: Seq<NodeModel>, parent: Seq<char>, i: nat) -> Seq<WidgetModel>
    decreases nodes, i,
{
    if i == 0 || i > nodes.len() {
        Seq::empty()
    } else {
        flat_prefix(nodes, parent, (i - 1) as nat) + flat(nodes[i - 1], Some(parent))
    }
}

/// A widget before position `i` of the list has the name `name`.
pub open spec fn named_earlier(list: Seq<WidgetModel>, i: int, name: Seq<char>) -> bool {
    exists|j: int| 0 <= j < i && (#[trigger] list[j]).name == name
}

/// In the widgets of sibling trees, each widget has a parent: the node above
/// the siblings, or a widget earlier in the list.
pub proof fn lemma_flat_prefix_parents_first(nodes: Seq<NodeModel>, parent: Seq<char>, i: nat)
    ensures
        ({
            let list = flat_prefix(nodes, parent, i);
            forall|p: int|
                0 <= p < list.len() ==> (#[trigger] list[p]).parent is Some && (list[p].parent
                    == Some(parent) || named_earlier(list, p, list[p].parent->0))
        }),
    decreases nodes, i,
{
    if i == 0 || i > nodes.len() {
    } else {
        let front = flat_prefix(nodes, parent, (i - 1) as nat);
        let back = flat(nodes[i - 1], Some(parent));
        let list = flat_prefix(nodes, parent, i);
        lemma_flat_prefix_parents_first(nodes, parent, (i - 1) as nat);
        lemma_flat_parents_first(nodes[i - 1], Some(parent));
        assert forall|p: int| 0 <= p < list.len() implies (#[trigger] list[p]).parent is Some && (
        list[p].parent == Some(parent) || named_earlier(list, p, list[p].parent->0)) by {
            if p < front.len() {
                assert(list[p] == front[p]);
                if front[p].parent != Some(parent) {
                    let j = choose|j: int| 0 <= j < p && (#[trigger] front[j]).name == front[p].parent->0;
                    assert(list[j] == front[j]);
                }
            } else {
                let q = p - front.len();
                assert(list[p] == back[q]);
                if q > 0 {
                    let j = choose|j: int| 0 <= j < q && (#[trigger] back[j]).name == back[q].parent->0;
                    assert(list[j + front.len()] == back[j]);
                }
            }
        }
    }
}

/// In the widgets of a tree the node itself comes first, and each widget
/// after it has its parent earlier in the list: parents come before
/// children.
pub proof fn lemma_flat_parents_first(node: NodeModel, parent: Option<Seq<char>>)
    ensures
        ({
            let list = flat(node, parent);
            &&& list.len() >= 1
            &&& list[0] == record(node, parent)
            &&& forall|p: int|
                1 <= p < list.len() ==> (#[trigger] list[p]).parent is Some && named_earlier(
                    list,
                    p,
                    list[p].parent->0,
                )
        }),
    decreases node, node.children.len() + 1,
{
    let list = flat(node, parent);
    let rest = flat_prefix(node.children, node_name(node), node.children.len());
    lemma_flat_prefix_parents_first(node.children, node_name(node), node.children.len());
    assert forall|p: int| 1 <= p < list.len() implies (#[trigger] list[p]).parent is Some
        && named_earlier(list, p, list[p].parent->0) by {
        assert(list[p] == rest[p - 1]);
        if rest[p - 1].parent == Some(node_name(node)) {
            assert(list[0].name == node_name(node));
        } else {
            let j = choose|j: int|
                0 <= j < p - 1 && (#[trigger] rest[j]).name == rest[p - 1].parent->0;
            assert(list[j + 1] == rest[j]);
        }
    }
}

/// Each widget that has a parent has it earlier in the list.
pub open spec fn parents_first(list: Seq<WidgetModel>) -> bool {
    forall|q: int|
        0 <= q < list.len() && (#[trigger] list[q]).parent is Some ==> named_earlier(
            list,
            q,
            list[q].parent->0,
        )
}

/// The list of the widgets of a whole tree starts with the root, which has
/// no parent, and has every other widget behind its parent.
pub proof fn lemma_flat_rooted(tree: NodeModel)
    ensures
        flat(tree, None).len() >= 1,
        flat(tree, None)[0].parent is None,
        parents_first(flat(tree, None)),
{
    let list = flat(tree, None);
    lemma_flat_parents_first(tree, None);
    assert forall|q: int|
        0 <= q < list.len() && (#[trigger] list[q]).parent is Some implies named_earlier(
        list,
        q,
        list[q].parent->0,
    ) by {
        if q == 0 {
            assert(list[0].parent is None);
        }
    }
}

/// Appends the widgets of the tree under `node` to `out`.
pub(crate) fn push_widgets(node: &WidgetNode, parent: &Option<String>, out: &mut Vec<Widget>)
    ensures
        widgets_view(final(out)@) == widgets_view(old(out)@) + flat(node@, opt_str(*parent)),
    decreases node,
{
    let ghost before = widgets_view(out@);
    let name = match &node.name {
        Some(given) => given.clone(),
        None => String::new(),
    };
    let here = Some(name.clone());
    let widget = Widget {
        name,
        ctor: node.ctor.clone(),
        ty: node.ty.clone(),
        parent: clone_opt_string(parent),
        attach: clone_opt_attach(&node.attach),
        properties: clone_properties(&node.properties),
        events: clone_events(&node.events),
        track: clone_opt_string(&node.track),
    };
    assert(widget@ == record(node@, opt_str(*parent)));
    out.push(widget);
    assert(widgets_view(out@) =~= before + seq![record(node@, opt_str(*parent))]);
    proof {
        lemma_children_view(node);
    }
    let mut i: usize = 0;
    while i < node.children.len()
        invariant
            i <= node.children.len(),
            node@.children == nodes_view(node.children@),
            opt_str(here) == Some(node_name(node@)),
            widgets_view(out@) == before + seq![record(node@, opt_str(*parent))] + flat_prefix(
                node@.children,
                node_name(node@),
                i as nat,
            ),
        decreases node.children.len() - i,
    {
        push_widgets(&node.children[i], &here, out);
        proof {
            let head = before + seq![record(node@, opt_str(*parent))];
            let front = flat_prefix(node@.children, node_name(node@), i as nat);
            let back = flat(node@.children[i as int], Some(node_name(node@)));
            assert(widgets_view(out@) == (head + front) + back);
            assert((head + front) + back =~= head + (front + back));
        }
        i = i + 1;
    }
    assert(widgets_view(out@) =~= before + flat(node@, opt_str(*parent)));
}

/// The widgets of a tree in the order in which they are to be built:
/// parents before children, siblings as they were written.
pub fn get_widget_list(tree: &WidgetNode) -> (list: Vec<Widget>)
    ensures
        widgets_view(list@) == flat(tree@, None),
        list@.len() >= 1,
        parents_first(widgets_view(list@)),
{
    proof {
        lemma_flat_rooted(tree@);
    }
    let mut list: Vec<Widget> = Vec::new();
    assert(widgets_view(list@) =~= Seq::<WidgetModel>::empty());
    push_widgets(tree, &None, &mut list);
    assert(Seq::<WidgetModel>::empty() + flat(tree@, None) =~= flat(tree@, None));
    list
}

/// Names the nodes that have no name and lists the widgets of the tree,
/// parents before children. Where no name is given to two nodes and no
/// given name starts with an underscore, every widget of the list has a
/// name of its own.
pub fn flatten(tree: &WidgetNode, names: &mut NameGen) -> (list: Vec<Widget>)
    ensures
        widgets_view(list@) == flat(named(tree@, Seq::empty(), old(names).value()), None),
        final(names).value() == old(names).value() + anon_count(tree@),
        list@.len() >= 1,
        parents_first(widgets_view(list@)),
        given_once(tree@) && given_without_underscore(tree@) ==> distinct_names(
            widgets_view(list@),
        ),
{
    proof {
        if given_once(tree@) && given_without_underscore(tree@) {
            lemma_names_distinct(tree@, names.value());
        }
    }
    let named_tree = assign_names(tree, names);
    get_widget_list(&named_tree)
}

} // verus!
