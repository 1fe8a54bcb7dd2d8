//! The names of the widgets of a component are pairwise distinct, where
//! no name is given twice and no given name starts like a made name.

use vstd::prelude::*;
use crate::flatten::{
    anon_count, anon_prefix, counter_past, flat, flat_prefix, name_given, named, node_name,
    widgets_view, Widget, WidgetModel,
};
use crate::names::{counter_of, joined, lemma_counter_of_snake_name, snake_name};
use crate::tree::NodeModel;

verus! {

/// The text starts with an underscore, as every made name does.
pub open spec fn starts_with_underscore(name: Seq<char>) -> bool {
    name.len() > 0 && name[0] == '_'
}

/// The names that were given to the nodes of a tree.
pub open spec fn given_set(node: NodeModel) -> Set<Seq<char>>
    decreases node, 0nat,
{
    (match node.name {
        Some(name) => set![name],
        None => Set::empty(),
    }).union(given_among(node.children, node.children.len()))
}

/// The names that were given to the nodes of the first `i` trees.
pub open spec fn given_among(nodes: Seq<NodeModel>, i: nat) -> Set<Seq<char>>
    decreases nodes, i,
{
    if i == 0 || i > nodes.len() {
        Set::empty()
    } else {
        given_among(nodes, (i - 1) as nat).union(given_set(nodes[i - 1]))
    }
}

/// No name is given to two nodes of the tree.
pub open spec fn given_once(node: NodeModel) -> bool
    decreases node,
{
    &&& node.name matches Some(name) ==> !given_among(node.children, node.children.len()).contains(
        name,
    )
    &&& forall|i: int| 0 <= i < node.children.len() ==> given_once(#[trigger] node.children[i])
    &&& forall|i: int, j: int|
        0 <= i < j < node.children.len() ==> given_set(#[trigger] node.children[i]).disjoint(
            given_set(#[trigger] node.children[j]),
        )
}

/// No name that was given to a node of the tree starts with an underscore.
pub open spec fn given_without_underscore(node: NodeModel) -> bool {
    forall|name: Seq<char>| #[trigger] given_set(node).contains(name) ==> !starts_with_underscore(name)
}

/// The names of the list are pairwise distinct.
pub open spec fn distinct_names(list: Seq<WidgetModel>) -> bool {
    forall|i: int, j: int|
        0 <= i < j < list.len() ==> (#[trigger] list[i]).name != (#[trigger] list[j]).name
}

/// The name is one that the first `m` of the trees can have once they are
/// named from the counter value `from` on: a name that was given to one of
/// their nodes, or a name that starts with an underscore and carries one
/// of the counter values that their nodes without a name take.
pub open spec fn owned_among(name: Seq<char>, nodes: Seq<NodeModel>, from: nat, m: nat) -> bool {
    ||| given_among(nodes, m).contains(name) && !starts_with_underscore(name)
    ||| starts_with_underscore(name) && from <= counter_of(name) < from + anon_prefix(nodes, m)
}

/// The name is one that the tree can have once it is named from the
/// counter value `k` on.
pub open spec fn owned(name: Seq<char>, node: NodeModel, k: nat) -> bool {
    ||| given_set(node).contains(name) && !starts_with_underscore(name)
    ||| starts_with_underscore(name) && k <= counter_of(name) < k + anon_count(node)
}

/// Joined fragments, where there are any, start with an underscore.
pub proof fn lemma_joined_starts_with_underscore(fragments: Seq<Seq<char>>)
    requires
        fragments.len() > 0,
    ensures
        starts_with_underscore(joined(fragments)),
    decreases fragments.len(),
{
    if fragments.len() > 1 {
        lemma_joined_starts_with_underscore(fragments.drop_last());
    } else {
        assert(joined(fragments.drop_last()) =~= Seq::<char>::empty());
    }
}

/// A made name starts with an underscore and carries its counter value,
/// whatever the fragments are.
pub proof fn lemma_made_name_shape(ancestors: Seq<Seq<char>>, k: nat)
    ensures
        starts_with_underscore(snake_name(ancestors, k)),
        counter_of(snake_name(ancestors, k)) == k,
{
    lemma_counter_of_snake_name(ancestors, k);
    if ancestors.len() > 0 {
        lemma_joined_starts_with_underscore(ancestors);
    }
}

/// A name that was given among the first `i` trees was given in one of
/// them, and the other way round.
pub proof fn lemma_given_among(nodes: Seq<NodeModel>, i: nat, name: Seq<char>)
    requires
        i <= nodes.len(),
    ensures
        given_among(nodes, i).contains(name) <==> exists|c: int|
            0 <= c < i && given_set(#[trigger] nodes[c]).contains(name),
    decreases i,
{
    if i > 0 {
        lemma_given_among(nodes, (i - 1) as nat, name);
        if given_among(nodes, (i - 1) as nat).contains(name) {
            let c = choose|c: int| 0 <= c < i - 1 && given_set(#[trigger] nodes[c]).contains(name);
            assert(given_set(nodes[c]).contains(name));
        }
        if given_set(nodes[i - 1]).contains(name) {
            assert(given_among(nodes, i).contains(name));
        }
    }
}

/// The names of the widgets of the first `m` children of a node, once it
/// is named, are names that these children can have; and they are
/// pairwise distinct where no name is given twice and none starts with an
/// underscore.
pub proof fn lemma_children_names(
    node: NodeModel,
    ancestors: Seq<Seq<char>>,
    k: nat,
    m: nat,
)
    requires
        m <= node.children.len(),
        given_without_underscore(node),
    ensures
        ({
            let list = flat_prefix(
                named(node, ancestors, k).children,
                name_given(node, ancestors, k),
                m,
            );
            &&& forall|p: int|
                0 <= p < list.len() ==> owned_among(
                    (#[trigger] list[p]).name,
                    node.children,
                    counter_past(node, k),
                    m,
                )
            &&& given_once(node) ==> distinct_names(list)
        }),
    decreases node, m,
{
    if m > 0 {
        let out = named(node, ancestors, k);
        let name = name_given(node, ancestors, k);
        let start = counter_past(node, k);
        let from = start + anon_prefix(node.children, (m - 1) as nat);
        let child = node.children[m - 1];
        let front = flat_prefix(out.children, name, (m - 1) as nat);
        let back = flat(out.children[m - 1], Some(name));
        let list = flat_prefix(out.children, name, m);
        assert(out.children[m - 1] == named(child, ancestors.push(name), from));
        assert(list == front + back);
        assert(given_without_underscore(child)) by {
            assert forall|n: Seq<char>| #[trigger] given_set(child).contains(n) implies !starts_with_underscore(
                n,
            ) by {
                lemma_given_among(node.children, node.children.len(), n);
                assert(given_set(node).contains(n));
            }
        }
        lemma_children_names(node, ancestors, k, (m - 1) as nat);
        lemma_tree_names(child, ancestors.push(name), from, Some(name));
        assert forall|p: int| 0 <= p < list.len() implies owned_among(
            (#[trigger] list[p]).name,
            node.children,
            start,
            m,
        ) by {
            if p < front.len() {
                assert(list[p] == front[p]);
                assert(owned_among(front[p].name, node.children, start, (m - 1) as nat));
            } else {
                assert(list[p] == back[p - front.len()]);
                assert(owned(back[p - front.len()].name, child, from));
            }
        }
        if given_once(node) {
            assert(given_once(child));
            assert forall|i: int, j: int| 0 <= i < j < list.len() implies (#[trigger] list[i]).name
                != (#[trigger] list[j]).name by {
                if j < front.len() {
                    assert(list[i] == front[i] && list[j] == front[j]);
                } else if i >= front.len() {
                    assert(list[i] == back[i - front.len()] && list[j] == back[j - front.len()]);
                } else {
                    let a = front[i].name;
                    let b = back[j - front.len()].name;
                    assert(list[i] == front[i] && list[j] == back[j - front.len()]);
                    assert(owned_among(a, node.children, start, (m - 1) as nat));
                    assert(owned(b, child, from));
                    if a == b {
                        if !starts_with_underscore(a) {
                            lemma_given_among(node.children, (m - 1) as nat, a);
                            let c = choose|c: int|
                                0 <= c < m - 1 && given_set(#[trigger] node.children[c]).contains(a);
                            assert(given_set(node.children[c]).disjoint(
                                given_set(node.children[m - 1]),
                            ));
                        }
                    }
                }
            }
        }
    }
}

/// The names of the widgets of a tree, once it is named, are names that
/// the tree can have; and they are pairwise distinct where no name is
/// given twice and none starts with an underscore.
pub proof fn lemma_tree_names(
    node: NodeModel,
    ancestors: Seq<Seq<char>>,
    k: nat,
    parent: Option<Seq<char>>,
)
    requires
        given_without_underscore(node),
    ensures
        ({
            let list = flat(named(node, ancestors, k), parent);
            &&& forall|p: int| 0 <= p < list.len() ==> owned((#[trigger] list[p]).name, node, k)
            &&& given_once(node) ==> distinct_names(list)
        }),
    decreases node, node.children.len() + 1,
{
    let out = named(node, ancestors, k);
    let name = name_given(node, ancestors, k);
    let start = counter_past(node, k);
    let list = flat(out, parent);
    let rest = flat_prefix(out.children, name, node.children.len());
    lemma_children_names(node, ancestors, k, node.children.len());
    assert(node_name(out) == name);
    assert(out.children.len() == node.children.len());
    assert(list[0].name == name);
    if node.name is None {
        lemma_made_name_shape(ancestors, k);
    } else {
        assert(given_set(node).contains(name));
    }
    assert(owned(name, node, k));
    assert forall|p: int| 0 <= p < list.len() implies owned((#[trigger] list[p]).name, node, k) by {
        if p > 0 {
            assert(list[p] == rest[p - 1]);
            assert(owned_among(rest[p - 1].name, node.children, start, node.children.len()));
        }
    }
    if given_once(node) {
        assert forall|i: int, j: int| 0 <= i < j < list.len() implies (#[trigger] list[i]).name
            != (#[trigger] list[j]).name by {
            assert(list[j] == rest[j - 1]);
            assert(owned_among(rest[j - 1].name, node.children, start, node.children.len()));
            if i > 0 {
                assert(list[i] == rest[i - 1]);
            }
        }
    }
}

/// Every widget of a component has a name of its own, where no name is
/// given to two nodes of the tree and no given name starts with an
/// underscore: the made names differ from one another by their counter
/// values and from the given names by the underscore they start with.
pub proof fn lemma_names_distinct(tree: NodeModel, k: nat)
    requires
        given_once(tree),
        given_without_underscore(tree),
    ensures
        distinct_names(flat(named(tree, Seq::empty(), k), None)),
{
    lemma_tree_names(tree, Seq::empty(), k, None);
}

/// Whether the names of the list are pairwise distinct.
pub fn has_distinct_names(list: &Vec<Widget>) -> (r: bool)
    ensures
        r == distinct_names(widgets_view(list@)),
{
    let ghost view = widgets_view(list@);
    let mut j: usize = 0;
    while j < list.len()
        invariant
            j <= list.len(),
            view == widgets_view(list@),
            forall|a: int, b: int| 0 <= a < b < j ==> (#[trigger] view[a]).name != (
            #[trigger] view[b]).name,
        decreases list.len() - j,
    {
        let mut i: usize = 0;
        while i < j
            invariant
                i <= j < list.len(),
                view == widgets_view(list@),
                forall|a: int| 0 <= a < i ==> (#[trigger] view[a]).name != view[j as int].name,
            decreases j - i,
        {
            if list[i].name.eq(&list[j].name) {
                assert(view[i as int].name == view[j as int].name);
                return false;
            }
            i = i + 1;
        }
        j = j + 1;
    }
    true
}

} // verus!
