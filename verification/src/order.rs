//! The order of the building routine: no statement uses a widget before
//! the statement that constructs it.

use vstd::prelude::*;
use crate::emit::{
    assign_stmts, attach_stmts, connect_stmts, construct_stmts, init_stmts, set_stmts,
    widget_assign_stmts, widget_connect_stmts, StmtModel,
};
use crate::flatten::{
    flat, lemma_flat_parents_first, lemma_flat_rooted, parents_first, WidgetModel,
};
use crate::tree::NodeModel;
use crate::unique::distinct_names;

verus! {

/// The statement constructs the widget `name`.
pub open spec fn constructs(stmt: StmtModel, name: Seq<char>) -> bool {
    match stmt {
        StmtModel::Construct { name: n, .. } => n == name,
        _ => false,
    }
}

/// A statement before position `p` constructs the widget `name`.
pub open spec fn constructed_before(stmts: Seq<StmtModel>, p: int, name: Seq<char>) -> bool {
    exists|i: int| 0 <= i < p && constructs(#[trigger] stmts[i], name)
}

/// Every widget that the statement at position `p` works on is constructed
/// by a statement before it.
pub open spec fn uses_constructed(stmts: Seq<StmtModel>, p: int) -> bool {
    match stmts[p] {
        StmtModel::Construct { .. } => true,
        StmtModel::Assign { widget, .. } => constructed_before(stmts, p, widget),
        StmtModel::Attach { parent, child, .. } => constructed_before(stmts, p, parent)
            && constructed_before(stmts, p, child),
        StmtModel::Connect { widget, .. } => constructed_before(stmts, p, widget),
    }
}

/// No statement works on a widget that is not yet constructed.
pub open spec fn defined_before_use(stmts: Seq<StmtModel>) -> bool {
    forall|p: int| 0 <= p < stmts.len() ==> uses_constructed(stmts, p)
}

/// The statement sets a property of the widget, adds it to its parent, or
/// connects one of its signals.
pub open spec fn belongs_to(stmt: StmtModel, w: WidgetModel) -> bool {
    match stmt {
        StmtModel::Construct { .. } => false,
        StmtModel::Assign { widget, .. } => widget == w.name,
        StmtModel::Attach { parent, child, .. } => child == w.name && w.parent == Some(parent),
        StmtModel::Connect { widget, .. } => widget == w.name,
    }
}

/// The statement belongs to one of the first `i` widgets of the list.
pub open spec fn belongs_within(stmt: StmtModel, list: Seq<WidgetModel>, i: int) -> bool {
    exists|q: int| 0 <= q < i && belongs_to(stmt, #[trigger] list[q])
}

proof fn lemma_set_stmts_belong(w: WidgetModel, i: nat)
    ensures
        forall|p: int|
            0 <= p < set_stmts(w.name, w.properties, i).len() ==> belongs_to(
                #[trigger] set_stmts(w.name, w.properties, i)[p],
                w,
            ),
    decreases i,
{
    if i == 0 || i > w.properties.len() {
    } else {
        lemma_set_stmts_belong(w, (i - 1) as nat);
        let front = set_stmts(w.name, w.properties, (i - 1) as nat);
        let all = set_stmts(w.name, w.properties, i);
        assert forall|p: int| 0 <= p < all.len() implies belongs_to(#[trigger] all[p], w) by {
            if p < front.len() {
                assert(all[p] == front[p]);
            }
        }
    }
}

proof fn lemma_assign_stmts_belong(list: Seq<WidgetModel>, i: nat)
    requires
        i <= list.len(),
    ensures
        forall|p: int|
            0 <= p < assign_stmts(list, i).len() ==> belongs_within(
                #[trigger] assign_stmts(list, i)[p],
                list,
                i as int,
            ),
    decreases i,
{
    if i > 0 {
        let front = assign_stmts(list, (i - 1) as nat);
        let w = list[i - 1];
        let own = widget_assign_stmts(w);
        let all = assign_stmts(list, i);
        lemma_assign_stmts_belong(list, (i - 1) as nat);
        lemma_set_stmts_belong(w, w.properties.len());
        assert forall|p: int| 0 <= p < all.len() implies belongs_within(
            #[trigger] all[p],
            list,
            i as int,
        ) by {
            if p < front.len() {
                assert(all[p] == front[p]);
                let q = choose|q: int| 0 <= q < i - 1 && belongs_to(front[p], #[trigger] list[q]);
                assert(belongs_to(all[p], list[q]));
            } else {
                let r = p - front.len();
                assert(all[p] == own[r]);
                let sets = set_stmts(w.name, w.properties, w.properties.len());
                if r < attach_stmts(w).len() {
                    assert(own[r] == attach_stmts(w)[r]);
                } else {
                    assert(own[r] == sets[r - attach_stmts(w).len()]);
                }
                assert(belongs_to(all[p], list[i - 1]));
            }
        }
    }
}

proof fn lemma_connect_stmts_belong(list: Seq<WidgetModel>, i: nat)
    requires
        i <= list.len(),
    ensures
        forall|p: int|
            0 <= p < connect_stmts(list, i).len() ==> belongs_within(
                #[trigger] connect_stmts(list, i)[p],
                list,
                i as int,
            ),
    decreases i,
{
    if i > 0 {
        let front = connect_stmts(list, (i - 1) as nat);
        let own = widget_connect_stmts(list[i - 1]);
        let all = connect_stmts(list, i);
        lemma_connect_stmts_belong(list, (i - 1) as nat);
        assert forall|p: int| 0 <= p < all.len() implies belongs_within(
            #[trigger] all[p],
            list,
            i as int,
        ) by {
            if p < front.len() {
                assert(all[p] == front[p]);
                let q = choose|q: int| 0 <= q < i - 1 && belongs_to(front[p], #[trigger] list[q]);
                assert(belongs_to(all[p], list[q]));
            } else {
                assert(all[p] == own[p - front.len()]);
                assert(belongs_to(all[p], list[i - 1]));
            }
        }
    }
}

/// In the building routine of a list in which parents come first, the
/// construction of the widget at position `i` of the list is the statement
/// at position `i`, every widget is constructed before its children are,
/// and every statement that sets a property of a widget, adds it to its
/// parent or connects one of its signals comes after the construction of
/// the widgets it works on.
pub proof fn lemma_list_defined_before_use(list: Seq<WidgetModel>)
    requires
        parents_first(list),
    ensures
        defined_before_use(init_stmts(list)),
        forall|i: int|
            0 <= i < list.len() ==> #[trigger] init_stmts(list)[i] == (StmtModel::Construct {
                name: list[i].name,
                ctor: list[i].ctor,
            }),
        forall|i: int|
            0 <= i < list.len() && (#[trigger] list[i]).parent is Some ==> constructed_before(
                init_stmts(list),
                i,
                list[i].parent->0,
            ),
{
    let n = list.len();
    let stmts = init_stmts(list);
    let building = construct_stmts(list);
    let setting = assign_stmts(list, n);
    let connecting = connect_stmts(list, n);
    lemma_assign_stmts_belong(list, n);
    lemma_connect_stmts_belong(list, n);
    assert forall|i: int| 0 <= i < n implies #[trigger] stmts[i] == (StmtModel::Construct {
        name: list[i].name,
        ctor: list[i].ctor,
    }) by {
        assert(stmts[i] == building[i]);
    }
    assert forall|i: int| 0 <= i < n && (#[trigger] list[i]).parent is Some implies constructed_before(
        stmts,
        i,
        list[i].parent->0,
    ) by {
        let j = choose|j: int| 0 <= j < i && (#[trigger] list[j]).name == list[i].parent->0;
        assert(constructs(stmts[j], list[i].parent->0));
    }
    assert forall|p: int| 0 <= p < stmts.len() implies uses_constructed(stmts, p) by {
        if p < n {
            assert(stmts[p] == building[p]);
        } else {
            if p < n + setting.len() {
                assert(stmts[p] == setting[p - n]);
            } else {
                assert(stmts[p] == connecting[p - n - setting.len()]);
            }
            let q = choose|q: int| 0 <= q < n && belongs_to(stmts[p], #[trigger] list[q]);
            assert(constructs(stmts[q], list[q].name));
            match stmts[p] {
                StmtModel::Attach { parent, child, .. } => {
                    let j = choose|j: int| 0 <= j < q && (#[trigger] list[j]).name == parent;
                    assert(constructs(stmts[j], parent));
                },
                _ => {},
            }
        }
    }
}

/// In the building routine of a tree, every widget is constructed before
/// the statements that set its properties, add it to its parent or connect
/// its signals, and before any of its children is constructed.
pub proof fn lemma_construction_precedes_use(tree: NodeModel)
    ensures
        defined_before_use(init_stmts(flat(tree, None))),
        forall|i: int|
            0 <= i < flat(tree, None).len() ==> #[trigger] init_stmts(flat(tree, None))[i] == (
            StmtModel::Construct { name: flat(tree, None)[i].name, ctor: flat(tree, None)[i].ctor }),
        forall|i: int|
            1 <= i < flat(tree, None).len() ==> (#[trigger] flat(tree, None)[i]).parent is Some
                && constructed_before(
                init_stmts(flat(tree, None)),
                i,
                flat(tree, None)[i].parent->0,
            ),
{
    let list = flat(tree, None);
    lemma_flat_rooted(tree);
    lemma_flat_parents_first(tree, None);
    lemma_list_defined_before_use(list);
}

/// No widget is constructed by two statements.
pub open spec fn constructed_once(stmts: Seq<StmtModel>) -> bool {
    forall|i: int, j: int, name: Seq<char>|
        #![trigger constructs(stmts[i], name), constructs(stmts[j], name)]
        0 <= i < j < stmts.len() && constructs(stmts[i], name) ==> !constructs(stmts[j], name)
}

/// In the building routine of a list of widgets with names of their own,
/// every widget is constructed by one statement only.
pub proof fn lemma_constructed_once(list: Seq<WidgetModel>)
    requires
        distinct_names(list),
    ensures
        constructed_once(init_stmts(list)),
{
    let n = list.len();
    let stmts = init_stmts(list);
    let building = construct_stmts(list);
    let setting = assign_stmts(list, n);
    let connecting = connect_stmts(list, n);
    lemma_assign_stmts_belong(list, n);
    lemma_connect_stmts_belong(list, n);
    assert forall|i: int, j: int, name: Seq<char>|
        #![trigger constructs(stmts[i], name), constructs(stmts[j], name)]
        0 <= i < j < stmts.len() && constructs(stmts[i], name) implies !constructs(
        stmts[j],
        name,
    ) by {
        if j < n {
            assert(stmts[i] == building[i]);
            assert(stmts[j] == building[j]);
            assert(list[i].name != list[j].name);
        } else {
            if j < n + setting.len() {
                assert(stmts[j] == setting[j - n]);
            } else {
                assert(stmts[j] == connecting[j - n - setting.len()]);
            }
            let q = choose|q: int| 0 <= q < n && belongs_to(stmts[j], #[trigger] list[q]);
            assert(belongs_to(stmts[j], list[q]));
        }
    }
}

} // verus!
