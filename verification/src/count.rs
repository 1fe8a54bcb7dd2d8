//! How many statements the sections hold, and where the statement of an
//! event or of a watched property stands.

use vstd::prelude::*;
use crate::emit::{
    connect_stmts, property_updates, update_list, widget_connect_stmts, StmtModel, UpdateModel,
};
use crate::flatten::WidgetModel;

verus! {

/// The number of events of the first `i` widgets of the list.
pub open spec fn event_count(list: Seq<WidgetModel>, i: nat) -> nat
    decreases i,
{
    if i == 0 || i > list.len() {
        0
    } else {
        event_count(list, (i - 1) as nat) + list[i - 1].events.len()
    }
}

/// The number of watched properties among the first `j` properties of a
/// widget.
pub open spec fn watched_among(w: WidgetModel, j: nat) -> nat
    decreases j,
{
    if j == 0 || j > w.properties.len() {
        0
    } else {
        watched_among(w, (j - 1) as nat) + (if w.properties[j - 1].watch {
            1nat
        } else {
            0nat
        })
    }
}

/// The number of watched properties of the first `i` widgets of the list.
pub open spec fn watched_count(list: Seq<WidgetModel>, i: nat) -> nat
    decreases i,
{
    if i == 0 || i > list.len() {
        0
    } else {
        watched_count(list, (i - 1) as nat) + watched_among(
            list[i - 1],
            list[i - 1].properties.len(),
        )
    }
}

/// The connection of the event at position `e` of a widget.
pub open spec fn connection_of(w: WidgetModel, e: int) -> StmtModel {
    StmtModel::Connect {
        widget: w.name,
        signal: w.events[e].signal,
        captured: w.events[e].captured,
        handler: w.events[e].handler,
    }
}

/// The binding of the property at position `p` of a widget.
pub open spec fn binding_of(w: WidgetModel, p: int) -> UpdateModel {
    UpdateModel {
        widget: w.name,
        setter: w.properties[p].setter,
        value: w.properties[p].value,
        guard: w.track,
    }
}

/// The connection section holds one statement for each event: as many
/// statements as the widgets have events.
pub proof fn lemma_connections_one_per_event(list: Seq<WidgetModel>, i: nat)
    requires
        i <= list.len(),
    ensures
        connect_stmts(list, i).len() == event_count(list, i),
    decreases i,
{
    if i > 0 {
        lemma_connections_one_per_event(list, (i - 1) as nat);
    }
}

/// The connection of the event `e` of the widget at position `w` stands
/// behind the connections of the widgets before it and of the events
/// before it: it connects the signal of this event, on this widget, to the
/// handler of this event with its captured variables.
pub proof fn lemma_connection_of_event(list: Seq<WidgetModel>, w: int, e: int, i: nat)
    requires
        0 <= w < i <= list.len(),
        0 <= e < list[w].events.len(),
    ensures
        event_count(list, w as nat) + e < connect_stmts(list, i).len(),
        connect_stmts(list, i)[event_count(list, w as nat) + e] == connection_of(list[w], e),
    decreases i,
{
    lemma_connections_one_per_event(list, (i - 1) as nat);
    lemma_connections_one_per_event(list, i);
    let front = connect_stmts(list, (i - 1) as nat);
    if w == i - 1 {
        assert(connect_stmts(list, i)[front.len() + e] == widget_connect_stmts(list[w])[e]);
    } else {
        lemma_connection_of_event(list, w, e, (i - 1) as nat);
        assert(connect_stmts(list, i)[event_count(list, w as nat) + e] == front[event_count(
            list,
            w as nat,
        ) + e]);
    }
}

/// A widget has as many bindings as watched properties.
pub proof fn lemma_bindings_of_widget(w: WidgetModel, j: nat)
    requires
        j <= w.properties.len(),
    ensures
        property_updates(w, j).len() == watched_among(w, j),
    decreases j,
{
    if j > 0 {
        lemma_bindings_of_widget(w, (j - 1) as nat);
    }
}

/// The binding of the watched property at position `p` of a widget stands
/// behind the bindings of the watched properties before it.
pub proof fn lemma_binding_of_property(w: WidgetModel, p: int, j: nat)
    requires
        0 <= p < j <= w.properties.len(),
        w.properties[p].watch,
    ensures
        watched_among(w, p as nat) < property_updates(w, j).len(),
        property_updates(w, j)[watched_among(w, p as nat) as int] == binding_of(w, p),
    decreases j,
{
    lemma_bindings_of_widget(w, (j - 1) as nat);
    lemma_bindings_of_widget(w, j);
    let front = property_updates(w, (j - 1) as nat);
    if p == j - 1 {
        assert(property_updates(w, j)[front.len() as int] == binding_of(w, p));
    } else {
        lemma_binding_of_property(w, p, (j - 1) as nat);
        assert(property_updates(w, j)[watched_among(w, p as nat) as int] == front[watched_among(
            w,
            p as nat,
        ) as int]);
    }
}

/// The update section holds one binding for each watched property: as
/// many bindings as the widgets have watched properties.
pub proof fn lemma_updates_one_per_watched(list: Seq<WidgetModel>, i: nat)
    requires
        i <= list.len(),
    ensures
        update_list(list, i).len() == watched_count(list, i),
    decreases i,
{
    if i > 0 {
        lemma_updates_one_per_watched(list, (i - 1) as nat);
        lemma_bindings_of_widget(list[i - 1], list[i - 1].properties.len());
    }
}

/// The binding of the watched property `p` of the widget at position `w`
/// stands behind the bindings of the widgets before it and of the watched
/// properties before it: it sets this property of this widget to the
/// watched expression, under the guard of the widget.
pub proof fn lemma_update_of_watched(list: Seq<WidgetModel>, w: int, p: int, i: nat)
    requires
        0 <= w < i <= list.len(),
        0 <= p < list[w].properties.len(),
        list[w].properties[p].watch,
    ensures
        watched_count(list, w as nat) + watched_among(list[w], p as nat) < update_list(
            list,
            i,
        ).len(),
        update_list(list, i)[(watched_count(list, w as nat) + watched_among(
            list[w],
            p as nat,
        )) as int] == binding_of(list[w], p),
    decreases i,
{
    lemma_updates_one_per_watched(list, (i - 1) as nat);
    lemma_updates_one_per_watched(list, i);
    let front = update_list(list, (i - 1) as nat);
    let at = (watched_count(list, w as nat) + watched_among(list[w], p as nat)) as int;
    if w == i - 1 {
        let own = property_updates(list[w], list[w].properties.len());
        lemma_binding_of_property(list[w], p, list[w].properties.len());
        assert(update_list(list, i)[at] == own[watched_among(list[w], p as nat) as int]);
    } else {
        lemma_update_of_watched(list, w, p, (i - 1) as nat);
        assert(update_list(list, i)[at] == front[at]);
    }
}

} // verus!
