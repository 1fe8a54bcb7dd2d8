//! One update cycle of a component: which setters are called when the
//! model has changed.

use vstd::prelude::*;
use crate::emit::{updates_view, Update, UpdateModel};

verus! {

/// A setter call that an update cycle makes: the widget, the setter and
/// the expression that is computed anew and handed to it.
#[derive(Debug, PartialEq, Eq)]
pub struct Call {
    pub widget: String,
    pub setter: String,
    pub value: String,
}

/// The view of [`Call`]: its texts as sequences of characters.
pub ghost struct CallModel {
    pub widget: Seq<char>,
    pub setter: Seq<char>,
    pub value: Seq<char>,
}

impl View for Call {
    type V = CallModel;

    open spec fn view(&self) -> CallModel {
        CallModel { widget: self.widget@, setter: self.setter@, value: self.value@ }
    }
}

/// The views of a sequence of calls.
pub open spec fn calls_view(v: Seq<Call>) -> Seq<CallModel> {
    v.map_values(|c: Call| c@)
}

/// The view of a call that may be missing.
pub open spec fn opt_call(c: Option<Call>) -> Option<CallModel> {
    match c {
        Some(call) => Some(call@),
        None => None,
    }
}

/// Whether a binding runs in a cycle in which its guard has the value
/// `guard_holds`: always where it has no guard, else where the guard holds.
pub open spec fn runs(update: UpdateModel, guard_holds: bool) -> bool {
    update.guard is None || guard_holds
}

/// The call that a binding makes when it runs.
pub open spec fn call_of(update: UpdateModel) -> CallModel {
    CallModel { widget: update.widget, setter: update.setter, value: update.value }
}

/// The value of the guard of the binding at position `i` in a cycle with
/// the guard values `holds`; a guard without a value does not hold.
pub open spec fn holds_at(holds: Seq<bool>, i: int) -> bool {
    0 <= i < holds.len() && holds[i]
}

/// The calls of the first `i` bindings in one cycle, in the order of the
/// bindings: one call for each binding that runs, none for the others.
pub open spec fn cycle_calls(updates: Seq<UpdateModel>, holds: Seq<bool>, i: nat) -> Seq<CallModel>
    decreases i,
{
    if i == 0 || i > updates.len() {
        Seq::empty()
    } else {
        cycle_calls(updates, holds, (i - 1) as nat) + (if runs(
            updates[i - 1],
            holds_at(holds, i - 1),
        ) {
            seq![call_of(updates[i - 1])]
        } else {
            Seq::empty()
        })
    }
}

/// The number of the first `i` bindings that run.
pub open spec fn running_count(updates: Seq<UpdateModel>, holds: Seq<bool>, i: nat) -> nat
    decreases i,
{
    if i == 0 || i > updates.len() {
        0
    } else {
        running_count(updates, holds, (i - 1) as nat) + (if runs(
            updates[i - 1],
            holds_at(holds, i - 1),
        ) {
            1nat
        } else {
            0nat
        })
    }
}

/// A cycle makes as many calls as bindings run: each running binding is
/// called once, and a binding whose guard does not hold is not called.
pub proof fn lemma_cycle_calls_once_each(updates: Seq<UpdateModel>, holds: Seq<bool>, i: nat)
    ensures
        cycle_calls(updates, holds, i).len() == running_count(updates, holds, i),
    decreases i,
{
    if i == 0 || i > updates.len() {
    } else {
        lemma_cycle_calls_once_each(updates, holds, (i - 1) as nat);
    }
}

/// Where every binding runs, the calls of a cycle are the calls of the
/// bindings, one for one and in their order.
pub proof fn lemma_cycle_all_running(updates: Seq<UpdateModel>, holds: Seq<bool>, i: nat)
    requires
        i <= updates.len(),
        forall|j: int| 0 <= j < i ==> runs(#[trigger] updates[j], holds_at(holds, j)),
    ensures
        cycle_calls(updates, holds, i) == Seq::new(i, |j: int| call_of(updates[j])),
    decreases i,
{
    if i > 0 {
        lemma_cycle_all_running(updates, holds, (i - 1) as nat);
        assert(runs(updates[i - 1], holds_at(holds, i - 1)));
        assert(cycle_calls(updates, holds, i) =~= Seq::new(i, |j: int| call_of(updates[j])));
    } else {
        assert(cycle_calls(updates, holds, i) =~= Seq::new(i, |j: int| call_of(updates[j])));
    }
}

/// The calls of a cycle do not depend on the bindings that do not run:
/// without the binding at position `skip`, whose guard does not hold, the
/// cycle makes the same calls.
pub proof fn lemma_cycle_skips_false_guard(
    updates: Seq<UpdateModel>,
    holds: Seq<bool>,
    skip: int,
    i: nat,
)
    requires
        updates.len() == holds.len(),
        0 <= skip < updates.len(),
        !runs(updates[skip], holds[skip]),
        skip < i <= updates.len(),
    ensures
        cycle_calls(updates, holds, i) == cycle_calls(
            updates.remove(skip),
            holds.remove(skip),
            (i - 1) as nat,
        ),
    decreases i,
{
    let fewer = updates.remove(skip);
    let fewer_holds = holds.remove(skip);
    if i == skip + 1 {
        lemma_cycle_prefix_only(updates, holds, fewer, fewer_holds, skip as nat);
    } else {
        lemma_cycle_skips_false_guard(updates, holds, skip, (i - 1) as nat);
        assert(fewer[i - 2] == updates[i - 1]);
        assert(fewer_holds[i - 2] == holds[i - 1]);
    }
}

/// The calls of the first `i` bindings depend on the first `i` bindings
/// and guard values only.
pub proof fn lemma_cycle_prefix_only(
    a: Seq<UpdateModel>,
    a_holds: Seq<bool>,
    b: Seq<UpdateModel>,
    b_holds: Seq<bool>,
    i: nat,
)
    requires
        i <= a.len(),
        i <= b.len(),
        i <= a_holds.len(),
        i <= b_holds.len(),
        forall|j: int| 0 <= j < i ==> a[j] == b[j] && a_holds[j] == b_holds[j],
    ensures
        cycle_calls(a, a_holds, i) == cycle_calls(b, b_holds, i),
    decreases i,
{
    if i > 0 {
        lemma_cycle_prefix_only(a, a_holds, b, b_holds, (i - 1) as nat);
    }
}

/// What one binding does in a cycle in which its guard has the value
/// `guard_holds`: the call it makes, or nothing.
pub fn apply_update(update: &Update, guard_holds: bool) -> (call: Option<Call>)
    ensures
        opt_call(call) == (if runs(update@, guard_holds) {
            Some(call_of(update@))
        } else {
            None
        }),
{
    if update.guard.is_none() || guard_holds {
        Some(
            Call {
                widget: update.widget.clone(),
                setter: update.setter.clone(),
                value: update.value.clone(),
            },
        )
    } else {
        None
    }
}

/// Runs one update cycle over the bindings, where `holds[i]` is the value
/// of the guard of the binding at position `i` in this cycle, and gives
/// the setter calls that the cycle makes, in their order. A guard for
/// which `holds` has no value counts as one that does not hold.
pub fn run_cycle(updates: &Vec<Update>, holds: &Vec<bool>) -> (calls: Vec<Call>)
    ensures
        calls_view(calls@) == cycle_calls(updates_view(updates@), holds@, updates@.len()),
{
    let mut calls: Vec<Call> = Vec::new();
    assert(calls_view(calls@) =~= Seq::<CallModel>::empty());
    let mut i: usize = 0;
    while i < updates.len()
        invariant
            i <= updates.len(),
            calls_view(calls@) == cycle_calls(updates_view(updates@), holds@, i as nat),
        decreases updates.len() - i,
    {
        let ghost sofar = calls_view(calls@);
        let guard_holds = i < holds.len() && holds[i];
        match apply_update(&updates[i], guard_holds) {
            Some(call) => {
                calls.push(call);
                assert(calls_view(calls@) =~= sofar + seq![call_of(updates@[i as int]@)]);
            },
            None => {
                assert(calls_view(calls@) =~= sofar + Seq::<CallModel>::empty());
            },
        }
        i = i + 1;
    }
    calls
}

} // verus!
