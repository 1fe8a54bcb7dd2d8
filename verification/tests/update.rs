use relm4_macros::emit::Update;
use relm4_macros::update::{apply_update, run_cycle, Call};

fn binding(widget: &str, setter: &str, value: &str, guard: Option<&str>) -> Update {
    Update {
        widget: widget.to_string(),
        setter: setter.to_string(),
        value: value.to_string(),
        guard: guard.map(|g| g.to_string()),
    }
}

fn call(widget: &str, setter: &str, value: &str) -> Call {
    Call { widget: widget.to_string(), setter: setter.to_string(), value: value.to_string() }
}

#[test]
fn a_watched_property_is_set_once_in_every_cycle() {
    let updates = vec![binding("label", "set_label", "&model.text", None)];
    for holds in [true, false] {
        for _cycle in 0..3 {
            assert_eq!(run_cycle(&updates, &vec![holds]), vec![call("label", "set_label", "&model.text")]);
        }
    }
}

#[test]
fn a_guard_that_does_not_hold_leaves_no_call() {
    let updates = vec![binding("label", "set_label", "&model.text", Some("model.changed()"))];
    assert_eq!(run_cycle(&updates, &vec![false]), Vec::<Call>::new());
    assert_eq!(run_cycle(&updates, &vec![true]), vec![call("label", "set_label", "&model.text")]);
}

#[test]
fn calls_come_in_the_order_of_the_bindings() {
    let updates = vec![
        binding("a", "set_x", "1", None),
        binding("b", "set_y", "2", Some("g1")),
        binding("c", "set_z", "3", Some("g2")),
        binding("a", "set_w", "4", None),
    ];
    assert_eq!(
        run_cycle(&updates, &vec![true, false, true, false]),
        vec![call("a", "set_x", "1"), call("c", "set_z", "3"), call("a", "set_w", "4")]
    );
    assert_eq!(
        run_cycle(&updates, &vec![false, true, false, false]),
        vec![call("a", "set_x", "1"), call("b", "set_y", "2"), call("a", "set_w", "4")]
    );
}

#[test]
fn a_cycle_without_bindings_makes_no_call() {
    assert_eq!(run_cycle(&Vec::new(), &Vec::new()), Vec::<Call>::new());
}

#[test]
fn one_binding_at_a_time() {
    let free = binding("a", "set_x", "1", None);
    let guarded = binding("b", "set_y", "2", Some("g"));
    assert_eq!(apply_update(&free, false), Some(call("a", "set_x", "1")));
    assert_eq!(apply_update(&free, true), Some(call("a", "set_x", "1")));
    assert_eq!(apply_update(&guarded, true), Some(call("b", "set_y", "2")));
    assert_eq!(apply_update(&guarded, false), None);
}

#[test]
fn a_guard_without_a_value_does_not_hold() {
    let updates = vec![
        binding("a", "set_x", "1", Some("g")),
        binding("b", "set_y", "2", None),
        binding("c", "set_z", "3", Some("h")),
    ];
    assert_eq!(run_cycle(&updates, &vec![true]), vec![call("a", "set_x", "1"), call("b", "set_y", "2")]);
    assert_eq!(run_cycle(&updates, &Vec::new()), vec![call("b", "set_y", "2")]);
    assert_eq!(
        run_cycle(&updates, &vec![true, true, true, true]),
        vec![call("a", "set_x", "1"), call("b", "set_y", "2"), call("c", "set_z", "3")]
    );
}
