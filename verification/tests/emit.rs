use relm4_macros::emit::{
    assignments, connections, constructions, struct_fields, updates, Field, Stmt, Update,
};
use relm4_macros::flatten::get_widget_list;
use relm4_macros::tree::{Attach, Event, Property, WidgetNode};

fn s(text: &str) -> String {
    text.to_string()
}

fn property(setter: &str, value: &str, watch: bool) -> Property {
    Property { setter: s(setter), value: s(value), watch }
}

fn tree() -> WidgetNode {
    let label = WidgetNode {
        name: Some(s("l")),
        ctor: s("gtk::Label::with_text(\"x\")"),
        ty: s("gtk::Label"),
        attach: Some(Attach { method: s("append"), wrapper: None, by_ref: true }),
        properties: vec![property("set_label", "&model.text", true)],
        events: vec![],
        track: None,
        children: vec![],
    };
    let boxed = WidgetNode {
        name: Some(s("b")),
        ctor: s("gtk::Box::default()"),
        ty: s("gtk::Box"),
        attach: Some(Attach { method: s("set_child"), wrapper: Some(s("Some")), by_ref: true }),
        properties: vec![property("set_x", "model.x", true), property("set_spacing", "5", false)],
        events: vec![],
        track: Some(s("model.dirty")),
        children: vec![label],
    };
    WidgetNode {
        name: Some(s("win")),
        ctor: s("gtk::Window::default()"),
        ty: s("gtk::Window"),
        attach: None,
        properties: vec![property("set_title", "\"t\"", false), property("set_w", "model.w", true)],
        events: vec![
            Event { signal: s("connect_close"), captured: vec![s("sender")], handler: s("move |_| {}") },
            Event { signal: s("connect_show"), captured: vec![], handler: s("|_| ()") },
        ],
        track: None,
        children: vec![boxed],
    }
}

#[test]
fn one_field_for_each_widget_then_the_additional_fields() {
    let list = get_widget_list(&tree());
    let additional = vec![Field { name: s("count"), ty: s("u8"), written: Some(s("pub")) }];
    assert_eq!(
        struct_fields(&list, &additional),
        vec![
            Field { name: s("win"), ty: s("gtk::Window"), written: None },
            Field { name: s("b"), ty: s("gtk::Box"), written: None },
            Field { name: s("l"), ty: s("gtk::Label"), written: None },
            Field { name: s("count"), ty: s("u8"), written: Some(s("pub")) },
        ]
    );
    assert_eq!(struct_fields(&Vec::new(), &Vec::new()), Vec::<Field>::new());
}

#[test]
fn one_construction_for_each_widget_in_the_order_of_the_list() {
    let list = get_widget_list(&tree());
    assert_eq!(
        constructions(&list),
        vec![
            Stmt::Construct { name: s("win"), ctor: s("gtk::Window::default()") },
            Stmt::Construct { name: s("b"), ctor: s("gtk::Box::default()") },
            Stmt::Construct { name: s("l"), ctor: s("gtk::Label::with_text(\"x\")") },
        ]
    );
}

#[test]
fn the_property_section_attaches_each_child_and_sets_what_is_not_watched() {
    let list = get_widget_list(&tree());
    assert_eq!(
        assignments(&list),
        vec![
            Stmt::Assign { widget: s("win"), setter: s("set_title"), value: s("\"t\"") },
            Stmt::Attach {
                parent: s("win"),
                method: s("set_child"),
                wrapper: Some(s("Some")),
                by_ref: true,
                child: s("b"),
            },
            Stmt::Assign { widget: s("b"), setter: s("set_spacing"), value: s("5") },
            Stmt::Attach {
                parent: s("b"),
                method: s("append"),
                wrapper: None,
                by_ref: true,
                child: s("l"),
            },
        ]
    );
}

#[test]
fn one_connection_for_each_event() {
    let list = get_widget_list(&tree());
    assert_eq!(
        connections(&list),
        vec![
            Stmt::Connect {
                widget: s("win"),
                signal: s("connect_close"),
                captured: vec![s("sender")],
                handler: s("move |_| {}"),
            },
            Stmt::Connect {
                widget: s("win"),
                signal: s("connect_show"),
                captured: vec![],
                handler: s("|_| ()"),
            },
        ]
    );
}

#[test]
fn one_binding_for_each_watched_property_under_the_guard_of_its_widget() {
    let list = get_widget_list(&tree());
    assert_eq!(
        updates(&list),
        vec![
            Update { widget: s("win"), setter: s("set_w"), value: s("model.w"), guard: None },
            Update {
                widget: s("b"),
                setter: s("set_x"),
                value: s("model.x"),
                guard: Some(s("model.dirty")),
            },
            Update { widget: s("l"), setter: s("set_label"), value: s("&model.text"), guard: None },
        ]
    );
}

#[test]
fn a_root_with_a_way_to_be_attached_is_not_attached() {
    let mut root = tree();
    root.children.clear();
    root.attach = Some(Attach { method: s("append"), wrapper: None, by_ref: false });
    let list = get_widget_list(&root);
    assert_eq!(
        assignments(&list),
        vec![Stmt::Assign { widget: s("win"), setter: s("set_title"), value: s("\"t\"") }]
    );
}

fn constructed_before(stmts: &[Stmt], at: usize, name: &str) -> bool {
    stmts[..at].iter().any(|stmt| matches!(stmt, Stmt::Construct { name: n, .. } if n == name))
}

#[test]
fn every_widget_is_constructed_before_it_is_used() {
    let list = get_widget_list(&tree());
    let mut stmts = constructions(&list);
    stmts.extend(assignments(&list));
    stmts.extend(connections(&list));
    assert_eq!(stmts.len(), 9);
    for (at, stmt) in stmts.iter().enumerate() {
        match stmt {
            Stmt::Construct { .. } => {}
            Stmt::Assign { widget, .. } => assert!(constructed_before(&stmts, at, widget)),
            Stmt::Attach { parent, child, .. } => {
                assert!(constructed_before(&stmts, at, parent));
                assert!(constructed_before(&stmts, at, child));
            }
            Stmt::Connect { widget, .. } => assert!(constructed_before(&stmts, at, widget)),
        }
    }
    for (at, widget) in list.iter().enumerate() {
        assert_eq!(stmts[at], Stmt::Construct { name: widget.name.clone(), ctor: widget.ctor.clone() });
        if let Some(parent) = &widget.parent {
            assert!(constructed_before(&stmts, at, parent));
        }
    }
}
