use relm4_macros::flatten::{assign_names, flatten, get_widget_list, Widget};
use relm4_macros::names::NameGen;
use relm4_macros::tree::{Attach, Property, WidgetNode};
use relm4_macros::unique::has_distinct_names;

fn node(name: Option<&str>, ty: &str, attach: Option<&str>, children: Vec<WidgetNode>) -> WidgetNode {
    WidgetNode {
        name: name.map(|n| n.to_string()),
        ctor: format!("{}::default()", ty),
        ty: ty.to_string(),
        attach: attach.map(|m| Attach { method: m.to_string(), wrapper: None, by_ref: true }),
        properties: Vec::new(),
        events: Vec::new(),
        track: None,
        children,
    }
}

fn names_of(list: &[Widget]) -> Vec<String> {
    list.iter().map(|w| w.name.clone()).collect()
}

fn parents_of(list: &[Widget]) -> Vec<Option<String>> {
    list.iter().map(|w| w.parent.clone()).collect()
}

fn sample() -> WidgetNode {
    node(
        Some("window"),
        "Window",
        None,
        vec![
            node(
                None,
                "Box",
                Some("set_child"),
                vec![
                    node(None, "Button", Some("append"), vec![]),
                    node(Some("Label"), "Label", Some("append"), vec![node(None, "Image", Some("set_child"), vec![])]),
                ],
            ),
            node(None, "Box", Some("append"), vec![node(None, "Button", Some("append"), vec![])]),
        ],
    )
}

#[test]
fn names_come_from_the_ancestors_and_the_counter() {
    let mut names = NameGen::new();
    let named = assign_names(&sample(), &mut names);
    assert_eq!(named.name.as_deref(), Some("window"));
    let first = &named.children[0];
    assert_eq!(first.name.as_deref(), Some("_window_0"));
    assert_eq!(first.children[0].name.as_deref(), Some("_window__window_0_1"));
    assert_eq!(first.children[1].name.as_deref(), Some("Label"));
    assert_eq!(
        first.children[1].children[0].name.as_deref(),
        Some("_window__window_0_label_2")
    );
    let second = &named.children[1];
    assert_eq!(second.name.as_deref(), Some("_window_3"));
    assert_eq!(second.children[0].name.as_deref(), Some("_window__window_3_4"));
    assert_eq!(names.fresh(), "5");
}

#[test]
fn naming_changes_nothing_but_names() {
    let mut names = NameGen::new();
    let tree = sample();
    let named = assign_names(&tree, &mut names);
    assert_eq!(named.ty, tree.ty);
    assert_eq!(named.ctor, tree.ctor);
    assert_eq!(named.children.len(), tree.children.len());
    assert_eq!(named.children[0].attach, tree.children[0].attach);
    assert_eq!(named.children[0].children[1].ty, "Label");
}

#[test]
fn naming_twice_is_naming_once() {
    let mut names = NameGen::new();
    let once = assign_names(&sample(), &mut names);
    let twice = assign_names(&once, &mut names);
    assert_eq!(once, twice);
    // the second pass has used no counter value
    assert_eq!(names.fresh(), "5");
}

#[test]
fn given_names_are_kept() {
    let mut names = NameGen::new();
    let tree = node(Some("Root"), "Window", None, vec![node(Some("_root_0"), "Box", Some("append"), vec![])]);
    let named = assign_names(&tree, &mut names);
    assert_eq!(named, tree);
    assert_eq!(names.fresh(), "0");
}

#[test]
fn a_root_without_a_name_gets_the_bare_counter() {
    let mut names = NameGen::new();
    let named = assign_names(&node(None, "Window", None, vec![]), &mut names);
    assert_eq!(named.name.as_deref(), Some("_0"));
}

#[test]
fn made_names_are_distinct_where_branches_look_alike() {
    let mut names = NameGen::new();
    let twin = || node(None, "Box", Some("append"), vec![node(None, "Button", Some("append"), vec![])]);
    let tree = node(None, "Window", None, vec![twin(), twin(), twin()]);
    let list = flatten(&tree, &mut names);
    let got = names_of(&list);
    assert_eq!(got.len(), 7);
    for i in 0..got.len() {
        for j in 0..i {
            assert_ne!(got[i], got[j]);
        }
    }
}

#[test]
fn the_list_has_parents_before_children_and_siblings_in_order() {
    let mut names = NameGen::new();
    let list = flatten(&sample(), &mut names);
    assert_eq!(
        names_of(&list),
        vec![
            "window",
            "_window_0",
            "_window__window_0_1",
            "Label",
            "_window__window_0_label_2",
            "_window_3",
            "_window__window_3_4",
        ]
    );
    assert_eq!(
        parents_of(&list),
        vec![
            None,
            Some("window".to_string()),
            Some("_window_0".to_string()),
            Some("_window_0".to_string()),
            Some("Label".to_string()),
            Some("window".to_string()),
            Some("_window_3".to_string()),
        ]
    );
    for (i, widget) in list.iter().enumerate() {
        if let Some(parent) = &widget.parent {
            assert!(list[..i].iter().any(|w| &w.name == parent));
        }
    }
}

#[test]
fn the_list_keeps_what_the_nodes_hold() {
    let mut tree = node(Some("w"), "Window", None, vec![node(Some("b"), "Box", Some("set_child"), vec![])]);
    tree.properties.push(Property { setter: "set_title".to_string(), value: "\"x\"".to_string(), watch: false });
    tree.children[0].track = Some("model.changed()".to_string());
    let list = get_widget_list(&tree);
    assert_eq!(list.len(), 2);
    assert_eq!(list[0].properties, tree.properties);
    assert_eq!(list[0].ctor, "Window::default()");
    assert_eq!(list[0].attach, None);
    assert_eq!(list[1].ty, "Box");
    assert_eq!(list[1].track.as_deref(), Some("model.changed()"));
    assert_eq!(list[1].attach, Some(Attach { method: "set_child".to_string(), wrapper: None, by_ref: true }));
}

#[test]
fn a_node_without_a_name_is_listed_with_an_empty_name() {
    let list = get_widget_list(&node(None, "Window", None, vec![]));
    assert_eq!(list[0].name, "");
}

#[test]
fn names_that_are_given_once_and_start_with_a_letter_keep_the_list_distinct() {
    let mut names = NameGen::new();
    let list = flatten(&sample(), &mut names);
    assert!(has_distinct_names(&list));

    let twice = node(Some("a"), "W", None, vec![node(Some("b"), "X", Some("append"), vec![]), node(Some("a"), "Y", Some("append"), vec![])]);
    assert!(!has_distinct_names(&flatten(&twice, &mut names)));

    // a given name that looks like a made one can meet the made one
    let mut fresh = NameGen::new();
    let alike = node(Some("a"), "W", None, vec![node(None, "X", Some("append"), vec![]), node(Some("_a_0"), "Y", Some("append"), vec![])]);
    assert!(!has_distinct_names(&flatten(&alike, &mut fresh)));

    assert!(has_distinct_names(&Vec::new()));
}

#[test]
fn a_list_of_a_named_tree_uses_no_counter_value() {
    let mut names = NameGen::new();
    let tree = node(Some("a"), "W", None, vec![node(Some("b"), "X", Some("append"), vec![])]);
    let list = flatten(&tree, &mut names);
    assert_eq!(list, get_widget_list(&tree));
    assert_eq!(names.fresh(), "0");
}

#[test]
fn a_raw_name_above_gives_an_identifier_below() {
    let mut names = NameGen::new();
    let tree = node(Some("r#type"), "W", None, vec![node(None, "X", Some("append"), vec![node(None, "Y", Some("append"), vec![])])]);
    let list = flatten(&tree, &mut names);
    assert_eq!(names_of(&list), vec!["r#type", "_r_type_0", "_r_type__r_type_0_1"]);
    assert!(has_distinct_names(&list));
}
