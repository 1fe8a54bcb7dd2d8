use relm4_macros::error::{Error, ErrorKind, Span};
use relm4_macros::lex::lex;
use relm4_macros::parse::parse_view;
use relm4_macros::token::{locate, render_tokens, Token};
use relm4_macros::tree::{Attach, Event, Property, WidgetNode};

fn s(text: &str) -> String {
    text.to_string()
}

fn tokens(src: &str) -> Vec<Token> {
    locate(&lex(src).unwrap())
}

const NOWHERE: Span = Span { start: 77, end: 78 };

fn parse(src: &str) -> Result<WidgetNode, Error> {
    parse_view(&tokens(src), NOWHERE)
}

fn widget_error(start: usize, end: usize) -> Error {
    Error { kind: ErrorKind::WidgetSyntax, span: Span { start, end } }
}

fn event_error(start: usize, end: usize) -> Error {
    Error { kind: ErrorKind::EventSyntax, span: Span { start, end } }
}

fn leaf(ty: &str) -> WidgetNode {
    WidgetNode {
        name: None,
        ctor: format!("{}::default()", ty),
        ty: s(ty),
        attach: None,
        properties: vec![],
        events: vec![],
        track: None,
        children: vec![],
    }
}

#[test]
fn places_count_tokens_and_groups_cover_their_brackets() {
    let t = tokens("a ( b , c ) d");
    assert_eq!(t.len(), 3);
    assert_eq!(t[0].span(), Span { start: 0, end: 1 });
    assert_eq!(t[1].span(), Span { start: 1, end: 6 });
    assert_eq!(t[2].span(), Span { start: 6, end: 7 });
    match &t[1] {
        Token::Group { inner, .. } => {
            assert_eq!(inner[0].span(), Span { start: 2, end: 3 });
            assert_eq!(inner[2].span(), Span { start: 4, end: 5 });
        }
        other => panic!("{:?}", other),
    }
}

#[test]
fn text_has_one_space_between_tokens_and_none_behind_a_joint_mark() {
    assert_eq!(render_tokens(&tokens("gtk::Orientation::Vertical")), "gtk :: Orientation :: Vertical");
    assert_eq!(render_tokens(&tokens("&format!(\"Counter: {}\", model.counter)")), "& format ! (\"Counter: {}\" , model . counter)");
    assert_eq!(render_tokens(&tokens("|a| -> u8 { a += 1; a }")), "| a | -> u8 {a += 1 ; a}");
    assert_eq!(render_tokens(&tokens("x[0] <= 'a'")), "x [0] <= 'a'");
    assert_eq!(render_tokens(&tokens("")), "");
}

#[test]
fn a_bare_type_constructs_its_default() {
    assert_eq!(parse("gtk::Box {}"), Ok(leaf("gtk::Box")));
    assert_eq!(parse("Window { }"), Ok(leaf("Window")));
}

#[test]
fn a_widget_may_be_given_a_name() {
    let mut want = leaf("gtk::Box");
    want.name = Some(s("main_box"));
    assert_eq!(parse("main_box = gtk::Box {}"), Ok(want));
}

#[test]
fn a_constructor_call_has_the_type_before_its_last_segment() {
    let mut want = leaf("gtk::Button");
    want.ctor = s("gtk::Button::with_label(\"Go\" , 2)");
    assert_eq!(parse("gtk::Button::with_label(\"Go\", 2) {}"), Ok(want));
    let mut want = leaf("button");
    want.ctor = s("button()");
    assert_eq!(parse("button() {}"), Ok(want));
}

#[test]
fn a_constructor_call_may_name_its_type() {
    let mut want = leaf("gtk::Button");
    want.ctor = s("make_button(5)");
    assert_eq!(parse("make_button(5) -> gtk::Button {}"), Ok(want));
}

#[test]
fn properties_events_children_and_guard() {
    let src = r#"
        win = gtk::Window {
            set_title: Some("x"),
            set_child = Some(&gtk::Box) {
                append = l = &gtk::Label {
                    set_label: watch! { &model.text },
                    track! { model.changed() },
                },
                append = gtk::Button::with_label("Go") {
                    set_width: 3
                }
            },
            connect_close(sender, other) => move |a, b| { go(a, b) },
        }
    "#;
    let label = WidgetNode {
        name: Some(s("l")),
        ctor: s("gtk::Label::default()"),
        ty: s("gtk::Label"),
        attach: Some(Attach { method: s("append"), wrapper: None, by_ref: true }),
        properties: vec![Property { setter: s("set_label"), value: s("& model . text"), watch: true }],
        events: vec![],
        track: Some(s("model . changed ()")),
        children: vec![],
    };
    let button = WidgetNode {
        name: None,
        ctor: s("gtk::Button::with_label(\"Go\")"),
        ty: s("gtk::Button"),
        attach: Some(Attach { method: s("append"), wrapper: None, by_ref: false }),
        properties: vec![Property { setter: s("set_width"), value: s("3"), watch: false }],
        events: vec![],
        track: None,
        children: vec![],
    };
    let boxed = WidgetNode {
        name: None,
        ctor: s("gtk::Box::default()"),
        ty: s("gtk::Box"),
        attach: Some(Attach { method: s("set_child"), wrapper: Some(s("Some")), by_ref: true }),
        properties: vec![],
        events: vec![],
        track: None,
        children: vec![label, button],
    };
    let want = WidgetNode {
        name: Some(s("win")),
        ctor: s("gtk::Window::default()"),
        ty: s("gtk::Window"),
        attach: None,
        properties: vec![Property { setter: s("set_title"), value: s("Some (\"x\")"), watch: false }],
        events: vec![Event {
            signal: s("connect_close"),
            captured: vec![s("sender"), s("other")],
            handler: s("move | a , b | {go (a , b)}"),
        }],
        track: None,
        children: vec![boxed],
    };
    assert_eq!(parse(src), Ok(want));
}

#[test]
fn an_event_may_capture_nothing() {
    let got = parse("W { connect_x() => || (), connect_y(a,) => |_| 1 }").unwrap();
    assert_eq!(
        got.events,
        vec![
            Event { signal: s("connect_x"), captured: vec![], handler: s("|| ()") },
            Event { signal: s("connect_y"), captured: vec![s("a")], handler: s("| _ | 1") },
        ]
    );
}

#[test]
fn a_block_without_a_type_is_an_error_at_the_block() {
    // the block is the first token of the view and covers five tokens
    assert_eq!(parse("{ set_title: \"x\" }"), Err(widget_error(0, 5)));
    assert_eq!(parse("name = { }"), Err(widget_error(0, 4)));
}

#[test]
fn nothing_is_an_error_at_the_place_that_was_given() {
    assert_eq!(parse(""), Err(Error { kind: ErrorKind::WidgetSyntax, span: NOWHERE }));
}

#[test]
fn a_widget_without_a_block_is_an_error_at_the_widget() {
    assert_eq!(parse("gtk::Window"), Err(widget_error(0, 4)));
    assert_eq!(parse("gtk::Window()"), Err(widget_error(0, 6)));
    assert_eq!(parse("gtk::Window [ ]"), Err(widget_error(0, 6)));
}

#[test]
fn what_is_no_path_is_an_error_at_the_widget() {
    assert_eq!(parse("gtk:: {}"), Err(widget_error(0, 5)));
    assert_eq!(parse("5 {}"), Err(widget_error(0, 3)));
    assert_eq!(parse("gtk::Window extra {}"), Err(widget_error(0, 7)));
    assert_eq!(parse("make() -> {}"), Err(widget_error(0, 7)));
    assert_eq!(parse("Some(&5) {}"), Err(widget_error(0, 7)));
}

#[test]
fn an_item_that_is_none_is_an_error_at_the_item() {
    // gtk :: Window { set_title }
    // 0   12 3      4 5         6
    assert_eq!(parse("gtk::Window { set_title }"), Err(widget_error(5, 6)));
    assert_eq!(parse("gtk::Window { set_title: }"), Err(widget_error(5, 7)));
    assert_eq!(parse("gtk::Window { 5: 6 }"), Err(widget_error(5, 8)));
    assert_eq!(parse("gtk::Window { set_a: 1, set_b 2 }"), Err(widget_error(9, 11)));
    assert_eq!(parse("gtk::Window { set_a: watch! {} }"), Err(widget_error(5, 11)));
}

#[test]
fn an_item_without_tokens_is_an_error_at_its_comma() {
    assert_eq!(parse("gtk::Window { , }"), Err(widget_error(5, 6)));
    assert_eq!(parse("gtk::Window { set_a: 1,, }"), Err(widget_error(9, 10)));
}

#[test]
fn a_second_guard_is_an_error() {
    assert_eq!(parse("W { track!(a), track!(b) }"), Err(widget_error(8, 13)));
    assert_eq!(parse("W { track!() }"), Err(widget_error(2, 6)));
    assert_eq!(parse("W { other!(a) }"), Err(widget_error(2, 7)));
}

#[test]
fn a_handler_that_is_no_closure_is_an_event_error() {
    // gtk :: Window { connect_x ( sender ) = > 5 }
    // 0   12 3      4 5         6 7      8 9 10 11
    assert_eq!(parse("gtk::Window { connect_x(sender) => 5 }"), Err(event_error(5, 12)));
    assert_eq!(parse("gtk::Window { connect_x(sender) => move |a| }"), Err(event_error(5, 15)));
    assert_eq!(parse("gtk::Window { connect_x(sender) => }"), Err(event_error(5, 11)));
}

#[test]
fn a_capture_list_that_is_none_is_an_event_error() {
    assert_eq!(parse("W { connect_x(1) => |_| () }"), Err(event_error(2, 13)));
    assert_eq!(parse("W { connect_x(a b) => |_| () }"), Err(event_error(2, 14)));
    assert_eq!(parse("W { connect_x(,) => |_| () }"), Err(event_error(2, 13)));
}

#[test]
fn an_event_without_its_arrow_is_an_event_error() {
    assert_eq!(parse("W { connect_x(a) |_| () }"), Err(event_error(2, 11)));
    assert_eq!(parse("W { connect_x(a) }"), Err(event_error(2, 6)));
}

#[test]
fn an_error_in_a_child_is_at_the_child() {
    // W { append = { } }
    // 0 1 2      3 4 5 6
    assert_eq!(parse("W { append = { } }"), Err(widget_error(4, 6)));
    // nothing behind the sign: the error is at the sign
    assert_eq!(parse("W { append = }"), Err(widget_error(3, 4)));
    assert_eq!(parse("W { append = X { set_a } }"), Err(widget_error(6, 7)));
}

#[test]
fn marks_may_stand_close_to_what_follows_them() {
    let got = parse("w=W{set_x:&y,set_p: ::std::f(),append=c=&X{},connect_x(a)=>|_|(),}").unwrap();
    assert_eq!(got.name.as_deref(), Some("w"));
    assert_eq!(
        got.properties,
        vec![
            Property { setter: s("set_x"), value: s("& y"), watch: false },
            Property { setter: s("set_p"), value: s(":: std :: f ()"), watch: false },
        ]
    );
    assert_eq!(got.children.len(), 1);
    assert_eq!(got.children[0].name.as_deref(), Some("c"));
    assert_eq!(
        got.children[0].attach,
        Some(Attach { method: s("append"), wrapper: None, by_ref: true })
    );
    assert_eq!(
        got.events,
        vec![Event { signal: s("connect_x"), captured: vec![s("a")], handler: s("| _ | ()") }]
    );
}

#[test]
fn a_path_is_no_property() {
    // `a::b` is neither a setter with a value nor anything else
    assert_eq!(parse("W { a::b }"), Err(widget_error(2, 6)));
    assert_eq!(parse("W { a == b }"), Err(widget_error(2, 6)));
}

#[test]
fn texts_outside_ascii_pass_through() {
    let got = parse("Ärger = W { set_label: \"Grüße, 世界\" }").unwrap();
    assert_eq!(got.name.as_deref(), Some("Ärger"));
    assert_eq!(
        got.properties,
        vec![Property { setter: s("set_label"), value: s("\"Grüße, 世界\""), watch: false }]
    );
}

#[test]
fn any_expression_constructs_a_widget_whose_type_is_written() {
    let mut want = leaf("gtk::Button");
    want.ctor = s("builder . object (\"go\") . unwrap ()");
    assert_eq!(parse("builder.object(\"go\").unwrap() -> gtk::Button {}"), Ok(want));

    let got = parse("W { set_child = Some(&self.pages[0].clone() -> gtk::Box) {} }").unwrap();
    assert_eq!(got.children[0].ctor, "self . pages [0] . clone ()");
    assert_eq!(got.children[0].ty, "gtk::Box");
    assert_eq!(
        got.children[0].attach,
        Some(Attach { method: s("set_child"), wrapper: Some(s("Some")), by_ref: true })
    );

    // the first arrow that a path follows to the end divides the two
    let got = parse("a.b() -> X {}").unwrap();
    assert_eq!((got.ctor.as_str(), got.ty.as_str()), ("a . b ()", "X"));
}

#[test]
fn an_expression_without_a_written_type_is_an_error() {
    assert_eq!(parse("builder.object(\"go\") {}"), Err(widget_error(0, 8)));
    assert_eq!(parse("-> gtk::Button {}"), Err(widget_error(0, 8)));
    assert_eq!(parse("a.b() -> 5 {}"), Err(widget_error(0, 10)));
    assert_eq!(parse("a.b() -> X y {}"), Err(widget_error(0, 11)));
}

fn attached_below(node: &WidgetNode) -> bool {
    node.children.iter().all(|child| child.attach.is_some() && attached_below(child))
}

#[test]
fn every_widget_but_the_root_has_a_way_to_be_added() {
    let got = parse("W { append = X { set_child = Some(&Y) { append = z = Z {} } }, append = &V {} }").unwrap();
    assert_eq!(got.attach, None);
    assert_eq!(got.children.len(), 2);
    assert!(attached_below(&got));
}
