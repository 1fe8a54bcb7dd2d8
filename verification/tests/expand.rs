use relm4_macros::component::generate;
use relm4_macros::declaration::parse_declaration;
use relm4_macros::emit::{Stmt, Update};
use relm4_macros::error::{Error, ErrorKind, Span};
use relm4_macros::lex::lex;
use relm4_macros::names::NameGen;
use relm4_macros::render::render;
use relm4_macros::token::locate_both;
use relm4_macros::update::run_cycle;
use relm4_macros::{expand, widget};

fn s(text: &str) -> String {
    text.to_string()
}

const SMALL: &str = r#"
impl Widgets<AppModel, ()> for AppWidgets {
    view! {
        main = gtk::Window {
            set_title: "t",
            set_child = &gtk::Label {
                set_label: watch! { model.text() },
            },
            connect_close(sender) => move |_| { send!(sender, Msg::Close); },
        }
    }
    additional_fields! { count: u8 }
    fn pre_init() { let x = 1; }
}
"#;

const SMALL_TEXT: &str = r#"#[allow(dead_code)]
pub struct AppWidgets {
    #[allow(missing_docs)]
    pub main: gtk::Window,
    #[allow(missing_docs)]
    pub _main_0: gtk::Label,
    count: u8,
}

impl Widgets < AppModel , () > for AppWidgets {
    type Root = gtk::Window;

    /// Initialize the UI.
    fn init_view(model: &AppModel, parent_widgets: &<() as ::relm4::Model>::Widgets, sender: ::relm4::Sender<<AppModel as ::relm4::Model>::Msg>) -> Self {
        let x = 1 ;
        let main = gtk::Window::default();
        let _main_0 = gtk::Label::default();
        main.set_title("t");
        main.set_child(&_main_0);
        { let sender = sender.clone(); main.connect_close(move | _ | {send ! (sender , Msg :: Close) ;}); }
        Self {
            main,
            _main_0,
            count,
        }
    }

    fn connect_components(&self, model: &AppModel, components: &<AppModel as ::relm4::Model>::Components) {
    }

    /// Return the root widget.
    fn root_widget(&self) -> Self::Root {
        self.main.clone()
    }

    /// Update the view to represent the updated model.
    fn view(&mut self, model: &AppModel, sender: ::relm4::Sender<<AppModel as ::relm4::Model>::Msg>) {
        self._main_0.set_label(model . text ());
    }
}
"#;

#[test]
fn a_small_component_word_for_word() {
    let mut names = NameGen::new();
    assert_eq!(widget("pub", SMALL, &mut names).unwrap(), SMALL_TEXT);
    assert_eq!(names.fresh(), "1");
}

#[test]
fn the_text_can_be_lexed_again() {
    let mut names = NameGen::new();
    let text = widget("", SMALL, &mut names).unwrap();
    assert!(lex(&text).is_some());
}

#[test]
fn everything_the_user_adds_is_placed() {
    let input = r#"
#[derive(Debug)]
#[doc = "widgets"]
impl<T: Clone> my::Widgets<Wrapper<T, u8>, Parent> for AppWidgets<T> where T: Send {
    fn manual_view() { refresh(); }
    view! { gtk::Box { set_x: watch! { model.x }, track!(model.changed) } };
    fn post_init() { done(); }
    fn pre_connect_components() { before(); }
    fn post_connect_components() { after(); }
    additional_fields!(a: Vec<(u8, u8)>, pub b: HashMap<K, V>,);
}
"#;
    let mut names = NameGen::new();
    let text = widget("visibility = pub(crate), relm4 = ::my::relm", input, &mut names).unwrap();
    let want = r#"#[allow(dead_code)]
# [derive (Debug)] # [doc = "widgets"]
pub (crate) struct AppWidgets < T > {
    #[allow(missing_docs)]
    pub (crate) _0: gtk::Box,
    a: Vec < (u8 , u8) >,
    pub b: HashMap < K , V >,
}

impl< T : Clone > my :: Widgets < Wrapper < T , u8 >, Parent > for AppWidgets < T > where T : Send {
    type Root = gtk::Box;

    /// Initialize the UI.
    fn init_view(model: &Wrapper < T , u8 >, parent_widgets: &<Parent as :: my :: relm::Model>::Widgets, sender: :: my :: relm::Sender<<Wrapper < T , u8 > as :: my :: relm::Model>::Msg>) -> Self {
        let _0 = gtk::Box::default();
        done () ;
        Self {
            _0,
            a,
            b,
        }
    }

    fn connect_components(&self, model: &Wrapper < T , u8 >, components: &<Wrapper < T , u8 > as :: my :: relm::Model>::Components) {
        before () ;
        after () ;
    }

    /// Return the root widget.
    fn root_widget(&self) -> Self::Root {
        self._0.clone()
    }

    /// Update the view to represent the updated model.
    fn view(&mut self, model: &Wrapper < T , u8 >, sender: :: my :: relm::Sender<<Wrapper < T , u8 > as :: my :: relm::Model>::Msg>) {
        refresh () ;
        if model . changed { self._0.set_x(model . x); }
    }
}
"#;
    assert_eq!(text, want);
}

const COUNTER: &str = r#"
impl Widgets<AppModel, ()> for AppWidgets {
    view! {
        gtk::ApplicationWindow {
            set_title: Some("Simple app"),
            set_default_width: 300,
            set_default_height: 100,
            set_child = Some(&gtk::Box) {
                set_orientation: gtk::Orientation::Vertical,
                set_margin_all: 5,
                set_spacing: 5,

                append = &gtk::Button {
                    set_label: "Increment",
                    connect_clicked(sender) => move |_| {
                        send!(sender, AppMsg::Increment);
                    },
                },
                append = &gtk::Button {
                    set_label: "Decrement",
                    connect_clicked(sender) => move |_| {
                        send!(sender, AppMsg::Decrement);
                    },
                },
                append = &gtk::Label {
                    set_margin_all: 5,
                    set_label: watch! { &format!("Counter: {}", model.counter) },
                }
            },
        }
    }
}
"#;

/// The model of the counter: a counter of eight bits that wraps around.
struct AppModel {
    counter: u8,
}

enum AppMsg {
    Increment,
    Decrement,
}

impl AppModel {
    fn update(&mut self, msg: AppMsg) {
        match msg {
            AppMsg::Increment => self.counter = self.counter.wrapping_add(1),
            AppMsg::Decrement => self.counter = self.counter.wrapping_sub(1),
        }
    }

    /// Computes a watched expression of the component on this model.
    fn evaluate(&self, expression: &str) -> String {
        assert_eq!(expression, "& format ! (\"Counter: {}\" , model . counter)");
        format!("Counter: {}", self.counter)
    }
}

/// Runs one update cycle and gives the text that the label is set to.
fn label_after_cycle(bindings: &Vec<Update>, model: &AppModel) -> String {
    let holds = vec![true; bindings.len()];
    let calls = run_cycle(bindings, &holds);
    assert_eq!(calls.len(), 1);
    assert_eq!(calls[0].setter, "set_label");
    model.evaluate(&calls[0].value)
}

#[test]
fn the_counter_from_its_declaration_to_its_label() {
    let mut names = NameGen::new();
    let (attrs, item) = locate_both(&lex("").unwrap(), &lex(COUNTER).unwrap());
    let component = generate(parse_declaration(&attrs, &item).unwrap(), &mut names);

    assert_eq!(component.root_name, "_0");
    assert_eq!(component.root_type, "gtk::ApplicationWindow");
    assert_eq!(component.fields.len(), 5);

    let connections: Vec<&Stmt> =
        component.init.iter().filter(|stmt| matches!(stmt, Stmt::Connect { .. })).collect();
    assert_eq!(
        connections,
        vec![
            &Stmt::Connect {
                widget: s("__0___0_1_2"),
                signal: s("connect_clicked"),
                captured: vec![s("sender")],
                handler: s("move | _ | {send ! (sender , AppMsg :: Increment) ;}"),
            },
            &Stmt::Connect {
                widget: s("__0___0_1_3"),
                signal: s("connect_clicked"),
                captured: vec![s("sender")],
                handler: s("move | _ | {send ! (sender , AppMsg :: Decrement) ;}"),
            },
        ]
    );

    assert_eq!(
        component.updates,
        vec![Update {
            widget: s("__0___0_1_4"),
            setter: s("set_label"),
            value: s("& format ! (\"Counter: {}\" , model . counter)"),
            guard: None,
        }]
    );

    let mut model = AppModel { counter: 0 };
    for _ in 0..3 {
        model.update(AppMsg::Increment);
    }
    assert_eq!(label_after_cycle(&component.updates, &model), "Counter: 3");

    let mut model = AppModel { counter: 0 };
    let mut last = String::new();
    for _ in 0..256 {
        model.update(AppMsg::Increment);
        last = label_after_cycle(&component.updates, &model);
    }
    assert_eq!(last, "Counter: 0");

    model.update(AppMsg::Decrement);
    assert_eq!(label_after_cycle(&component.updates, &model), "Counter: 255");

    let text = render(&component);
    assert!(text.contains("        self.__0___0_1_4.set_label(& format ! (\"Counter: {}\" , model . counter));\n"));
    assert!(text.contains("        _0.set_child(Some(&__0_1));\n"));
}

#[test]
fn the_counter_goes_on_from_one_component_to_the_next() {
    let mut names = NameGen::new();
    let first = widget("", COUNTER, &mut names).unwrap();
    let second = widget("", COUNTER, &mut names).unwrap();
    assert!(first.contains("let _0 = "));
    assert!(first.contains("let __0___0_1_4 = "));
    assert!(second.contains("let _5 = "));
    assert!(second.contains("let __5___5_6_9 = "));
    assert!(!second.contains("let _0 = "));
}

fn widget_error(start: usize, end: usize) -> Error {
    Error { kind: ErrorKind::WidgetSyntax, span: Span { start, end } }
}

fn generics_error(start: usize, end: usize) -> Error {
    Error { kind: ErrorKind::GenericArgument, span: Span { start, end } }
}

#[test]
fn a_root_without_a_type_gives_an_error_and_no_text() {
    // impl Widgets < A , B > for W { view ! { { set_title : "x" } } }
    // 0    1       2 3 4 5 6 7   8 9 10  11 12 13
    let mut names = NameGen::new();
    let input = "impl Widgets<A, B> for W { view! { { set_title: \"x\" } } }";
    assert_eq!(widget("", input, &mut names), Err(widget_error(13, 18)));
    assert_eq!(names.fresh(), "0");
}

#[test]
fn too_few_model_types_give_an_error() {
    let mut names = NameGen::new();
    // impl Widgets < A > for W { .. }
    // 0    1       2 3 4
    let body = "{ view! { gtk::Box {} } }";
    assert_eq!(widget("", &format!("impl Widgets<A> for W {}", body), &mut names), Err(generics_error(2, 5)));
    assert_eq!(widget("", &format!("impl Widgets<> for W {}", body), &mut names), Err(generics_error(2, 4)));
    assert_eq!(widget("", &format!("impl Widgets for W {}", body), &mut names), Err(generics_error(1, 2)));
    assert_eq!(widget("", &format!("impl Widgets<'a, A> for W {}", body), &mut names), Err(generics_error(2, 8)));
    assert_eq!(widget("", &format!("impl Widgets<A, B, C> for W {}", body), &mut names), Err(generics_error(2, 9)));
    assert_eq!(names.fresh(), "0");
}

#[test]
fn an_argument_that_is_no_generic_argument_is_an_error_at_the_argument() {
    let mut names = NameGen::new();
    // impl Widgets < A , + > for W
    // 0    1       2 3 4 5
    let input = "impl Widgets<A, +> for W { view! { gtk::Box {} } }";
    assert_eq!(widget("", input, &mut names), Err(generics_error(5, 6)));
    let input = "impl Widgets<A,, B> for W { view! { gtk::Box {} } }";
    assert_eq!(widget("", input, &mut names), Err(generics_error(5, 6)));
}

#[test]
fn a_text_that_cannot_be_lexed_is_an_error_at_the_start() {
    let mut names = NameGen::new();
    assert_eq!(widget("", "impl Widgets<A, B> for W { view! { gtk::Box { } }", &mut names), Err(widget_error(0, 0)));
    assert_eq!(widget("(", "impl Widgets<A, B> for W { view! { gtk::Box { } } }", &mut names), Err(widget_error(0, 0)));
}

#[test]
fn what_is_no_implementation_is_an_error_at_the_item() {
    let mut names = NameGen::new();
    assert_eq!(widget("", "", &mut names), Err(widget_error(0, 0)));
    assert_eq!(widget("", "struct W { }", &mut names), Err(widget_error(0, 4)));
    assert_eq!(widget("", "impl W { }", &mut names), Err(widget_error(0, 4)));
    assert_eq!(widget("", "impl Widgets<A, B> for { }", &mut names), Err(widget_error(0, 10)));
    assert_eq!(widget("", "impl Widgets<A, B> for W;", &mut names), Err(widget_error(0, 10)));
}

#[test]
fn a_block_without_a_view_is_an_error_at_the_block() {
    let mut names = NameGen::new();
    // impl Widgets < A , B > for W { }
    // 0    1       2 3 4 5 6 7   8 9 10
    assert_eq!(widget("", "impl Widgets<A, B> for W { }", &mut names), Err(widget_error(9, 11)));
    assert_eq!(widget("", "impl Widgets<A, B> for W { fn pre_init() {} }", &mut names), Err(widget_error(9, 17)));
}

#[test]
fn members_that_are_none_or_come_twice_are_errors() {
    let mut names = NameGen::new();
    let head = "impl Widgets<A, B> for W";
    // the block opens at 9, its first member is at 10
    let twice = format!("{} {{ view! {{ X {{}} }} view! {{ X {{}} }} }}", head);
    assert_eq!(widget("", &twice, &mut names), Err(widget_error(17, 24)));
    let unknown = format!("{} {{ view! {{ X {{}} }} fn other() {{}} }}", head);
    assert_eq!(widget("", &unknown, &mut names), Err(widget_error(17, 23)));
    let stray = format!("{} {{ struct }}", head);
    assert_eq!(widget("", &stray, &mut names), Err(widget_error(10, 11)));
    let field = format!("{} {{ additional_fields! {{ a }} view! {{ X {{}} }} }}", head);
    assert_eq!(widget("", &field, &mut names), Err(widget_error(13, 14)));
    let with_parameters = format!("{} {{ fn pre_init(a: u8) {{}} }}", head);
    assert_eq!(widget("", &with_parameters, &mut names), Err(widget_error(10, 11)));
}

#[test]
fn attributes_that_are_none_are_errors() {
    let mut names = NameGen::new();
    let input = "impl Widgets<A, B> for W { view! { X {} } }";
    assert_eq!(widget("private", input, &mut names), Err(widget_error(0, 1)));
    assert_eq!(widget("pub, relm4 =", input, &mut names), Err(widget_error(2, 4)));
    assert_eq!(widget("pub,,", input, &mut names), Err(widget_error(2, 3)));
    assert!(widget("pub,", input, &mut names).is_ok());
    let text = widget("visibility = pub, pub(super)", input, &mut names).unwrap();
    assert!(text.contains("pub (super) struct W {"));
}

#[test]
fn places_in_the_item_count_on_from_the_attributes() {
    let mut names = NameGen::new();
    // two tokens of attributes come first
    assert_eq!(widget("pub,", "impl W { }", &mut names), Err(widget_error(2, 6)));
}

#[test]
fn lexemes_expand_as_their_text_does() {
    let mut names = NameGen::new();
    let mut other = NameGen::new();
    let from_text = widget("pub", SMALL, &mut names);
    let from_lexemes = expand(&lex("pub").unwrap(), &lex(SMALL).unwrap(), &mut other);
    assert_eq!(from_text, from_lexemes);
}

#[test]
fn the_text_is_a_struct_and_an_implementation() {
    let mut names = NameGen::new();
    for (attributes, input) in [("pub", SMALL), ("", COUNTER), ("visibility = pub(crate)", COUNTER)] {
        let text = widget(attributes, input, &mut names).unwrap();
        let file = syn::parse_file(&text).unwrap();
        assert_eq!(file.items.len(), 2);
        assert!(matches!(file.items[0], syn::Item::Struct(_)));
        assert!(matches!(file.items[1], syn::Item::Impl(_)));
    }
}

#[test]
fn a_raw_identifier_as_a_name_leaves_the_text_rust() {
    let mut names = NameGen::new();
    let input = "impl Widgets<A, B> for W { view! { r#type = gtk::Box { append = &gtk::Label { set_label: \"x\" } } } }";
    let text = widget("", input, &mut names).unwrap();
    assert!(text.contains("        let r#type = gtk::Box::default();\n"));
    assert!(text.contains("        let _r_type_0 = gtk::Label::default();\n"));
    assert!(text.contains("        r#type.append(&_r_type_0);\n"));
    assert!(syn::parse_file(&text).is_ok());
}

#[test]
fn every_widget_is_constructed_once_and_every_event_connected_once() {
    let mut names = NameGen::new();
    let (attrs, item) = locate_both(&lex("").unwrap(), &lex(COUNTER).unwrap());
    let component = generate(parse_declaration(&attrs, &item).unwrap(), &mut names);
    let constructed: Vec<&String> = component
        .init
        .iter()
        .filter_map(|stmt| match stmt {
            Stmt::Construct { name, .. } => Some(name),
            _ => None,
        })
        .collect();
    assert_eq!(constructed, vec!["_0", "__0_1", "__0___0_1_2", "__0___0_1_3", "__0___0_1_4"]);
    let connected = component.init.iter().filter(|stmt| matches!(stmt, Stmt::Connect { .. })).count();
    assert_eq!(connected, 2);
    assert_eq!(component.updates.len(), 1);
    // the connections stand behind everything else, in the order of the widgets
    let at = component.init.len() - 2;
    assert!(matches!(&component.init[at], Stmt::Connect { widget, .. } if widget == "__0___0_1_2"));
    assert!(matches!(&component.init[at + 1], Stmt::Connect { widget, .. } if widget == "__0___0_1_3"));
}
