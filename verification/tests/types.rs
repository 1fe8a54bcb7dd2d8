use relm4_macros::error::{Error, ErrorKind, Span};
use relm4_macros::types::{resolve_model_types, ArgKind, GenericArg, GenericArgs, ModelTypes};

fn arg(kind: ArgKind, text: &str, at: usize) -> GenericArg {
    GenericArg { kind, text: text.to_string(), span: Span { start: at, end: at + 1 } }
}

fn list(args: Vec<GenericArg>) -> GenericArgs {
    GenericArgs { args, span: Span { start: 2, end: 9 } }
}

fn generics_error_at(start: usize, end: usize) -> Error {
    Error { kind: ErrorKind::GenericArgument, span: Span { start, end } }
}

#[test]
fn two_types_are_the_model_and_the_parent_model() {
    let types = ModelTypes::new(&list(vec![arg(ArgKind::Type, "AppModel", 3), arg(ArgKind::Type, "()", 5)]));
    assert_eq!(
        types,
        Ok(ModelTypes { model: "AppModel".to_string(), parent_model: "()".to_string() })
    );
}

#[test]
fn no_type_argument_is_an_error() {
    assert_eq!(ModelTypes::new(&list(vec![])), Err(generics_error_at(2, 9)));
}

#[test]
fn one_type_argument_is_an_error() {
    assert_eq!(
        ModelTypes::new(&list(vec![arg(ArgKind::Type, "AppModel", 3)])),
        Err(generics_error_at(2, 9))
    );
}

#[test]
fn three_type_arguments_are_an_error() {
    let args = vec![
        arg(ArgKind::Type, "A", 3),
        arg(ArgKind::Type, "B", 5),
        arg(ArgKind::Type, "C", 7),
    ];
    assert_eq!(ModelTypes::new(&list(args)), Err(generics_error_at(2, 9)));
}

#[test]
fn arguments_that_are_no_types_do_not_count() {
    let one_type = vec![arg(ArgKind::Lifetime, "'a", 3), arg(ArgKind::Type, "A", 5)];
    assert_eq!(ModelTypes::new(&list(one_type)), Err(generics_error_at(2, 9)));
    let two_types = vec![
        arg(ArgKind::Lifetime, "'a", 3),
        arg(ArgKind::Type, "A", 5),
        arg(ArgKind::Const, "3", 6),
        arg(ArgKind::Type, "B", 7),
    ];
    assert_eq!(
        ModelTypes::new(&list(two_types)),
        Ok(ModelTypes { model: "A".to_string(), parent_model: "B".to_string() })
    );
}

#[test]
fn a_trait_without_a_list_is_an_error_at_the_trait() {
    let at = Span { start: 4, end: 5 };
    assert_eq!(resolve_model_types(&None, at), Err(Error { kind: ErrorKind::GenericArgument, span: at }));
    let some = Some(list(vec![arg(ArgKind::Type, "A", 3), arg(ArgKind::Type, "B", 5)]));
    assert_eq!(
        resolve_model_types(&some, at),
        Ok(ModelTypes { model: "A".to_string(), parent_model: "B".to_string() })
    );
}

#[test]
fn each_kind_of_error_has_its_message() {
    let at = Span { start: 0, end: 0 };
    let generic = Error::new(ErrorKind::GenericArgument, at).message();
    let widget = Error::new(ErrorKind::WidgetSyntax, at).message();
    let event = Error::new(ErrorKind::EventSyntax, at).message();
    assert!(generic.contains("generic"));
    assert!(widget.contains("widget"));
    assert!(event.contains("event"));
    assert_ne!(generic, widget);
    assert_ne!(widget, event);
}
