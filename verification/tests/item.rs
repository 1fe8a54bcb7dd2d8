use relm4_macros::component::Funcs;
use relm4_macros::emit::Field;
use relm4_macros::error::{Error, ErrorKind, Span};
use relm4_macros::item::{parse_head, Head};
use relm4_macros::lex::lex;
use relm4_macros::members::{parse_attrs, parse_fields, parse_members, Attrs, Members};
use relm4_macros::token::{locate, Token};
use relm4_macros::types::{ArgKind, GenericArg, GenericArgs};

fn s(text: &str) -> String {
    text.to_string()
}

fn tokens(src: &str) -> Vec<Token> {
    locate(&lex(src).unwrap())
}

fn span(start: usize, end: usize) -> Span {
    Span { start, end }
}

fn widget_error(start: usize, end: usize) -> Error {
    Error { kind: ErrorKind::WidgetSyntax, span: span(start, end) }
}

#[test]
fn without_attributes_the_struct_is_private_and_the_crate_under_its_name() {
    assert_eq!(parse_attrs(&tokens("")), Ok(Attrs { visibility: s(""), relm4_path: s("::relm4") }));
}

#[test]
fn attributes_set_the_visibility_and_the_path() {
    assert_eq!(
        parse_attrs(&tokens("pub")),
        Ok(Attrs { visibility: s("pub"), relm4_path: s("::relm4") })
    );
    assert_eq!(
        parse_attrs(&tokens("visibility = pub(crate)")),
        Ok(Attrs { visibility: s("pub (crate)"), relm4_path: s("::relm4") })
    );
    assert_eq!(
        parse_attrs(&tokens("relm4 = ::reexports::relm4, pub")),
        Ok(Attrs { visibility: s("pub"), relm4_path: s(":: reexports :: relm4") })
    );
    assert_eq!(parse_attrs(&tokens("relm4")), Err(widget_error(0, 1)));
    assert_eq!(parse_attrs(&tokens("visibility =")), Err(widget_error(0, 2)));
}

#[test]
fn the_head_of_an_implementation() {
    // impl < T > Widgets < Model < T > , ( ) > for W < T > where T : Clone { }
    // 0    1 2 3 4       5 6     7 8 9 10 11 12 13 14  15 16 17 18 19  20 21 22    23 24
    let head = parse_head(&tokens("impl<T> Widgets<Model<T>, ()> for W<T> where T: Clone { }"), span(0, 0));
    assert_eq!(
        head,
        Ok(Head {
            outer_attrs: s(""),
            impl_generics: s("< T >"),
            trait_path: s("Widgets < Model < T >, () >"),
            self_ty: s("W < T >"),
            where_clause: s("where T : Clone"),
            generics: Some(GenericArgs {
                args: vec![
                    GenericArg { kind: ArgKind::Type, text: s("Model < T >"), span: span(6, 10) },
                    GenericArg { kind: ArgKind::Type, text: s("()"), span: span(11, 13) },
                ],
                span: span(5, 14),
            }),
            trait_span: span(4, 14),
        })
    );
}

#[test]
fn the_kinds_of_generic_arguments() {
    let head = parse_head(
        &tokens("impl Widgets<'a, Vec<u8>, 3, Item = u8, fn(u8) -> u8, { N }, T: Clone,> for W {}"),
        span(0, 0),
    )
    .unwrap();
    let kinds: Vec<(ArgKind, String)> =
        head.generics.unwrap().args.into_iter().map(|arg| (arg.kind, arg.text)).collect();
    assert_eq!(
        kinds,
        vec![
            (ArgKind::Lifetime, s("'a")),
            (ArgKind::Type, s("Vec < u8 >")),
            (ArgKind::Const, s("3")),
            (ArgKind::Binding, s("Item = u8")),
            (ArgKind::Type, s("fn (u8) -> u8")),
            (ArgKind::Const, s("{N}")),
            (ArgKind::Binding, s("T : Clone")),
        ]
    );
}

#[test]
fn a_trait_without_arguments_has_no_list() {
    let head = parse_head(&tokens("impl Widgets for W {}"), span(0, 0)).unwrap();
    assert_eq!(head.generics, None);
    assert_eq!(head.trait_path, "Widgets");
    assert_eq!(head.trait_span, span(1, 2));
    let head = parse_head(&tokens("#[a] #[b] impl Widgets<> for W {}"), span(0, 0)).unwrap();
    assert_eq!(head.outer_attrs, "# [a] # [b]");
    assert_eq!(head.generics, Some(GenericArgs { args: vec![], span: span(10, 12) }));
}

#[test]
fn what_is_no_head_is_an_error_at_the_item() {
    assert_eq!(parse_head(&tokens(""), span(3, 4)), Err(widget_error(3, 4)));
    assert_eq!(parse_head(&tokens("impl for W {}"), span(0, 0)), Err(widget_error(0, 5)));
    assert_eq!(parse_head(&tokens("impl<T Widgets<A, B> for W {}"), span(0, 0)), Err(widget_error(0, 13)));
    assert_eq!(parse_head(&tokens("impl Widgets<A, B> W {}"), span(0, 0)), Err(widget_error(0, 10)));
    assert_eq!(parse_head(&tokens("impl Widgets<A, B> for where T: X {}"), span(0, 0)), Err(widget_error(0, 14)));
}

#[test]
fn additional_fields_are_names_with_types() {
    assert_eq!(parse_fields(&tokens("")), Ok(vec![]));
    assert_eq!(
        parse_fields(&tokens("a: u8, pub b: HashMap<K, (V, W)>, #[doc = \"x, y\"] pub(crate) c: &'static str,")),
        Ok(vec![
            Field { name: s("a"), ty: s("u8"), written: Some(s("")) },
            Field { name: s("b"), ty: s("HashMap < K , (V , W) >"), written: Some(s("pub")) },
            Field { name: s("c"), ty: s("&'static str"), written: Some(s("# [doc = \"x, y\"] pub (crate)")) },
        ])
    );
    assert_eq!(parse_fields(&tokens("a: u8, b")), Err(widget_error(4, 5)));
    assert_eq!(parse_fields(&tokens("a: u8, : u8")), Err(widget_error(4, 6)));
    assert_eq!(parse_fields(&tokens("a: ")), Err(widget_error(0, 2)));
    assert_eq!(parse_fields(&tokens("a: u8,,")), Err(widget_error(4, 5)));
}

#[test]
fn the_members_of_a_block() {
    let members = parse_members(&tokens(
        "fn pre_init() { a(); } view! { W {} } fn manual_view() {} additional_fields! { n: u8 };",
    ));
    assert_eq!(
        members,
        Ok(Members {
            // the group of the view is the seventh token of the block
            view: Some(6),
            fields: Some(vec![Field { name: s("n"), ty: s("u8"), written: Some(s("")) }]),
            funcs: Funcs {
                pre_init: Some(s("a () ;")),
                post_init: None,
                pre_connect_components: None,
                post_connect_components: None,
                manual_view: Some(s("")),
            },
        })
    );
    assert_eq!(parse_members(&tokens("")).unwrap().view, None);
    assert_eq!(
        parse_members(&tokens("fn pre_init() {} fn pre_init() {}")),
        Err(widget_error(6, 12))
    );
    assert_eq!(
        parse_members(&tokens("additional_fields!(a: u8); additional_fields!(b: u8);")),
        Err(widget_error(8, 15))
    );
}

#[test]
fn parts_of_a_head_that_are_not_what_they_should_be_are_errors_at_the_item() {
    // impl + < A , B > for W { }
    // 0    1 2 3 4 5 6 7   8 9 10
    assert_eq!(parse_head(&tokens("impl +<A, B> for W {}"), span(0, 0)), Err(widget_error(0, 11)));
    assert_eq!(parse_head(&tokens("impl Widgets<A, B> for + {}"), span(0, 0)), Err(widget_error(0, 11)));
    assert_eq!(parse_head(&tokens("impl Widgets<A, B> for W where + {}"), span(0, 0)), Err(widget_error(0, 13)));
    assert_eq!(parse_head(&tokens("impl<+> Widgets<A, B> for W {}"), span(0, 0)), Err(widget_error(0, 14)));
    assert_eq!(parse_head(&tokens("impl a.b<A, B> for W {}"), span(0, 0)), Err(widget_error(0, 13)));
    // an argument that is none comes first
    assert_eq!(
        parse_head(&tokens("impl +<A, ?> for W {}"), span(0, 0)),
        Err(Error { kind: ErrorKind::GenericArgument, span: span(5, 6) })
    );
}

#[test]
fn an_additional_field_has_a_type() {
    assert_eq!(parse_fields(&tokens("a: +")), Err(widget_error(0, 3)));
    assert_eq!(parse_fields(&tokens("a: u8, b: c d")), Err(widget_error(4, 8)));
    assert_eq!(parse_fields(&tokens("a: u8 = 5")), Err(widget_error(0, 5)));
    assert!(parse_fields(&tokens("a: Box<dyn Fn(u8) -> u8>, b: [u8; 4], c: (A, B)")).is_ok());
}
