use relm4_macros::lex::lex;
use relm4_macros::token::{Delim, Lexeme};

#[test]
fn lexes_groups_and_joint_punctuation() {
    let lexemes = lex("gtk::Box { set_spacing: 5 }").unwrap();
    assert_eq!(
        lexemes,
        vec![
            Lexeme::Ident("gtk".to_string()),
            Lexeme::Punct(':', true),
            Lexeme::Punct(':', false),
            Lexeme::Ident("Box".to_string()),
            Lexeme::Group(
                Delim::Brace,
                vec![
                    Lexeme::Ident("set_spacing".to_string()),
                    Lexeme::Punct(':', false),
                    Lexeme::Literal("5".to_string()),
                ]
            ),
        ]
    );
}

#[test]
fn unbalanced_text_is_not_lexed() {
    assert_eq!(lex("gtk::Box { set_spacing: 5"), None);
    assert_eq!(lex("\"open"), None);
}
