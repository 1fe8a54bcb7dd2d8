use relm4_macros::names::{idents_to_snake_case, NameGen};
use relm4_macros::ident::check_ident;

fn strings(words: &[&str]) -> Vec<String> {
    words.iter().map(|w| w.to_string()).collect()
}

#[test]
fn names_join_lowercased_fragments_and_counter() {
    let mut names = NameGen::new();
    let idents = strings(&["gtk", "Box"]);
    assert_eq!(idents_to_snake_case(&idents, &mut names), "_gtk_box_0");
    assert_eq!(idents_to_snake_case(&idents, &mut names), "_gtk_box_1");
    assert_eq!(idents_to_snake_case(&Vec::new(), &mut names), "_2");
}

#[test]
fn names_lower_capitals_and_keep_the_rest() {
    let mut names = NameGen::new();
    let idents = strings(&["MainWindow", "HEADER_Bar2", "already_lower"]);
    assert_eq!(
        idents_to_snake_case(&idents, &mut names),
        "_mainwindow_header_bar2_already_lower_0"
    );
}

#[test]
fn counter_starts_at_zero_and_counts_by_one() {
    let mut names = NameGen::new();
    let got: Vec<String> = (0..12).map(|_| names.fresh()).collect();
    assert_eq!(
        got,
        strings(&["0", "1", "2", "3", "4", "5", "6", "7", "8", "9", "10", "11"])
    );
}

#[test]
fn counter_carries_over_nines() {
    let mut names = NameGen::new();
    let mut last = String::new();
    for _ in 0..=100 {
        last = names.fresh();
    }
    assert_eq!(last, "100");
    for _ in 0..900 {
        last = names.fresh();
    }
    assert_eq!(last, "1000");
}

#[test]
fn counter_goes_past_sixteen_bits() {
    let mut names = NameGen::new();
    let mut last = String::new();
    for _ in 0..=65_536 {
        last = names.fresh();
    }
    assert_eq!(last, "65536");
    assert_eq!(names.fresh(), "65537");
}

#[test]
fn names_differ_even_where_fragments_run_into_one_another() {
    // "a" + "1" with the counter at 2 and "a" with a counter that reads "1_2"
    // would be the same text; the counter never reads so.
    let mut names = NameGen::new();
    let mut seen: Vec<String> = Vec::new();
    let fragments = [
        strings(&["a", "1"]),
        strings(&["a"]),
        strings(&["a_1"]),
        strings(&[]),
        strings(&["a", "1"]),
        strings(&["A"]),
        strings(&["a"]),
        strings(&["_"]),
        strings(&["", ""]),
        strings(&["a", "1", "2"]),
        strings(&["a", "1", "2"]),
    ];
    for round in 0..30 {
        let name = idents_to_snake_case(&fragments[round % fragments.len()], &mut names);
        assert!(!seen.contains(&name), "{} came twice", name);
        seen.push(name);
    }
    assert_eq!(seen[0], "_a_1_0");
    assert_eq!(seen[1], "_a_1");
    assert_eq!(seen[2], "_a_1_2");
    assert_eq!(seen[10], "_a_1_2_10");
}

#[test]
fn made_names_are_identifiers() {
    let mut names = NameGen::new();
    for fragments in [
        strings(&[]),
        strings(&["Window"]),
        strings(&["_0", "__0_1"]),
        strings(&["x9", "Y_", "__"]),
    ] {
        let name = idents_to_snake_case(&fragments, &mut names);
        assert!(check_ident(&name), "{} is no identifier", name);
    }
}

#[test]
fn identifier_shapes() {
    assert!(check_ident("a"));
    assert!(check_ident("_a"));
    assert!(check_ident("_0"));
    assert!(check_ident("__"));
    assert!(check_ident("Main_Window2"));
    assert!(!check_ident(""));
    assert!(!check_ident("_"));
    assert!(!check_ident("9a"));
    assert!(!check_ident("a-b"));
    assert!(!check_ident("a b"));
    assert!(check_ident("é"));
    assert!(check_ident("naïve"));
    assert!(check_ident("東京2"));
    assert!(!check_ident("a–b"));
    assert!(!check_ident("r#type"));
    assert!(!check_ident("€"));
}

#[test]
fn made_names_are_identifiers_of_rust() {
    let mut names = NameGen::new();
    for fragments in [strings(&[]), strings(&["Fn", "Let"]), strings(&["_", "_"]), strings(&["r2", "D2"])] {
        let name = idents_to_snake_case(&fragments, &mut names);
        assert!(syn::parse_str::<syn::Ident>(&name).is_ok(), "{} is no identifier", name);
    }
}

#[test]
fn only_characters_that_no_identifier_holds_give_way_to_underscores() {
    let mut names = NameGen::new();
    assert_eq!(idents_to_snake_case(&strings(&["r#type"]), &mut names), "_r_type_0");
    assert_eq!(idents_to_snake_case(&strings(&["a-b", "c d", "X.Y!"]), &mut names), "_a_b_c_d_x_y__1");
    // letters are letters, whatever their alphabet
    assert_eq!(
        idents_to_snake_case(&strings(&["Ärger", "ÉLAN", "Σοφία", "é"]), &mut names),
        "_ärger_élan_σοφία_é_2"
    );
    assert_eq!(idents_to_snake_case(&strings(&["r#Été", "naïve–x"]), &mut names), "_r_été_naïve_x_3");
}

#[test]
fn a_made_name_is_an_identifier_whatever_the_fragments_hold() {
    let mut names = NameGen::new();
    let fragments = [
        strings(&["r#type"]),
        strings(&["9lives", "#", ""]),
        strings(&["Ärger", "naïve", "東京"]),
        strings(&["a b\tc\n", "\u{0}", "'quoted'"]),
        strings(&["::", "->", "{}"]),
    ];
    for list in fragments.iter() {
        let name = idents_to_snake_case(list, &mut names);
        assert!(check_ident(&name), "{:?} is no identifier", name);
        assert!(name.starts_with('_'));
        assert!(syn::parse_str::<syn::Ident>(&name).is_ok(), "{:?} is no identifier", name);
    }
}
