use filetest::sanitizer::{open_with, replace, test_name, SUBSTITUTE};

fn legal(name: &str) -> bool {
    let mut chars = name.chars();
    let first = match chars.next() {
        Some(c) => c,
        None => return false,
    };
    let starts = unicode_ident::is_xid_start(first) || (first == '_' && name.chars().count() > 1);
    starts && name.chars().all(unicode_ident::is_xid_continue)
}

#[test]
fn substitute_is_the_underscore() {
    assert_eq!(SUBSTITUTE, '_');
}

#[test]
fn a_dot_becomes_an_underscore() {
    assert_eq!(test_name("a.txt"), "a_txt");
    assert_eq!(test_name("example.txt"), "example_txt");
    assert_eq!(test_name("file.rs"), "file_rs");
}

#[test]
fn a_dash_becomes_an_underscore() {
    assert_eq!(test_name("b-2.rs"), "b_2_rs");
}

#[test]
fn a_space_becomes_an_underscore() {
    assert_eq!(test_name("my file.txt"), "my_file_txt");
}

#[test]
fn a_plain_name_is_kept() {
    assert_eq!(test_name("plain"), "plain");
    assert_eq!(test_name("Makefile"), "Makefile");
    assert_eq!(test_name("x1"), "x1");
}

#[test]
fn a_leading_digit_gets_a_prefix() {
    assert_eq!(test_name("1.txt"), "_1_txt");
    assert_eq!(test_name("007"), "_007");
}

#[test]
fn a_leading_underscore_gets_a_prefix() {
    assert_eq!(test_name("_x"), "__x");
    assert_eq!(test_name("_"), "__");
}

#[test]
fn a_leading_dot_gets_a_prefix() {
    assert_eq!(test_name(".gitignore"), "__gitignore");
    assert_eq!(test_name("-"), "__");
}

#[test]
fn letters_outside_ascii_are_kept() {
    assert_eq!(test_name("über.rs"), "über_rs");
    assert_eq!(test_name("日本語.txt"), "日本語_txt");
}

#[test]
fn a_digit_outside_ascii_cannot_open_a_name() {
    assert_eq!(test_name("\u{0663}x"), "_\u{0663}x");
}

#[test]
fn a_symbol_outside_ascii_becomes_an_underscore() {
    assert_eq!(test_name("a\u{1F600}b"), "a_b");
    assert_eq!(test_name("\u{1F600}"), "__");
}

#[test]
fn the_empty_text_gives_a_lone_underscore() {
    assert_eq!(test_name(""), "_");
}

#[test]
fn the_identifier_is_legal_for_every_sample() {
    let samples = [
        "a.txt", "b-2.rs", "1", "_", "-", " ", "a b", ".hidden", "ünï.cödé", "\u{0301}", "\u{0663}",
        "\u{1F600}.png", "x", "9lives.toml", "r#raw", "fn", "a?b", "a*b[c]", "tab\there",
    ];
    for sample in samples {
        let name = test_name(sample);
        assert!(legal(&name), "{:?} gave {:?}", sample, name);
    }
}

#[test]
fn the_identifier_keeps_the_length_or_adds_one() {
    let samples = ["a.txt", "1.txt", "_x", "日本語", "", "a\u{1F600}b"];
    for sample in samples {
        let before = sample.chars().count();
        let after = test_name(sample).chars().count();
        assert!(after == before || after == before + 1);
    }
}

#[test]
fn the_identifier_depends_on_the_name_alone() {
    assert_eq!(test_name("data-01.json"), test_name("data-01.json"));
    assert_eq!(test_name("data-01.json"), "data_01_json");
}

#[test]
fn names_that_collide_share_an_identifier() {
    assert_eq!(test_name("a?b"), "a_b");
    assert_eq!(test_name("a-b"), "a_b");
    assert_eq!(test_name("a_b"), "a_b");
}

#[test]
fn names_that_do_not_collide_differ() {
    assert_ne!(test_name("a.txt"), test_name("b.txt"));
    assert_ne!(test_name("a.txt"), test_name("a.tx"));
    assert_ne!(test_name("1a"), test_name("_1b"));
    assert_ne!(test_name("x"), test_name("_x"));
}

#[test]
fn replace_keeps_or_substitutes() {
    assert_eq!(replace('a', true), 'a');
    assert_eq!(replace('.', false), '_');
    assert_eq!(replace('.', true), '.');
    assert_eq!(replace('a', false), '_');
}

#[test]
fn open_with_puts_the_prefix_where_asked() {
    assert_eq!(open_with("abc".to_string(), true), "abc");
    assert_eq!(open_with("1bc".to_string(), false), "_1bc");
    assert_eq!(open_with(String::new(), false), "_");
}
