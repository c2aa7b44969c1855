use puffin_workspace::layout::{lay_out_prefix, lay_out_trailing, push_comments};
use puffin_workspace::list::find_package;
use puffin_workspace::name::{normalize, normalize_chars};
use puffin_workspace::text::{append_chars, chars_of, same_chars, string_of};

fn chars(text: &str) -> Vec<char> {
    text.chars().collect()
}

fn text(chars: &Vec<char>) -> String {
    chars.iter().collect()
}

#[test]
fn normalize_lowers_and_joins_separators() {
    assert_eq!(normalize("Foo"), "foo");
    assert_eq!(normalize("foo_bar"), "foo-bar");
    assert_eq!(normalize("foo.bar"), "foo-bar");
    assert_eq!(normalize("Foo__Bar-.-baz"), "foo-bar-baz");
    assert_eq!(normalize("friendly-bard"), "friendly-bard");
    assert_eq!(normalize("FrIeNdLy-._.-bArD"), "friendly-bard");
}

#[test]
fn normalize_at_the_edges() {
    assert_eq!(normalize(""), "");
    assert_eq!(normalize("-"), "-");
    assert_eq!(normalize("_._"), "-");
    assert_eq!(normalize("a_"), "a-");
    assert_eq!(normalize("_a"), "-a");
    assert_eq!(normalize("AZaz09"), "azaz09");
    // Only the capitals of ASCII are lowered.
    assert_eq!(normalize("École"), "École");
    assert_eq!(text(&normalize_chars(&chars("A.B"))), "a-b");
}

#[test]
fn normalize_twice_is_once() {
    for name in ["Foo__Bar", "a.-_b", "X", "-.-", "plain"] {
        let once = normalize(name);
        assert_eq!(normalize(&once), once);
    }
}

#[test]
fn chars_and_strings_convert() {
    assert_eq!(chars_of("héllo"), chars("héllo"));
    assert_eq!(chars_of(""), Vec::<char>::new());
    assert_eq!(string_of(&chars("héllo")), "héllo");
    assert_eq!(string_of(&Vec::new()), "");
    assert!(same_chars(&chars("abc"), &chars("abc")));
    assert!(!same_chars(&chars("abc"), &chars("abd")));
    assert!(!same_chars(&chars("abc"), &chars("ab")));
    let mut out = chars("ab");
    append_chars(&mut out, &chars("cd"));
    assert_eq!(text(&out), "abcd");
}

#[test]
fn find_package_takes_the_first_match() {
    let names = vec![
        Some("bar".to_string()),
        None,
        Some("Foo_Bar".to_string()),
        Some("foo-bar".to_string()),
    ];
    assert_eq!(find_package(&names, "foo.bar"), Some(2));
    assert_eq!(find_package(&names, "BAR"), Some(0));
    assert_eq!(find_package(&names, "baz"), None);
    assert_eq!(find_package(&Vec::new(), "foo"), None);
    assert_eq!(find_package(&vec![None, None], "foo"), None);
}

#[test]
fn prefix_of_an_entry_without_comments_is_the_indentation() {
    assert_eq!(text(&lay_out_prefix(&chars(""), &chars(""))), "\n    ");
    assert_eq!(text(&lay_out_prefix(&chars(" "), &chars(""))), "\n    ");
    assert_eq!(text(&lay_out_prefix(&chars("\n  \t"), &chars(" \n"))), "\n    ");
}

#[test]
fn prefix_of_an_entry_keeps_the_comments_around_it() {
    assert_eq!(
        text(&lay_out_prefix(&chars("\n  # before\n  "), &chars(" # after\n"))),
        "\n    # before\n    # after\n    "
    );
    assert_eq!(
        text(&lay_out_prefix(&chars("# one \r\n\t#two\n not # a comment"), &chars(""))),
        "\n    # one\n    #two\n    "
    );
}

#[test]
fn laying_a_prefix_out_twice_is_once() {
    let once = lay_out_prefix(&chars(" # a\n#b  \n"), &chars("  # c"));
    assert_eq!(text(&once), "\n    # a\n    #b\n    # c\n    ");
    assert_eq!(lay_out_prefix(&once, &Vec::new()), once);
}

#[test]
fn trailing_of_a_list() {
    assert_eq!(text(&lay_out_trailing(&chars(""), false)), "");
    assert_eq!(text(&lay_out_trailing(&chars("  \n "), false)), "");
    assert_eq!(text(&lay_out_trailing(&chars(""), true)), "\n");
    assert_eq!(text(&lay_out_trailing(&chars(" "), true)), "\n");
    assert_eq!(text(&lay_out_trailing(&chars(" # last\n"), true)), "\n    # last\n");
    assert_eq!(text(&lay_out_trailing(&chars("# only"), false)), "\n    # only\n");
    let once = lay_out_trailing(&chars("\n # x\n\n # y \n"), true);
    assert_eq!(text(&once), "\n    # x\n    # y\n");
    assert_eq!(lay_out_trailing(&once, true), once);
}

#[test]
fn comments_are_added_to_what_is_there() {
    let mut out = chars("[");
    push_comments(&mut out, &chars("x\n # c\ny # not at the start\n#d"));
    assert_eq!(text(&out), "[\n    # c\n    #d");
    let mut same = chars("[");
    push_comments(&mut same, &chars("no comment\nhere"));
    assert_eq!(text(&same), "[");
}
