use puffin_workspace::list::{entry_names, format_multiline_array, upsert_entry};
use toml_edit::{Array, Value};

fn array(text: &str) -> Array {
    match text.parse::<Value>().unwrap() {
        Value::Array(array) => array,
        _ => panic!("not an array"),
    }
}

fn names(values: &[Option<&str>]) -> Vec<Option<String>> {
    values.iter().map(|v| v.map(|s| s.to_string())).collect()
}

#[test]
fn format_puts_each_value_on_a_line() {
    let mut deps = array("[1, 'a',\"b\"]");
    format_multiline_array(&mut deps);
    assert_eq!(deps.to_string(), "[\n    1,\n    'a',\n    \"b\",\n]");
}

#[test]
fn format_leaves_an_empty_array_closed() {
    let mut deps = array("[]");
    format_multiline_array(&mut deps);
    assert_eq!(deps.to_string(), "[]");
    let mut spaced = array("[  \n ]");
    format_multiline_array(&mut spaced);
    assert_eq!(spaced.to_string(), "[]");
    let mut new = Array::new();
    format_multiline_array(&mut new);
    assert_eq!(new.to_string(), "[]");
}

#[test]
fn format_keeps_a_comment_in_an_empty_array() {
    let mut deps = array("[ # nothing yet\n]");
    format_multiline_array(&mut deps);
    assert_eq!(deps.to_string(), "[\n    # nothing yet\n]");
}

#[test]
fn format_moves_comments_to_lines_of_their_own() {
    let mut deps = array("[ # c\n 1 # d\n, 2\n # e\n]");
    format_multiline_array(&mut deps);
    assert_eq!(
        deps.to_string(),
        "[\n    # c\n    # d\n    1,\n    # e\n    2,\n]"
    );
    let mut trailing = array("[1, # one\n 2, # two\n # end\n]");
    format_multiline_array(&mut trailing);
    assert_eq!(
        trailing.to_string(),
        "[\n    1,\n    # one\n    2,\n    # two\n    # end\n]"
    );
}

#[test]
fn format_twice_is_format_once() {
    for text in ["[]", "[1]", "[ 'a' , 'b' ]", "[ # c\n 1 # d\n, 2\n # e\n]", "[1,\n#x\n]"] {
        let mut deps = array(text);
        format_multiline_array(&mut deps);
        let once = deps.to_string();
        format_multiline_array(&mut deps);
        assert_eq!(deps.to_string(), once);
    }
}

#[test]
fn names_are_read_slot_by_slot() {
    let deps = array("['foo>=1', 2, 'not a requirement!', 'Bar[x] ; os_name == \"nt\"', ['z']]");
    assert_eq!(
        entry_names(&deps),
        names(&[Some("foo"), None, None, Some("Bar"), None])
    );
    assert_eq!(entry_names(&array("[]")), names(&[]));
}

#[test]
fn upsert_replaces_the_first_entry_for_the_package() {
    let mut deps = array("['a', \"foo==1\" , 'Foo==0']");
    upsert_entry(&mut deps, "foo==2", "foo");
    assert_eq!(
        deps.to_string(),
        "[\n    'a',\n    \"foo==2\",\n    'Foo==0',\n]"
    );
}

#[test]
fn upsert_adds_another_package_at_the_end() {
    let mut deps = array("['a', 7]");
    upsert_entry(&mut deps, "foo==2", "foo");
    assert_eq!(deps.to_string(), "[\n    'a',\n    7,\n    \"foo==2\",\n]");
    let mut empty = Array::new();
    upsert_entry(&mut empty, "foo", "foo");
    assert_eq!(empty.to_string(), "[\n    \"foo\",\n]");
}

#[test]
fn upsert_passes_over_what_is_no_requirement() {
    let mut deps = array("['foo bar', 1, 'foo']");
    upsert_entry(&mut deps, "foo>1", "foo");
    assert_eq!(
        deps.to_string(),
        "[\n    'foo bar',\n    1,\n    \"foo>1\",\n]"
    );
}

#[test]
fn upsert_keeps_the_comments_of_the_entry_it_replaces() {
    let mut deps = array("[\n  # about foo\n  'foo', # pinned\n  'bar',\n]");
    upsert_entry(&mut deps, "foo==2", "foo");
    assert_eq!(
        deps.to_string(),
        "[\n    # about foo\n    \"foo==2\",\n    # pinned\n    'bar',\n]"
    );
}
