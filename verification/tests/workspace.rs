use puffin_workspace::workspace::{Workspace, WorkspaceError};

const MANIFEST: &str = r#"# The build.
[build-system]
requires = ["hatchling"]   # the backend
build-backend = "hatchling.build"

[project]
name = "example"   # keep me
version = "0.1.0"
dependencies = ["bar", "foo==1.0"]

[tool.other]
key = 'value'
"#;

fn texts(workspace: &Workspace) -> Option<Vec<Option<String>>> {
    workspace.dependencies()
}

fn some(values: &[&str]) -> Option<Vec<Option<String>>> {
    Some(values.iter().map(|v| Some(v.to_string())).collect())
}

#[test]
fn unchanged_manifest_is_written_as_it_was_read() {
    let workspace = Workspace::parse(MANIFEST).unwrap();
    assert_eq!(workspace.render(), MANIFEST);
    let empty = Workspace::parse("").unwrap();
    assert_eq!(empty.render(), "");
    let comment = Workspace::parse("# nothing but a comment\n").unwrap();
    assert_eq!(comment.render(), "# nothing but a comment\n");
}

#[test]
fn carriage_returns_are_not_written_back() {
    // The tree keeps the line ends as they were read, and is written
    // without their carriage returns.
    let workspace = Workspace::parse("[project]\r\nname = \"x\"\r\n").unwrap();
    assert_eq!(workspace.render(), "[project]\nname = \"x\"\n");
}

#[test]
fn dependencies_are_read_in_order() {
    let workspace = Workspace::parse(MANIFEST).unwrap();
    assert_eq!(texts(&workspace), some(&["bar", "foo==1.0"]));
    assert_eq!(texts(&Workspace::parse("").unwrap()), None);
    assert_eq!(
        texts(&Workspace::parse("[project]\nname = \"x\"\n").unwrap()),
        None
    );
    assert_eq!(
        texts(&Workspace::parse("[project]\nname = \"x\"\ndependencies = []\n").unwrap()),
        some(&[])
    );
}

#[test]
fn add_to_manifest_without_project_table() {
    let mut workspace = Workspace::parse("").unwrap();
    workspace.add_dependency("foo>=1.0").unwrap();
    assert_eq!(texts(&workspace), some(&["foo>=1.0"]));
    assert_eq!(
        workspace.render(),
        "[project]\ndependencies = [\n    \"foo>=1.0\",\n]\n"
    );
}

#[test]
fn add_to_manifest_with_other_tables_only() {
    let source = "[build-system]\nrequires = []\n";
    let mut workspace = Workspace::parse(source).unwrap();
    workspace.add_dependency("foo>=1.0").unwrap();
    assert_eq!(texts(&workspace), some(&["foo>=1.0"]));
    assert_eq!(
        workspace.render(),
        "[build-system]\nrequires = []\n\n[project]\ndependencies = [\n    \"foo>=1.0\",\n]\n"
    );
}

#[test]
fn add_to_project_table_without_dependencies() {
    let source = "[project]\nname = \"example\"  # the name\n\n[tool.x]\na = 1\n";
    let mut workspace = Workspace::parse(source).unwrap();
    workspace.add_dependency("foo>=1.0").unwrap();
    assert_eq!(texts(&workspace), some(&["foo>=1.0"]));
    assert_eq!(
        workspace.render(),
        "[project]\nname = \"example\"  # the name\ndependencies = [\n    \"foo>=1.0\",\n]\n\n[tool.x]\na = 1\n"
    );
}

#[test]
fn add_twice_is_add_once() {
    for source in ["", "[project]\nname = \"x\"\n", MANIFEST] {
        for dependency in ["foo==2.0", "baz", "Bar>1"] {
            let mut workspace = Workspace::parse(source).unwrap();
            workspace.add_dependency(dependency).unwrap();
            let once = workspace.render();
            let list = texts(&workspace);
            workspace.add_dependency(dependency).unwrap();
            assert_eq!(workspace.render(), once);
            assert_eq!(texts(&workspace), list);
        }
    }
}

#[test]
fn same_package_is_replaced_in_place() {
    let mut workspace = Workspace::parse(MANIFEST).unwrap();
    workspace.add_dependency("foo==2.0").unwrap();
    assert_eq!(texts(&workspace), some(&["bar", "foo==2.0"]));
    assert_eq!(
        workspace.render(),
        MANIFEST.replace(
            "dependencies = [\"bar\", \"foo==1.0\"]",
            "dependencies = [\n    \"bar\",\n    \"foo==2.0\",\n]"
        )
    );
}

#[test]
fn same_package_is_found_by_its_normal_name() {
    let source = "[project]\nname = \"x\"\ndependencies = [\"a\", \"Foo_Bar==1.0\", \"foo.bar==3.0\"]\n";
    let mut workspace = Workspace::parse(source).unwrap();
    workspace.add_dependency("foo-bar==2.0").unwrap();
    assert_eq!(texts(&workspace), some(&["a", "foo-bar==2.0", "foo.bar==3.0"]));
}

#[test]
fn other_package_is_added_at_the_end() {
    let source = "[project]\nname = \"x\"\ndependencies = [\"bar\"]\n";
    let mut workspace = Workspace::parse(source).unwrap();
    workspace.add_dependency("foo").unwrap();
    assert_eq!(texts(&workspace), some(&["bar", "foo"]));
    assert_eq!(
        workspace.render(),
        "[project]\nname = \"x\"\ndependencies = [\n    \"bar\",\n    \"foo\",\n]\n"
    );
}

#[test]
fn entry_keeps_what_stood_around_it() {
    let source = "[project]\nname = \"x\"\ndependencies = [ 'foo' , \"bar\" ]  # the list\n";
    let mut workspace = Workspace::parse(source).unwrap();
    workspace.add_dependency("bar<2").unwrap();
    assert_eq!(
        workspace.render(),
        "[project]\nname = \"x\"\ndependencies = [\n    'foo',\n    \"bar<2\",\n]  # the list\n"
    );
}

#[test]
fn same_package_in_other_case_is_replaced() {
    let mut workspace = Workspace::parse("").unwrap();
    workspace.add_dependency("foo").unwrap();
    workspace.add_dependency("Foo").unwrap();
    assert_eq!(texts(&workspace), some(&["Foo"]));
    workspace.add_dependency("bar ; python_version < '3'").unwrap();
    workspace.add_dependency("FOO[x]").unwrap();
    assert_eq!(texts(&workspace), some(&["FOO[x]", "bar ; python_version < '3'"]));
    assert_eq!(
        workspace.render(),
        "[project]\ndependencies = [\n    \"FOO[x]\",\n    \"bar ; python_version < '3'\",\n]\n"
    );
}

#[test]
fn add_to_empty_list() {
    let source = "[project]\nname = \"x\"\ndependencies = []\n";
    let mut workspace = Workspace::parse(source).unwrap();
    workspace.add_dependency("foo").unwrap();
    assert_eq!(
        workspace.render(),
        "[project]\nname = \"x\"\ndependencies = [\n    \"foo\",\n]\n"
    );
}

#[test]
fn comments_in_the_list_are_kept() {
    let source = "[project]\nname = \"x\"\ndependencies = [\n  # first\n  \"bar\", # about bar\n  \"foo==1.0\",\n  # last\n]\n";
    let mut workspace = Workspace::parse(source).unwrap();
    workspace.add_dependency("foo==2.0").unwrap();
    assert_eq!(
        workspace.render(),
        "[project]\nname = \"x\"\ndependencies = [\n    # first\n    \"bar\",\n    # about bar\n    \"foo==2.0\",\n    # last\n]\n"
    );
    let once = workspace.render();
    workspace.add_dependency("foo==2.0").unwrap();
    assert_eq!(workspace.render(), once);
}

#[test]
fn the_rest_of_the_manifest_is_kept() {
    let mut workspace = Workspace::parse(MANIFEST).unwrap();
    workspace.add_dependency("baz[extra]>=3 ; python_version > '3.8'").unwrap();
    let rendered = workspace.render();
    assert!(rendered.starts_with(
        "# The build.\n[build-system]\nrequires = [\"hatchling\"]   # the backend\nbuild-backend = \"hatchling.build\"\n\n[project]\nname = \"example\"   # keep me\nversion = \"0.1.0\"\ndependencies = [\n    \"bar\",\n    \"foo==1.0\",\n    "
    ));
    assert!(rendered.ends_with(",\n]\n\n[tool.other]\nkey = 'value'\n"));
    assert_eq!(
        texts(&workspace),
        some(&["bar", "foo==1.0", "baz[extra]>=3 ; python_version > '3.8'"])
    );
    // What was written is a manifest again, with the same list.
    let again = Workspace::parse(&rendered).unwrap();
    assert_eq!(texts(&again), texts(&workspace));
    assert_eq!(again.render(), rendered);
}

#[test]
fn invalid_requirement_changes_nothing() {
    let mut workspace = Workspace::parse(MANIFEST).unwrap();
    for dependency in ["", "foo bar", "==1.0", "foo=>1"] {
        let res = workspace.add_dependency(dependency);
        assert!(matches!(res, Err(WorkspaceError::InvalidRequirement(_))));
        assert_eq!(workspace.render(), MANIFEST);
        assert_eq!(texts(&workspace), some(&["bar", "foo==1.0"]));
    }
}

#[test]
fn text_that_is_not_toml_is_refused() {
    for source in ["[project", "a = ", "[project]\nname = \"x\"\nname = \"y\"\n"] {
        assert!(matches!(
            Workspace::parse(source),
            Err(WorkspaceError::InvalidToml(_))
        ));
    }
}

#[test]
fn toml_that_is_no_manifest_is_refused() {
    for source in [
        "[build-system]\nrequires = 1\n",
        "[build-system]\nbuild-backend = \"x\"\n",
        "[project]\nversion = \"1\"\n",
        "project = 1\n",
        "[project]\nname = \"x\"\ndependencies = \"foo\"\n",
        "[project]\nname = \"x\"\ndependencies = [\"not a requirement!\"]\n",
    ] {
        assert!(matches!(
            Workspace::parse(source),
            Err(WorkspaceError::InvalidPyproject(_))
        ));
    }
}

#[test]
fn inline_project_table_takes_the_list() {
    let source = "project = { name = \"x\" }\n";
    let mut workspace = Workspace::parse(source).unwrap();
    assert_eq!(texts(&workspace), None);
    workspace.add_dependency("foo").unwrap();
    assert_eq!(texts(&workspace), some(&["foo"]));
    assert_eq!(
        workspace.render(),
        "project = { name = \"x\" , dependencies = [\n    \"foo\",\n] }\n"
    );
    let once = workspace.render();
    workspace.add_dependency("foo").unwrap();
    assert_eq!(workspace.render(), once);
    let again = Workspace::parse(&once).unwrap();
    assert_eq!(texts(&again), some(&["foo"]));
    assert_eq!(again.render(), once);
}

#[test]
fn inline_project_table_keeps_its_list_in_place() {
    let source = "project = { dependencies = [\"bar\", 'foo==1'], name = \"x\" }\n";
    let mut workspace = Workspace::parse(source).unwrap();
    assert_eq!(texts(&workspace), some(&["bar", "foo==1"]));
    workspace.add_dependency("foo==2").unwrap();
    assert_eq!(texts(&workspace), some(&["bar", "foo==2"]));
    assert_eq!(
        workspace.render(),
        "project = { dependencies = [\n    \"bar\",\n    \"foo==2\",\n], name = \"x\" }\n"
    );
}

#[test]
fn project_of_dotted_keys_takes_the_list() {
    let source = "project.name = \"x\"\n";
    let mut workspace = Workspace::parse(source).unwrap();
    workspace.add_dependency("foo").unwrap();
    assert_eq!(texts(&workspace), some(&["foo"]));
    let rendered = workspace.render();
    assert!(rendered.starts_with("project.name = \"x\"\n"));
    let again = Workspace::parse(&rendered).unwrap();
    assert_eq!(texts(&again), some(&["foo"]));
}

#[test]
fn project_that_is_no_table_is_refused() {
    // An array with one value for each field fits the typed view, and is
    // no table that could take a list.
    let source = "project = [\"x\", \"1.0\", \"d\", \"README.md\", \">=3.8\", \"MIT\", { paths = [\"LICENSE\"] }, [], [], [], [], {}, {}, {}, {}, [\"foo\"], {}, []]\n";
    match Workspace::parse(source) {
        Err(WorkspaceError::InvalidPyproject(message)) => assert_eq!(
            message,
            "`project` must be a table and `project.dependencies` an array"
        ),
        _ => panic!("expected a schema error"),
    }
}

#[test]
fn add_fails_only_for_what_is_no_requirement() {
    for source in [
        "",
        "# only a comment\n",
        "[project]\nname = \"x\"\n",
        "[project]\nname = \"x\"\ndependencies = []\n",
        "project = { name = \"x\" }\n",
        "project = { name = \"x\", dependencies = [] }\n",
        "project.name = \"x\"\n",
        "[project.urls]\nhome = \"h\"\n[project]\nname = \"x\"\n",
        MANIFEST,
    ] {
        let mut workspace = Workspace::parse(source).unwrap();
        assert!(workspace.add_dependency("foo>=1.0").is_ok());
        assert!(matches!(
            workspace.add_dependency("not a requirement!"),
            Err(WorkspaceError::InvalidRequirement(_))
        ));
        assert!(workspace.add_dependency("baz").is_ok());
        let list = texts(&workspace).unwrap();
        assert_eq!(list[list.len() - 1], Some("baz".to_string()));
        assert!(list.contains(&Some("foo>=1.0".to_string())));
        // A project table that has a name is a manifest again when it is
        // written.
        if source.contains("name") {
            let rendered = workspace.render();
            assert_eq!(texts(&Workspace::parse(&rendered).unwrap()), Some(list));
        }
    }
}

#[test]
fn errors_carry_a_message() {
    match Workspace::parse("[project") {
        Err(WorkspaceError::InvalidToml(message)) => assert!(!message.is_empty()),
        _ => panic!("expected a syntax error"),
    }
    assert_eq!(
        WorkspaceError::InvalidToml("bad".to_string()).to_string(),
        "bad"
    );
    assert_eq!(
        WorkspaceError::InvalidPyproject("worse".to_string()).to_string(),
        "worse"
    );
    assert_eq!(
        WorkspaceError::InvalidRequirement("worst".to_string()).to_string(),
        "worst"
    );
    match Workspace::parse("[build-system]\nrequires = 1\n") {
        Err(WorkspaceError::InvalidPyproject(message)) => assert!(!message.is_empty()),
        _ => panic!("expected a schema error"),
    }
    let mut workspace = Workspace::parse("").unwrap();
    match workspace.add_dependency("foo bar") {
        Err(WorkspaceError::InvalidRequirement(message)) => assert!(!message.is_empty()),
        _ => panic!("expected a requirement error"),
    }
}
