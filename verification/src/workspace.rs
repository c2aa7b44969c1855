//! A project manifest that can take a dependency and be written back with
//! its layout kept.

use vstd::prelude::*;
use pyproject_toml::PyProjectToml;
use toml_edit::{Array, Document, InlineTable, Item, Table};
use crate::list::{
    first_match, format_multiline_array, laid_out, lemma_laid_out_keeps_texts,
    lemma_upserted_idempotent, lemma_upserted_texts, name_views, names_of, texts_of, upsert_entry,
    upserted,
};
use crate::requirement::{pep508_name, requirement_error_message, requirement_name};
use crate::schema::{parse_pyproject, pyproject_accepts, schema_error_message};
use crate::tree::{
    array_get, array_len, array_model, array_new, array_push, document_item, document_item_mut,
    document_model, document_new, empty_list, inline_get, inline_get_mut, inline_insert,
    inline_model, item_as_array, item_as_array_mut, item_as_inline_table,
    item_as_inline_table_mut, item_as_table, item_as_table_mut, item_model, item_of_array,
    item_of_table, no_items, parse_document, render_document, table_get, table_get_mut,
    table_insert, table_model, table_new, toml_error_message, toml_parse, value_as_array,
    value_as_array_mut, value_as_str, value_of_array, with_changed, with_item, with_pushed,
    Keyed, List, Manifest, Node,
};

verus! {

/// Why a manifest could not be read or changed.
#[derive(Debug)]
pub enum WorkspaceError {
    /// The text is not TOML.
    InvalidToml(String),
    /// The text is TOML, but not a project manifest.
    InvalidPyproject(String),
    /// The text is no dependency specifier.
    InvalidRequirement(String),
}

impl WorkspaceError {
    /// What went wrong, in words.
    pub fn to_string(&self) -> (res: String)
        ensures
            res@ == self.message(),
    {
        match self {
            WorkspaceError::InvalidToml(message) => message.clone(),
            WorkspaceError::InvalidPyproject(message) => message.clone(),
            WorkspaceError::InvalidRequirement(message) => message.clone(),
        }
    }

    /// The message that the error carries.
    pub open spec fn message(&self) -> Seq<char> {
        match self {
            WorkspaceError::InvalidToml(message) => message@,
            WorkspaceError::InvalidPyproject(message) => message@,
            WorkspaceError::InvalidRequirement(message) => message@,
        }
    }
}

/// The key of the project table in a manifest.
pub open spec fn project_key() -> Seq<char> {
    "project"@
}

/// The key of the list of dependencies in the project table.
pub open spec fn dependencies_key() -> Seq<char> {
    "dependencies"@
}

/// What a table holds, where `node` is one, written inline or not.
pub open spec fn keyed_of(node: Node) -> Option<Keyed> {
    match node {
        Node::Section(keyed) => Some(keyed),
        Node::Inline(keyed) => Some(keyed),
        _ => None,
    }
}

/// Whether a project table that holds `project` can take a dependency:
/// `dependencies`, where it holds it, is an array.
pub open spec fn project_shaped(project: Keyed) -> bool {
    project.items.contains_key(dependencies_key()) ==> project.items[dependencies_key()] is List
}

/// The shape of a manifest: its root is a table; `project`, where the root
/// holds it, is a table, written inline or not; `dependencies`, where that
/// table holds it, is an array.
pub open spec fn well_shaped(root: Node) -> bool {
    &&& root is Section
    &&& root->Section_0.items.contains_key(project_key()) ==> {
        &&& keyed_of(root->Section_0.items[project_key()]) matches Some(project)
        &&& project_shaped(project)
    }
}

/// The list of dependencies of a manifest with the root `root`; `None` where
/// it has no project table, or that table has no such list.
pub open spec fn dependency_list(root: Node) -> Option<List> {
    if root is Section && root->Section_0.items.contains_key(project_key()) {
        match keyed_of(root->Section_0.items[project_key()]) {
            Some(project) => if project.items.contains_key(dependencies_key()) {
                match project.items[dependencies_key()] {
                    Node::List(list) => Some(list),
                    _ => None,
                }
            } else {
                None
            },
            None => None,
        }
    } else {
        None
    }
}

/// The list that holds the dependency `dep` alone, laid out.
pub open spec fn first_list(dep: Seq<char>) -> List {
    laid_out(with_pushed(empty_list(), dep))
}

/// What the project table `project` holds once it took the dependency `dep`
/// for the package `name`. Where it has a list of dependencies, `dep` takes
/// the place of the first entry for that package, or is added at the end;
/// the list stays where it stood among the keys. Where it has none, the list
/// is made with `dep` as its only entry, and is the last item of the table.
/// Nothing else in the table is changed.
pub open spec fn project_with_dependency(project: Keyed, dep: Seq<char>, name: Seq<char>) -> Keyed {
    if project.items.contains_key(dependencies_key()) {
        with_changed(
            project,
            dependencies_key(),
            Node::List(upserted(project.items[dependencies_key()]->List_0, dep, name)),
        )
    } else {
        with_item(project, dependencies_key(), Node::List(first_list(dep)))
    }
}

/// The project table `node`, written inline or not, once it took the
/// dependency `dep` for the package `name`. It stays written as it was.
pub open spec fn node_with_dependency(node: Node, dep: Seq<char>, name: Seq<char>) -> Node {
    match node {
        Node::Section(project) => Node::Section(project_with_dependency(project, dep, name)),
        Node::Inline(project) => Node::Inline(project_with_dependency(project, dep, name)),
        other => other,
    }
}

/// The root `root` of a well shaped manifest, once it took the dependency
/// `dep` for the package `name`. Where it has a project table, that table
/// takes the dependency and stays where it stood among the keys. Where it
/// has none, one is made that holds the list alone, and is the last item of
/// the root. Nothing else in the root is changed.
pub open spec fn with_dependency(root: Node, dep: Seq<char>, name: Seq<char>) -> Node {
    let top = root->Section_0;
    if top.items.contains_key(project_key()) {
        Node::Section(
            with_changed(
                top,
                project_key(),
                node_with_dependency(top.items[project_key()], dep, name),
            ),
        )
    } else {
        Node::Section(
            with_item(
                top,
                project_key(),
                Node::Section(
                    with_item(no_items(), dependencies_key(), Node::List(first_list(dep))),
                ),
            ),
        )
    }
}

/// A project manifest: its typed view, which is read once and never
/// written, and its syntax tree, which every change is made to and which
/// alone is written back.
#[derive(Debug)]
pub struct Workspace {
    /// The typed view of the manifest.
    #[allow(unused)]
    pyproject_toml: PyProjectToml,
    /// The syntax tree of the manifest.
    document: Document,
}

/// An array that holds the dependency `dependency` alone, laid out.
fn first_list_array(dependency: &str) -> (deps: Array)
    ensures
        array_model(deps) == first_list(dependency@),
{
    let mut deps = array_new();
    array_push(&mut deps, dependency);
    format_multiline_array(&mut deps);
    deps
}

/// Puts the dependency `dependency`, which asks for the package `name`, into
/// the project table `project`.
fn upsert_in_table(project: &mut Table, dependency: &str, name: &str)
    requires
        project_shaped(table_model(*old(project))),
    ensures
        table_model(*final(project)) == project_with_dependency(
            table_model(*old(project)),
            dependency@,
            name@,
        ),
        table_model(*final(project)) == table_model(*old(project)) ==> *final(project) == *old(
            project,
        ),
{
    match table_get_mut(project, "dependencies") {
        Some(item) => {
            match item_as_array_mut(item) {
                Some(deps) => {
                    upsert_entry(deps, dependency, name);
                },
                None => {},
            }
        },
        None => {
            table_insert(project, "dependencies", item_of_array(first_list_array(dependency)));
        },
    }
}

/// Puts the dependency `dependency`, which asks for the package `name`, into
/// the project table `project`, which is written inline.
fn upsert_in_inline(project: &mut InlineTable, dependency: &str, name: &str)
    requires
        project_shaped(inline_model(*old(project))),
    ensures
        inline_model(*final(project)) == project_with_dependency(
            inline_model(*old(project)),
            dependency@,
            name@,
        ),
        inline_model(*final(project)) == inline_model(*old(project)) ==> *final(project) == *old(
            project,
        ),
{
    match inline_get_mut(project, "dependencies") {
        Some(value) => {
            match value_as_array_mut(value) {
                Some(deps) => {
                    upsert_entry(deps, dependency, name);
                },
                None => {},
            }
        },
        None => {
            inline_insert(project, "dependencies", value_of_array(first_list_array(dependency)));
        },
    }
}

/// Puts the dependency `dependency`, which asks for the package `name`, into
/// the project table that `item` is.
fn upsert_in_project(item: &mut Item, dependency: &str, name: &str)
    requires
        keyed_of(item_model(*old(item))) matches Some(project) && project_shaped(project),
    ensures
        item_model(*final(item)) == node_with_dependency(item_model(*old(item)), dependency@, name@),
        item_model(*final(item)) == item_model(*old(item)) ==> *final(item) == *old(item),
{
    match item_as_table_mut(item) {
        Some(project) => {
            upsert_in_table(project, dependency, name);
        },
        None => {
            match item_as_inline_table_mut(item) {
                Some(project) => {
                    upsert_in_inline(project, dependency, name);
                },
                None => {},
            }
        },
    }
}

/// Puts the dependency `dependency`, which asks for the package `name`, into
/// the manifest `document`.
fn upsert_in_document(document: &mut Document, dependency: &str, name: &str)
    requires
        well_shaped(document_model(*old(document)).root),
    ensures
        document_model(*final(document)).root == with_dependency(
            document_model(*old(document)).root,
            dependency@,
            name@,
        ),
        document_model(*final(document)).root == document_model(*old(document)).root
            ==> *final(document) == *old(document),
{
    let root = document_item_mut(document);
    match item_as_table_mut(root) {
        Some(top) => {
            match table_get_mut(top, "project") {
                Some(item) => {
                    upsert_in_project(item, dependency, name);
                },
                None => {
                    let mut project = table_new();
                    table_insert(
                        &mut project,
                        "dependencies",
                        item_of_array(first_list_array(dependency)),
                    );
                    table_insert(top, "project", item_of_table(project));
                },
            }
        },
        None => {},
    }
}

/// Whether the project table that `item` is can take a dependency.
fn project_has_shape(item: &Item) -> (ok: bool)
    ensures
        ok == (keyed_of(item_model(*item)) matches Some(project) && project_shaped(project)),
{
    match item_as_table(item) {
        Some(project) => match table_get(project, "dependencies") {
            Some(deps) => item_as_array(deps).is_some(),
            None => true,
        },
        None => match item_as_inline_table(item) {
            Some(project) => match inline_get(project, "dependencies") {
                Some(deps) => value_as_array(deps).is_some(),
                None => true,
            },
            None => false,
        },
    }
}

/// Whether the tree of `document` has the shape of a manifest.
fn has_shape(document: &Document) -> (ok: bool)
    ensures
        ok == well_shaped(document_model(*document).root),
{
    match item_as_table(document_item(document)) {
        Some(top) => match table_get(top, "project") {
            Some(project) => project_has_shape(project),
            None => true,
        },
        None => false,
    }
}

/// The list of dependencies of the manifest `document`, where it has one.
fn dependency_array(document: &Document) -> (res: Option<&Array>)
    ensures
        res matches Some(deps) ==> dependency_list(document_model(*document).root) == Some(
            array_model(*deps),
        ),
        res is None ==> dependency_list(document_model(*document).root) is None,
{
    let top = match item_as_table(document_item(document)) {
        Some(top) => top,
        None => {
            return None;
        },
    };
    let project = match table_get(top, "project") {
        Some(project) => project,
        None => {
            return None;
        },
    };
    match item_as_table(project) {
        Some(table) => match table_get(table, "dependencies") {
            Some(deps) => item_as_array(deps),
            None => None,
        },
        None => match item_as_inline_table(project) {
            Some(table) => match inline_get(table, "dependencies") {
                Some(deps) => value_as_array(deps),
                None => None,
            },
            None => None,
        },
    }
}

impl Workspace {
    /// What the manifest holds: its tree, and the text that it is written as.
    pub closed spec fn model(&self) -> Manifest {
        document_model(self.document)
    }

    /// The typed view of the manifest.
    pub closed spec fn typed_view(&self) -> PyProjectToml {
        self.pyproject_toml
    }

    /// The root of the tree.
    pub open spec fn root(&self) -> Node {
        self.model().root
    }

    /// The text that the manifest is written as.
    pub open spec fn text(&self) -> Seq<char> {
        self.model().text
    }

    /// The strings in the list of dependencies, in order; `None` where the
    /// manifest has no such list.
    pub open spec fn dependency_texts(&self) -> Option<Seq<Option<Seq<char>>>> {
        match dependency_list(self.root()) {
            Some(list) => Some(texts_of(list)),
            None => None,
        }
    }

    /// What holds of every manifest: its tree is well shaped.
    #[verifier::type_invariant]
    pub open spec fn wf(&self) -> bool {
        well_shaped(self.root())
    }

    /// Reads a manifest from `text`. The text must be TOML, its
    /// `build-system` and `project` tables, where it has them, must hold
    /// what such tables may hold, and its tree must be well shaped.
    pub fn parse(text: &str) -> (res: Result<Workspace, WorkspaceError>)
        ensures
            match res {
                Ok(workspace) => {
                    &&& workspace.wf()
                    &&& toml_parse(text@) == Some(workspace.model())
                    &&& pyproject_accepts(text@)
                },
                Err(WorkspaceError::InvalidToml(_)) => toml_parse(text@) is None,
                Err(WorkspaceError::InvalidPyproject(_)) => {
                    &&& toml_parse(text@) matches Some(manifest)
                    &&& !pyproject_accepts(text@) || !well_shaped(manifest.root)
                },
                Err(WorkspaceError::InvalidRequirement(_)) => false,
            },
    {
        let document = match parse_document(text) {
            Ok(document) => document,
            Err(error) => {
                return Err(WorkspaceError::InvalidToml(toml_error_message(&error)));
            },
        };
        let pyproject_toml = match parse_pyproject(text) {
            Ok(pyproject_toml) => pyproject_toml,
            Err(error) => {
                return Err(WorkspaceError::InvalidPyproject(schema_error_message(&error)));
            },
        };
        if !has_shape(&document) {
            return Err(
                WorkspaceError::InvalidPyproject(
                    "`project` must be a table and `project.dependencies` an array".to_owned(),
                ),
            );
        }
        Ok(Workspace { pyproject_toml, document })
    }

    /// Adds the dependency `dependency` to the manifest, or puts it in the
    /// place of the first dependency on the same package. It fails only
    /// where `dependency` is no dependency specifier, and then changes
    /// nothing.
    pub fn add_dependency(&mut self, dependency: &str) -> (res: Result<(), WorkspaceError>)
        ensures
            final(self).wf(),
            added(*old(self), *final(self), dependency@, res),
    {
        proof {
            use_type_invariant(&*self);
        }
        let name = match requirement_name(dependency) {
            Ok(name) => name,
            Err(error) => {
                return Err(WorkspaceError::InvalidRequirement(requirement_error_message(&error)));
            },
        };
        // The tree is taken out of the manifest while it is changed.
        let mut document = document_new();
        core::mem::swap(&mut self.document, &mut document);
        upsert_in_document(&mut document, dependency, name.as_str());
        proof {
            lemma_with_dependency(old(self).root(), dependency@, name@);
        }
        core::mem::swap(&mut self.document, &mut document);
        Ok(())
    }

    /// The text of the manifest, as its tree is written.
    pub fn render(&self) -> (res: String)
        ensures
            res@ == self.text(),
    {
        proof {
            use_type_invariant(self);
        }
        render_document(&self.document)
    }

    /// The strings in the list of dependencies, in order; `None` in the
    /// place of a value that is not a string, and for the whole where the
    /// manifest has no such list.
    pub fn dependencies(&self) -> (res: Option<Vec<Option<String>>>)
        ensures
            res matches Some(texts) ==> self.dependency_texts() == Some(name_views(texts@)),
            res is None ==> self.dependency_texts() is None,
    {
        let deps = match dependency_array(&self.document) {
            Some(deps) => deps,
            None => {
                return None;
            },
        };
        let n = array_len(deps);
        let ghost list = array_model(*deps);
        let mut texts: Vec<Option<String>> = Vec::new();
        let mut i: usize = 0;
        while i < n
            invariant
                i <= n,
                list == array_model(*deps),
                n == list.entries.len(),
                texts@.len() == i,
                forall|j: int| 0 <= j < i ==> (#[trigger] name_views(texts@)[j]) == texts_of(list)[j],
            decreases n - i,
        {
            let ghost before = name_views(texts@);
            let text = match array_get(deps, i) {
                Some(value) => match value_as_str(value) {
                    Some(text) => Some(text.to_owned()),
                    None => None,
                },
                None => None,
            };
            texts.push(text);
            proof {
                assert forall|j: int| 0 <= j < i + 1 implies (#[trigger] name_views(texts@)[j])
                    == texts_of(list)[j] by {
                    if j < i {
                        assert(before[j] == texts_of(list)[j]);
                    }
                }
            }
            i += 1;
        }
        Some(texts)
    }
}

/// What `add_dependency` does: `before` is the manifest that it is asked
/// for, `after` the manifest that it leaves, `res` what it returns.
///
/// Where `dep` is a dependency specifier, the call succeeds and the tree
/// takes the dependency; the typed view stays as it was, and a tree that is
/// left as it was is written as it was. Else the call fails and the manifest
/// is unchanged.
pub open spec fn added(
    before: Workspace,
    after: Workspace,
    dep: Seq<char>,
    res: Result<(), WorkspaceError>,
) -> bool {
    match pep508_name(dep) {
        Some(name) => {
            &&& res is Ok
            &&& after.root() == with_dependency(before.root(), dep, name)
            &&& after.typed_view() == before.typed_view()
            &&& after.root() == before.root() ==> after.model() == before.model()
        },
        None => {
            &&& res matches Err(WorkspaceError::InvalidRequirement(_))
            &&& after == before
        },
    }
}

/// The list that a manifest has once it took a dependency.
pub open spec fn list_with_dependency(root: Node, dep: Seq<char>, name: Seq<char>) -> List {
    match dependency_list(root) {
        Some(list) => upserted(list, dep, name),
        None => first_list(dep),
    }
}

/// A well shaped manifest stays well shaped when it takes a dependency. Its
/// list of dependencies is then the list that it had with the dependency put
/// into it, or the list of that dependency alone where it had none.
pub proof fn lemma_with_dependency(root: Node, dep: Seq<char>, name: Seq<char>)
    requires
        well_shaped(root),
    ensures
        well_shaped(with_dependency(root, dep, name)),
        dependency_list(with_dependency(root, dep, name)) == Some(
            list_with_dependency(root, dep, name),
        ),
{
}

/// A manifest that took a dependency has all that it had before: every
/// other item of the root, and every other item of the project table, is
/// held as it was, and the keys of both stand in the order that they had,
/// with a key that was added at the end.
pub proof fn lemma_with_dependency_keeps_the_rest(
    root: Node,
    dep: Seq<char>,
    name: Seq<char>,
    key: Seq<char>,
)
    requires
        well_shaped(root),
    ensures
        ({
            let top = root->Section_0;
            let after = with_dependency(root, dep, name)->Section_0;
            &&& key != project_key() ==> after.items.contains_key(key) == top.items.contains_key(
                key,
            )
            &&& key != project_key() && top.items.contains_key(key) ==> after.items[key]
                == top.items[key]
            &&& after.order == if top.order.contains(project_key()) || top.items.contains_key(
                project_key(),
            ) {
                top.order
            } else {
                top.order.push(project_key())
            }
            &&& top.items.contains_key(project_key()) ==> {
                let project = keyed_of(top.items[project_key()])->0;
                let changed = keyed_of(after.items[project_key()])->0;
                &&& top.items[project_key()] is Inline <==> after.items[project_key()] is Inline
                &&& key != dependencies_key() ==> changed.items.contains_key(key)
                    == project.items.contains_key(key)
                &&& key != dependencies_key() && project.items.contains_key(key)
                    ==> changed.items[key] == project.items[key]
                &&& changed.order == if project.order.contains(dependencies_key())
                    || project.items.contains_key(dependencies_key()) {
                    project.order
                } else {
                    project.order.push(dependencies_key())
                }
            }
        }),
{
}

/// Taking the same dependency a second time changes nothing in the tree.
pub proof fn lemma_with_dependency_idempotent(root: Node, dep: Seq<char>, name: Seq<char>)
    requires
        well_shaped(root),
        pep508_name(dep) == Some(name),
    ensures
        with_dependency(with_dependency(root, dep, name), dep, name) == with_dependency(
            root,
            dep,
            name,
        ),
{
    let once = with_dependency(root, dep, name);
    let top_once = once->Section_0;
    let project_once = keyed_of(top_once.items[project_key()])->0;
    let list_once = list_with_dependency(root, dep, name);
    lemma_upserted_idempotent(empty_list(), dep, name);
    if let Some(list) = dependency_list(root) {
        lemma_upserted_idempotent(list, dep, name);
    }
    assert(upserted(list_once, dep, name) == list_once);
    assert(project_once.items[dependencies_key()] == Node::List(list_once));
    let project_twice = project_with_dependency(project_once, dep, name);
    assert(project_twice.items =~= project_once.items);
    assert(with_dependency(once, dep, name)->Section_0.items =~= top_once.items);
}

/// A manifest without a list of dependencies that takes a dependency then
/// has a project table whose list of dependencies holds that dependency
/// alone.
pub proof fn lemma_add_makes_list(
    before: Workspace,
    after: Workspace,
    dep: Seq<char>,
    res: Result<(), WorkspaceError>,
)
    requires
        before.wf(),
        added(before, after, dep, res),
        res is Ok,
        before.dependency_texts() is None,
    ensures
        after.root() is Section,
        after.root()->Section_0.items.contains_key(project_key()),
        keyed_of(after.root()->Section_0.items[project_key()]) is Some,
        after.dependency_texts() == Some(seq![Some(dep)]),
{
    lemma_with_dependency(before.root(), dep, pep508_name(dep)->0);
    lemma_laid_out_keeps_texts(with_pushed(empty_list(), dep));
}

/// Adding the same dependency a second time changes nothing: the manifest
/// is written as it was after the first time.
pub proof fn lemma_add_twice(
    first: Workspace,
    second: Workspace,
    third: Workspace,
    dep: Seq<char>,
    res1: Result<(), WorkspaceError>,
    res2: Result<(), WorkspaceError>,
)
    requires
        first.wf(),
        added(first, second, dep, res1),
        added(second, third, dep, res2),
    ensures
        third.text() == second.text(),
        third.root() == second.root(),
        res1 is Ok <==> res2 is Ok,
{
    if let Some(name) = pep508_name(dep) {
        lemma_with_dependency(first.root(), dep, name);
        lemma_with_dependency_idempotent(first.root(), dep, name);
    }
}

/// Adding a dependency on a package that the list has an entry for leaves
/// the list as long as it was, with the dependency in the place of the
/// first such entry. Adding one on a package that the list has no entry for
/// adds it at the end. Every other entry stays where it was.
pub proof fn lemma_add_replaces_or_appends(
    before: Workspace,
    after: Workspace,
    dep: Seq<char>,
    res: Result<(), WorkspaceError>,
)
    requires
        before.wf(),
        added(before, after, dep, res),
        res is Ok,
        before.dependency_texts() is Some,
    ensures
        ({
            let list = dependency_list(before.root())->0;
            let name = pep508_name(dep)->0;
            let texts = before.dependency_texts()->0;
            &&& first_match(names_of(list), name) matches Some(i) ==> after.dependency_texts()
                == Some(texts.update(i, Some(dep)))
            &&& first_match(names_of(list), name) is None ==> after.dependency_texts() == Some(
                texts.push(Some(dep)),
            )
        }),
{
    let list = dependency_list(before.root())->0;
    let name = pep508_name(dep)->0;
    lemma_with_dependency(before.root(), dep, name);
    lemma_upserted_texts(list, dep, name);
}

/// A manifest that was read from `text` and not changed is written as its
/// tree is: where the tree that `text` is read as is written as `text`
/// itself, so is the manifest.
pub proof fn lemma_unchanged_round_trip(text: Seq<char>, workspace: Workspace)
    requires
        toml_parse(text) == Some(workspace.model()),
        toml_parse(text) matches Some(manifest) && manifest.text == text,
    ensures
        workspace.text() == text,
{
}

} // verus!
