//! Script metadata as an editable pyproject document, and the way back.
use toml_edit::{DocumentMut, Item};
use vstd::prelude::*;

use crate::error::ScriptManifestError;
use crate::script_metadata::{
    foreign_pixi_fields, foreign_root_fields, pixi_of, subset_verdict, validate_subset,
};
use crate::toml::{
    as_value, clone_document, document_data, document_root, empty_table, fresh_document, fresh_item,
    get, insert, inserted, into_table, is_table, item_as_table, item_data, item_taken, item_under,
    item_without, new_document, parse_document, place, place_under, placed, remove, root, root_mut,
    text_item, text_list, toml_data, toml_document, with_root, TomlItem,
};

verus! {

/// An empty array.
pub open spec fn empty_list() -> TomlItem {
    TomlItem::List(Seq::empty())
}

/// What is under a key, or an empty table of its own.
pub open spec fn child_or_table(item: TomlItem, key: Seq<char>) -> TomlItem {
    match item.child(key) {
        Some(child) => child,
        None => TomlItem::Table(Seq::empty()),
    }
}

/// The key under which `tool.pixi` keeps its workspace: `project` only where that is there and
/// `workspace` is not.
pub open spec fn workspace_key(pixi: TomlItem) -> Seq<char> {
    if pixi.child("workspace"@) is None && pixi.child("project"@) is Some {
        "project"@
    } else {
        "workspace"@
    }
}

/// A workspace table with the lists that it must have.
pub open spec fn with_list(workspace: TomlItem, key: Seq<char>) -> TomlItem {
    if workspace.child(key) is None {
        workspace.with_child(key, empty_list())
    } else {
        workspace
    }
}

/// The workspace of a pyproject document, or the empty one that it gets.
pub open spec fn workspace_of(root: TomlItem) -> TomlItem {
    let pixi = child_or_table(child_or_table(root, "tool"@), "pixi"@);
    child_or_table(pixi, workspace_key(pixi))
}

/// A pyproject document whose pixi table has a workspace with channels and platforms.
pub open spec fn with_workspace(root: TomlItem) -> TomlItem {
    let tool = child_or_table(root, "tool"@);
    let pixi = child_or_table(tool, "pixi"@);
    let workspace = with_list(with_list(workspace_of(root), "channels"@), "platforms"@);
    root.with_child(
        "tool"@,
        tool.with_child("pixi"@, pixi.with_child(workspace_key(pixi), workspace)),
    )
}

/// A new table of its own with no entries.
pub open spec fn new_table() -> Item {
    fresh_item(TomlItem::Table(Seq::empty()))
}

/// An item with a table under a key, which is a new one if there was nothing.
pub open spec fn with_table(item: Item, key: Seq<char>) -> Item {
    if item_under(item, key) is None {
        placed(item, key, new_table())
    } else {
        item
    }
}

/// A workspace table that an empty list was inserted into, if it lacked that list.
pub open spec fn with_list_item(workspace: Item, key: Seq<char>) -> Item {
    if item_under(workspace, key) is None {
        inserted(workspace, key, fresh_item(empty_list()))
    } else {
        workspace
    }
}

/// The root of a pyproject document that was given a pixi workspace, and, unless that workspace
/// was no table, channels and platforms in it. What was there before is kept as it was laid out.
pub open spec fn with_workspace_item(root: Item, filled: bool) -> Item {
    let root = with_table(root, "tool"@);
    let tool = with_table(place_under(root, "tool"@), "pixi"@);
    let found = place_under(tool, "pixi"@);
    let key = if item_under(found, "workspace"@) is None && item_under(found, "project"@) is Some {
        "project"@
    } else {
        "workspace"@
    };
    let pixi = with_table(found, key);
    let workspace = place_under(pixi, key);
    let workspace = if filled {
        with_list_item(with_list_item(workspace, "channels"@), "platforms"@)
    } else {
        workspace
    };
    placed(root, "tool"@, placed(tool, "pixi"@, placed(pixi, key, workspace)))
}

/// Makes sure that a pyproject document has a pixi workspace with channels and platforms.
pub fn ensure_pixi_workspace(pyproject: &mut DocumentMut) -> (result: Result<
    (),
    ScriptManifestError,
>)
    requires
        document_data(*old(pyproject)) is Table,
        child_or_table(document_data(*old(pyproject)), "tool"@).is_table_like(),
        child_or_table(
            child_or_table(document_data(*old(pyproject)), "tool"@),
            "pixi"@,
        ).is_table_like(),
    ensures
        ({
            let before = document_data(*old(pyproject));
            let after = document_data(*final(pyproject));
            &&& *final(pyproject) == with_root(
                *old(pyproject),
                with_workspace_item(document_root(*old(pyproject)), workspace_of(before) is Table),
            )
            &&& if workspace_of(before) is Table {
                result is Ok && after == with_workspace(before)
            } else {
                (result matches Err(ScriptManifestError::InvalidPixiWorkspace)) && after == before
            }
        }),
{
    let ghost before = document_data(*pyproject);
    let ghost tool_data = child_or_table(before, "tool"@);
    let ghost pixi_data = child_or_table(tool_data, "pixi"@);
    let document = root_mut(pyproject);
    if get(document, "tool").is_none() {
        *place(document, "tool") = empty_table();
    }
    proof {
        before.lemma_child_with("tool"@, tool_data, "tool"@);
        before.lemma_with_twice("tool"@, tool_data, tool_data);
        assert forall|other: TomlItem|
            item_data(*document).with_child("tool"@, other) == #[trigger] before.with_child(
                "tool"@,
                other,
            ) by {
            before.lemma_with_twice("tool"@, tool_data, other);
        }
    }
    let tool = place(document, "tool");
    assert(item_data(*tool) == tool_data);
    if get(tool, "pixi").is_none() {
        *place(tool, "pixi") = empty_table();
    }
    proof {
        tool_data.lemma_child_with("pixi"@, pixi_data, "pixi"@);
        assert forall|other: TomlItem|
            item_data(*tool).with_child("pixi"@, other) == #[trigger] tool_data.with_child(
                "pixi"@,
                other,
            ) by {
            tool_data.lemma_with_twice("pixi"@, pixi_data, other);
        }
    }
    let pixi = place(tool, "pixi");
    assert(item_data(*pixi) == pixi_data);
    let key: &str = if get(pixi, "workspace").is_some() {
        "workspace"
    } else if get(pixi, "project").is_some() {
        "project"
    } else {
        *place(pixi, "workspace") = empty_table();
        "workspace"
    };
    assert(key@ == workspace_key(pixi_data));
    let ghost workspace_data = child_or_table(pixi_data, key@);
    proof {
        pixi_data.lemma_child_with(key@, workspace_data, key@);
        assert forall|other: TomlItem|
            item_data(*pixi).with_child(key@, other) == #[trigger] pixi_data.with_child(
                key@,
                other,
            ) by {
            pixi_data.lemma_with_twice(key@, workspace_data, other);
        }
    }
    let workspace = place(pixi, key);
    assert(item_data(*workspace) == workspace_data);
    if !is_table(workspace) {
        proof {
            pixi_data.lemma_with_same(key@, workspace_data);
            tool_data.lemma_with_same("pixi"@, pixi_data);
            before.lemma_with_same("tool"@, tool_data);
        }
        return Err(ScriptManifestError::InvalidPixiWorkspace);
    }
    let none: Vec<String> = Vec::new();
    assert(none@.map_values(|text: String| TomlItem::Text(text@)) =~= Seq::empty());
    proof {
        workspace_data.lemma_child_with("channels"@, empty_list(), "platforms"@);
    }
    if get(workspace, "channels").is_none() {
        insert(workspace, "channels", text_list(none.as_slice()));
    }
    if get(workspace, "platforms").is_none() {
        insert(workspace, "platforms", text_list(none.as_slice()));
    }
    Ok(())
}

/// `tool.pixi` of script metadata is a table, or there is none.
pub open spec fn pixi_is_usable(root: TomlItem) -> bool {
    pixi_of(root).is_table_like() || pixi_of(root) is Empty
}

/// What script metadata has under `tool`, if it has that, is a table.
pub open spec fn tool_is_usable(root: TomlItem) -> bool {
    root.removed("tool"@) matches Some(tool) ==> tool.is_table_like()
}

/// The entries of a table of either form, as a table of its own.
pub open spec fn own_table(item: TomlItem) -> TomlItem {
    match item {
        TomlItem::Inline(entries) => TomlItem::Table(entries),
        other => other,
    }
}

/// The project table that script metadata stands for.
pub open spec fn project_of(root: TomlItem, name: Seq<char>) -> TomlItem {
    let dependencies = match root.removed("dependencies"@) {
        Some(dependencies) => dependencies,
        None => empty_list(),
    };
    let project = TomlItem::Empty.with_child("name"@, TomlItem::Text(name)).with_child(
        "dependencies"@,
        dependencies,
    );
    match root.removed("requires-python"@) {
        Some(requires_python) => project.with_child("requires-python"@, requires_python),
        None => project,
    }
}

/// The pyproject document that script metadata stands for, before it gets a workspace: its
/// project, and its pixi table. Other tools have no part in it.
pub open spec fn pyproject_of(root: TomlItem, name: Seq<char>) -> TomlItem {
    let base = TomlItem::Table(Seq::empty()).with_child("project"@, project_of(root, name));
    let pixi = match root.removed("tool"@) {
        Some(tool) => own_table(tool).removed("pixi"@),
        None => None,
    };
    match pixi {
        Some(pixi) => base.with_child(
            "tool"@,
            TomlItem::Table(Seq::empty()).with_child("pixi"@, pixi),
        ),
        None => base,
    }
}

/// `result` is the pyproject document for script metadata with this root and a project of this
/// name, or the reason why there is none.
pub open spec fn inline_verdict(
    root: TomlItem,
    name: Seq<char>,
    result: Result<DocumentMut, ScriptManifestError>,
) -> bool {
    if foreign_root_fields(root).len() > 0 || foreign_pixi_fields(pixi_of(root)).len() > 0 {
        result matches Err(error) && subset_verdict(root, Err(error))
    } else if !tool_is_usable(root) {
        result matches Err(ScriptManifestError::InvalidToolTable)
    } else if !(workspace_of(pyproject_of(root, name)) is Table) {
        result matches Err(ScriptManifestError::InvalidPixiWorkspace)
    } else {
        result matches Ok(document) && document_data(document) == with_workspace(
            pyproject_of(root, name),
        )
    }
}

/// The pyproject document for script metadata, before it gets a workspace. It is a new document,
/// into which the items of the metadata go as they are laid out there.
pub open spec fn pyproject_document_of(metadata: DocumentMut, name: Seq<char>) -> DocumentMut {
    let fields = document_root(metadata);
    let without_dependencies = item_without(fields, "dependencies"@);
    let dependencies = match item_taken(fields, "dependencies"@) {
        Some(dependencies) => dependencies,
        None => fresh_item(empty_list()),
    };
    let rest = item_without(without_dependencies, "requires-python"@);
    let pixi = match item_taken(rest, "tool"@) {
        Some(tool) => item_taken(item_as_table(tool)->Some_0, "pixi"@),
        None => None,
    };
    let document = fresh_document(TomlItem::Table(Seq::empty()));
    let named = in_project(document_root(document), "name"@, fresh_item(TomlItem::Text(name)));
    let listed = in_project(named, "dependencies"@, dependencies);
    let root = match item_taken(without_dependencies, "requires-python"@) {
        Some(requires_python) => in_project(listed, "requires-python"@, requires_python),
        None => listed,
    };
    let root = match pixi {
        Some(pixi) => {
            let tooled = placed(root, "tool"@, new_table());
            placed(tooled, "tool"@, inserted(place_under(tooled, "tool"@), "pixi"@, pixi))
        },
        None => root,
    };
    with_root(document, root)
}

/// The root of a pyproject document with something under a key of its project.
pub open spec fn in_project(root: Item, key: Seq<char>, item: Item) -> Item {
    placed(root, "project"@, placed(place_under(root, "project"@), key, item))
}

/// The pyproject document for script metadata.
pub open spec fn inlined_document(metadata: DocumentMut, name: Seq<char>) -> DocumentMut {
    let pyproject = pyproject_document_of(metadata, name);
    with_root(pyproject, with_workspace_item(document_root(pyproject), true))
}

/// The keys of script metadata are different keys.
proof fn lemma_keys()
    ensures
        "dependencies"@ != "requires-python"@,
        "dependencies"@ != "tool"@,
        "requires-python"@ != "tool"@,
        "project"@ != "tool"@,
        "channels"@ != "platforms"@,
        "name"@ != "dependencies"@,
        "name"@ != "requires-python"@,
{
    reveal_strlit("dependencies");
    reveal_strlit("requires-python");
    reveal_strlit("tool");
    reveal_strlit("project");
    reveal_strlit("channels");
    reveal_strlit("platforms");
    reveal_strlit("name");
    assert("dependencies"@.len() == 12);
    assert("requires-python"@.len() == 15);
    assert("tool"@.len() == 4);
    assert("project"@.len() == 7);
    assert("channels"@.len() == 8);
    assert("platforms"@.len() == 9);
    assert("name"@.len() == 4);
}

/// Removing a key of a table of its own leaves what comes out under other keys.
proof fn lemma_removed_without(item: TomlItem, key: Seq<char>, other: Seq<char>)
    requires
        item is Table,
        key != other,
    ensures
        item.without_child(key).removed(other) == item.removed(other),
        item.without_child(key) is Table,
{
    crate::toml::lemma_lookup_without(item->Table_0, key, other);
}

/// Makes the pyproject document for parsed script metadata.
pub fn inline_document(metadata: DocumentMut, project_name: &str) -> (result: Result<
    DocumentMut,
    ScriptManifestError,
>)
    requires
        document_data(metadata) is Table,
        foreign_root_fields(document_data(metadata)).len() > 0 || pixi_is_usable(
            document_data(metadata),
        ),
    ensures
        inline_verdict(document_data(metadata), project_name@, result),
        result matches Ok(document) ==> document == inlined_document(metadata, project_name@),
{
    let ghost data = document_data(metadata);
    match validate_subset(&metadata) {
        Ok(()) => {},
        Err(error) => return Err(error),
    }
    let mut metadata = metadata;
    proof {
        lemma_keys();
        lemma_removed_without(data, "dependencies"@, "requires-python"@);
        lemma_removed_without(data, "dependencies"@, "tool"@);
        lemma_removed_without(
            data.without_child("dependencies"@),
            "requires-python"@,
            "tool"@,
        );
    }
    let fields = root_mut(&mut metadata);
    let none: Vec<String> = Vec::new();
    assert(none@.map_values(|text: String| TomlItem::Text(text@)) =~= Seq::empty());
    let dependencies = match remove(fields, "dependencies") {
        Some(dependencies) => dependencies,
        None => text_list(none.as_slice()),
    };
    let requires_python = remove(fields, "requires-python");
    let pixi = match remove(fields, "tool") {
        Some(tool) => match into_table(tool) {
            Some(mut tool) => remove(&mut tool, "pixi"),
            None => return Err(ScriptManifestError::InvalidToolTable),
        },
        None => None,
    };

    let mut pyproject = new_document();
    let document = root_mut(&mut pyproject);
    let ghost empty = TomlItem::Table(Seq::empty());
    let ghost named = TomlItem::Empty.with_child("name"@, TomlItem::Text(project_name@));
    let ghost with_dependencies = named.with_child("dependencies"@, item_data(dependencies));
    proof {
        empty.lemma_child_with("project"@, named, "project"@);
        empty.lemma_child_with("project"@, with_dependencies, "project"@);
        empty.lemma_with_twice("project"@, named, with_dependencies);
        empty.lemma_with_twice("project"@, with_dependencies, project_of(data, project_name@));
        empty.lemma_child_with("project"@, project_of(data, project_name@), "tool"@);
        assert(empty.child("project"@) is None);
        assert(empty.child("tool"@) is None);
        assert(empty.child("pixi"@) is None);
    }
    *place(place(document, "project"), "name") = text_item(project_name);
    assert(item_data(*document) == empty.with_child("project"@, named));
    *place(place(document, "project"), "dependencies") = dependencies;
    assert(item_data(*document) == empty.with_child("project"@, with_dependencies));
    match requires_python {
        Some(requires_python) => {
            *place(place(document, "project"), "requires-python") = requires_python;
        },
        None => {},
    }
    let ghost base = empty.with_child("project"@, project_of(data, project_name@));
    assert(item_data(*document) == base);
    match pixi {
        Some(pixi) => {
            let ghost tool_data = empty.with_child("pixi"@, item_data(pixi));
            proof {
                base.lemma_child_with("tool"@, empty, "tool"@);
                base.lemma_with_twice("tool"@, empty, tool_data);
                base.lemma_child_with("tool"@, tool_data, "tool"@);
                empty.lemma_child_with("pixi"@, item_data(pixi), "pixi"@);
            }
            *place(document, "tool") = empty_table();
            insert(place(document, "tool"), "pixi", pixi);
        },
        None => {},
    }
    assert(item_data(*document) == pyproject_of(data, project_name@));
    match ensure_pixi_workspace(&mut pyproject) {
        Ok(()) => Ok(pyproject),
        Err(error) => Err(error),
    }
}

/// Makes the pyproject document that script metadata stands for.
pub fn inline_pyproject(metadata: &str, project_name: &str) -> (result: Result<
    DocumentMut,
    ScriptManifestError,
>)
    requires
        toml_data(metadata@) matches Some(root) ==> foreign_root_fields(root).len() > 0
            || pixi_is_usable(root),
    ensures
        match toml_data(metadata@) {
            Some(root) => inline_verdict(root, project_name@, result),
            None => result matches Err(ScriptManifestError::TomlEdit(_)),
        },
        result matches Ok(document) ==> (toml_document(metadata@) matches Some(parsed) && document
            == inlined_document(parsed, project_name@)),
{
    match parse_document(metadata) {
        Ok(document) => inline_document(document, project_name),
        Err(error) => Err(ScriptManifestError::TomlEdit(error)),
    }
}

/// The project table of an edited pyproject document.
pub open spec fn edited_project(pyproject: TomlItem) -> Option<TomlItem> {
    match pyproject.removed("project"@) {
        Some(project) => if project.is_table_like() {
            Some(own_table(project))
        } else {
            None
        },
        None => None,
    }
}

/// The pixi table of an edited pyproject document.
pub open spec fn edited_pixi(pyproject: TomlItem) -> Option<TomlItem> {
    match pyproject.child("tool"@) {
        Some(tool) => tool.removed("pixi"@),
        None => None,
    }
}

/// Script metadata with the dependencies and the Python requirement of an edited project.
pub open spec fn with_project(metadata: TomlItem, project: TomlItem) -> TomlItem {
    let dependencies = match project.removed("dependencies"@) {
        Some(dependencies) => dependencies,
        None => empty_list(),
    };
    let with_dependencies = metadata.with_child("dependencies"@, dependencies);
    match project.removed("requires-python"@) {
        Some(requires_python) => with_dependencies.with_child(
            "requires-python"@,
            requires_python,
        ),
        None => with_dependencies.without_child("requires-python"@),
    }
}

/// Script metadata with this under `tool.pixi`.
pub open spec fn with_pixi(metadata: TomlItem, pixi: TomlItem) -> TomlItem {
    let tool = child_or_table(metadata, "tool"@);
    let kept = if tool is Inline {
        as_value(pixi)
    } else {
        pixi
    };
    metadata.with_child("tool"@, tool.with_child("pixi"@, kept))
}

/// Script metadata into which the edits to its pyproject document were brought back.
pub open spec fn edited(metadata: TomlItem, pyproject: TomlItem) -> TomlItem {
    let with_project = with_project(metadata, edited_project(pyproject)->Some_0);
    match edited_pixi(pyproject) {
        Some(pixi) => with_pixi(with_project, pixi),
        None => with_project,
    }
}

/// The pixi table of an edited document, if it has one, can go under `tool` of the metadata.
pub open spec fn edits_fit(metadata: TomlItem, pyproject: TomlItem) -> bool {
    let tool = child_or_table(metadata, "tool"@);
    edited_pixi(pyproject) matches Some(pixi) ==> tool.is_table_like() && (tool is Inline ==> !(
    pixi is Empty))
}

/// `result` is the metadata document with the edits in it, or the reason why there is none.
pub open spec fn edit_verdict(
    metadata: Option<TomlItem>,
    pyproject: TomlItem,
    result: Result<DocumentMut, ScriptManifestError>,
) -> bool {
    if edited_project(pyproject) is None {
        result matches Err(ScriptManifestError::InvalidEditableDocument)
    } else {
        match metadata {
            Some(metadata) => result matches Ok(document) && document_data(document) == edited(
                metadata,
                pyproject,
            ) && document_data(document) is Table,
            None => result matches Err(ScriptManifestError::TomlEdit(_)),
        }
    }
}

/// The root of script metadata into which the edits to its pyproject document were brought back,
/// with what the edits do not speak of as it was laid out.
pub open spec fn edited_root(fields: Item, pyproject: Item) -> Item {
    let source = item_without(pyproject, "project"@);
    let project = item_as_table(item_taken(pyproject, "project"@)->Some_0)->Some_0;
    let dependencies = match item_taken(project, "dependencies"@) {
        Some(dependencies) => dependencies,
        None => fresh_item(empty_list()),
    };
    let listed = placed(fields, "dependencies"@, dependencies);
    let joined = match item_taken(item_without(project, "dependencies"@), "requires-python"@) {
        Some(requires_python) => placed(listed, "requires-python"@, requires_python),
        None => item_without(listed, "requires-python"@),
    };
    let pixi = match item_under(source, "tool"@) {
        Some(_) => item_taken(place_under(source, "tool"@), "pixi"@),
        None => None,
    };
    match pixi {
        Some(pixi) => {
            let tooled = with_table(joined, "tool"@);
            placed(tooled, "tool"@, inserted(place_under(tooled, "tool"@), "pixi"@, pixi))
        },
        None => joined,
    }
}

/// Script metadata into which the edits to its pyproject document were brought back.
pub open spec fn edited_document(metadata: DocumentMut, pyproject: DocumentMut) -> DocumentMut {
    with_root(metadata, edited_root(document_root(metadata), document_root(pyproject)))
}

/// What is not edited in script metadata is the very same, layout and comments and all: the items
/// at the root other than the dependencies, the Python requirement and the tools, and the tools
/// other than pixi.
pub open spec fn keeps_other_items(before: Item, after: Item) -> bool {
    &&& forall|key: Seq<char>|
        key != "dependencies"@ && key != "requires-python"@ && key != "tool"@
            ==> #[trigger] item_under(after, key) == item_under(before, key)
    &&& item_under(before, "tool"@) matches Some(tool) ==> (item_under(after, "tool"@) matches Some(
        edited,
    ) && forall|key: Seq<char>|
        key != "pixi"@ ==> #[trigger] item_under(edited, key) == item_under(tool, key))
}

/// Brings the edits that were made to a pyproject document back into script metadata.
pub fn edit_metadata(metadata: &str, pyproject: &DocumentMut) -> (result: Result<
    DocumentMut,
    ScriptManifestError,
>)
    requires
        document_data(*pyproject) is Table,
        edited_project(document_data(*pyproject)) is Some ==> (toml_data(metadata@) matches Some(
            root,
        ) ==> edits_fit(root, document_data(*pyproject))),
    ensures
        edit_verdict(toml_data(metadata@), document_data(*pyproject), result),
        result matches Ok(document) ==> (toml_document(metadata@) matches Some(parsed) && document
            == edited_document(parsed, *pyproject) && keeps_other_items(
            document_root(parsed),
            document_root(document),
        )),
{
    let ghost edits = document_data(*pyproject);
    proof {
        lemma_keys();
        lemma_removed_without(edits, "project"@, "tool"@);
        edits.lemma_child_without("project"@, "tool"@);
    }
    let mut pyproject = clone_document(pyproject);
    let source = root_mut(&mut pyproject);
    let mut project = match remove(source, "project") {
        Some(item) => match into_table(item) {
            Some(project) => project,
            None => return Err(ScriptManifestError::InvalidEditableDocument),
        },
        None => return Err(ScriptManifestError::InvalidEditableDocument),
    };
    let ghost project_data = item_data(project);
    assert(edited_project(edits) == Some(project_data));
    let none: Vec<String> = Vec::new();
    assert(none@.map_values(|text: String| TomlItem::Text(text@)) =~= Seq::empty());
    proof {
        lemma_removed_without(project_data, "dependencies"@, "requires-python"@);
    }
    let dependencies = match remove(&mut project, "dependencies") {
        Some(dependencies) => dependencies,
        None => text_list(none.as_slice()),
    };

    let mut metadata = match parse_document(metadata) {
        Ok(metadata) => metadata,
        Err(error) => return Err(ScriptManifestError::TomlEdit(error)),
    };
    let ghost before = document_data(metadata);
    let fields = root_mut(&mut metadata);
    *place(fields, "dependencies") = dependencies;
    match remove(&mut project, "requires-python") {
        Some(requires_python) => {
            *place(fields, "requires-python") = requires_python;
        },
        None => {
            let _ = remove(fields, "requires-python");
        },
    }
    assert(item_data(*fields) == with_project(before, project_data));
    proof {
        lemma_tool_kept(before, project_data);
    }

    let pixi = match get(source, "tool") {
        Some(_) => remove(place(source, "tool"), "pixi"),
        None => None,
    };
    match pixi {
        Some(pixi) => {
            let ghost joined = item_data(*fields);
            let ghost tool_data = child_or_table(joined, "tool"@);
            if get(fields, "tool").is_none() {
                *place(fields, "tool") = empty_table();
            }
            proof {
                joined.lemma_child_with("tool"@, tool_data, "tool"@);
                joined.lemma_with_twice(
                    "tool"@,
                    tool_data,
                    tool_data.with_child(
                        "pixi"@,
                        if tool_data is Inline {
                            as_value(item_data(pixi))
                        } else {
                            item_data(pixi)
                        },
                    ),
                );
            }
            insert(place(fields, "tool"), "pixi", pixi);
        },
        None => {},
    }
    Ok(metadata)
}

/// Bringing a project back leaves all that it does not speak of.
pub proof fn lemma_tool_kept(metadata: TomlItem, project: TomlItem)
    requires
        metadata is Table,
    ensures
        with_project(metadata, project) is Table,
        forall|key: Seq<char>|
            key != "dependencies"@ && key != "requires-python"@ ==> #[trigger] with_project(
                metadata,
                project,
            ).child(key) == metadata.child(key),
        with_project(metadata, project).child("tool"@) == metadata.child("tool"@),
{
    lemma_keys();
    let dependencies = match project.removed("dependencies"@) {
        Some(dependencies) => dependencies,
        None => empty_list(),
    };
    let with_dependencies = metadata.with_child("dependencies"@, dependencies);
    assert forall|key: Seq<char>|
        key != "dependencies"@ && key != "requires-python"@ implies #[trigger] with_project(
        metadata,
        project,
    ).child(key) == metadata.child(key) by {
        metadata.lemma_child_with("dependencies"@, dependencies, key);
        match project.removed("requires-python"@) {
            Some(requires_python) => {
                with_dependencies.lemma_child_with("requires-python"@, requires_python, key);
            },
            None => {
                with_dependencies.lemma_child_without("requires-python"@, key);
            },
        }
    }
}

/// A pyproject document that got a workspace has one with channels and platforms. Giving it one
/// again changes nothing.
pub proof fn workspace_is_given_once(root: TomlItem)
    requires
        root is Table,
        child_or_table(root, "tool"@).is_table_like(),
        child_or_table(child_or_table(root, "tool"@), "pixi"@).is_table_like(),
        workspace_of(root) is Table,
    ensures
        workspace_of(with_workspace(root)) is Table,
        workspace_of(with_workspace(root)).child("channels"@) is Some,
        workspace_of(with_workspace(root)).child("platforms"@) is Some,
        with_workspace(with_workspace(root)) == with_workspace(root),
{
    lemma_keys();
    let tool = child_or_table(root, "tool"@);
    let pixi = child_or_table(tool, "pixi"@);
    let key = workspace_key(pixi);
    let before = workspace_of(root);
    let channeled = with_list(before, "channels"@);
    let workspace = with_list(channeled, "platforms"@);
    before.lemma_child_with("channels"@, empty_list(), "channels"@);
    channeled.lemma_child_with("platforms"@, empty_list(), "channels"@);
    channeled.lemma_child_with("platforms"@, empty_list(), "platforms"@);
    let new_pixi = pixi.with_child(key, workspace);
    let new_tool = tool.with_child("pixi"@, new_pixi);
    let after = root.with_child("tool"@, new_tool);
    pixi.lemma_child_with(key, workspace, key);
    pixi.lemma_child_with(key, workspace, "workspace"@);
    pixi.lemma_child_with(key, workspace, "project"@);
    tool.lemma_child_with("pixi"@, new_pixi, "pixi"@);
    root.lemma_child_with("tool"@, new_tool, "tool"@);
    assert(child_or_table(after, "tool"@) == new_tool);
    assert(child_or_table(new_tool, "pixi"@) == new_pixi);
    assert(workspace_key(new_pixi) == key);
    assert(workspace_of(after) == workspace);
    new_pixi.lemma_with_same(key, workspace);
    new_tool.lemma_with_same("pixi"@, new_pixi);
    after.lemma_with_same("tool"@, new_tool);
}

/// Edits to the pyproject document of a script leave everything in its metadata that the
/// document does not show: other fields at the root, and the tables of other tools.
pub proof fn edits_leave_other_tools(metadata: TomlItem, pyproject: TomlItem)
    requires
        metadata is Table,
        edited_project(pyproject) is Some,
        edits_fit(metadata, pyproject),
    ensures
        forall|key: Seq<char>|
            key != "dependencies"@ && key != "requires-python"@ && key != "tool"@
                ==> #[trigger] edited(metadata, pyproject).child(key) == metadata.child(key),
        forall|key: Seq<char>|
            key != "pixi"@ ==> #[trigger] child_or_table(
                edited(metadata, pyproject),
                "tool"@,
            ).child(key) == child_or_table(metadata, "tool"@).child(key),
        edited_pixi(pyproject) is None ==> edited(metadata, pyproject).child("tool"@)
            == metadata.child("tool"@),
{
    let project = edited_project(pyproject)->Some_0;
    let joined = with_project(metadata, project);
    lemma_tool_kept(metadata, project);
    match edited_pixi(pyproject) {
        Some(pixi) => {
            let tool = child_or_table(joined, "tool"@);
            let kept = if tool is Inline {
                as_value(pixi)
            } else {
                pixi
            };
            let after = tool.with_child("pixi"@, kept);
            assert forall|key: Seq<char>|
                key != "dependencies"@ && key != "requires-python"@ && key
                    != "tool"@ implies #[trigger] edited(metadata, pyproject).child(key)
                == metadata.child(key) by {
                joined.lemma_child_with("tool"@, after, key);
            }
            tool.lemma_child_with("pixi"@, kept, "pixi"@);
            joined.lemma_child_with("tool"@, after, "tool"@);
            assert forall|key: Seq<char>| key != "pixi"@ implies #[trigger] child_or_table(
                edited(metadata, pyproject),
                "tool"@,
            ).child(key) == child_or_table(metadata, "tool"@).child(key) by {
                tool.lemma_child_with("pixi"@, kept, key);
            }
        },
        None => {},
    }
}

/// A pyproject document that was made from script metadata and not edited brings back what it
/// was made from: the dependencies, or an empty list where there were none, the Python
/// requirement, everything it does not show, and a pixi table that differs in its workspace
/// alone.
pub proof fn unedited_document_round_trips(metadata: TomlItem, name: Seq<char>)
    requires
        metadata is Table,
        tool_is_usable(metadata),
        pixi_is_usable(metadata),
        workspace_of(pyproject_of(metadata, name)) is Table,
    ensures
        ({
            let pyproject = with_workspace(pyproject_of(metadata, name));
            let after = edited(metadata, pyproject);
            &&& edited_project(pyproject) is Some
            &&& metadata.removed("dependencies"@) is Some ==> after.child("dependencies"@)
                == metadata.child("dependencies"@)
            &&& metadata.removed("dependencies"@) is None ==> after.child("dependencies"@) == Some(
                empty_list(),
            )
            &&& after.child("requires-python"@) == metadata.child("requires-python"@)
            &&& edited_pixi(pyproject) matches Some(pixi) && forall|key: Seq<char>|
                key != workspace_key(pixi_of(metadata)) ==> #[trigger] pixi.child(key) == pixi_of(
                    metadata,
                ).child(key)
        }),
{
    lemma_keys();
    let empty = TomlItem::Table(Seq::empty());
    let project = project_of(metadata, name);
    let base = pyproject_of(metadata, name);
    let pyproject = with_workspace(base);
    let named = TomlItem::Empty.with_child("name"@, TomlItem::Text(name));
    lemma_round_trip_project(metadata, name);
    let start = empty.with_child("project"@, project);
    empty.lemma_child_with("project"@, project, "tool"@);
    empty.lemma_child_with("project"@, project, "project"@);
    assert(empty.child("tool"@) is None);
    let found = match metadata.removed("tool"@) {
        Some(tool) => own_table(tool).removed("pixi"@),
        None => None,
    };
    if found is Some {
        let tool = empty.with_child("pixi"@, found->Some_0);
        empty.lemma_child_with("pixi"@, found->Some_0, "pixi"@);
        start.lemma_child_with("tool"@, tool, "tool"@);
        start.lemma_child_with("tool"@, tool, "project"@);
    }
    let tool = child_or_table(base, "tool"@);
    let pixi = child_or_table(tool, "pixi"@);
    assert(empty.child("pixi"@) is None);
    assert(empty.child("workspace"@) is None);
    assert(empty.child("project"@) is None);
    assert(workspace_key(pixi) == workspace_key(pixi_of(metadata)));
    let workspace = with_list(with_list(workspace_of(base), "channels"@), "platforms"@);
    let new_pixi = pixi.with_child(workspace_key(pixi), workspace);
    workspace_of(base).lemma_child_with("channels"@, empty_list(), "platforms"@);
    with_list(workspace_of(base), "channels"@).lemma_child_with(
        "platforms"@,
        empty_list(),
        "platforms"@,
    );
    pixi.lemma_child_with(workspace_key(pixi), workspace, "pixi"@);
    tool.lemma_child_with("pixi"@, new_pixi, "pixi"@);
    let new_tool = tool.with_child("pixi"@, new_pixi);
    base.lemma_child_with("tool"@, new_tool, "project"@);
    base.lemma_child_with("tool"@, new_tool, "tool"@);
    assert forall|key: Seq<char>|
        key != workspace_key(pixi_of(metadata)) implies #[trigger] new_pixi.child(key) == pixi_of(
        metadata,
    ).child(key) by {
        pixi.lemma_child_with(workspace_key(pixi), workspace, key);
        assert(empty.child(key) is None);
    }
    assert(edited_pixi(pyproject) == Some(new_pixi));
    assert(edited_project(pyproject) == Some(own_table(project)));
    let joined = with_project(metadata, own_table(project));
    lemma_tool_kept(metadata, own_table(project));
    let outer = child_or_table(joined, "tool"@);
    let kept = if outer is Inline {
        as_value(new_pixi)
    } else {
        new_pixi
    };
    joined.lemma_child_with("tool"@, outer.with_child("pixi"@, kept), "dependencies"@);
    joined.lemma_child_with("tool"@, outer.with_child("pixi"@, kept), "requires-python"@);
}

/// A project that was made from script metadata brings back the dependencies and the Python
/// requirement.
proof fn lemma_round_trip_project(metadata: TomlItem, name: Seq<char>)
    requires
        metadata is Table,
    ensures
        ({
            let project = project_of(metadata, name);
            let joined = with_project(metadata, own_table(project));
            &&& project is Inline
            &&& metadata.removed("dependencies"@) is Some ==> joined.child("dependencies"@)
                == metadata.child("dependencies"@)
            &&& metadata.removed("dependencies"@) is None ==> joined.child("dependencies"@)
                == Some(empty_list())
            &&& joined.child("requires-python"@) == metadata.child("requires-python"@)
        }),
{
    lemma_keys();
    let dependencies = match metadata.removed("dependencies"@) {
        Some(dependencies) => dependencies,
        None => empty_list(),
    };
    let named = TomlItem::Empty.with_child("name"@, TomlItem::Text(name));
    let front = named->Inline_0;
    let listed = crate::toml::put(front, "dependencies"@, dependencies);
    assert(front.drop_first() =~= Seq::empty());
    crate::toml::lemma_lookup_put(front, "dependencies"@, dependencies, "dependencies"@);
    crate::toml::lemma_lookup_put(front, "dependencies"@, dependencies, "requires-python"@);
    assert(crate::toml::lookup(front.drop_first(), "requires-python"@) is None);
    assert(crate::toml::lookup(front, "requires-python"@) is None);
    let with_dependencies = metadata.with_child("dependencies"@, dependencies);
    metadata.lemma_child_with("dependencies"@, dependencies, "requires-python"@);
    match metadata.removed("requires-python"@) {
        Some(requires_python) => {
            crate::toml::lemma_lookup_put(
                listed,
                "requires-python"@,
                requires_python,
                "dependencies"@,
            );
            crate::toml::lemma_lookup_put(
                listed,
                "requires-python"@,
                requires_python,
                "requires-python"@,
            );
            with_dependencies.lemma_child_with(
                "requires-python"@,
                requires_python,
                "dependencies"@,
            );
        },
        None => {
            with_dependencies.lemma_child_without("requires-python"@, "dependencies"@);
            crate::toml::lemma_lookup_put(
                metadata->Table_0,
                "dependencies"@,
                dependencies,
                "requires-python"@,
            );
            lemma_without_missing(with_dependencies, "requires-python"@);
        },
    }
}

/// Removing a key that is not there changes nothing.
proof fn lemma_without_missing(item: TomlItem, key: Seq<char>)
    requires
        item is Table,
        item.removed(key) is None,
    ensures
        item.without_child(key) == item,
{
    crate::toml::lemma_without_absent(item->Table_0, key);
}

} // verus!
