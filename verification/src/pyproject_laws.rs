//! What the pyproject document of a script shows of its metadata, and what comes back of it, said
//! of what stands under each key.
use toml_edit::DocumentMut;
use vstd::prelude::*;

use crate::error::ScriptManifestError;
use crate::manifest::{explicit_workspace, initial_metadata};
use crate::pyproject::{
    child_or_table, edit_verdict, edited, edited_project, edits_fit, edits_leave_other_tools,
    inline_verdict, lemma_tool_kept, own_table, pixi_is_usable, project_of, pyproject_of,
    tool_is_usable, with_list, with_project, with_workspace, workspace_key, workspace_of,
};
use crate::script_metadata::subset_verdict;
use crate::script_metadata_laws::{
    foreign_fields_are_refused, is_foreign_at_root, is_foreign_in_pixi,
};
use crate::toml::{
    as_value, default_metadata_data, document_data, lookup, without, TomlItem,
};

verus! {

/// What stands under a key of what was found, if anything was.
pub open spec fn under(item: Option<TomlItem>, key: Seq<char>) -> Option<TomlItem> {
    match item {
        Some(item) => item.child(key),
        None => None,
    }
}

/// What stands under `tool.pixi`.
pub open spec fn pixi_under(root: TomlItem) -> Option<TomlItem> {
    under(root.child("tool"@), "pixi"@)
}

/// A list without entries.
pub open spec fn nothing_listed() -> TomlItem {
    TomlItem::List(Seq::empty())
}

/// The keys that these laws speak of are different keys.
proof fn lemma_keys()
    ensures
        "dependencies"@.len() == 12,
        "requires-python"@.len() == 15,
        "tool"@.len() == 4,
        "project"@.len() == 7,
        "workspace"@.len() == 9,
        "channels"@.len() == 8,
        "platforms"@.len() == 9,
        "channels"@ != "platforms"@,
        "name"@.len() == 4,
        "name"@ != "tool"@,
{
    reveal_strlit("dependencies");
    reveal_strlit("requires-python");
    reveal_strlit("tool");
    reveal_strlit("project");
    reveal_strlit("workspace");
    reveal_strlit("channels");
    reveal_strlit("platforms");
    reveal_strlit("name");
    assert("name"@[0] == 'n');
    assert("tool"@[0] == 't');
}

/// A table that is there or gets made has under a key what is found there.
proof fn lemma_under(item: TomlItem, key: Seq<char>, inner: Seq<char>)
    ensures
        child_or_table(item, key).child(inner) == under(item.child(key), inner),
{
    assert(TomlItem::Table(Seq::empty()).child(inner) is None);
}

/// A list is added exactly where it is missing, and nothing else changes.
proof fn lemma_list(workspace: TomlItem, key: Seq<char>, other: Seq<char>)
    requires
        workspace is Table,
    ensures
        with_list(workspace, key) is Table,
        with_list(workspace, key).child(other) == if other == key && workspace.child(key) is None {
            Some(nothing_listed())
        } else {
            workspace.child(other)
        },
{
    workspace.lemma_child_with(key, nothing_listed(), other);
    workspace.lemma_child_with(key, nothing_listed(), key);
}

/// The workspace of a document stands under `workspace`, or under `project` where only that is
/// there.
pub open spec fn workspace_found(root: TomlItem) -> Option<TomlItem> {
    match under(pixi_under(root), "workspace"@) {
        Some(workspace) => Some(workspace),
        None => under(pixi_under(root), "project"@),
    }
}

/// A document that gets a workspace gets nothing else: what stood anywhere stays there. Lists of
/// channels and platforms that were there stay, and those that were not are empty. A workspace
/// that stood under its old name stays under it.
pub proof fn documents_get_only_a_workspace(root: TomlItem, key: Seq<char>)
    requires
        root is Table,
        child_or_table(root, "tool"@).is_table_like(),
        child_or_table(child_or_table(root, "tool"@), "pixi"@).is_table_like(),
        workspace_of(root) is Table,
    ensures
        ({
            let after = with_workspace(root);
            &&& key != "tool"@ ==> after.child(key) == root.child(key)
            &&& key != "pixi"@ ==> under(after.child("tool"@), key) == under(
                root.child("tool"@),
                key,
            )
            &&& key != "workspace"@ && key != "project"@ ==> under(pixi_under(after), key) == under(
                pixi_under(root),
                key,
            )
            &&& under(pixi_under(after), "workspace"@) is Some <==> under(
                pixi_under(root),
                "workspace"@,
            ) is Some || under(pixi_under(root), "project"@) is None
            &&& under(pixi_under(after), "project"@) is Some <==> under(
                pixi_under(root),
                "project"@,
            ) is Some
            &&& key != "channels"@ && key != "platforms"@ ==> under(workspace_found(after), key)
                == under(workspace_found(root), key)
            &&& key == "channels"@ || key == "platforms"@ ==> under(workspace_found(after), key)
                == match under(workspace_found(root), key) {
                Some(list) => Some(list),
                None => Some(nothing_listed()),
            }
        }),
{
    lemma_keys();
    let tool = child_or_table(root, "tool"@);
    let pixi = child_or_table(tool, "pixi"@);
    let place = workspace_key(pixi);
    let before = workspace_of(root);
    let channeled = with_list(before, "channels"@);
    let workspace = with_list(channeled, "platforms"@);
    lemma_list(before, "channels"@, key);
    lemma_list(before, "channels"@, "platforms"@);
    lemma_list(channeled, "platforms"@, key);
    let new_pixi = pixi.with_child(place, workspace);
    let new_tool = tool.with_child("pixi"@, new_pixi);
    let after = root.with_child("tool"@, new_tool);
    assert(after == with_workspace(root));
    pixi.lemma_child_with(place, workspace, key);
    pixi.lemma_child_with(place, workspace, "workspace"@);
    pixi.lemma_child_with(place, workspace, "project"@);
    tool.lemma_child_with("pixi"@, new_pixi, key);
    root.lemma_child_with("tool"@, new_tool, key);
    lemma_under(root, "tool"@, key);
    lemma_under(root, "tool"@, "pixi"@);
    lemma_under(tool, "pixi"@, key);
    lemma_under(tool, "pixi"@, "workspace"@);
    lemma_under(tool, "pixi"@, "project"@);
    lemma_under(pixi, place, key);
    assert(pixi_under(root) == tool.child("pixi"@));
    assert(pixi_under(after) == Some(new_pixi));
    assert(workspace_found(after) == Some(workspace));
    assert(workspace_found(root) == pixi.child(place));
    assert(before.child(key) == under(workspace_found(root), key));
}

/// The pyproject document of a script, before it gets a workspace, has a project with the name of
/// the script, with its dependencies, or none, and with its Python requirement. It has the pixi
/// table of the script, and nothing else. Its workspace is the one that the script spells out.
pub proof fn pyproject_shows_the_metadata(metadata: TomlItem, name: Seq<char>, key: Seq<char>)
    requires
        metadata is Table,
        tool_is_usable(metadata),
        pixi_is_usable(metadata),
    ensures
        ({
            let pyproject = pyproject_of(metadata, name);
            let project = pyproject.child("project"@);
            &&& key != "project"@ && key != "tool"@ ==> pyproject.child(key) is None
            &&& under(project, "name"@) == Some(TomlItem::Text(name))
            &&& under(project, "requires-python"@) == metadata.child("requires-python"@)
            &&& metadata.child("dependencies"@) is Some ==> under(project, "dependencies"@)
                == metadata.child("dependencies"@)
            &&& metadata.removed("dependencies"@) is None ==> under(project, "dependencies"@)
                == Some(nothing_listed())
            &&& key != "name"@ && key != "requires-python"@ && key != "dependencies"@ ==> under(
                project,
                key,
            ) is None
            &&& key != "pixi"@ ==> under(pyproject.child("tool"@), key) is None
            &&& pixi_under(pyproject) == pixi_under(metadata)
            &&& workspace_of(pyproject) == if explicit_workspace(metadata) is Empty {
                TomlItem::Table(Seq::empty())
            } else {
                explicit_workspace(metadata)
            }
        }),
{
    lemma_keys();
    let empty = TomlItem::Table(Seq::empty());
    let project = project_of(metadata, name);
    let pyproject = pyproject_of(metadata, name);
    lemma_project(metadata, name, key);
    let start = empty.with_child("project"@, project);
    empty.lemma_child_with("project"@, project, "tool"@);
    empty.lemma_child_with("project"@, project, "project"@);
    empty.lemma_child_with("project"@, project, key);
    assert(empty.child("tool"@) is None);
    assert(empty.child(key) is None);
    let found = match metadata.removed("tool"@) {
        Some(tool) => own_table(tool).removed("pixi"@),
        None => None,
    };
    match found {
        Some(pixi) => {
            let tool = empty.with_child("pixi"@, pixi);
            empty.lemma_child_with("pixi"@, pixi, "pixi"@);
            empty.lemma_child_with("pixi"@, pixi, key);
            start.lemma_child_with("tool"@, tool, "tool"@);
            start.lemma_child_with("tool"@, tool, "project"@);
            start.lemma_child_with("tool"@, tool, key);
        },
        None => {},
    }
    assert(pixi_under(pyproject) == pixi_under(metadata));
    lemma_under(pyproject, "tool"@, "pixi"@);
    let pixi = child_or_table(child_or_table(pyproject, "tool"@), "pixi"@);
    lemma_under(child_or_table(pyproject, "tool"@), "pixi"@, "workspace"@);
    lemma_under(child_or_table(pyproject, "tool"@), "pixi"@, "project"@);
    assert(TomlItem::Empty.child("workspace"@) is None);
    assert(TomlItem::Empty.child("project"@) is None);
}

/// The project table that script metadata stands for.
proof fn lemma_project(metadata: TomlItem, name: Seq<char>, key: Seq<char>)
    requires
        metadata is Table,
    ensures
        ({
            let project = project_of(metadata, name);
            &&& project is Inline
            &&& project.child("name"@) == Some(TomlItem::Text(name))
            &&& project.child("requires-python"@) == metadata.child("requires-python"@)
            &&& metadata.child("dependencies"@) is Some ==> project.child("dependencies"@)
                == metadata.child("dependencies"@)
            &&& metadata.removed("dependencies"@) is None ==> project.child("dependencies"@)
                == Some(nothing_listed())
            &&& key != "name"@ && key != "requires-python"@ && key != "dependencies"@
                ==> project.child(key) is None
        }),
{
    lemma_keys();
    let dependencies = match metadata.removed("dependencies"@) {
        Some(dependencies) => dependencies,
        None => nothing_listed(),
    };
    let named = TomlItem::Empty.with_child("name"@, TomlItem::Text(name));
    let listed = named.with_child("dependencies"@, dependencies);
    TomlItem::Empty.lemma_child_with("name"@, TomlItem::Text(name), key);
    TomlItem::Empty.lemma_child_with("name"@, TomlItem::Text(name), "dependencies"@);
    TomlItem::Empty.lemma_child_with("name"@, TomlItem::Text(name), "requires-python"@);
    named.lemma_child_with("dependencies"@, dependencies, key);
    named.lemma_child_with("dependencies"@, dependencies, "name"@);
    named.lemma_child_with("dependencies"@, dependencies, "requires-python"@);
    match metadata.removed("requires-python"@) {
        Some(requires_python) => {
            listed.lemma_child_with("requires-python"@, requires_python, key);
            listed.lemma_child_with("requires-python"@, requires_python, "name"@);
            listed.lemma_child_with("requires-python"@, requires_python, "dependencies"@);
        },
        None => {},
    }
}

/// No key stands twice in the entries.
pub open spec fn are_distinct(entries: Seq<(Seq<char>, TomlItem)>) -> bool {
    forall|i: int, j: int|
        0 <= i < j < entries.len() ==> (#[trigger] entries[i]).0 != (#[trigger] entries[j]).0
}

/// A key that is taken out is not there any more.
proof fn lemma_gone(entries: Seq<(Seq<char>, TomlItem)>, key: Seq<char>)
    requires
        are_distinct(entries),
    ensures
        lookup(without(entries, key), key) is None,
    decreases entries.len(),
{
    if entries.len() > 0 {
        let rest = entries.drop_first();
        if entries[0].0 == key {
            assert forall|i: int| 0 <= i < rest.len() implies (#[trigger] rest[i]).0 != key by {
                assert(rest[i] == entries[i + 1]);
            }
            lemma_absent(rest, key);
        } else {
            assert forall|i: int, j: int| 0 <= i < j < rest.len() implies (#[trigger] rest[i]).0
                != (#[trigger] rest[j]).0 by {
                assert(rest[i] == entries[i + 1] && rest[j] == entries[j + 1]);
            }
            lemma_gone(rest, key);
            assert(without(entries, key).drop_first() =~= without(rest, key));
        }
    }
}

/// A key that no entry has is not found.
proof fn lemma_absent(entries: Seq<(Seq<char>, TomlItem)>, key: Seq<char>)
    requires
        forall|i: int| 0 <= i < entries.len() ==> (#[trigger] entries[i]).0 != key,
    ensures
        lookup(entries, key) is None,
    decreases entries.len(),
{
    if entries.len() > 0 {
        let rest = entries.drop_first();
        assert forall|i: int| 0 <= i < rest.len() implies (#[trigger] rest[i]).0 != key by {
            assert(rest[i] == entries[i + 1]);
        }
        lemma_absent(rest, key);
    }
}

/// Putting something under a key makes no key stand twice.
proof fn lemma_put_distinct(
    entries: Seq<(Seq<char>, TomlItem)>,
    key: Seq<char>,
    item: TomlItem,
)
    requires
        are_distinct(entries),
    ensures
        are_distinct(crate::toml::put(entries, key, item)),
        forall|i: int|
            0 <= i < crate::toml::put(entries, key, item).len() ==> (
            #[trigger] crate::toml::put(entries, key, item)[i]).0 == key || exists|k: int|
                0 <= k < entries.len() && (#[trigger] entries[k]).0 == crate::toml::put(
                    entries,
                    key,
                    item,
                )[i].0,
    decreases entries.len(),
{
    let after = crate::toml::put(entries, key, item);
    if entries.len() == 0 {
    } else if entries[0].0 == key {
        assert forall|i: int| 0 < i < after.len() implies #[trigger] after[i] == entries[i] by {}
    } else {
        let rest = entries.drop_first();
        let inner = crate::toml::put(rest, key, item);
        assert forall|i: int, j: int| 0 <= i < j < rest.len() implies (#[trigger] rest[i]).0 != (
        #[trigger] rest[j]).0 by {
            assert(rest[i] == entries[i + 1] && rest[j] == entries[j + 1]);
        }
        lemma_put_distinct(rest, key, item);
        assert forall|i: int| 0 <= i < after.len() implies (#[trigger] after[i]).0 == key || exists|
            k: int,
        |
            0 <= k < entries.len() && (#[trigger] entries[k]).0 == after[i].0 by {
            if i == 0 {
                assert(entries[0].0 == after[0].0);
            } else {
                assert(after[i] == inner[i - 1]);
                if inner[i - 1].0 != key {
                    let k = choose|k: int|
                        0 <= k < rest.len() && (#[trigger] rest[k]).0 == inner[i - 1].0;
                    assert(entries[k + 1].0 == after[i].0);
                }
            }
        }
        assert forall|i: int, j: int| 0 <= i < j < after.len() implies (#[trigger] after[i]).0 != (
        #[trigger] after[j]).0 by {
            assert(after[j] == inner[j - 1]);
            if i > 0 {
                assert(after[i] == inner[i - 1]);
            } else if inner[j - 1].0 != key {
                let k = choose|k: int|
                    0 <= k < rest.len() && (#[trigger] rest[k]).0 == inner[j - 1].0;
                assert(rest[k] == entries[k + 1]);
                assert(entries[0].0 != entries[k + 1].0);
            }
        }
    }
}

/// What stands in an edited document comes back into the metadata: its dependencies, its Python
/// requirement, which is gone where the document has none, and its pixi table.
pub proof fn edits_come_back(metadata: TomlItem, pyproject: TomlItem)
    requires
        metadata is Table,
        are_distinct(metadata->Table_0),
        pyproject is Table,
        edited_project(pyproject) is Some,
        edits_fit(metadata, pyproject),
    ensures
        ({
            let after = edited(metadata, pyproject);
            let project = pyproject.child("project"@);
            &&& project is Some
            &&& under(project, "dependencies"@) is Some ==> after.child("dependencies"@) == under(
                project,
                "dependencies"@,
            )
            &&& under(project, "dependencies"@) is None ==> after.child("dependencies"@) is None
                || after.child("dependencies"@) == Some(nothing_listed())
            &&& after.child("requires-python"@) == under(project, "requires-python"@)
            &&& pyproject.child("tool"@) matches Some(TomlItem::Table(_)) ==> (pixi_under(
                pyproject,
            ) matches Some(pixi) ==> pixi_under(after) == match metadata.child("tool"@) {
                Some(TomlItem::Inline(_)) => Some(as_value(pixi)),
                _ => Some(pixi),
            })
        }),
{
    lemma_keys();
    let project = edited_project(pyproject)->Some_0;
    let joined = with_project(metadata, project);
    let dependencies = match project.removed("dependencies"@) {
        Some(dependencies) => dependencies,
        None => nothing_listed(),
    };
    let listed = metadata.with_child("dependencies"@, dependencies);
    metadata.lemma_child_with("dependencies"@, dependencies, "dependencies"@);
    lemma_put_distinct(metadata->Table_0, "dependencies"@, dependencies);
    match project.removed("requires-python"@) {
        Some(requires_python) => {
            listed.lemma_child_with("requires-python"@, requires_python, "dependencies"@);
            listed.lemma_child_with("requires-python"@, requires_python, "requires-python"@);
        },
        None => {
            listed.lemma_child_without("requires-python"@, "dependencies"@);
            lemma_gone(listed->Table_0, "requires-python"@);
        },
    }
    lemma_tool_kept(metadata, project);
    match crate::pyproject::edited_pixi(pyproject) {
        Some(pixi) => {
            let tool = child_or_table(joined, "tool"@);
            let kept = if tool is Inline {
                as_value(pixi)
            } else {
                pixi
            };
            let outer = tool.with_child("pixi"@, kept);
            tool.lemma_child_with("pixi"@, kept, "pixi"@);
            joined.lemma_child_with("tool"@, outer, "tool"@);
            joined.lemma_child_with("tool"@, outer, "dependencies"@);
            joined.lemma_child_with("tool"@, outer, "requires-python"@);
        },
        None => {},
    }
}

/// New metadata lists the given channels and platforms, in order, and has everything else of the
/// metadata that all new scripts start with.
pub proof fn new_metadata_lists_what_was_given(
    channels: Seq<String>,
    platforms: Seq<String>,
    key: Seq<char>,
)
    ensures
        ({
            let metadata = initial_metadata(channels, platforms);
            let workspace = under(pixi_under(metadata), "workspace"@);
            &&& key != "tool"@ ==> metadata.child(key) == default_metadata_data().child(key)
            &&& under(workspace, "channels"@) matches Some(TomlItem::List(listed))
                && lists(listed, channels)
            &&& under(workspace, "platforms"@) matches Some(TomlItem::List(listed))
                && lists(listed, platforms)
            &&& key != "channels"@ && key != "platforms"@ ==> under(workspace, key) is None
        }),
{
    lemma_keys();
    let empty = TomlItem::Table(Seq::empty());
    let ours = TomlItem::List(channels.map_values(|text: String| TomlItem::Text(text@)));
    let theirs = TomlItem::List(platforms.map_values(|text: String| TomlItem::Text(text@)));
    let channeled = empty.with_child("channels"@, ours);
    let workspace = channeled.with_child("platforms"@, theirs);
    let pixi = empty.with_child("workspace"@, workspace);
    let tool = empty.with_child("pixi"@, pixi);
    assert(initial_metadata(channels, platforms) == default_metadata_data().with_child(
        "tool"@,
        tool,
    ));
    empty.lemma_child_with("channels"@, ours, "channels"@);
    empty.lemma_child_with("channels"@, ours, key);
    channeled.lemma_child_with("platforms"@, theirs, "platforms"@);
    channeled.lemma_child_with("platforms"@, theirs, "channels"@);
    channeled.lemma_child_with("platforms"@, theirs, key);
    empty.lemma_child_with("workspace"@, workspace, "workspace"@);
    empty.lemma_child_with("pixi"@, pixi, "pixi"@);
    default_metadata_data().lemma_child_with("tool"@, tool, "tool"@);
    default_metadata_data().lemma_child_with("tool"@, tool, key);
    assert(empty.child(key) is None);
}

/// The items are these texts, in order.
pub open spec fn lists(items: Seq<TomlItem>, texts: Seq<String>) -> bool {
    &&& items.len() == texts.len()
    &&& forall|i: int| 0 <= i < items.len() ==> #[trigger] items[i] == TomlItem::Text(texts[i]@)
}

/// Nothing in the metadata is foreign to a script.
pub open spec fn has_nothing_foreign(root: TomlItem) -> bool {
    &&& forall|key: Seq<char>| !is_foreign_at_root(root, key)
    &&& forall|path: Seq<char>| !is_foreign_in_pixi(root, path)
}

/// The fields are refused exactly if one is foreign.
proof fn lemma_foreign(root: TomlItem)
    ensures
        crate::script_metadata::foreign_root_fields(root).len() > 0
            || crate::script_metadata::foreign_pixi_fields(
            crate::script_metadata::pixi_of(root),
        ).len() > 0 <==> !has_nothing_foreign(root),
{
    let foreign = crate::script_metadata::foreign_root_fields(root).len() > 0
        || crate::script_metadata::foreign_pixi_fields(
        crate::script_metadata::pixi_of(root),
    ).len() > 0;
    if !foreign {
        assert(subset_verdict(root, Ok(())));
        foreign_fields_are_refused(root, Ok(()));
    } else if has_nothing_foreign(root) {
        crate::script_metadata_laws::lemma_foreign_is_found(root);
    }
}

/// Script metadata stands for a pyproject document exactly if nothing in it is foreign, its tools
/// are in a table, and so is its workspace, if it has one. The document then has a project with
/// the name, the dependencies and the Python requirement, the pixi table of the script, and a
/// workspace with channels and platforms. Otherwise the first of these reasons is named.
pub proof fn metadata_stands_for_a_document(
    root: TomlItem,
    name: Seq<char>,
    result: Result<DocumentMut, ScriptManifestError>,
    key: Seq<char>,
)
    requires
        root is Table,
        pixi_is_usable(root),
        inline_verdict(root, name, result),
    ensures
        match result {
            Ok(document) => {
                let data = document_data(document);
                let project = data.child("project"@);
                &&& has_nothing_foreign(root)
                &&& root.child("tool"@) matches Some(tool) ==> tool.is_table_like()
                &&& workspace_found(root) matches Some(workspace) ==> workspace is Table
                &&& under(project, "name"@) == Some(TomlItem::Text(name))
                &&& under(project, "requires-python"@) == root.child("requires-python"@)
                &&& root.child("dependencies"@) is Some ==> under(project, "dependencies"@)
                    == root.child("dependencies"@)
                &&& key != "project"@ && key != "tool"@ ==> data.child(key) is None
                &&& key != "workspace"@ && key != "project"@ ==> under(pixi_under(data), key)
                    == under(pixi_under(root), key)
                &&& under(workspace_found(data), "channels"@) is Some
                &&& under(workspace_found(data), "platforms"@) is Some
                &&& under(workspace_found(root), key) is Some ==> under(workspace_found(data), key)
                    == under(workspace_found(root), key)
            },
            Err(ScriptManifestError::UnsupportedFields(_)) => !has_nothing_foreign(root),
            Err(ScriptManifestError::InvalidToolTable) => has_nothing_foreign(root) && (lookup(
                root->Table_0,
                "tool"@,
            ) matches Some(tool) && !tool.is_table_like()),
            Err(ScriptManifestError::InvalidPixiWorkspace) => has_nothing_foreign(root) && (
            workspace_found(root) matches Some(workspace) && !(workspace is Table)),
            Err(_) => false,
        },
{
    lemma_keys();
    lemma_foreign(root);
    let empty = TomlItem::Table(Seq::empty());
    let base = pyproject_of(root, name);
    if !has_nothing_foreign(root) {
        foreign_fields_are_refused(
            root,
            Err(result->Err_0),
        );
    } else if tool_is_usable(root) {
        pyproject_shows_the_metadata(root, name, key);
        pyproject_shows_the_metadata(root, name, "name"@);
        lemma_under(base, "tool"@, "pixi"@);
        let tool = child_or_table(base, "tool"@);
        let pixi = child_or_table(tool, "pixi"@);
        lemma_under(tool, "pixi"@, "workspace"@);
        lemma_under(tool, "pixi"@, "project"@);
        assert(workspace_found(root) == workspace_found(base));
        assert(workspace_found(base) == pixi.child(workspace_key(pixi)));
        lemma_base(root, name);
        if workspace_of(base) is Table {
            documents_get_only_a_workspace(base, key);
            documents_get_only_a_workspace(base, "project"@);
            documents_get_only_a_workspace(base, "channels"@);
            documents_get_only_a_workspace(base, "platforms"@);
        }
    }
}

/// The document that gets a workspace is a table, and so are its tools and its pixi table.
proof fn lemma_base(root: TomlItem, name: Seq<char>)
    requires
        root is Table,
        pixi_is_usable(root),
        tool_is_usable(root),
    ensures
        ({
            let base = pyproject_of(root, name);
            &&& base is Table
            &&& child_or_table(base, "tool"@).is_table_like()
            &&& child_or_table(child_or_table(base, "tool"@), "pixi"@).is_table_like()
        }),
{
    lemma_keys();
    let empty = TomlItem::Table(Seq::empty());
    let start = empty.with_child("project"@, project_of(root, name));
    empty.lemma_child_with("project"@, project_of(root, name), "tool"@);
    assert(empty.child("tool"@) is None);
    assert(empty.child("pixi"@) is None);
    let found = match root.removed("tool"@) {
        Some(tool) => own_table(tool).removed("pixi"@),
        None => None,
    };
    match found {
        Some(pixi) => {
            let tool = empty.with_child("pixi"@, pixi);
            empty.lemma_child_with("pixi"@, pixi, "pixi"@);
            start.lemma_child_with("tool"@, tool, "tool"@);
        },
        None => {},
    }
}

/// Edits are brought back exactly if the document has a table for its project and the metadata is
/// TOML. The metadata then has the dependencies and the Python requirement of that project, and
/// everything that the document does not show. Of the two reasons that of the document comes
/// first.
pub proof fn edits_are_brought_back(
    metadata: Option<TomlItem>,
    pyproject: TomlItem,
    result: Result<DocumentMut, ScriptManifestError>,
    key: Seq<char>,
)
    requires
        pyproject is Table,
        metadata matches Some(root) ==> root is Table && are_distinct(root->Table_0) && (
        edited_project(pyproject) is Some ==> edits_fit(root, pyproject)),
        edit_verdict(metadata, pyproject, result),
    ensures
        ({
            let project = pyproject.child("project"@);
            let is_editable = project matches Some(project) && project.is_table_like();
            match result {
                Ok(document) => {
                    let data = document_data(document);
                    &&& is_editable
                    &&& metadata matches Some(root) && (key != "dependencies"@ && key
                        != "requires-python"@ && key != "tool"@ ==> data.child(key) == root.child(
                        key,
                    )) && (key != "pixi"@ ==> under(data.child("tool"@), key) == under(
                        root.child("tool"@),
                        key,
                    ))
                    &&& data.child("requires-python"@) == under(project, "requires-python"@)
                    &&& under(project, "dependencies"@) is Some ==> data.child("dependencies"@)
                        == under(project, "dependencies"@)
                },
                Err(ScriptManifestError::InvalidEditableDocument) => !is_editable,
                Err(ScriptManifestError::TomlEdit(_)) => is_editable && metadata is None,
                Err(_) => false,
            }
        }),
{
    if edited_project(pyproject) is Some {
        match metadata {
            Some(root) => {
                edits_come_back(root, pyproject);
                edits_leave_other_tools(root, pyproject);
                lemma_under(root, "tool"@, key);
                lemma_under(edited(root, pyproject), "tool"@, key);
            },
            None => {},
        }
    }
}

} // verus!
