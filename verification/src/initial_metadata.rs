//! The metadata that a new script gets keeps the rules for script metadata.
use vstd::prelude::*;

use crate::manifest::{explicit_workspace, initial_metadata};
use crate::pyproject::{pixi_is_usable, tool_is_usable};
use crate::script_metadata::{
    foreign_pixi_fields, foreign_root_fields, is_root_field, keys, nested_paths, path_below,
    pixi_of,
};
use crate::toml::{default_metadata_data, lemma_lookup_put, put, TomlItem};

verus! {

/// The entries of the root of new metadata.
proof fn lemma_new_entries(tool: TomlItem)
    ensures
        default_metadata_data().with_child("tool"@, tool) == TomlItem::Table(
            seq![
                ("requires-python"@, TomlItem::Text(">= 3.11"@)),
                ("dependencies"@, TomlItem::List(Seq::empty())),
                ("tool"@, tool),
            ],
        ),
{
    lemma_new_keys();
    let all = default_metadata_data()->Table_0;
    let rest = all.drop_first();
    let last = rest.drop_first();
    assert(put(last, "tool"@, tool) =~= seq![("tool"@, tool)]) by {
        assert(last[0].0 == "tool"@);
        assert(last.drop_first() =~= Seq::empty());
    }
    assert(put(rest, "tool"@, tool) =~= seq![all[1], ("tool"@, tool)]) by {
        assert(rest[0] == all[1]);
    }
    assert(put(all, "tool"@, tool) =~= seq![all[0], all[1], ("tool"@, tool)]);
}

/// A root with three fields that belong there has no foreign fields.
proof fn lemma_root_of_three(
    one: (Seq<char>, TomlItem),
    two: (Seq<char>, TomlItem),
    three: (Seq<char>, TomlItem),
)
    requires
        !(one.1 is Empty),
        !(two.1 is Empty),
        !(three.1 is Empty),
        is_root_field(one.0),
        is_root_field(two.0),
        is_root_field(three.0),
    ensures
        foreign_root_fields(TomlItem::Table(seq![one, two, three])).len() == 0,
{
    lemma_entries_of_three(one, two, three);
    let fields = keys(TomlItem::Table(seq![one, two, three]));
    assert(fields =~= seq![one.0, two.0, three.0]);
    lemma_none_foreign(fields);
}

/// Where all fields belong, none is foreign.
proof fn lemma_none_foreign(fields: Seq<Seq<char>>)
    requires
        forall|i: int| 0 <= i < fields.len() ==> is_root_field(#[trigger] fields[i]),
    ensures
        fields.filter(|key: Seq<char>| !is_root_field(key)).len() == 0,
{
    let foreign = |key: Seq<char>| !is_root_field(key);
    let found = fields.filter(foreign);
    if found.len() > 0 {
        fields.lemma_filter_pred(foreign, 0);
        fields.lemma_filter_contains_rev(foreign, found[0]);
        let i = choose|i: int| 0 <= i < fields.len() && fields[i] == found[0];
        assert(is_root_field(fields[i]));
    }
}

/// The workspace of new metadata.
spec fn new_workspace(ours: TomlItem, theirs: TomlItem) -> TomlItem {
    TomlItem::Table(Seq::empty()).with_child("channels"@, ours).with_child("platforms"@, theirs)
}

/// The pixi table of new metadata.
spec fn new_pixi(workspace: TomlItem) -> TomlItem {
    TomlItem::Table(Seq::empty()).with_child("workspace"@, workspace)
}

/// What the tables of new metadata hold.
proof fn lemma_new_tables(ours: TomlItem, theirs: TomlItem)
    requires
        ours is List,
        theirs is List,
    ensures
        new_workspace(ours, theirs) is Table,
        new_workspace(ours, theirs).entries() == seq![("channels"@, ours), ("platforms"@, theirs)],
        new_workspace(ours, theirs).child("channels"@) == Some(ours),
        new_workspace(ours, theirs).child("platforms"@) == Some(theirs),
        new_workspace(ours, theirs).child("dependencies"@) is None,
{
    lemma_new_keys();
    let empty = TomlItem::Table(Seq::empty());
    let channeled = empty.with_child("channels"@, ours);
    empty.lemma_child_with("channels"@, ours, "channels"@);
    empty.lemma_child_with("channels"@, ours, "dependencies"@);
    channeled.lemma_child_with("platforms"@, theirs, "channels"@);
    channeled.lemma_child_with("platforms"@, theirs, "platforms"@);
    channeled.lemma_child_with("platforms"@, theirs, "dependencies"@);
    assert(empty.child("dependencies"@) is None);
    let one = seq![("channels"@, ours)];
    assert(channeled->Table_0 =~= one);
    assert(one.drop_first() =~= Seq::empty());
    assert(put(one.drop_first(), "platforms"@, theirs) =~= seq![("platforms"@, theirs)]);
    assert(put(one, "platforms"@, theirs) =~= seq![("channels"@, ours), ("platforms"@, theirs)]);
    lemma_entries_of_two(("channels"@, ours), ("platforms"@, theirs));
}

/// The pixi table of new metadata has no foreign fields.
proof fn lemma_new_pixi(ours: TomlItem, theirs: TomlItem)
    requires
        ours is List,
        theirs is List,
    ensures
        foreign_pixi_fields(new_pixi(new_workspace(ours, theirs))).len() == 0,
{
    lemma_new_keys();
    lemma_new_tables(ours, theirs);
    let empty = TomlItem::Table(Seq::empty());
    let workspace = new_workspace(ours, theirs);
    let pixi = new_pixi(workspace);
    empty.lemma_child_with("workspace"@, workspace, "workspace"@);
    empty.lemma_child_with("workspace"@, workspace, "environments"@);
    empty.lemma_child_with("workspace"@, workspace, "feature"@);
    assert(empty.child("environments"@) is None);
    assert(empty.child("feature"@) is None);
    assert(pixi->Table_0 =~= seq![("workspace"@, workspace)]);
    lemma_entries_of_one(("workspace"@, workspace));
    lemma_no_nested(workspace, pixi, "build-backend"@);
    lemma_no_nested(workspace, pixi, "build-dependencies"@);
    lemma_no_nested(workspace, pixi, "dev-dependencies"@);
    lemma_no_nested(workspace, pixi, "host-dependencies"@);
    lemma_no_nested(workspace, pixi, "package"@);
    lemma_no_nested(workspace, pixi, "run-dependencies"@);
    lemma_no_nested(workspace, pixi, "tasks"@);
}

/// The metadata that a new script gets keeps the rules for script metadata, and spells out its
/// channels and platforms.
pub proof fn new_metadata_is_accepted(channels: Seq<String>, platforms: Seq<String>)
    ensures
        ({
            let metadata = initial_metadata(channels, platforms);
            &&& metadata is Table
            &&& foreign_root_fields(metadata).len() == 0
            &&& foreign_pixi_fields(pixi_of(metadata)).len() == 0
            &&& tool_is_usable(metadata)
            &&& pixi_is_usable(metadata)
            &&& explicit_workspace(metadata) is Table
            &&& explicit_workspace(metadata).child("channels"@) is Some
            &&& explicit_workspace(metadata).child("platforms"@) is Some
        }),
{
    let empty = TomlItem::Table(Seq::empty());
    let ours = TomlItem::List(channels.map_values(|text: String| TomlItem::Text(text@)));
    let theirs = TomlItem::List(platforms.map_values(|text: String| TomlItem::Text(text@)));
    let workspace = new_workspace(ours, theirs);
    let pixi = new_pixi(workspace);
    let tool = empty.with_child("pixi"@, pixi);
    let metadata = initial_metadata(channels, platforms);
    assert(metadata == default_metadata_data().with_child("tool"@, tool));
    lemma_new_entries(tool);
    lemma_root_of_three(
        ("requires-python"@, TomlItem::Text(">= 3.11"@)),
        ("dependencies"@, TomlItem::List(Seq::empty())),
        ("tool"@, tool),
    );
    lemma_new_tables(ours, theirs);
    lemma_new_pixi(ours, theirs);
    empty.lemma_child_with("workspace"@, workspace, "workspace"@);
    empty.lemma_child_with("pixi"@, pixi, "pixi"@);
    default_metadata_data().lemma_child_with("tool"@, tool, "tool"@);
    lemma_lookup_put(default_metadata_data()->Table_0, "tool"@, tool, "tool"@);
    assert(pixi_of(metadata) == pixi);
    assert(explicit_workspace(metadata) == workspace);
}

/// The keys of new metadata are none of those that a script cannot have.
proof fn lemma_new_keys()
    ensures
        "workspace"@.len() == 9,
        "channels"@.len() == 8,
        "platforms"@.len() == 9,
        "project"@.len() == 7,
        "dependencies"@.len() == 12,
        "environments"@.len() == 12,
        "feature"@.len() == 7,
        "build-backend"@.len() == 13,
        "build-dependencies"@.len() == 18,
        "dev-dependencies"@.len() == 16,
        "host-dependencies"@.len() == 17,
        "package"@.len() == 7,
        "run-dependencies"@.len() == 16,
        "tasks"@.len() == 5,
        "requires-python"@.len() == 15,
        "tool"@.len() == 4,
{
    reveal_strlit("workspace");
    reveal_strlit("channels");
    reveal_strlit("platforms");
    reveal_strlit("project");
    reveal_strlit("dependencies");
    reveal_strlit("environments");
    reveal_strlit("feature");
    reveal_strlit("build-backend");
    reveal_strlit("build-dependencies");
    reveal_strlit("dev-dependencies");
    reveal_strlit("host-dependencies");
    reveal_strlit("package");
    reveal_strlit("run-dependencies");
    reveal_strlit("tasks");
    reveal_strlit("requires-python");
    reveal_strlit("tool");
}

/// A table with one entry that is not empty has that entry.
proof fn lemma_entries_of_one(one: (Seq<char>, TomlItem))
    requires
        !(one.1 is Empty),
    ensures
        TomlItem::Table(seq![one]).entries() == seq![one],
{
    let keep = |entry: (Seq<char>, TomlItem)| !(entry.1 is Empty);
    let all = seq![one];
    reveal(Seq::filter);
    assert(all.drop_last() =~= Seq::empty());
    assert(all.drop_last().filter(keep) =~= Seq::empty());
    assert(all.filter(keep) =~= all);
}

/// A table with two entries that are not empty has these entries.
proof fn lemma_entries_of_two(one: (Seq<char>, TomlItem), two: (Seq<char>, TomlItem))
    requires
        !(one.1 is Empty),
        !(two.1 is Empty),
    ensures
        TomlItem::Table(seq![one, two]).entries() == seq![one, two],
{
    let keep = |entry: (Seq<char>, TomlItem)| !(entry.1 is Empty);
    let all = seq![one, two];
    lemma_entries_of_one(one);
    reveal(Seq::filter);
    assert(all.drop_last() =~= seq![one]);
    assert(all.filter(keep) =~= all);
}

/// A table with three entries that are not empty has these entries.
proof fn lemma_entries_of_three(
    one: (Seq<char>, TomlItem),
    two: (Seq<char>, TomlItem),
    three: (Seq<char>, TomlItem),
)
    requires
        !(one.1 is Empty),
        !(two.1 is Empty),
        !(three.1 is Empty),
    ensures
        TomlItem::Table(seq![one, two, three]).entries() == seq![one, two, three],
{
    let keep = |entry: (Seq<char>, TomlItem)| !(entry.1 is Empty);
    let all = seq![one, two, three];
    lemma_entries_of_two(one, two);
    reveal(Seq::filter);
    assert(all.drop_last() =~= seq![one, two]);
    assert(all.filter(keep) =~= all);
}

/// A key that is none of those in new metadata is nowhere in it.
proof fn lemma_no_nested(workspace: TomlItem, pixi: TomlItem, needle: Seq<char>)
    requires
        pixi.entries() == seq![("workspace"@, workspace)],
        workspace.entries().len() == 2,
        workspace.entries()[0].0 == "channels"@,
        workspace.entries()[1].0 == "platforms"@,
        workspace.entries()[0].1 is List,
        workspace.entries()[1].1 is List,
        needle != "workspace"@,
        needle != "channels"@,
        needle != "platforms"@,
    ensures
        nested_paths(pixi, 0, needle, "tool.pixi"@).len() == 0,
{
    let path = path_below("tool.pixi"@, "workspace"@);
    let first = workspace.entries()[0].1;
    let second = workspace.entries()[1].1;
    assert(nested_paths(first, 0, needle, path_below(path, "channels"@)).len() == 0);
    assert(nested_paths(second, 0, needle, path_below(path, "platforms"@)).len() == 0);
    assert(nested_paths(workspace, 2, needle, path).len() == 0);
    assert(nested_paths(workspace, 1, needle, path).len() == 0);
    assert(nested_paths(workspace, 0, needle, path).len() == 0);
    assert(nested_paths(pixi, 1, needle, "tool.pixi"@).len() == 0);
}

} // verus!
