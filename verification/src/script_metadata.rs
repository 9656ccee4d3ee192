//! The rules that script metadata keeps, and the pyproject document it stands for.
use toml_edit::{DocumentMut, Item};
use vstd::prelude::*;

use crate::error::ScriptManifestError;
use crate::ordered::{ascending, sort_dedup, views};
use crate::text::same_text;
use crate::toml::{document_data, entries, get, item_data, root, TomlItem};

verus! {

/// A field that may stand at the root of script metadata.
pub open spec fn is_root_field(key: Seq<char>) -> bool {
    key == "dependencies"@ || key == "requires-python"@ || key == "tool"@
}

/// The keys of a table, in order.
pub open spec fn keys(item: TomlItem) -> Seq<Seq<char>> {
    item.entries().map_values(|entry: (Seq<char>, TomlItem)| entry.0)
}

/// The fields at the root of script metadata that do not belong there, in order.
pub open spec fn foreign_root_fields(root: TomlItem) -> Seq<Seq<char>> {
    keys(root).filter(|key: Seq<char>| !is_root_field(key))
}

/// What stands under `tool.pixi`, or nothing.
pub open spec fn pixi_of(root: TomlItem) -> TomlItem {
    match root.child("tool"@) {
        Some(tool) => match tool.child("pixi"@) {
            Some(pixi) => pixi,
            None => TomlItem::Empty,
        },
        None => TomlItem::Empty,
    }
}

/// The path of a key below another path.
pub open spec fn path_below(prefix: Seq<char>, key: Seq<char>) -> Seq<char> {
    prefix + "."@ + key
}

/// The paths at which a key stands in a table or in the tables below it, from the entry `from`
/// on.
pub open spec fn nested_paths(
    item: TomlItem,
    from: int,
    needle: Seq<char>,
    prefix: Seq<char>,
) -> Seq<Seq<char>>
    decreases item, item.entries().len() - from,
{
    if 0 <= from < item.entries().len() {
        proof {
            item.lemma_entry_smaller(from);
        }
        let (key, child) = item.entries()[from];
        let path = path_below(prefix, key);
        let here = if key == needle {
            seq![path]
        } else {
            Seq::empty()
        };
        here + nested_paths(child, 0, needle, path) + nested_paths(item, from + 1, needle, prefix)
    } else {
        Seq::empty()
    }
}

/// The path of a key of `tool.pixi`, if the key is there.
pub open spec fn pixi_field(pixi: TomlItem, key: Seq<char>, path: Seq<char>) -> Seq<Seq<char>> {
    if pixi.child(key) is Some {
        seq![path]
    } else {
        Seq::empty()
    }
}

/// The path of the dependencies of the workspace table, if it has any.
pub open spec fn workspace_dependencies(pixi: TomlItem) -> Seq<Seq<char>> {
    match pixi.child("workspace"@) {
        Some(workspace) => pixi_field(
            workspace,
            "dependencies"@,
            "tool.pixi.workspace.dependencies"@,
        ),
        None => Seq::empty(),
    }
}

/// The fields below `tool.pixi` that a script with one implicit environment cannot have.
pub open spec fn foreign_pixi_fields(pixi: TomlItem) -> Seq<Seq<char>> {
    let prefix = "tool.pixi"@;
    pixi_field(pixi, "environments"@, "tool.pixi.environments"@) + pixi_field(
        pixi,
        "feature"@,
        "tool.pixi.feature"@,
    ) + nested_paths(pixi, 0, "build-backend"@, prefix) + nested_paths(
        pixi,
        0,
        "build-dependencies"@,
        prefix,
    ) + nested_paths(pixi, 0, "dev-dependencies"@, prefix) + nested_paths(
        pixi,
        0,
        "host-dependencies"@,
        prefix,
    ) + nested_paths(pixi, 0, "package"@, prefix) + nested_paths(
        pixi,
        0,
        "run-dependencies"@,
        prefix,
    ) + nested_paths(pixi, 0, "tasks"@, prefix) + workspace_dependencies(pixi)
}

/// `result` is what the rules for script metadata say of metadata with this root: first, the
/// foreign fields at the root in their order; where there are none, those below `tool.pixi`,
/// sorted and each named once.
pub open spec fn subset_verdict(root: TomlItem, result: Result<(), ScriptManifestError>) -> bool {
    let foreign = foreign_root_fields(root);
    let nested = foreign_pixi_fields(pixi_of(root));
    if foreign.len() > 0 {
        result matches Err(ScriptManifestError::UnsupportedFields(fields)) && views(fields@)
            == foreign
    } else if nested.len() > 0 {
        result matches Err(ScriptManifestError::UnsupportedFields(fields)) && ascending(
            views(fields@),
        ) && views(fields@).to_set() == nested.to_set()
    } else {
        result is Ok
    }
}

/// A path with one more key.
fn key_path(prefix: &str, key: &str) -> (path: String)
    ensures
        path@ == path_below(prefix@, key@),
{
    let mut path = prefix.to_owned();
    path.append(".");
    path.append(key);
    path
}

/// Appends to the list of paths.
proof fn lemma_views_push(texts: Seq<String>, text: String)
    ensures
        views(texts.push(text)) == views(texts).push(text@),
{
    assert(views(texts.push(text)) =~= views(texts).push(text@));
}

/// Collects the paths at which a key stands in a table or in the tables below it.
pub fn collect_nested_key(item: &Item, needle: &str, prefix: &str, found: &mut Vec<String>)
    ensures
        views(final(found)@) == views(old(found)@) + nested_paths(
            item_data(*item),
            0,
            needle@,
            prefix@,
        ),
    decreases item_data(*item),
{
    let ghost before = views(found@);
    let ghost data = item_data(*item);
    let all = entries(item);
    let mut i: usize = 0;
    assert(before + nested_paths(data, 0, needle@, prefix@) == views(found@) + nested_paths(
        data,
        i as int,
        needle@,
        prefix@,
    ));
    while i < all.len()
        invariant
            i <= all.len(),
            data == item_data(*item),
            all@.len() == data.entries().len(),
            forall|i: int|
                0 <= i < all@.len() ==> {
                    let entry = #[trigger] all@[i];
                    &&& entry.0@ == data.entries()[i].0
                    &&& item_data(*entry.1) == data.entries()[i].1
                },
            before + nested_paths(data, 0, needle@, prefix@) == views(found@) + nested_paths(
                data,
                i as int,
                needle@,
                prefix@,
            ),
        decreases all.len() - i,
    {
        let (key, child) = all[i];
        let path = key_path(prefix, key);
        let ghost seen = views(found@);
        let ghost rest = nested_paths(data, i + 1, needle@, prefix@);
        let ghost below = nested_paths(item_data(*child), 0, needle@, path@);
        if same_text(key, needle) {
            proof {
                lemma_views_push(found@, path);
            }
            found.push(path.clone());
            assert(seen + (seq![path@] + below + rest) =~= views(found@) + below + rest);
        } else {
            assert(seen + (Seq::<Seq<char>>::empty() + below + rest) =~= views(found@) + below
                + rest);
        }
        proof {
            data.lemma_entry_smaller(i as int);
        }
        collect_nested_key(child, needle, path.as_str(), found);
        i += 1;
    }
    assert(views(found@) + nested_paths(data, i as int, needle@, prefix@) =~= views(found@));
}

/// Notes the path of a key, if the key is there.
fn note_field(item: &Item, key: &str, path: &str, found: &mut Vec<String>)
    ensures
        views(final(found)@) == views(old(found)@) + pixi_field(item_data(*item), key@, path@),
{
    if get(item, key).is_some() {
        proof {
            lemma_views_push_text(found@, path@);
        }
        found.push(path.to_owned());
        assert(views(found@) =~= views(old(found)@) + seq![path@]);
    } else {
        assert(views(found@) =~= views(old(found)@) + Seq::<Seq<char>>::empty());
    }
}

/// Appends to the list of paths, whatever string holds the text.
proof fn lemma_views_push_text(texts: Seq<String>, text: Seq<char>)
    ensures
        forall|owned: String| owned@ == text ==> #[trigger] views(texts.push(owned)) == views(
            texts,
        ).push(text),
{
    assert forall|owned: String| owned@ == text implies #[trigger] views(texts.push(owned))
        == views(texts).push(text) by {
        lemma_views_push(texts, owned);
    }
}

/// Collects the fields below `tool.pixi` that a script cannot have.
fn collect_foreign_pixi_fields(pixi: &Item) -> (found: Vec<String>)
    ensures
        views(found@) == foreign_pixi_fields(item_data(*pixi)),
{
    let mut found: Vec<String> = Vec::new();
    note_field(pixi, "environments", "tool.pixi.environments", &mut found);
    note_field(pixi, "feature", "tool.pixi.feature", &mut found);
    collect_nested_key(pixi, "build-backend", "tool.pixi", &mut found);
    collect_nested_key(pixi, "build-dependencies", "tool.pixi", &mut found);
    collect_nested_key(pixi, "dev-dependencies", "tool.pixi", &mut found);
    collect_nested_key(pixi, "host-dependencies", "tool.pixi", &mut found);
    collect_nested_key(pixi, "package", "tool.pixi", &mut found);
    collect_nested_key(pixi, "run-dependencies", "tool.pixi", &mut found);
    collect_nested_key(pixi, "tasks", "tool.pixi", &mut found);
    match get(pixi, "workspace") {
        Some(workspace) => {
            note_field(
                workspace,
                "dependencies",
                "tool.pixi.workspace.dependencies",
                &mut found,
            );
        },
        None => {},
    }
    assert(views(found@) =~= foreign_pixi_fields(item_data(*pixi)));
    found
}

/// Collects the fields at the root that do not belong there.
pub(crate) fn collect_foreign_root_fields(metadata: &Item) -> (found: Vec<String>)
    ensures
        views(found@) == foreign_root_fields(item_data(*metadata)),
{
    let ghost all_keys = keys(item_data(*metadata));
    let ghost foreign = |key: Seq<char>| !is_root_field(key);
    let all = entries(metadata);
    let mut found: Vec<String> = Vec::new();
    let mut i: usize = 0;
    assert(all_keys.take(0).filter(foreign) =~= Seq::empty()) by {
        reveal(Seq::filter);
    }
    assert(views(found@) =~= Seq::empty());
    while i < all.len()
        invariant
            i <= all.len(),
            all@.len() == all_keys.len(),
            foreign == (|key: Seq<char>| !is_root_field(key)),
            forall|i: int| 0 <= i < all@.len() ==> (#[trigger] all@[i]).0@ == all_keys[i],
            views(found@) == all_keys.take(i as int).filter(foreign),
        decreases all.len() - i,
    {
        let (key, _) = all[i];
        proof {
            assert(all_keys.take(i + 1) =~= all_keys.take(i as int).push(key@));
            reveal(Seq::filter);
            assert(all_keys.take(i + 1).drop_last() =~= all_keys.take(i as int));
            lemma_views_push_text(found@, key@);
        }
        if !same_text(key, "dependencies") && !same_text(key, "requires-python") && !same_text(
            key,
            "tool",
        ) {
            found.push(key.to_owned());
        }
        i += 1;
    }
    assert(all_keys.take(i as int) =~= all_keys);
    found
}

/// Refuses metadata with fields that a script cannot have.
pub fn validate_subset(metadata: &DocumentMut) -> (result: Result<(), ScriptManifestError>)
    ensures
        subset_verdict(document_data(*metadata), result),
{
    let unsupported_root = collect_foreign_root_fields(root(metadata));
    let ghost all = document_data(*metadata);
    assert(views(unsupported_root@).len() == unsupported_root@.len());
    if unsupported_root.len() > 0 {
        return Err(ScriptManifestError::UnsupportedFields(unsupported_root));
    }
    let pixi = match get(root(metadata), "tool") {
        Some(tool) => get(tool, "pixi"),
        None => None,
    };
    let unsupported = match pixi {
        Some(pixi) => collect_foreign_pixi_fields(pixi),
        None => {
            assert(foreign_pixi_fields(TomlItem::Empty) =~= Seq::empty());
            assert(views(Seq::<String>::empty()) =~= Seq::empty());
            Vec::new()
        },
    };
    assert(views(unsupported@) == foreign_pixi_fields(pixi_of(all)));
    assert(views(unsupported@).len() == unsupported@.len());
    if unsupported.len() == 0 {
        Ok(())
    } else {
        Err(ScriptManifestError::UnsupportedFields(sort_dedup(unsupported)))
    }
}

} // verus!
