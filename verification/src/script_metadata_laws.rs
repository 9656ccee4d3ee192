//! What script metadata is refused for, said of each field on its own.
use vstd::prelude::*;

use crate::error::ScriptManifestError;
use crate::ordered::views;
use crate::script_metadata::{
    foreign_pixi_fields, foreign_root_fields, is_root_field, keys, nested_paths, path_below,
    pixi_field, pixi_of, subset_verdict, workspace_dependencies,
};
use crate::toml::TomlItem;

verus! {

/// Going from entry to entry, each in the one before, leads to an entry with this key.
pub open spec fn leads_to(item: TomlItem, steps: Seq<int>, key: Seq<char>) -> bool
    decreases steps.len(),
{
    &&& steps.len() > 0
    &&& 0 <= steps[0] < item.entries().len()
    &&& if steps.len() == 1 {
        item.entries()[steps[0]].0 == key
    } else {
        leads_to(item.entries()[steps[0]].1, steps.drop_first(), key)
    }
}

/// The path of the entry that some steps lead to.
pub open spec fn path_of(item: TomlItem, steps: Seq<int>, prefix: Seq<char>) -> Seq<char>
    decreases steps.len(),
{
    if steps.len() == 0 {
        prefix
    } else {
        let (key, child) = item.entries()[steps[0]];
        path_of(child, steps.drop_first(), prefix + seq!['.'] + key)
    }
}

/// The key stands in the table, or in a table below it, at this path.
pub open spec fn stands_at(
    item: TomlItem,
    key: Seq<char>,
    prefix: Seq<char>,
    path: Seq<char>,
) -> bool {
    exists|steps: Seq<int>| #[trigger]
        leads_to(item, steps, key) && path == path_of(item, steps, prefix)
}

/// The key stands so from the entry `from` on.
spec fn stands_from(
    item: TomlItem,
    from: int,
    key: Seq<char>,
    prefix: Seq<char>,
    path: Seq<char>,
) -> bool {
    exists|steps: Seq<int>| #[trigger]
        leads_to(item, steps, key) && steps[0] >= from && path == path_of(item, steps, prefix)
}

/// The paths of a key are those at which it stands.
proof fn lemma_nested(
    item: TomlItem,
    from: int,
    key: Seq<char>,
    prefix: Seq<char>,
    path: Seq<char>,
)
    requires
        0 <= from,
    ensures
        nested_paths(item, from, key, prefix).contains(path) <==> stands_from(
            item,
            from,
            key,
            prefix,
            path,
        ),
    decreases item, item.entries().len() - from,
{
    let all = nested_paths(item, from, key, prefix);
    if from < item.entries().len() {
        item.lemma_entry_smaller(from);
        let (name, child) = item.entries()[from];
        let below = path_below(prefix, name);
        reveal_strlit(".");
        assert("."@ =~= seq!['.']);
        let here = if name == key {
            seq![below]
        } else {
            Seq::empty()
        };
        let inner = nested_paths(child, 0, key, below);
        let rest = nested_paths(item, from + 1, key, prefix);
        lemma_nested(child, 0, key, below, path);
        lemma_nested(item, from + 1, key, prefix, path);
        assert(all == here + inner + rest);
        assert(all.contains(path) <==> here.contains(path) || inner.contains(path)
            || rest.contains(path)) by {
            lemma_three(here, inner, rest, path);
        }
        if here.contains(path) {
            let steps = seq![from];
            assert(here[0] == below && path == below);
            assert(leads_to(item, steps, key));
            assert(steps.drop_first() =~= Seq::empty());
            assert(path_of(child, Seq::empty(), below) == below);
            assert(path_of(item, steps, prefix) == below);
        }
        if inner.contains(path) {
            let tail = choose|tail: Seq<int>| #[trigger]
                leads_to(child, tail, key) && tail[0] >= 0 && path == path_of(child, tail, below);
            let steps = seq![from] + tail;
            assert(steps.drop_first() =~= tail);
            assert(leads_to(item, steps, key));
            assert(path_of(item, steps, prefix) == path);
        }
        if stands_from(item, from, key, prefix, path) {
            let steps = choose|steps: Seq<int>| #[trigger]
                leads_to(item, steps, key) && steps[0] >= from && path == path_of(
                    item,
                    steps,
                    prefix,
                );
            if steps[0] == from {
                assert(path_of(item, steps, prefix) == path_of(
                    child,
                    steps.drop_first(),
                    below,
                ));
                if steps.len() == 1 {
                    assert(steps.drop_first() =~= Seq::empty());
                    assert(path_of(child, Seq::empty(), below) == below);
                    assert(here[0] == path);
                } else {
                    assert(leads_to(child, steps.drop_first(), key));
                    assert(steps.drop_first()[0] >= 0);
                    assert(stands_from(child, 0, key, below, path));
                }
            } else {
                assert(stands_from(item, from + 1, key, prefix, path));
            }
        }
    }
}

/// What is in a list of three parts is in one of them.
proof fn lemma_three(
    one: Seq<Seq<char>>,
    two: Seq<Seq<char>>,
    three: Seq<Seq<char>>,
    text: Seq<char>,
)
    ensures
        (one + two + three).contains(text) <==> one.contains(text) || two.contains(text)
            || three.contains(text),
{
    lemma_two(one, two, text);
    lemma_two(one + two, three, text);
}

/// What is in a list of two parts is in one of them.
proof fn lemma_two(one: Seq<Seq<char>>, two: Seq<Seq<char>>, text: Seq<char>)
    ensures
        (one + two).contains(text) <==> one.contains(text) || two.contains(text),
{
    let all = one + two;
    if one.contains(text) {
        let i = choose|i: int| 0 <= i < one.len() && one[i] == text;
        assert(all[i] == text);
    }
    if two.contains(text) {
        let i = choose|i: int| 0 <= i < two.len() && two[i] == text;
        assert(all[one.len() + i] == text);
    }
}

/// The paths at which a key stands are found, at any depth, and no others.
pub proof fn all_places_of_a_key_are_found(
    item: TomlItem,
    key: Seq<char>,
    prefix: Seq<char>,
    path: Seq<char>,
)
    ensures
        nested_paths(item, 0, key, prefix).contains(path) <==> stands_at(item, key, prefix, path),
{
    lemma_nested(item, 0, key, prefix, path);
    if stands_at(item, key, prefix, path) {
        let steps = choose|steps: Seq<int>| #[trigger]
            leads_to(item, steps, key) && path == path_of(item, steps, prefix);
        assert(steps[0] >= 0);
        assert(stands_from(item, 0, key, prefix, path));
    }
}

/// A key that a script with one implicit environment can have nowhere below `tool.pixi`.
pub open spec fn is_foreign_key(key: Seq<char>) -> bool {
    ||| key == "build-backend"@
    ||| key == "build-dependencies"@
    ||| key == "dev-dependencies"@
    ||| key == "host-dependencies"@
    ||| key == "package"@
    ||| key == "run-dependencies"@
    ||| key == "tasks"@
}

/// The path is that of something below `tool.pixi` that a script cannot have.
pub open spec fn is_foreign_below(pixi: TomlItem, path: Seq<char>) -> bool {
    ||| path == "tool.pixi.environments"@ && pixi.child("environments"@) is Some
    ||| path == "tool.pixi.feature"@ && pixi.child("feature"@) is Some
    ||| path == "tool.pixi.workspace.dependencies"@ && (pixi.child(
        "workspace"@,
    ) matches Some(workspace) && workspace.child("dependencies"@) is Some)
    ||| exists|key: Seq<char>| #[trigger]
        is_foreign_key(key) && stands_at(pixi, key, "tool.pixi"@, path)
}

/// The foreign fields below `tool.pixi` are those that a script cannot have.
proof fn lemma_foreign_below(pixi: TomlItem, path: Seq<char>)
    ensures
        foreign_pixi_fields(pixi).contains(path) <==> is_foreign_below(pixi, path),
{
    let prefix = "tool.pixi"@;
    let environments = pixi_field(pixi, "environments"@, "tool.pixi.environments"@);
    let feature = pixi_field(pixi, "feature"@, "tool.pixi.feature"@);
    let backend = nested_paths(pixi, 0, "build-backend"@, prefix);
    let build = nested_paths(pixi, 0, "build-dependencies"@, prefix);
    let dev = nested_paths(pixi, 0, "dev-dependencies"@, prefix);
    let host = nested_paths(pixi, 0, "host-dependencies"@, prefix);
    let package = nested_paths(pixi, 0, "package"@, prefix);
    let run = nested_paths(pixi, 0, "run-dependencies"@, prefix);
    let tasks = nested_paths(pixi, 0, "tasks"@, prefix);
    let workspace = workspace_dependencies(pixi);
    lemma_two(environments, feature, path);
    lemma_two(environments + feature, backend, path);
    lemma_two(environments + feature + backend, build, path);
    lemma_two(environments + feature + backend + build, dev, path);
    lemma_two(environments + feature + backend + build + dev, host, path);
    lemma_two(environments + feature + backend + build + dev + host, package, path);
    lemma_two(environments + feature + backend + build + dev + host + package, run, path);
    lemma_two(environments + feature + backend + build + dev + host + package + run, tasks, path);
    lemma_two(
        environments + feature + backend + build + dev + host + package + run + tasks,
        workspace,
        path,
    );
    all_places_of_a_key_are_found(pixi, "build-backend"@, prefix, path);
    all_places_of_a_key_are_found(pixi, "build-dependencies"@, prefix, path);
    all_places_of_a_key_are_found(pixi, "dev-dependencies"@, prefix, path);
    all_places_of_a_key_are_found(pixi, "host-dependencies"@, prefix, path);
    all_places_of_a_key_are_found(pixi, "package"@, prefix, path);
    all_places_of_a_key_are_found(pixi, "run-dependencies"@, prefix, path);
    all_places_of_a_key_are_found(pixi, "tasks"@, prefix, path);
    lemma_field(pixi, "environments"@, "tool.pixi.environments"@, path);
    lemma_field(pixi, "feature"@, "tool.pixi.feature"@, path);
    match pixi.child("workspace"@) {
        Some(table) => lemma_field(
            table,
            "dependencies"@,
            "tool.pixi.workspace.dependencies"@,
            path,
        ),
        None => {},
    }
    assert(is_foreign_key("build-backend"@));
    assert(is_foreign_key("build-dependencies"@));
    assert(is_foreign_key("dev-dependencies"@));
    assert(is_foreign_key("host-dependencies"@));
    assert(is_foreign_key("package"@));
    assert(is_foreign_key("run-dependencies"@));
    assert(is_foreign_key("tasks"@));
}

/// A field is noted exactly if it is there.
proof fn lemma_field(item: TomlItem, key: Seq<char>, noted: Seq<char>, path: Seq<char>)
    ensures
        pixi_field(item, key, noted).contains(path) <==> path == noted && item.child(key) is Some,
{
    if item.child(key) is Some {
        assert(seq![noted][0] == noted);
    }
}

/// The key stands at the root and does not belong there.
pub open spec fn is_foreign_at_root(root: TomlItem, key: Seq<char>) -> bool {
    &&& key != "dependencies"@ && key != "requires-python"@ && key != "tool"@
    &&& exists|i: int| 0 <= i < root.entries().len() && (#[trigger] root.entries()[i]).0 == key
}

/// The foreign fields at the root are those that do not belong there.
proof fn lemma_foreign_at_root(root: TomlItem, key: Seq<char>)
    ensures
        foreign_root_fields(root).contains(key) <==> is_foreign_at_root(root, key),
{
    let foreign = |key: Seq<char>| !is_root_field(key);
    let all = keys(root);
    if foreign_root_fields(root).contains(key) {
        all.lemma_filter_contains_rev(foreign, key);
        let at = choose|at: int|
            0 <= at < foreign_root_fields(root).len() && foreign_root_fields(root)[at] == key;
        all.lemma_filter_pred(foreign, at);
        let i = choose|i: int| 0 <= i < all.len() && all[i] == key;
        assert(root.entries()[i].0 == key);
    }
    if is_foreign_at_root(root, key) {
        let i = choose|i: int|
            0 <= i < root.entries().len() && (#[trigger] root.entries()[i]).0 == key;
        assert(all[i] == key);
        all.lemma_filter_contains(foreign, i);
    }
}

/// The path is that of something under `tool.pixi` that a script cannot have.
pub open spec fn is_foreign_in_pixi(root: TomlItem, path: Seq<char>) -> bool {
    root.child("tool"@) matches Some(tool) && (tool.child("pixi"@) matches Some(pixi)
        && is_foreign_below(pixi, path))
}

/// Metadata is accepted exactly if nothing at its root and nothing at any depth below `tool.pixi`
/// is foreign. Otherwise all foreign fields at the root are named, and nothing else, or, where
/// there are none, all that are below `tool.pixi`.
pub proof fn foreign_fields_are_refused(root: TomlItem, result: Result<(), ScriptManifestError>)
    requires
        subset_verdict(root, result),
    ensures
        result is Ok <==> (forall|key: Seq<char>| !is_foreign_at_root(root, key)) && (forall|
            path: Seq<char>,
        |
            !is_foreign_in_pixi(root, path)),
        result matches Err(error) ==> (error matches ScriptManifestError::UnsupportedFields(fields)
            && if exists|key: Seq<char>| is_foreign_at_root(root, key) {
            forall|key: Seq<char>|
                views(fields@).contains(key) <==> #[trigger] is_foreign_at_root(root, key)
        } else {
            forall|path: Seq<char>|
                views(fields@).contains(path) <==> #[trigger] is_foreign_in_pixi(root, path)
        }),
{
    let foreign = foreign_root_fields(root);
    let nested = foreign_pixi_fields(pixi_of(root));
    assert forall|key: Seq<char>|
        foreign.contains(key) <==> #[trigger] is_foreign_at_root(root, key) by {
        lemma_foreign_at_root(root, key);
    }
    assert forall|path: Seq<char>|
        nested.contains(path) <==> #[trigger] is_foreign_in_pixi(root, path) by {
        lemma_foreign_below(pixi_of(root), path);
        match root.child("tool"@) {
            Some(tool) => {
                if tool.child("pixi"@) is None {
                    lemma_nothing_below(path);
                }
            },
            None => lemma_nothing_below(path),
        }
    }
    if foreign.len() > 0 {
        assert(foreign.contains(foreign[0]));
        assert(is_foreign_at_root(root, foreign[0]));
    } else if nested.len() > 0 {
        assert(nested.contains(nested[0]));
        assert(is_foreign_in_pixi(root, nested[0]));
        match result {
            Err(ScriptManifestError::UnsupportedFields(fields)) => {
                assert forall|path: Seq<char>|
                    views(fields@).contains(path) <==> #[trigger] is_foreign_in_pixi(
                        root,
                        path,
                    ) by {
                    assert(views(fields@).to_set().contains(path) <==> nested.to_set().contains(
                        path,
                    ));
                }
            },
            _ => {},
        }
    }
}

/// Nothing stands below what is not there.
proof fn lemma_nothing_below(path: Seq<char>)
    ensures
        !is_foreign_below(TomlItem::Empty, path),
{
    lemma_foreign_below(TomlItem::Empty, path);
    assert(TomlItem::Empty.entries() =~= Seq::empty());
    assert(foreign_pixi_fields(TomlItem::Empty) =~= Seq::empty());
}

/// What is listed as foreign is so.
pub(crate) proof fn lemma_foreign_is_found(root: TomlItem)
    requires
        foreign_root_fields(root).len() > 0 || foreign_pixi_fields(pixi_of(root)).len() > 0,
    ensures
        (exists|key: Seq<char>| is_foreign_at_root(root, key)) || (exists|path: Seq<char>|
            is_foreign_in_pixi(root, path)),
{
    let foreign = foreign_root_fields(root);
    let nested = foreign_pixi_fields(pixi_of(root));
    if foreign.len() > 0 {
        assert(foreign.contains(foreign[0]));
        lemma_foreign_at_root(root, foreign[0]);
    } else {
        assert(nested.contains(nested[0]));
        lemma_foreign_below(pixi_of(root), nested[0]);
        match root.child("tool"@) {
            Some(tool) => {
                if tool.child("pixi"@) is None {
                    lemma_nothing_below(nested[0]);
                }
            },
            None => lemma_nothing_below(nested[0]),
        }
        assert(is_foreign_in_pixi(root, nested[0]));
    }
}

} // verus!
