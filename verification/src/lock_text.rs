//! Texts of lock files that can be read without harm.
//!
//! A lock file is a YAML document, and the requirements in it go through a parser that panics on
//! some of them. A stored text is therefore looked at before it is read.
use serde_yaml::Value;
use vstd::prelude::*;

use crate::requirement::{
    harmless, is_harmless, is_reportable, names_path, path_named, reportable,
};
use crate::text::{bytes_of, find_first, occurs_at, same_text};
use crate::yaml::{
    entries_of, is_tagged, items_of, number_of, parse_yaml, text_of, yaml_data, yaml_of, YamlData,
};

verus! {

/// Where a text is read.
#[derive(Clone, Copy)]
pub struct Surroundings {
    /// The directory that paths are relative to is absolute.
    pub rooted: bool,
    /// The directory of the project is known: `PROJECT_ROOT` is in the environment, or there is a
    /// current directory.
    pub anchored: bool,
}

/// A part stands somewhere in a text.
pub open spec fn occurs(text: Seq<u8>, part: Seq<u8>) -> bool {
    exists|at: int| occurs_at(text, part, at)
}

/// The version of its format that a lock file gives, in the first entry that does so.
pub open spec fn version_from(entries: Seq<(YamlData, YamlData)>, at: int) -> Option<u64>
    decreases entries.len() - at,
{
    if !(0 <= at < entries.len()) {
        None
    } else if entries[at].0 == YamlData::Text("version"@) {
        entries[at].1.number()
    } else {
        version_from(entries, at + 1)
    }
}

/// The key under which a lock file of this version has its packages.
pub open spec fn packages_key(version: u64) -> Seq<char> {
    if version <= 3 {
        "package"@
    } else {
        "packages"@
    }
}

/// An entry by which a package of a lock file is known to come from a conda channel. Such a
/// package has no requirements on Python packages.
pub open spec fn tells_conda(version: u64, entry: (YamlData, YamlData)) -> bool {
    if version >= 6 {
        (entry.0.text() == Some("conda"@) || (version > 6 && entry.0.text() == Some(
            "conda_source"@,
        ))) && entry.1.text() is Some
    } else {
        entry.0.text() == Some(
            if version > 3 {
                "kind"@
            } else {
                "manager"@
            },
        ) && entry.1.text() == Some("conda"@)
    }
}

/// An entry under which a package has its requirements. In the oldest formats these may stand
/// under another key, or under the number of their field.
pub open spec fn tells_requirements(version: u64, key: YamlData) -> bool {
    ||| key.text() == Some("requires_dist"@)
    ||| version <= 3 && (key.text() == Some("dependencies"@) || key.number() == Some(2u64))
}

/// A requirement in a lock file of this version gets through its parser. In the oldest formats its
/// errors are written out as well. In the newer ones a path in it is relative to a directory.
pub open spec fn is_requirement_fit(
    version: u64,
    surroundings: Surroundings,
    text: Seq<char>,
) -> bool {
    &&& is_harmless(text)
    &&& version <= 3 ==> is_reportable(text)
    &&& version >= 6 && names_path(text) ==> surroundings.rooted
    &&& occurs(bytes_of(text), bytes_of("${PROJECT_ROOT}"@)) ==> surroundings.anchored
}

/// The requirements of a package are fit to be read.
pub open spec fn are_requirements_fit(
    version: u64,
    surroundings: Surroundings,
    requirements: YamlData,
) -> bool {
    forall|index: int|
        0 <= index < requirements.items().len() ==> (#[trigger] requirements.items()[index].text(
        ) matches Some(text) ==> is_requirement_fit(version, surroundings, text))
}

/// A package of a lock file is fit to be read.
pub open spec fn is_package_fit(
    version: u64,
    surroundings: Surroundings,
    package: YamlData,
) -> bool {
    let entries = package.entries();
    ||| exists|index: int|
        0 <= index < entries.len() && #[trigger] tells_conda(version, entries[index])
    ||| forall|index: int|
        0 <= index < entries.len() && #[trigger] tells_requirements(version, entries[index].0)
            ==> are_requirements_fit(version, surroundings, entries[index].1)
}

/// A list of packages is fit to be read.
pub open spec fn are_packages_fit(
    version: u64,
    surroundings: Surroundings,
    packages: YamlData,
) -> bool {
    forall|index: int|
        0 <= index < packages.items().len() ==> is_package_fit(
            version,
            surroundings,
            #[trigger] packages.items()[index],
        )
}

/// The text of a lock file is fit to be read. Only texts that the reader would panic on are not,
/// and some that it would fail on.
pub open spec fn is_fit(surroundings: Surroundings, text: Seq<char>) -> bool {
    yaml_of(text) matches Some(document) ==> (version_from(document.entries(), 0) matches Some(
        version,
    ) ==> forall|index: int|
        0 <= index < document.entries().len() && (
        #[trigger] document.entries()[index]).0.text() == Some(packages_key(version))
            ==> are_packages_fit(version, surroundings, document.entries()[index].1))
}

/// Tells whether a value is this text.
fn is_text(value: &Value, text: &str) -> (is: bool)
    ensures
        is == (yaml_data(*value).text() == Some(text@)),
{
    match text_of(value) {
        Some(found) => same_text(found, text),
        None => false,
    }
}

/// Finds the version that a lock file gives.
fn find_version(document: &Value) -> (version: Option<u64>)
    ensures
        version == version_from(yaml_data(*document).entries(), 0),
{
    let entries = entries_of(document);
    let ghost all = yaml_data(*document).entries();
    let mut at: usize = 0;
    while at < entries.len()
        invariant
            at <= entries@.len(),
            all == yaml_data(*document).entries(),
            entries@.len() == all.len(),
            forall|i: int|
                0 <= i < entries@.len() ==> {
                    let entry = #[trigger] entries@[i];
                    &&& yaml_data(*entry.0) == all[i].0
                    &&& yaml_data(*entry.1) == all[i].1
                },
            version_from(all, 0) == version_from(all, at as int),
        decreases entries@.len() - at,
    {
        let (key, value) = entries[at];
        assert(yaml_data(*entries@[at as int].0) == all[at as int].0);
        if !is_tagged(key) && is_text(key, "version") {
            assert(all[at as int].0 == YamlData::Text("version"@));
            return number_of(value);
        }
        at += 1;
    }
    None
}

/// Tells whether a requirement is fit to be read.
fn requirement_fit(version: u64, surroundings: Surroundings, text: &str) -> (fit: bool)
    ensures
        fit == is_requirement_fit(version, surroundings, text@),
{
    harmless(text) && (version > 3 || reportable(text)) && (version < 6 || surroundings.rooted
        || !path_named(text)) && (surroundings.anchored || find_first(
        text.as_bytes(),
        "${PROJECT_ROOT}".as_bytes(),
    ).is_none())
}

/// Tells whether the requirements of a package are fit to be read.
fn requirements_fit(version: u64, surroundings: Surroundings, requirements: &Value) -> (fit: bool)
    ensures
        fit == are_requirements_fit(version, surroundings, yaml_data(*requirements)),
{
    let items = items_of(requirements);
    let ghost all = yaml_data(*requirements).items();
    let mut at: usize = 0;
    while at < items.len()
        invariant
            at <= items@.len(),
            all == yaml_data(*requirements).items(),
            items@.len() == all.len(),
            forall|i: int| 0 <= i < items@.len() ==> yaml_data(#[trigger] items@[i]) == all[i],
            forall|i: int|
                0 <= i < at ==> (#[trigger] all[i].text() matches Some(text) ==> is_requirement_fit(
                    version,
                    surroundings,
                    text,
                )),
        decreases items@.len() - at,
    {
        assert(yaml_data(items@[at as int]) == all[at as int]);
        match text_of(&items[at]) {
            Some(text) => {
                if !requirement_fit(version, surroundings, text) {
                    assert(all[at as int].text() == Some(text@));
                    return false;
                }
            },
            None => {},
        }
        at += 1;
    }
    true
}

/// Tells whether an entry shows a package to come from a conda channel.
fn conda_told(version: u64, key: &Value, value: &Value) -> (told: bool)
    ensures
        told == tells_conda(version, (yaml_data(*key), yaml_data(*value))),
{
    if version >= 6 {
        (is_text(key, "conda") || (version > 6 && is_text(key, "conda_source"))) && text_of(
            value,
        ).is_some()
    } else if version > 3 {
        is_text(key, "kind") && is_text(value, "conda")
    } else {
        is_text(key, "manager") && is_text(value, "conda")
    }
}

/// Tells whether a package has its requirements under a key.
fn requirements_told(version: u64, key: &Value) -> (told: bool)
    ensures
        told == tells_requirements(version, yaml_data(*key)),
{
    is_text(key, "requires_dist") || (version <= 3 && (is_text(key, "dependencies") || matches!(
        number_of(key),
        Some(2)
    )))
}

/// Tells whether a package is fit to be read.
fn package_fit(version: u64, surroundings: Surroundings, package: &Value) -> (fit: bool)
    ensures
        fit == is_package_fit(version, surroundings, yaml_data(*package)),
{
    let entries = entries_of(package);
    let ghost all = yaml_data(*package).entries();
    let mut fit: bool = true;
    let mut at: usize = 0;
    while at < entries.len()
        invariant
            at <= entries@.len(),
            all == yaml_data(*package).entries(),
            entries@.len() == all.len(),
            forall|i: int|
                0 <= i < entries@.len() ==> {
                    let entry = #[trigger] entries@[i];
                    &&& yaml_data(*entry.0) == all[i].0
                    &&& yaml_data(*entry.1) == all[i].1
                },
            forall|i: int| 0 <= i < at ==> !#[trigger] tells_conda(version, all[i]),
            fit == forall|i: int|
                0 <= i < at && #[trigger] tells_requirements(version, all[i].0)
                    ==> are_requirements_fit(version, surroundings, all[i].1),
        decreases entries@.len() - at,
    {
        let (key, value) = entries[at];
        assert(yaml_data(*entries@[at as int].0) == all[at as int].0);
        assert((yaml_data(*key), yaml_data(*value)) == all[at as int]);
        if conda_told(version, key, value) {
            assert(tells_conda(version, all[at as int]));
            return true;
        }
        if requirements_told(version, key) && !requirements_fit(version, surroundings, value) {
            assert(tells_requirements(version, all[at as int].0));
            fit = false;
        }
        at += 1;
    }
    fit
}

/// Tells whether a list of packages is fit to be read.
fn packages_fit(version: u64, surroundings: Surroundings, packages: &Value) -> (fit: bool)
    ensures
        fit == are_packages_fit(version, surroundings, yaml_data(*packages)),
{
    let items = items_of(packages);
    let ghost all = yaml_data(*packages).items();
    let mut at: usize = 0;
    while at < items.len()
        invariant
            at <= items@.len(),
            all == yaml_data(*packages).items(),
            items@.len() == all.len(),
            forall|i: int| 0 <= i < items@.len() ==> yaml_data(#[trigger] items@[i]) == all[i],
            forall|i: int|
                0 <= i < at ==> is_package_fit(version, surroundings, #[trigger] all[i]),
        decreases items@.len() - at,
    {
        assert(yaml_data(items@[at as int]) == all[at as int]);
        if !package_fit(version, surroundings, &items[at]) {
            assert(!is_package_fit(version, surroundings, all[at as int]));
            return false;
        }
        at += 1;
    }
    true
}

/// Tells whether the text of a lock file is fit to be read.
pub fn fit_to_read(surroundings: Surroundings, text: &str) -> (fit: bool)
    ensures
        fit == is_fit(surroundings, text@),
{
    let document = match parse_yaml(text) {
        Some(document) => document,
        None => return true,
    };
    let version = match find_version(&document) {
        Some(version) => version,
        None => return true,
    };
    let key: &str = if version <= 3 {
        "package"
    } else {
        "packages"
    };
    let entries = entries_of(&document);
    let ghost all = yaml_data(document).entries();
    let mut at: usize = 0;
    while at < entries.len()
        invariant
            at <= entries@.len(),
            yaml_of(text@) == Some(yaml_data(document)),
            version_from(all, 0) == Some(version),
            key@ == packages_key(version),
            all == yaml_data(document).entries(),
            entries@.len() == all.len(),
            forall|i: int|
                0 <= i < entries@.len() ==> {
                    let entry = #[trigger] entries@[i];
                    &&& yaml_data(*entry.0) == all[i].0
                    &&& yaml_data(*entry.1) == all[i].1
                },
            forall|i: int|
                0 <= i < at && (#[trigger] all[i]).0.text() == Some(packages_key(version))
                    ==> are_packages_fit(version, surroundings, all[i].1),
        decreases entries@.len() - at,
    {
        let (name, packages) = entries[at];
        assert(yaml_data(*entries@[at as int].0) == all[at as int].0);
        if is_text(name, key) && !packages_fit(version, surroundings, packages) {
            assert(all[at as int].0.text() == Some(packages_key(version)));
            return false;
        }
        at += 1;
    }
    true
}

} // verus!
