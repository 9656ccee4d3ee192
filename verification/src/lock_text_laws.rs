//! Which texts of lock files are read, said of each requirement in them on its own.
use vstd::prelude::*;

use crate::lock_text::{
    are_packages_fit, are_requirements_fit, is_fit, is_package_fit, is_requirement_fit,
    packages_key, tells_conda, tells_requirements, version_from, Surroundings,
};
use crate::requirement::{is_harmless, is_reportable, names_path};
use crate::text::{bytes_of, occurs_at};
use crate::yaml::{yaml_of, YamlData};

verus! {

/// A document gives its version in the first entry that is named so.
pub open spec fn gives_version(document: YamlData, at: int, version: u64) -> bool {
    let entries = document.entries();
    &&& 0 <= at < entries.len()
    &&& entries[at].0 == YamlData::Text("version"@)
    &&& entries[at].1.number() == Some(version)
    &&& forall|i: int| 0 <= i < at ==> (#[trigger] entries[i]).0 != YamlData::Text("version"@)
}

/// The version is found from an entry on, if no entry before gives it.
proof fn lemma_version(document: YamlData, at: int, version: u64, from: int)
    requires
        gives_version(document, at, version),
        0 <= from <= at,
    ensures
        version_from(document.entries(), from) == Some(version),
    decreases at - from,
{
    if from < at {
        assert(document.entries()[from].0 != YamlData::Text("version"@));
        lemma_version(document, at, version, from + 1);
    }
}

/// An entry shows that a package of a lock file of this version comes from a conda channel.
pub open spec fn shows_conda(version: u64, key: YamlData, value: YamlData) -> bool {
    ||| version <= 3 && key.text() == Some("manager"@) && value.text() == Some("conda"@)
    ||| 4 <= version <= 5 && key.text() == Some("kind"@) && value.text() == Some("conda"@)
    ||| version >= 6 && key.text() == Some("conda"@) && value.text() is Some
    ||| version >= 7 && key.text() == Some("conda_source"@) && value.text() is Some
}

/// The key is one under which a package of a lock file of this version has requirements.
pub open spec fn shows_requirements(version: u64, key: YamlData) -> bool {
    ||| key.text() == Some("requires_dist"@)
    ||| version <= 3 && key.text() == Some("dependencies"@)
    ||| version <= 3 && key.number() == Some(2u64)
}

/// A place in a document: an entry of it, a package in that, an entry of the package, and an item
/// in that.
pub struct Place {
    pub list: int,
    pub package: int,
    pub field: int,
    pub item: int,
}

/// The text is the requirement at a place of a lock file of this version.
pub open spec fn is_required_at(
    document: YamlData,
    version: u64,
    place: Place,
    text: Seq<char>,
) -> bool {
    let (key, packages) = document.entries()[place.list];
    let package = packages.items()[place.package];
    let (field, requirements) = package.entries()[place.field];
    &&& 0 <= place.list < document.entries().len()
    &&& if version <= 3 {
        key.text() == Some("package"@)
    } else {
        key.text() == Some("packages"@)
    }
    &&& 0 <= place.package < packages.items().len()
    &&& forall|i: int|
        0 <= i < package.entries().len() ==> !shows_conda(
            version,
            (#[trigger] package.entries()[i]).0,
            package.entries()[i].1,
        )
    &&& 0 <= place.field < package.entries().len()
    &&& shows_requirements(version, field)
    &&& 0 <= place.item < requirements.items().len()
    &&& requirements.items()[place.item].text() == Some(text)
}

/// What is fit as a whole is so at every place.
proof fn lemma_fit_everywhere(
    surroundings: Surroundings,
    document: YamlData,
    version: u64,
    place: Place,
    text: Seq<char>,
)
    requires
        is_required_at(document, version, place, text),
        are_packages_fit(version, surroundings, document.entries()[place.list].1),
    ensures
        is_requirement_fit(version, surroundings, text),
{
    let package = document.entries()[place.list].1.items()[place.package];
    let entries = package.entries();
    assert(is_package_fit(version, surroundings, package));
    assert forall|i: int| 0 <= i < entries.len() implies !#[trigger] tells_conda(
        version,
        entries[i],
    ) by {
        assert(!shows_conda(version, entries[i].0, entries[i].1));
    }
    assert(tells_requirements(version, entries[place.field].0));
    assert(are_requirements_fit(version, surroundings, entries[place.field].1));
    assert(entries[place.field].1.items()[place.item].text() == Some(text));
}

/// What is fit at every place of a list of packages is so as a whole.
proof fn lemma_fit_as_a_whole(
    surroundings: Surroundings,
    document: YamlData,
    version: u64,
    list: int,
)
    requires
        0 <= list < document.entries().len(),
        document.entries()[list].0.text() == Some(packages_key(version)),
        forall|place: Place, text: Seq<char>| #[trigger]
            is_required_at(document, version, place, text) ==> is_requirement_fit(
                version,
                surroundings,
                text,
            ),
    ensures
        are_packages_fit(version, surroundings, document.entries()[list].1),
{
    let packages = document.entries()[list].1;
    assert forall|at: int| 0 <= at < packages.items().len() implies is_package_fit(
        version,
        surroundings,
        #[trigger] packages.items()[at],
    ) by {
        let package = packages.items()[at];
        let entries = package.entries();
        if !exists|i: int| 0 <= i < entries.len() && #[trigger] tells_conda(version, entries[i]) {
            assert forall|i: int| 0 <= i < entries.len() implies !shows_conda(
                version,
                (#[trigger] entries[i]).0,
                entries[i].1,
            ) by {
                assert(!tells_conda(version, entries[i]));
            }
            assert forall|field: int|
                0 <= field < entries.len() && #[trigger] tells_requirements(
                    version,
                    entries[field].0,
                ) implies are_requirements_fit(version, surroundings, entries[field].1) by {
                let items = entries[field].1.items();
                assert forall|item: int| 0 <= item < items.len() implies (
                #[trigger] items[item].text() matches Some(text) ==> is_requirement_fit(
                    version,
                    surroundings,
                    text,
                )) by {
                    match items[item].text() {
                        Some(text) => {
                            let place = Place { list, package: at, field, item };
                            assert(is_required_at(document, version, place, text));
                        },
                        None => {},
                    }
                }
            }
        }
    }
}

/// A text is read exactly if every requirement of every package in it that does not come from a
/// conda channel is fit. One that is not, anywhere, keeps the whole text from being read.
pub proof fn every_requirement_counts(
    surroundings: Surroundings,
    text: Seq<char>,
    document: YamlData,
    at: int,
    version: u64,
)
    requires
        yaml_of(text) == Some(document),
        gives_version(document, at, version),
    ensures
        is_fit(surroundings, text) <==> forall|place: Place, requirement: Seq<char>| #[trigger]
            is_required_at(document, version, place, requirement) ==> is_requirement_fit(
                version,
                surroundings,
                requirement,
            ),
{
    lemma_version(document, at, version, 0);
    if is_fit(surroundings, text) {
        assert forall|place: Place, requirement: Seq<char>| #[trigger]
            is_required_at(document, version, place, requirement) implies is_requirement_fit(
            version,
            surroundings,
            requirement,
        ) by {
            assert(document.entries()[place.list].0.text() == Some(packages_key(version)));
            lemma_fit_everywhere(surroundings, document, version, place, requirement);
        }
    }
    if forall|place: Place, requirement: Seq<char>| #[trigger]
        is_required_at(document, version, place, requirement) ==> is_requirement_fit(
            version,
            surroundings,
            requirement,
        ) {
        assert forall|index: int|
            0 <= index < document.entries().len() && (
            #[trigger] document.entries()[index]).0.text() == Some(
                packages_key(version),
            ) implies are_packages_fit(version, surroundings, document.entries()[index].1) by {
            lemma_fit_as_a_whole(surroundings, document, version, index);
        }
    }
}

/// A requirement that its parser does not get through is never fit. Where all directories are known,
/// and its errors are not written out, that is all that counts. Without the directory of the
/// project, one that names that directory is not fit. Without the directory that paths are
/// relative to, one of the newer formats with a path is not.
pub proof fn surroundings_decide_only_on_paths(
    version: u64,
    surroundings: Surroundings,
    text: Seq<char>,
    at: int,
)
    ensures
        is_requirement_fit(version, surroundings, text) ==> is_harmless(text),
        surroundings.rooted && surroundings.anchored && version > 3 ==> (is_requirement_fit(
            version,
            surroundings,
            text,
        ) <==> is_harmless(text)),
        version <= 3 && !is_reportable(text) ==> !is_requirement_fit(version, surroundings, text),
        !surroundings.anchored && occurs_at(bytes_of(text), bytes_of("${PROJECT_ROOT}"@), at)
            ==> !is_requirement_fit(version, surroundings, text),
        !surroundings.rooted && version >= 6 && names_path(text) ==> !is_requirement_fit(
            version,
            surroundings,
            text,
        ),
        version < 6 ==> (is_requirement_fit(version, surroundings, text) <==> is_requirement_fit(
            version,
            (Surroundings { rooted: true, ..surroundings }),
            text,
        )),
{
}

} // verus!
