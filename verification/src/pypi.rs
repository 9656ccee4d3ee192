//! What locked PyPI packages may be: wheels that fit a platform, and sources that may be built.
use std::str::FromStr;

use rattler_lock::UrlOrPath;
use url::Url;
use uv_distribution_filename::{DistExtension, ExtensionError, WheelFilename};
use uv_platform_tags::Tags;
use vstd::prelude::*;

use crate::ordered::{contains_text, views};
use crate::text::{lemma_prefix_bytes, same_bytes};
use crate::unsat::EnvironmentUnsat;

verus! {

/// Declares the place a package is taken from.
#[verifier::external_type_specification]
#[verifier::external_body]
pub struct ExUrlOrPath(UrlOrPath);

/// Declares a URL.
#[verifier::external_type_specification]
#[verifier::external_body]
pub struct ExUrl(Url);

/// Declares the parsed name of a wheel file.
#[verifier::external_type_specification]
#[verifier::external_body]
pub struct ExWheelFilename(WheelFilename);

/// Declares the tags of the wheels that a platform can use.
#[verifier::external_type_specification]
#[verifier::external_body]
pub struct ExTags(Tags);

/// A wheel or a source distribution.
#[derive(Debug, Clone, Copy, PartialEq, Eq, Structural)]
pub enum DistKind {
    Wheel,
    Source,
}

/// The kind of distribution that a file of this name is, or nothing where the name has no
/// extension of a distribution.
pub uninterp spec fn dist_kind(file_name: Seq<char>) -> Option<DistKind>;

/// `DistExtension::from_path` tells the kind of a distribution from the extension of its path.
#[verifier::external_body]
fn dist_kind_of(path: &str) -> (result: Result<DistKind, ExtensionError>)
    ensures
        match result {
            Ok(kind) => dist_kind(path@) == Some(kind),
            Err(_) => dist_kind(path@) is None,
        },
{
    match DistExtension::from_path(path) {
        Ok(DistExtension::Wheel) => Ok(DistKind::Wheel),
        Ok(DistExtension::Source(_)) => Ok(DistKind::Source),
        Err(error) => Err(error),
    }
}

/// The wheel that a file of this name holds, or nothing where it is not a wheel's name.
pub uninterp spec fn wheel_of(file_name: Seq<char>) -> Option<WheelFilename>;

/// `<WheelFilename as FromStr>::from_str` reads the name of a wheel file.
#[verifier::external_body]
fn parse_wheel(file_name: &str) -> (wheel: Option<WheelFilename>)
    ensures
        wheel == wheel_of(file_name@),
{
    WheelFilename::from_str(file_name).ok()
}

/// A wheel can be used where these tags are.
pub uninterp spec fn wheel_fits(wheel: WheelFilename, tags: Tags) -> bool;

/// `WheelFilename::is_compatible` tells whether a wheel can be used where these tags are.
#[verifier::external_body]
fn is_compatible(wheel: &WheelFilename, tags: &Tags) -> (fits: bool)
    ensures
        fits == wheel_fits(*wheel, *tags),
{
    wheel.is_compatible(tags)
}

/// The name of the package that a wheel holds.
pub uninterp spec fn wheel_package(wheel: WheelFilename) -> Seq<char>;

/// `<PackageName as Display>::fmt`, by way of `to_string`, prints the name of the package that a
/// wheel holds.
#[verifier::external_body]
fn package_of(wheel: &WheelFilename) -> (name: String)
    ensures
        name@ == wheel_package(*wheel),
{
    wheel.name.to_string()
}

/// The URL of a package's place, where it has one.
pub uninterp spec fn location_url(location: UrlOrPath) -> Option<Url>;

/// `UrlOrPath::as_url` gives the URL of a place that is no path.
#[verifier::external_body]
fn url_of(location: &UrlOrPath) -> (url: Option<&Url>)
    ensures
        match url {
            Some(url) => location_url(*location) == Some(*url),
            None => location_url(*location) is None,
        },
{
    location.as_url()
}

/// A package's place as text.
pub uninterp spec fn location_text(location: UrlOrPath) -> Seq<char>;

/// `UrlOrPath::as_str` gives a place as text.
#[verifier::external_body]
fn text_of(location: &UrlOrPath) -> (text: &str)
    ensures
        text@ == location_text(*location),
{
    location.as_str()
}

/// The name of the file at a package's place, where that is no directory.
pub uninterp spec fn location_file(location: UrlOrPath) -> Option<Seq<char>>;

/// `UrlOrPath::file_name` gives the last part of a path or a URL, unless that ends in a
/// separator.
#[verifier::external_body]
fn file_of(location: &UrlOrPath) -> (file: Option<&str>)
    ensures
        match file {
            Some(file) => location_file(*location) == Some(file@),
            None => location_file(*location) is None,
        },
{
    location.file_name()
}

/// The scheme of a URL.
pub uninterp spec fn url_scheme(url: Url) -> Seq<char>;

/// `Url::scheme` gives the scheme of a URL.
#[verifier::external_body]
fn scheme_of(url: &Url) -> (scheme: &str)
    ensures
        scheme@ == url_scheme(*url),
{
    url.scheme()
}

/// The last segment of a URL's path, where the URL has a path with segments.
pub uninterp spec fn url_last_segment(url: Url) -> Option<Seq<char>>;

/// `Url::path_segments` gives the segments of a URL's path; this is the last of them.
#[verifier::external_body]
fn last_segment_of(url: &Url) -> (segment: Option<&str>)
    ensures
        match segment {
            Some(segment) => url_last_segment(*url) == Some(segment@),
            None => url_last_segment(*url) is None,
        },
{
    url.path_segments().and_then(|mut segments| segments.next_back())
}

/// A character that may stand within a package name but not at its ends.
pub open spec fn is_separator(c: char) -> bool {
    c == '-' || c == '_' || c == '.'
}

/// An ASCII letter or digit.
pub open spec fn is_alphanumeric(c: char) -> bool {
    'a' <= c <= 'z' || 'A' <= c <= 'Z' || '0' <= c <= '9'
}

/// A package name is made of letters, digits and separators, and has no separator at its ends.
pub open spec fn is_package_name(text: Seq<char>) -> bool {
    &&& forall|i: int|
        0 <= i < text.len() ==> is_alphanumeric(#[trigger] text[i]) || is_separator(text[i])
    &&& text.len() > 0 ==> !is_separator(text[0]) && !is_separator(text.last())
}

/// A letter in lower case.
pub open spec fn lower(c: char) -> char {
    if 'A' <= c <= 'Z' {
        ((c as u32 + 32) as u32) as char
    } else {
        c
    }
}

/// A package name in lower case, with one hyphen for each run of separators.
pub open spec fn normalized(text: Seq<char>) -> Seq<char>
    decreases text.len(),
{
    if text.len() == 0 {
        Seq::empty()
    } else {
        let front = normalized(text.drop_last());
        if !is_separator(text.last()) {
            front.push(lower(text.last()))
        } else if text.len() > 1 && is_separator(text[text.len() - 2]) {
            front
        } else {
            front.push('-')
        }
    }
}

/// `pep508_rs::PackageName::new` accepts package names and brings them into their normal form:
/// lower case, with one hyphen for each run of separators.
#[verifier::external_body]
fn normalize_name(name: &str) -> (normal: Option<String>)
    ensures
        match normal {
            Some(normal) => is_package_name(name@) && normal@ == normalized(name@),
            None => !is_package_name(name@),
        },
{
    pep508_rs::PackageName::new(name.to_owned()).ok().map(|name| name.to_string())
}

/// Which source packages may not be built.
#[derive(Debug)]
pub enum NoBuild {
    Nothing,
    All,
    Packages(Vec<String>),
}

/// Whether all source packages are refused, or those of certain names.
#[derive(Debug)]
enum Check {
    All,
    Packages(Vec<String>),
}

/// A locked PyPI package.
#[derive(Debug)]
pub struct LockedPypiPackage {
    /// Its name, in normal form.
    pub name: String,
    /// Where it is taken from.
    pub location: UrlOrPath,
    /// A directory is at that place.
    pub is_dir: bool,
    /// It is asked for as an editable path.
    pub editable: bool,
}

/// What may be wrong with a locked PyPI package.
pub enum PackageFault {
    /// Its file is no distribution.
    Extension,
    /// It is a source package that may not be built.
    Build(Seq<char>),
    /// It is a wheel that the platform cannot use.
    Wheel(Seq<char>),
}

/// `error` names this fault.
pub open spec fn reports(error: EnvironmentUnsat, fault: PackageFault) -> bool {
    match fault {
        PackageFault::Extension => error is InvalidDistExtension,
        PackageFault::Build(name) => error matches EnvironmentUnsat::NoBuildWithNonBinaryPackages(
            found,
        ) && found@ == name,
        PackageFault::Wheel(name) => error matches EnvironmentUnsat::PypiWheelTagsMismatch { wheel }
            && wheel@ == name,
    }
}

/// `result` is an error exactly where there is a fault, and names it.
pub open spec fn reports_first(
    result: Result<(), EnvironmentUnsat>,
    fault: Option<PackageFault>,
) -> bool {
    match fault {
        Some(fault) => result matches Err(error) && reports(error, fault),
        None => result is Ok,
    }
}

/// The packages whose sources may not be built.
pub enum BuildScope {
    /// None.
    Nothing,
    /// All.
    Everything,
    /// Those of these names, in normal form.
    Names(Seq<Seq<char>>),
}

/// The packages whose sources may not be built under this choice. What is no package name is
/// passed over.
pub open spec fn build_scope(no_build: Option<NoBuild>) -> BuildScope {
    match no_build {
        Some(NoBuild::All) => BuildScope::Everything,
        Some(NoBuild::Packages(names)) => BuildScope::Names(
            views(names@).filter(|name: Seq<char>| is_package_name(name)).map_values(
                |name: Seq<char>| normalized(name),
            ),
        ),
        _ => BuildScope::Nothing,
    }
}

/// The kind of distribution at a package's place: a checkout or a directory is a source.
pub open spec fn package_kind(package: LockedPypiPackage) -> Option<DistKind> {
    match location_url(package.location) {
        Some(url) => if "git+"@.is_prefix_of(url_scheme(url)) {
            Some(DistKind::Source)
        } else {
            match url_last_segment(url) {
                Some(segment) => dist_kind(segment),
                None => dist_kind(""@),
            }
        },
        None => if package.is_dir {
            Some(DistKind::Source)
        } else {
            dist_kind(location_text(package.location))
        },
    }
}

/// What is wrong with a package of this name and kind where certain sources may not be built. A
/// wheel is never built.
pub open spec fn kind_fault(scope: BuildScope, name: Seq<char>, kind: DistKind) -> Option<
    PackageFault,
> {
    match (kind, scope) {
        (DistKind::Wheel, _) => None,
        (DistKind::Source, BuildScope::Nothing) => None,
        (DistKind::Source, BuildScope::Everything) => Some(PackageFault::Build(name)),
        (DistKind::Source, BuildScope::Names(names)) => if names.contains(name) {
            Some(PackageFault::Build(name))
        } else {
            None
        },
    }
}

/// What is wrong with a locked package where certain sources may not be built. Where all may,
/// or the package is an editable path, nothing is.
pub open spec fn build_fault(scope: BuildScope, package: LockedPypiPackage) -> Option<
    PackageFault,
> {
    if scope is Nothing {
        None
    } else if location_url(package.location) is None && package.editable {
        None
    } else {
        match package_kind(package) {
            None => Some(PackageFault::Extension),
            Some(kind) => kind_fault(scope, package.name@, kind),
        }
    }
}

/// Whether a text starts with a part.
fn has_prefix(text: &str, part: &str) -> (starts: bool)
    ensures
        starts == part@.is_prefix_of(text@),
{
    let bytes = text.as_bytes();
    let front = part.as_bytes();
    proof {
        lemma_prefix_bytes(part@, text@);
    }
    if bytes.len() < front.len() {
        return false;
    }
    same_bytes(vstd::slice::slice_subrange(bytes, 0, front.len()), front)
}

/// Refuses source packages that may not be built.
#[derive(Debug)]
pub struct PypiNoBuildCheck {
    check: Option<Check>,
}

impl PypiNoBuildCheck {
    /// The packages that the check refuses to have built.
    pub closed spec fn scope(self) -> BuildScope {
        match self.check {
            None => BuildScope::Nothing,
            Some(Check::All) => BuildScope::Everything,
            Some(Check::Packages(names)) => BuildScope::Names(views(names@)),
        }
    }

    /// Sets up the check.
    pub fn new(no_build: Option<&NoBuild>) -> (check: PypiNoBuildCheck)
        ensures
            check.scope() == build_scope(
                match no_build {
                    Some(no_build) => Some(*no_build),
                    None => None,
                },
            ),
    {
        let names = match no_build {
            Some(NoBuild::Packages(names)) => names,
            Some(NoBuild::All) => return PypiNoBuildCheck { check: Some(Check::All) },
            _ => return PypiNoBuildCheck { check: None },
        };
        let ghost all = views(names@);
        let ghost valid = |name: Seq<char>| is_package_name(name);
        let ghost normal = |name: Seq<char>| normalized(name);
        let mut packages: Vec<String> = Vec::new();
        let mut i: usize = 0;
        assert(all.take(0).filter(valid).map_values(normal) =~= views(packages@)) by {
            reveal(Seq::filter);
        }
        while i < names.len()
            invariant
                i <= names.len(),
                all == views(names@),
                valid == (|name: Seq<char>| is_package_name(name)),
                normal == (|name: Seq<char>| normalized(name)),
                views(packages@) == all.take(i as int).filter(valid).map_values(normal),
            decreases names.len() - i,
        {
            proof {
                reveal(Seq::filter);
                assert(all.take(i + 1).drop_last() =~= all.take(i as int));
                assert(all.take(i + 1).last() == names@[i as int]@);
            }
            let ghost before = packages@;
            let ghost kept = all.take(i as int).filter(valid);
            match normalize_name(names[i].as_str()) {
                Some(name) => {
                    packages.push(name);
                    assert(views(packages@) =~= views(before).push(normalized(names@[i as int]@)));
                    assert(kept.push(names@[i as int]@).map_values(normal) =~= kept.map_values(
                        normal,
                    ).push(normalized(names@[i as int]@)));
                },
                None => {},
            }
            i += 1;
        }
        assert(all.take(i as int) =~= all);
        PypiNoBuildCheck { check: Some(Check::Packages(packages)) }
    }

    /// Refuses a locked package that is a source which may not be built.
    pub fn check(&self, package: &LockedPypiPackage) -> (result: Result<(), EnvironmentUnsat>)
        ensures
            reports_first(result, build_fault(self.scope(), *package)),
    {
        if self.check.is_none() {
            return Ok(());
        }
        let kind = match url_of(&package.location) {
            Some(url) => if has_prefix(scheme_of(url), "git+") {
                Ok(DistKind::Source)
            } else {
                match last_segment_of(url) {
                    Some(segment) => dist_kind_of(segment),
                    None => dist_kind_of(""),
                }
            },
            None => {
                if package.editable {
                    return Ok(());
                }
                if package.is_dir {
                    Ok(DistKind::Source)
                } else {
                    dist_kind_of(text_of(&package.location))
                }
            },
        };
        match kind {
            Ok(kind) => self.check_kind(package.name.as_str(), kind),
            Err(error) => Err(EnvironmentUnsat::InvalidDistExtension(error)),
        }
    }

    /// Refuses a package of this name, in normal form, that is a source which may not be built.
    pub fn check_kind(&self, name: &str, kind: DistKind) -> (result: Result<(), EnvironmentUnsat>)
        ensures
            reports_first(result, kind_fault(self.scope(), name@, kind)),
    {
        if kind == DistKind::Wheel {
            return Ok(());
        }
        let refused = match &self.check {
            None => false,
            Some(Check::All) => true,
            Some(Check::Packages(names)) => contains_text(names, name),
        };
        if refused {
            Err(EnvironmentUnsat::NoBuildWithNonBinaryPackages(name.to_owned()))
        } else {
            Ok(())
        }
    }
}

/// A locked conda package, as far as it decides which wheels fit.
#[derive(Debug)]
pub struct LockedCondaPackage {
    /// It is a binary package.
    pub binary: bool,
    /// It is the Python interpreter.
    pub python: bool,
    /// The tags of the wheels that its Python can use on the platform, where they can be told.
    pub tags: Option<Tags>,
}

/// The first binary package that is a Python interpreter, from the given package on.
pub open spec fn interpreter(packages: Seq<LockedCondaPackage>, from: int) -> Option<
    LockedCondaPackage,
>
    decreases packages.len() - from,
{
    if 0 <= from < packages.len() {
        if packages[from].binary && packages[from].python {
            Some(packages[from])
        } else {
            interpreter(packages, from + 1)
        }
    } else {
        None
    }
}

/// The tags of the wheels that a platform can use: those of the first interpreter that is
/// locked for it.
pub open spec fn wheel_tags(packages: Seq<LockedCondaPackage>) -> Option<Tags> {
    match interpreter(packages, 0) {
        Some(python) => python.tags,
        None => None,
    }
}

/// What is wrong with a locked package where wheels with these tags can be used. Where no tags
/// are known, or the package is no wheel, nothing is.
pub open spec fn wheel_fault(tags: Option<Tags>, package: LockedPypiPackage) -> Option<
    PackageFault,
> {
    match (location_file(package.location), tags) {
        (Some(file), Some(tags)) => match wheel_of(file) {
            Some(wheel) => if wheel_fits(wheel, tags) {
                None
            } else {
                Some(PackageFault::Wheel(wheel_package(wheel)))
            },
            None => None,
        },
        _ => None,
    }
}

/// Refuses wheels that a platform cannot use.
#[derive(Debug)]
pub struct PypiWheelTagsCheck<'a> {
    wheel_tags: Option<&'a Tags>,
}

impl<'a> PypiWheelTagsCheck<'a> {
    /// The tags that a wheel must fit.
    pub closed spec fn tags(self) -> Option<Tags> {
        match self.wheel_tags {
            Some(tags) => Some(*tags),
            None => None,
        }
    }

    /// Sets up the check for a platform, from the conda packages that are locked for it.
    pub fn new(packages: &'a [LockedCondaPackage]) -> (check: PypiWheelTagsCheck<'a>)
        ensures
            check.tags() == wheel_tags(packages@),
    {
        let mut i: usize = 0;
        while i < packages.len()
            invariant
                i <= packages.len(),
                interpreter(packages@, 0) == interpreter(packages@, i as int),
            decreases packages.len() - i,
        {
            if packages[i].binary && packages[i].python {
                return PypiWheelTagsCheck { wheel_tags: packages[i].tags.as_ref() };
            }
            i += 1;
        }
        PypiWheelTagsCheck { wheel_tags: None }
    }

    /// The package of a wheel that the platform cannot use.
    pub fn incompatible_wheel(&self, package: &LockedPypiPackage) -> (wheel: Option<String>)
        ensures
            match wheel {
                Some(wheel) => wheel_fault(self.tags(), *package) == Some(
                    PackageFault::Wheel(wheel@),
                ),
                None => wheel_fault(self.tags(), *package) is None,
            },
    {
        let file = match file_of(&package.location) {
            Some(file) => file,
            None => return None,
        };
        let tags = match self.wheel_tags {
            Some(tags) => tags,
            None => return None,
        };
        let wheel = match parse_wheel(file) {
            Some(wheel) => wheel,
            None => return None,
        };
        if is_compatible(&wheel, tags) {
            None
        } else {
            Some(package_of(&wheel))
        }
    }

    /// Refuses a locked wheel that the platform cannot use.
    pub fn check(&self, package: &LockedPypiPackage) -> (result: Result<(), EnvironmentUnsat>)
        ensures
            reports_first(result, wheel_fault(self.tags(), *package)),
    {
        match self.incompatible_wheel(package) {
            Some(wheel) => Err(EnvironmentUnsat::PypiWheelTagsMismatch { wheel }),
            None => Ok(()),
        }
    }
}

} // verus!
