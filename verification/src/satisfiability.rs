//! Whether a locked environment still stands for the requested one.
use std::str::FromStr;

use rattler_conda_types::{ChannelConfig, NamedChannelOrUrl, ParseChannelError};
use rattler_lock::PypiIndexes;
use vstd::prelude::*;

use crate::ordered::{contains_text, views};
use crate::pypi::{
    build_fault, build_scope, reports, reports_first, wheel_fault, wheel_tags, BuildScope,
    LockedCondaPackage, LockedPypiPackage, NoBuild, PackageFault, PypiNoBuildCheck,
    PypiWheelTagsCheck,
};
use crate::text::same_text;
use crate::unsat::{
    ChannelPriority, EnvironmentUnsat, IndexesMismatch, PlatformDefinitionChanged, PrereleaseMode,
    SolveStrategy,
};

verus! {

/// Declares the settings by which channels get their base URLs.
#[verifier::external_type_specification]
#[verifier::external_body]
pub struct ExChannelConfig(ChannelConfig);

/// Controls whether a resolved environment must reproduce the current resolution inputs exactly
/// or merely satisfy the current manifest.
#[derive(Debug, Clone, Copy, PartialEq, Eq, Structural)]
pub enum SatisfiabilityMode {
    /// Changes of the resolution policy make the lock file out of date.
    Exact,
    /// An installed solution is used again while it remains compatible with the manifest, even
    /// if a changed policy could produce another.
    Sufficient,
}

impl Default for SatisfiabilityMode {
    fn default() -> (mode: SatisfiabilityMode)
        ensures
            mode == SatisfiabilityMode::Exact,
    {
        SatisfiabilityMode::Exact
    }
}

/// A virtual package of a platform.
#[derive(Debug)]
pub struct VirtualPackage {
    /// How it is written.
    pub text: String,
    /// The subdirs that have it without being asked. None, where it cannot be read.
    pub default_subdirs: Vec<String>,
}

/// A platform that the workspace defines.
#[derive(Debug)]
pub struct WorkspacePlatform {
    pub name: String,
    pub subdir: String,
    pub virtual_packages: Vec<VirtualPackage>,
}

/// A platform of the lock file.
#[derive(Debug)]
pub struct LockedPlatform {
    pub name: String,
    /// The name can be that of a workspace platform.
    pub valid_name: bool,
    pub subdir: String,
    pub virtual_packages: Vec<VirtualPackage>,
}

/// The packages that are locked for a platform of the workspace.
#[derive(Debug)]
pub struct LockedPackages {
    /// The name of the workspace platform.
    pub platform: String,
    pub conda: Vec<LockedCondaPackage>,
    pub pypi: Vec<LockedPypiPackage>,
}

/// How the dates up to which packages count compare.
#[derive(Debug)]
pub enum ExcludeNewer {
    /// They agree.
    Agrees,
    /// The requested one cannot be told, for this reason.
    Unresolved(String),
    /// They differ, in this way.
    Differs(String),
}

/// The environment that is asked for.
#[derive(Debug)]
pub struct RequestedEnvironment {
    pub channels: Vec<String>,
    pub channel_config: ChannelConfig,
    /// The names of the platforms it is asked for on.
    pub platforms: Vec<String>,
    /// The platforms that the workspace defines.
    pub workspace_platforms: Vec<WorkspacePlatform>,
    pub has_pypi_dependencies: bool,
    pub pypi_indexes: PypiIndexes,
    pub no_build: Option<NoBuild>,
    pub solve_strategy: SolveStrategy,
    pub channel_priority: ChannelPriority,
    pub prerelease_mode: PrereleaseMode,
}

/// The environment in the lock file.
#[derive(Debug)]
pub struct LockedEnvironment {
    pub channels: Vec<String>,
    pub platforms: Vec<LockedPlatform>,
    pub packages: Vec<LockedPackages>,
    pub pypi_indexes: Option<PypiIndexes>,
    /// A lock file of this version says which PyPI indexes were used.
    pub states_pypi_indexes: bool,
    /// A PyPI package is locked for some platform.
    pub has_pypi_packages: bool,
    pub solve_strategy: SolveStrategy,
    pub channel_priority: ChannelPriority,
    pub prerelease_mode: PrereleaseMode,
    pub exclude_newer: ExcludeNewer,
}

/// The channel stands for a place in the home directory.
pub open spec fn is_home_relative(channel: Seq<char>) -> bool {
    "~/"@.is_prefix_of(channel)
}

/// Declares a channel as it is written.
#[verifier::external_type_specification]
#[verifier::external_body]
pub struct ExNamedChannelOrUrl(NamedChannelOrUrl);

/// The channel that a text is, or nothing where it is none.
pub uninterp spec fn channel_of(text: Seq<char>) -> Option<NamedChannelOrUrl>;

/// `<NamedChannelOrUrl as FromStr>::from_str` reads a channel.
#[verifier::external_body]
fn parse_channel(text: &str) -> (channel: Option<NamedChannelOrUrl>)
    ensures
        channel == channel_of(text@),
{
    NamedChannelOrUrl::from_str(text).ok()
}

/// The channel of a name.
pub uninterp spec fn channel_named(name: Seq<char>) -> NamedChannelOrUrl;

/// `NamedChannelOrUrl::Name` is the channel of a name.
#[verifier::external_body]
fn named_channel(name: &str) -> (channel: NamedChannelOrUrl)
    ensures
        channel == channel_named(name@),
{
    NamedChannelOrUrl::Name(name.to_owned())
}

/// The base URL of a channel, or nothing where it has none.
pub uninterp spec fn channel_url(channel: NamedChannelOrUrl, config: ChannelConfig) -> Option<
    Seq<char>,
>;

/// The channel does not depend on where the home directory is: it is that of a name, or was read
/// from a text that is no place in the home directory.
pub open spec fn is_settled(channel: NamedChannelOrUrl) -> bool {
    ||| exists|name: Seq<char>| channel == #[trigger] channel_named(name)
    ||| exists|text: Seq<char>|
        !is_home_relative(text) && #[trigger] channel_of(text) == Some(channel)
}

/// `NamedChannelOrUrl::into_base_url` gives the base URL of a channel. A place in the home
/// directory depends on the environment, so nothing is said of it.
#[verifier::external_body]
fn url_of_channel(channel: NamedChannelOrUrl, config: &ChannelConfig) -> (result: Result<
    String,
    ParseChannelError,
>)
    ensures
        match result {
            Ok(url) => is_settled(channel) ==> channel_url(channel, *config) == Some(url@),
            Err(_) => is_settled(channel) ==> channel_url(channel, *config) is None,
        },
{
    channel.into_base_url(config).map(|url| url.to_string())
}

/// The base URL of the channel that a text is, or of the channel of that name where it is none.
pub open spec fn base_url(channel: Seq<char>, config: ChannelConfig) -> Option<Seq<char>> {
    channel_url(
        match channel_of(channel) {
            Some(channel) => channel,
            None => channel_named(channel),
        },
        config,
    )
}

/// Finds the base URL of a channel. Nothing is said of a place in the home directory.
fn base_url_of(channel: &str, config: &ChannelConfig) -> (result: Result<
    String,
    ParseChannelError,
>)
    ensures
        match result {
            Ok(url) => is_home_relative(channel@) || base_url(channel@, *config) == Some(url@),
            Err(_) => is_home_relative(channel@) || base_url(channel@, *config) is None,
        },
{
    let parsed = match parse_channel(channel) {
        Some(parsed) => parsed,
        None => named_channel(channel),
    };
    url_of_channel(parsed, config)
}

/// Two sets of indexes are the same.
pub uninterp spec fn indexes_agree(one: PypiIndexes, other: PypiIndexes) -> bool;

/// `<PypiIndexes as PartialEq>::eq` compares two sets of indexes.
#[verifier::external_body]
fn same_indexes(one: &PypiIndexes, other: &PypiIndexes) -> (same: bool)
    ensures
        same == indexes_agree(*one, *other),
{
    one == other
}

/// `<PypiIndexes as Clone>::clone` gives the same indexes.
#[verifier::external_body]
fn clone_indexes(indexes: &PypiIndexes) -> (copy: PypiIndexes)
    ensures
        copy == *indexes,
{
    indexes.clone()
}

/// These are what the channels come to: a base URL each, or nothing where a channel has none.
pub open spec fn resolve_to(
    channels: Seq<Seq<char>>,
    config: ChannelConfig,
    urls: Seq<Option<Seq<char>>>,
) -> bool {
    &&& urls.len() == channels.len()
    &&& forall|i: int|
        0 <= i < channels.len() && !is_home_relative(channels[i]) ==> #[trigger] urls[i]
            == base_url(channels[i], config)
}

/// Every channel has a base URL.
pub open spec fn all_resolved(urls: Seq<Option<Seq<char>>>) -> bool {
    forall|i: int| 0 <= i < urls.len() ==> (#[trigger] urls[i]) is Some
}

/// How the requested channels differ from the locked ones. Their order counts.
pub open spec fn channels_verdict(
    channels: Seq<Option<Seq<char>>>,
    locked: Seq<Option<Seq<char>>>,
    result: Result<(), EnvironmentUnsat>,
) -> bool {
    if !all_resolved(channels) || !all_resolved(locked) {
        result matches Err(EnvironmentUnsat::InvalidChannel(_))
    } else if channels == locked {
        result is Ok
    } else if locked.is_prefix_of(channels) {
        result matches Err(EnvironmentUnsat::ChannelsExtended)
    } else {
        result matches Err(EnvironmentUnsat::ChannelsMismatch)
    }
}

/// URLs that were all found.
pub open spec fn found(urls: Seq<String>) -> Seq<Option<Seq<char>>> {
    urls.map_values(|url: String| Some(url@))
}

/// Finds the base URLs of channels.
fn resolve_channels(channels: &Vec<String>, config: &ChannelConfig) -> (result: Result<
    Vec<String>,
    ParseChannelError,
>)
    ensures
        match result {
            Ok(urls) => resolve_to(views(channels@), *config, found(urls@)),
            Err(_) => exists|urls: Seq<Option<Seq<char>>>| #[trigger]
                resolve_to(views(channels@), *config, urls) && !all_resolved(urls),
        },
{
    let ghost all = views(channels@);
    let mut urls: Vec<String> = Vec::new();
    let mut i: usize = 0;
    while i < channels.len()
        invariant
            i <= channels.len(),
            all == views(channels@),
            urls@.len() == i,
            forall|k: int|
                0 <= k < i && !is_home_relative(all[k]) ==> base_url(all[k], *config) == Some(
                    (#[trigger] urls@[k])@,
                ),
        decreases channels.len() - i,
    {
        match base_url_of(channels[i].as_str(), config) {
            Ok(url) => {
                urls.push(url);
            },
            Err(error) => {
                proof {
                    let outcome = Seq::new(
                        all.len(),
                        |k: int|
                            if k == i {
                                None
                            } else {
                                base_url(all[k], *config)
                            },
                    );
                    assert(all[i as int] == channels@[i as int]@);
                    assert(resolve_to(all, *config, outcome));
                    assert(outcome[i as int] is None);
                }
                return Err(error);
            },
        }
        i += 1;
    }
    assert(resolve_to(all, *config, found(urls@))) by {
        assert forall|k: int| 0 <= k < all.len() && !is_home_relative(all[k]) implies
            #[trigger] found(urls@)[k] == base_url(all[k], *config) by {
            assert(found(urls@)[k] == Some(urls@[k]@));
        }
    }
    Ok(urls)
}

/// Compares the base URLs of the requested channels with those of the locked ones.
pub fn compare_channels(channels: &Vec<String>, locked: &Vec<String>) -> (result: Result<
    (),
    EnvironmentUnsat,
>)
    ensures
        channels_verdict(found(channels@), found(locked@), result),
{
    let ghost ours = found(channels@);
    let ghost theirs = found(locked@);
    assert(all_resolved(ours));
    assert(all_resolved(theirs));
    if channels.len() < locked.len() {
        return Err(EnvironmentUnsat::ChannelsMismatch);
    }
    let mut i: usize = 0;
    while i < locked.len()
        invariant
            i <= locked.len() <= channels.len(),
            ours == found(channels@),
            theirs == found(locked@),
            all_resolved(ours),
            all_resolved(theirs),
            forall|k: int| 0 <= k < i ==> ours[k] == theirs[k],
        decreases locked.len() - i,
    {
        if !same_text(channels[i].as_str(), locked[i].as_str()) {
            assert(ours[i as int] != theirs[i as int]);
            assert(!theirs.is_prefix_of(ours)) by {
                if theirs.is_prefix_of(ours) {
                    assert(ours.take(theirs.len() as int)[i as int] == ours[i as int]);
                }
            }
            return Err(EnvironmentUnsat::ChannelsMismatch);
        }
        assert(ours[i as int] == theirs[i as int]);
        i += 1;
    }
    assert(theirs =~= ours.take(theirs.len() as int));
    if channels.len() > locked.len() {
        Err(EnvironmentUnsat::ChannelsExtended)
    } else {
        assert(ours =~= theirs);
        Ok(())
    }
}

/// The subdir has this virtual package without being asked.
pub open spec fn is_subdir_default(package: VirtualPackage, subdir: Seq<char>) -> bool {
    views(package.default_subdirs@).contains(subdir)
}

/// The virtual packages that a subdir does not have without being asked.
pub open spec fn custom_packages(packages: Seq<VirtualPackage>, subdir: Seq<char>) -> Seq<
    Seq<char>,
> {
    packages.filter(|package: VirtualPackage| !is_subdir_default(package, subdir)).map_values(
        |package: VirtualPackage| package.text@,
    )
}

/// The first of the platforms with this name, from the given one on.
pub open spec fn platform_by_name(
    platforms: Seq<WorkspacePlatform>,
    name: Seq<char>,
    from: int,
) -> Option<WorkspacePlatform>
    decreases platforms.len() - from,
{
    if 0 <= from < platforms.len() {
        if platforms[from].name@ == name {
            Some(platforms[from])
        } else {
            platform_by_name(platforms, name, from + 1)
        }
    } else {
        None
    }
}

impl RequestedEnvironment {
    /// The environment is asked for on a platform of this name.
    pub open spec fn targets(self, name: Seq<char>) -> bool {
        views(self.platforms@).contains(name)
    }

    /// The workspace platform of this name.
    pub open spec fn platform(self, name: Seq<char>) -> Option<WorkspacePlatform> {
        platform_by_name(self.workspace_platforms@, name, 0)
    }

    /// The environment is asked for on a platform with this subdir.
    pub open spec fn targets_subdir(self, subdir: Seq<char>) -> bool {
        exists|i: int|
            0 <= i < self.platforms@.len() && (self.platform(
                (#[trigger] self.platforms@[i])@,
            ) matches Some(platform) && platform.subdir@ == subdir)
    }

    /// A locked platform is not asked for. One with a name that no platform can have does not
    /// count, nor does one whose subdir is asked for under another name.
    pub open spec fn is_additional(self, locked: LockedPlatform) -> bool {
        locked.valid_name && !self.targets(locked.name@) && !self.targets_subdir(locked.subdir@)
    }

    /// A locked platform is asked for, and the workspace defines it in another way: with another
    /// subdir, or with other virtual packages than its subdir has without being asked. The order
    /// of those does not count.
    pub open spec fn is_changed(self, locked: LockedPlatform) -> bool {
        locked.valid_name && self.targets(locked.name@) && (self.platform(
            locked.name@,
        ) matches Some(platform) && (platform.subdir@ != locked.subdir@ || custom_packages(
            platform.virtual_packages@,
            platform.subdir@,
        ).to_multiset() != custom_packages(
            locked.virtual_packages@,
            platform.subdir@,
        ).to_multiset()))
    }

    /// How the definition of a locked platform has changed.
    pub open spec fn describes_change(
        self,
        locked: LockedPlatform,
        change: PlatformDefinitionChanged,
    ) -> bool {
        let platform = self.platform(locked.name@)->Some_0;
        &&& change.name@ == locked.name@
        &&& change.expected_subdir@ == platform.subdir@
        &&& change.found_subdir@ == locked.subdir@
        &&& views(change.expected_virtual_packages@) == custom_packages(
            platform.virtual_packages@,
            platform.subdir@,
        )
        &&& views(change.found_virtual_packages@) == custom_packages(
            locked.virtual_packages@,
            platform.subdir@,
        )
    }

    /// The first locked platform whose definition has changed.
    pub open spec fn first_changed(self, locked: Seq<LockedPlatform>, at: int) -> bool {
        &&& 0 <= at < locked.len()
        &&& self.is_changed(locked[at])
        &&& forall|i: int| 0 <= i < at ==> !self.is_changed(#[trigger] locked[i])
    }
}

/// Finds the workspace platform of a name.
fn find_platform<'a>(platforms: &'a Vec<WorkspacePlatform>, name: &str) -> (found: Option<
    &'a WorkspacePlatform,
>)
    ensures
        match found {
            Some(platform) => platform_by_name(platforms@, name@, 0) == Some(*platform),
            None => platform_by_name(platforms@, name@, 0) is None,
        },
{
    let mut i: usize = 0;
    while i < platforms.len()
        invariant
            i <= platforms.len(),
            platform_by_name(platforms@, name@, 0) == platform_by_name(platforms@, name@, i as int),
        decreases platforms.len() - i,
    {
        if same_text(platforms[i].name.as_str(), name) {
            return Some(&platforms[i]);
        }
        i += 1;
    }
    None
}

/// Collects the virtual packages that a subdir does not have without being asked.
fn collect_custom(packages: &Vec<VirtualPackage>, subdir: &str) -> (custom: Vec<String>)
    ensures
        views(custom@) == custom_packages(packages@, subdir@),
{
    let ghost all = packages@;
    let ghost keep = |package: VirtualPackage| !is_subdir_default(package, subdir@);
    let ghost text = |package: VirtualPackage| package.text@;
    let mut custom: Vec<String> = Vec::new();
    let mut i: usize = 0;
    assert(all.take(0).filter(keep).map_values(text) =~= views(custom@)) by {
        reveal(Seq::filter);
    }
    while i < packages.len()
        invariant
            i <= packages.len(),
            all == packages@,
            keep == (|package: VirtualPackage| !is_subdir_default(package, subdir@)),
            text == (|package: VirtualPackage| package.text@),
            views(custom@) == all.take(i as int).filter(keep).map_values(text),
        decreases packages.len() - i,
    {
        proof {
            reveal(Seq::filter);
            assert(all.take(i + 1).drop_last() =~= all.take(i as int));
            assert(all.take(i + 1).last() == all[i as int]);
        }
        let ghost before = custom@;
        let ghost kept = all.take(i as int).filter(keep);
        if !contains_text(&packages[i].default_subdirs, subdir) {
            custom.push(packages[i].text.clone());
            assert(views(custom@) =~= views(before).push(all[i as int].text@));
            assert(kept.push(all[i as int]).map_values(text) =~= kept.map_values(text).push(
                all[i as int].text@,
            ));
        }
        i += 1;
    }
    assert(all.take(i as int) =~= all);
    custom
}

/// Whether two lists hold the same texts, each as often, in whatever order.
fn same_multiset(one: &Vec<String>, other: &Vec<String>) -> (same: bool)
    ensures
        same == (views(one@).to_multiset() == views(other@).to_multiset()),
{
    broadcast use vstd::seq_lib::group_to_multiset_ensures;

    let ghost ours = views(one@);
    let ghost theirs = views(other@);
    let mut rest: Vec<String> = Vec::new();
    let mut copied: usize = 0;
    while copied < other.len()
        invariant
            copied <= other.len(),
            rest@.len() == copied,
            forall|k: int| 0 <= k < copied ==> (#[trigger] rest@[k])@ == other@[k]@,
        decreases other.len() - copied,
    {
        rest.push(other[copied].clone());
        copied += 1;
    }
    assert(views(rest@) =~= theirs);
    let mut i: usize = 0;
    assert(ours.take(0).to_multiset().add(theirs.to_multiset()) =~= theirs.to_multiset());
    while i < one.len()
        invariant
            i <= one.len(),
            ours == views(one@),
            theirs == views(other@),
            ours.take(i as int).to_multiset().add(views(rest@).to_multiset())
                == theirs.to_multiset(),
        decreases one.len() - i,
    {
        broadcast use vstd::seq_lib::group_to_multiset_ensures;

        let ghost left = views(rest@);
        let ghost text = ours[i as int];
        assert(ours.take(i + 1) =~= ours.take(i as int).push(text));
        match find_text(&rest, one[i].as_str()) {
            Some(at) => {
                let _ = rest.remove(at);
                proof {
                    assert(views(rest@) =~= left.remove(at as int));
                    assert(left.remove(at as int).to_multiset() =~= left.to_multiset().remove(
                        text,
                    ));
                    assert(ours.take(i + 1).to_multiset().add(views(rest@).to_multiset())
                        =~= ours.take(i as int).to_multiset().add(left.to_multiset()));
                }
            },
            None => {
                proof {
                    lemma_multiset_prefix(ours, i + 1);
                    assert(left.to_multiset().count(text) == 0);
                    assert(ours.take(i + 1).to_multiset().count(text) == ours.take(
                        i as int,
                    ).to_multiset().count(text) + 1);
                    assert(ours.to_multiset().count(text) > theirs.to_multiset().count(text));
                }
                return false;
            },
        }
        i += 1;
    }
    assert(ours.take(i as int) =~= ours);
    if rest.len() == 0 {
        assert(views(rest@) =~= Seq::empty());
        assert(ours.to_multiset() =~= theirs.to_multiset());
        true
    } else {
        proof {
            let text = views(rest@)[0];
            assert(views(rest@).contains(text));
            assert(views(rest@).to_multiset().count(text) > 0);
            assert(theirs.to_multiset().count(text) > ours.to_multiset().count(text));
        }
        false
    }
}

/// A list holds each text at least as often as its front does.
proof fn lemma_multiset_prefix(texts: Seq<Seq<char>>, len: int)
    requires
        0 <= len <= texts.len(),
    ensures
        texts.take(len).to_multiset().subset_of(texts.to_multiset()),
{
    assert(texts =~= texts.take(len) + texts.skip(len));
    vstd::seq_lib::lemma_multiset_commutative(texts.take(len), texts.skip(len));
}

/// Where a text stands in a list.
fn find_text(texts: &Vec<String>, text: &str) -> (found: Option<usize>)
    ensures
        match found {
            Some(at) => at < texts@.len() && views(texts@)[at as int] == text@,
            None => !views(texts@).contains(text@),
        },
{
    let mut i: usize = 0;
    while i < texts.len()
        invariant
            i <= texts.len(),
            forall|k: int| 0 <= k < i ==> views(texts@)[k] != text@,
        decreases texts.len() - i,
    {
        if same_text(texts[i].as_str(), text) {
            return Some(i);
        }
        i += 1;
    }
    None
}

/// The names of the locked platforms that are not asked for, each once.
pub open spec fn names_additional(
    environment: RequestedEnvironment,
    locked: Seq<LockedPlatform>,
    names: Seq<Seq<char>>,
) -> bool {
    &&& names.no_duplicates()
    &&& forall|name: Seq<char>| #[trigger]
        names.contains(name) <==> exists|i: int|
            0 <= i < locked.len() && environment.is_additional(#[trigger] locked[i])
                && locked[i].name@ == name
}

/// Some locked platform is not asked for.
pub open spec fn has_additional(
    environment: RequestedEnvironment,
    locked: Seq<LockedPlatform>,
) -> bool {
    exists|i: int| 0 <= i < locked.len() && environment.is_additional(#[trigger] locked[i])
}

/// Some locked platform has changed.
pub open spec fn has_changed(
    environment: RequestedEnvironment,
    locked: Seq<LockedPlatform>,
) -> bool {
    exists|i: int| 0 <= i < locked.len() && environment.is_changed(#[trigger] locked[i])
}

/// What is wrong with the PyPI packages of a platform, from the given one on.
pub open spec fn fault_in(
    packages: Seq<LockedPypiPackage>,
    scope: BuildScope,
    tags: Option<uv_platform_tags::Tags>,
    from: int,
) -> Option<PackageFault>
    decreases packages.len() - from,
{
    if 0 <= from < packages.len() {
        match build_fault(scope, packages[from]) {
            Some(fault) => Some(fault),
            None => match wheel_fault(tags, packages[from]) {
                Some(fault) => Some(fault),
                None => fault_in(packages, scope, tags, from + 1),
            },
        }
    } else {
        None
    }
}

/// The packages that are locked for a platform, from the given entry on.
pub open spec fn packages_for(
    packages: Seq<LockedPackages>,
    platform: Seq<char>,
    from: int,
) -> Option<LockedPackages>
    decreases packages.len() - from,
{
    if 0 <= from < packages.len() {
        if packages[from].platform@ == platform {
            Some(packages[from])
        } else {
            packages_for(packages, platform, from + 1)
        }
    } else {
        None
    }
}

/// What is wrong with the PyPI packages of one of the platforms that are asked for. A platform
/// that the workspace does not define, or for which nothing is locked, is passed over.
pub open spec fn fault_on(
    environment: RequestedEnvironment,
    packages: Seq<LockedPackages>,
    platform: Seq<char>,
) -> Option<PackageFault> {
    match (environment.platform(platform), packages_for(packages, platform, 0)) {
        (Some(_), Some(locked)) => fault_in(
            locked.pypi@,
            build_scope(environment.no_build),
            wheel_tags(locked.conda@),
            0,
        ),
        _ => None,
    }
}

/// What is wrong with the PyPI packages of the platforms that are asked for, from the given
/// platform on.
pub open spec fn pypi_fault(
    environment: RequestedEnvironment,
    packages: Seq<LockedPackages>,
    from: int,
) -> Option<PackageFault>
    decreases environment.platforms@.len() - from,
{
    if 0 <= from < environment.platforms@.len() {
        match fault_on(environment, packages, environment.platforms@[from]@) {
            Some(fault) => Some(fault),
            None => pypi_fault(environment, packages, from + 1),
        }
    } else {
        None
    }
}

/// The locked PyPI indexes are not the requested ones. Where none are locked, that is so only
/// if they should be: the lock file would state them, and PyPI packages are locked.
pub open spec fn indexes_differ(environment: RequestedEnvironment, locked: LockedEnvironment) -> bool {
    match locked.pypi_indexes {
        Some(indexes) => !indexes_agree(indexes, environment.pypi_indexes),
        None => locked.states_pypi_indexes && locked.has_pypi_packages,
    }
}

/// `result` says how the options of the solver compare.
pub open spec fn options_verdict(
    environment: RequestedEnvironment,
    locked: LockedEnvironment,
    result: Result<(), EnvironmentUnsat>,
) -> bool {
    if locked.solve_strategy != environment.solve_strategy {
        result == Err::<(), _>(
            EnvironmentUnsat::SolveStrategyMismatch {
                locked_strategy: locked.solve_strategy,
                expected_strategy: environment.solve_strategy,
            },
        )
    } else if locked.channel_priority != environment.channel_priority {
        result == Err::<(), _>(
            EnvironmentUnsat::ChannelPriorityMismatch {
                locked_priority: locked.channel_priority,
                expected_priority: environment.channel_priority,
            },
        )
    } else if locked.prerelease_mode != environment.prerelease_mode {
        result == Err::<(), _>(
            EnvironmentUnsat::PypiPrereleaseModeMismatch {
                locked_mode: locked.prerelease_mode,
                expected_mode: environment.prerelease_mode,
            },
        )
    } else {
        match locked.exclude_newer {
            ExcludeNewer::Agrees => result is Ok,
            ExcludeNewer::Unresolved(reason) => result matches Err(
                EnvironmentUnsat::InvalidExcludeNewer(found),
            ) && found@ == reason@,
            ExcludeNewer::Differs(reason) => result matches Err(
                EnvironmentUnsat::ExcludeNewerMismatch(found),
            ) && found@ == reason@,
        }
    }
}

/// `result` says whether the locked environment stands for the requested one, where the channels
/// of the two come to these base URLs.
///
/// In either mode the platforms must be defined as they were locked. All else counts in exact
/// mode only, and is looked at in this order: channels, additional platforms, then the platforms'
/// definitions, PyPI indexes, PyPI packages, and the options of the solver.
pub open spec fn verdict(
    environment: RequestedEnvironment,
    locked: LockedEnvironment,
    mode: SatisfiabilityMode,
    channels: Seq<Option<Seq<char>>>,
    locked_channels: Seq<Option<Seq<char>>>,
    result: Result<(), EnvironmentUnsat>,
) -> bool {
    let exact = mode == SatisfiabilityMode::Exact;
    if exact && !channels_verdict(channels, locked_channels, Ok(())) {
        result is Err && channels_verdict(channels, locked_channels, result)
    } else if exact && has_additional(environment, locked.platforms@) {
        result matches Err(EnvironmentUnsat::AdditionalPlatformsInLockFile(names))
            && names_additional(environment, locked.platforms@, views(names@))
    } else if has_changed(environment, locked.platforms@) {
        result matches Err(EnvironmentUnsat::PlatformDefinitionChanged(change)) && exists|at: int|
            #[trigger] environment.first_changed(locked.platforms@, at)
                && environment.describes_change(locked.platforms@[at], change)
    } else if !exact {
        result is Ok
    } else if environment.has_pypi_dependencies && indexes_differ(environment, locked) {
        result == Err::<(), _>(
            EnvironmentUnsat::IndexesMismatch(
                IndexesMismatch {
                    current: environment.pypi_indexes,
                    previous: locked.pypi_indexes,
                },
            ),
        )
    } else {
        match pypi_fault(environment, locked.packages@, 0) {
            Some(fault) if environment.has_pypi_dependencies => result matches Err(error)
                && reports(error, fault),
            _ => options_verdict(environment, locked, result),
        }
    }
}

/// Whether the environment is asked for on a platform with a subdir.
fn targets_subdir(environment: &RequestedEnvironment, subdir: &str) -> (targets: bool)
    ensures
        targets == environment.targets_subdir(subdir@),
{
    let mut i: usize = 0;
    while i < environment.platforms.len()
        invariant
            i <= environment.platforms.len(),
            forall|k: int|
                0 <= k < i ==> !(environment.platform(
                    (#[trigger] environment.platforms@[k])@,
                ) matches Some(platform) && platform.subdir@ == subdir@),
        decreases environment.platforms.len() - i,
    {
        match find_platform(
            &environment.workspace_platforms,
            environment.platforms[i].as_str(),
        ) {
            Some(platform) => {
                if same_text(platform.subdir.as_str(), subdir) {
                    return true;
                }
            },
            None => {},
        }
        i += 1;
    }
    false
}

/// Collects the names of the locked platforms that are not asked for.
pub fn additional_platforms(
    environment: &RequestedEnvironment,
    locked: &Vec<LockedPlatform>,
) -> (names: Vec<String>)
    ensures
        names_additional(*environment, locked@, views(names@)),
{
    let mut names: Vec<String> = Vec::new();
    let mut i: usize = 0;
    while i < locked.len()
        invariant
            i <= locked.len(),
            views(names@).no_duplicates(),
            forall|name: Seq<char>| #[trigger]
                views(names@).contains(name) <==> exists|k: int|
                    0 <= k < i && environment.is_additional(#[trigger] locked@[k])
                        && locked@[k].name@ == name,
        decreases locked.len() - i,
    {
        let platform = &locked[i];
        let ghost before = views(names@);
        if platform.valid_name && !contains_text(
            &environment.platforms,
            platform.name.as_str(),
        ) && !targets_subdir(environment, platform.subdir.as_str()) {
            if !contains_text(&names, platform.name.as_str()) {
                names.push(platform.name.clone());
                proof {
                    assert(views(names@) =~= before.push(platform.name@));
                    assert forall|name: Seq<char>| #[trigger]
                        views(names@).contains(name) <==> before.contains(name) || name
                            == platform.name@ by {
                        if before.contains(name) {
                            let k = choose|k: int| 0 <= k < before.len() && before[k] == name;
                            assert(views(names@)[k] == name);
                        }
                        if name == platform.name@ {
                            assert(views(names@)[before.len() as int] == name);
                        }
                    }
                }
            }
            assert(environment.is_additional(locked@[i as int]));
            assert forall|name: Seq<char>| #[trigger]
                views(names@).contains(name) <==> exists|k: int|
                    0 <= k < i + 1 && environment.is_additional(#[trigger] locked@[k])
                        && locked@[k].name@ == name by {
                if views(names@).contains(name) && !before.contains(name) {
                    assert(locked@[i as int].name@ == name);
                }
            }
        } else {
            assert(!environment.is_additional(locked@[i as int]));
        }
        i += 1;
    }
    names
}

/// Makes sure that the locked platforms are defined as they were.
pub fn verify_platforms(
    environment: &RequestedEnvironment,
    locked: &Vec<LockedPlatform>,
) -> (result: Result<(), EnvironmentUnsat>)
    ensures
        match result {
            Ok(()) => !has_changed(*environment, locked@),
            Err(error) => error matches EnvironmentUnsat::PlatformDefinitionChanged(change)
                && exists|at: int| #[trigger]
                environment.first_changed(locked@, at) && environment.describes_change(
                    locked@[at],
                    change,
                ),
        },
{
    let mut i: usize = 0;
    while i < locked.len()
        invariant
            i <= locked.len(),
            forall|k: int| 0 <= k < i ==> !environment.is_changed(#[trigger] locked@[k]),
        decreases locked.len() - i,
    {
        let platform = &locked[i];
        if platform.valid_name && contains_text(&environment.platforms, platform.name.as_str()) {
            match find_platform(&environment.workspace_platforms, platform.name.as_str()) {
                Some(defined) => {
                    let expected = collect_custom(
                        &defined.virtual_packages,
                        defined.subdir.as_str(),
                    );
                    let found = collect_custom(
                        &platform.virtual_packages,
                        defined.subdir.as_str(),
                    );
                    if !same_text(defined.subdir.as_str(), platform.subdir.as_str())
                        || !same_multiset(&expected, &found) {
                        assert(environment.first_changed(locked@, i as int));
                        return Err(
                            EnvironmentUnsat::PlatformDefinitionChanged(
                                PlatformDefinitionChanged {
                                    name: platform.name.clone(),
                                    expected_subdir: defined.subdir.clone(),
                                    found_subdir: platform.subdir.clone(),
                                    expected_virtual_packages: expected,
                                    found_virtual_packages: found,
                                },
                            ),
                        );
                    }
                },
                None => {},
            }
        }
        i += 1;
    }
    Ok(())
}

/// Makes sure that the PyPI indexes are the locked ones.
pub fn verify_pypi_indexes(
    environment: &RequestedEnvironment,
    locked: &LockedEnvironment,
) -> (result: Result<(), EnvironmentUnsat>)
    ensures
        match result {
            Ok(()) => !indexes_differ(*environment, *locked),
            Err(error) => indexes_differ(*environment, *locked) && error
                == EnvironmentUnsat::IndexesMismatch(
                IndexesMismatch {
                    current: environment.pypi_indexes,
                    previous: locked.pypi_indexes,
                },
            ),
        },
{
    match &locked.pypi_indexes {
        None => if locked.states_pypi_indexes && locked.has_pypi_packages {
            Err(
                EnvironmentUnsat::IndexesMismatch(
                    IndexesMismatch {
                        current: clone_indexes(&environment.pypi_indexes),
                        previous: None,
                    },
                ),
            )
        } else {
            Ok(())
        },
        Some(indexes) => if same_indexes(indexes, &environment.pypi_indexes) {
            Ok(())
        } else {
            Err(
                EnvironmentUnsat::IndexesMismatch(
                    IndexesMismatch {
                        current: clone_indexes(&environment.pypi_indexes),
                        previous: Some(clone_indexes(indexes)),
                    },
                ),
            )
        },
    }
}

/// Finds the packages that are locked for a platform.
fn find_packages<'a>(packages: &'a Vec<LockedPackages>, platform: &str) -> (found: Option<
    &'a LockedPackages,
>)
    ensures
        match found {
            Some(found) => packages_for(packages@, platform@, 0) == Some(*found),
            None => packages_for(packages@, platform@, 0) is None,
        },
{
    let mut i: usize = 0;
    while i < packages.len()
        invariant
            i <= packages.len(),
            packages_for(packages@, platform@, 0) == packages_for(
                packages@,
                platform@,
                i as int,
            ),
        decreases packages.len() - i,
    {
        if same_text(packages[i].platform.as_str(), platform) {
            return Some(&packages[i]);
        }
        i += 1;
    }
    None
}

/// Makes sure that the PyPI packages of a platform may be used.
fn verify_packages(locked: &LockedPackages, no_build: &PypiNoBuildCheck) -> (result: Result<
    (),
    EnvironmentUnsat,
>)
    ensures
        reports_first(
            result,
            fault_in(locked.pypi@, no_build.scope(), wheel_tags(locked.conda@), 0),
        ),
{
    let wheels = PypiWheelTagsCheck::new(locked.conda.as_slice());
    let ghost tags = wheel_tags(locked.conda@);
    let mut i: usize = 0;
    while i < locked.pypi.len()
        invariant
            i <= locked.pypi.len(),
            tags == wheel_tags(locked.conda@),
            wheels.tags() == tags,
            fault_in(locked.pypi@, no_build.scope(), tags, 0) == fault_in(
                locked.pypi@,
                no_build.scope(),
                tags,
                i as int,
            ),
        decreases locked.pypi.len() - i,
    {
        let package = &locked.pypi[i];
        match no_build.check(package) {
            Ok(()) => {},
            Err(error) => return Err(error),
        }
        match wheels.check(package) {
            Ok(()) => {},
            Err(error) => return Err(error),
        }
        i += 1;
    }
    Ok(())
}

/// Makes sure that the PyPI packages of all platforms that are asked for may be used.
fn verify_pypi_packages(
    environment: &RequestedEnvironment,
    packages: &Vec<LockedPackages>,
) -> (result: Result<(), EnvironmentUnsat>)
    ensures
        reports_first(result, pypi_fault(*environment, packages@, 0)),
{
    let no_build = PypiNoBuildCheck::new(environment.no_build.as_ref());
    let mut i: usize = 0;
    while i < environment.platforms.len()
        invariant
            i <= environment.platforms.len(),
            no_build.scope() == build_scope(environment.no_build),
            pypi_fault(*environment, packages@, 0) == pypi_fault(
                *environment,
                packages@,
                i as int,
            ),
        decreases environment.platforms.len() - i,
    {
        let name = environment.platforms[i].as_str();
        if find_platform(&environment.workspace_platforms, name).is_some() {
            match find_packages(packages, name) {
                Some(locked) => match verify_packages(locked, &no_build) {
                    Ok(()) => {},
                    Err(error) => return Err(error),
                },
                None => {},
            }
        }
        i += 1;
    }
    Ok(())
}

/// Makes sure that the options of the solver are the locked ones.
pub fn verify_options(
    environment: &RequestedEnvironment,
    locked: &LockedEnvironment,
) -> (result: Result<(), EnvironmentUnsat>)
    ensures
        options_verdict(*environment, *locked, result),
{
    if locked.solve_strategy != environment.solve_strategy {
        return Err(
            EnvironmentUnsat::SolveStrategyMismatch {
                locked_strategy: locked.solve_strategy,
                expected_strategy: environment.solve_strategy,
            },
        );
    }
    if locked.channel_priority != environment.channel_priority {
        return Err(
            EnvironmentUnsat::ChannelPriorityMismatch {
                locked_priority: locked.channel_priority,
                expected_priority: environment.channel_priority,
            },
        );
    }
    if locked.prerelease_mode != environment.prerelease_mode {
        return Err(
            EnvironmentUnsat::PypiPrereleaseModeMismatch {
                locked_mode: locked.prerelease_mode,
                expected_mode: environment.prerelease_mode,
            },
        );
    }
    match &locked.exclude_newer {
        ExcludeNewer::Agrees => Ok(()),
        ExcludeNewer::Unresolved(reason) => Err(
            EnvironmentUnsat::InvalidExcludeNewer(reason.clone()),
        ),
        ExcludeNewer::Differs(reason) => Err(
            EnvironmentUnsat::ExcludeNewerMismatch(reason.clone()),
        ),
    }
}

/// The locked environment stands for the requested one, or this is why not.
pub open spec fn satisfies(
    environment: RequestedEnvironment,
    locked: LockedEnvironment,
    mode: SatisfiabilityMode,
    result: Result<(), EnvironmentUnsat>,
) -> bool {
    exists|channels: Seq<Option<Seq<char>>>, locked_channels: Seq<Option<Seq<char>>>|
        #![trigger verdict(environment, locked, mode, channels, locked_channels, result)]
        resolve_to(views(environment.channels@), environment.channel_config, channels)
            && resolve_to(
            views(locked.channels@),
            environment.channel_config,
            locked_channels,
        ) && verdict(environment, locked, mode, channels, locked_channels, result)
}

/// Some base URLs for channels.
proof fn lemma_resolvable(channels: Seq<Seq<char>>, config: ChannelConfig)
    ensures
        exists|urls: Seq<Option<Seq<char>>>| resolve_to(channels, config, urls),
{
    let urls = Seq::new(channels.len(), |i: int| base_url(channels[i], config));
    assert(resolve_to(channels, config, urls));
}

/// Makes sure that the requested channels are the locked ones.
fn verify_channels(
    environment: &RequestedEnvironment,
    locked: &LockedEnvironment,
) -> (result: Result<(), EnvironmentUnsat>)
    ensures
        exists|channels: Seq<Option<Seq<char>>>, locked_channels: Seq<Option<Seq<char>>>|
            #![trigger channels_verdict(channels, locked_channels, result)]
            resolve_to(views(environment.channels@), environment.channel_config, channels)
                && resolve_to(
                views(locked.channels@),
                environment.channel_config,
                locked_channels,
            ) && channels_verdict(channels, locked_channels, result),
{
    let config = &environment.channel_config;
    proof {
        lemma_resolvable(views(locked.channels@), *config);
    }
    let channels = match resolve_channels(&environment.channels, config) {
        Ok(channels) => channels,
        Err(error) => {
            let result = Err(EnvironmentUnsat::InvalidChannel(error));
            proof {
                let urls = choose|urls: Seq<Option<Seq<char>>>| #[trigger]
                    resolve_to(views(environment.channels@), *config, urls) && !all_resolved(urls);
                let others = choose|urls: Seq<Option<Seq<char>>>|
                    resolve_to(views(locked.channels@), *config, urls);
                assert(channels_verdict(urls, others, result));
            }
            return result;
        },
    };
    let locked_channels = match resolve_channels(&locked.channels, config) {
        Ok(channels) => channels,
        Err(error) => {
            let result = Err(EnvironmentUnsat::InvalidChannel(error));
            proof {
                let urls = choose|urls: Seq<Option<Seq<char>>>| #[trigger]
                    resolve_to(views(locked.channels@), *config, urls) && !all_resolved(urls);
                assert(channels_verdict(found(channels@), urls, result));
            }
            return result;
        },
    };
    compare_channels(&channels, &locked_channels)
}

/// Tells whether the locked environment stands for the requested one under a mode.
pub fn verify_environment_satisfiability_with_mode(
    environment: &RequestedEnvironment,
    locked: &LockedEnvironment,
    mode: SatisfiabilityMode,
) -> (result: Result<(), EnvironmentUnsat>)
    ensures
        satisfies(*environment, *locked, mode, result),
{
    let ghost config = environment.channel_config;
    proof {
        lemma_resolvable(views(environment.channels@), config);
        lemma_resolvable(views(locked.channels@), config);
    }
    let ghost mut channels = choose|urls: Seq<Option<Seq<char>>>|
        resolve_to(views(environment.channels@), config, urls);
    let ghost mut locked_channels = choose|urls: Seq<Option<Seq<char>>>|
        resolve_to(views(locked.channels@), config, urls);
    let exact = mode == SatisfiabilityMode::Exact;
    if exact {
        let checked = verify_channels(environment, locked);
        proof {
            let (ours, theirs) = choose|
                ours: Seq<Option<Seq<char>>>,
                theirs: Seq<Option<Seq<char>>>,
            |
                #![trigger channels_verdict(ours, theirs, checked)]
                resolve_to(views(environment.channels@), config, ours) && resolve_to(
                    views(locked.channels@),
                    config,
                    theirs,
                ) && channels_verdict(ours, theirs, checked);
            channels = ours;
            locked_channels = theirs;
        }
        match checked {
            Ok(()) => {},
            Err(error) => {
                let result = Err(error);
                assert(verdict(*environment, *locked, mode, channels, locked_channels, result));
                return result;
            },
        }
    }
    if exact {
        let additional = additional_platforms(environment, &locked.platforms);
        if additional.len() > 0 {
            proof {
                assert(views(additional@).contains(views(additional@)[0]));
            }
            let result = Err(EnvironmentUnsat::AdditionalPlatformsInLockFile(additional));
            assert(verdict(*environment, *locked, mode, channels, locked_channels, result));
            return result;
        }
        proof {
            if has_additional(*environment, locked.platforms@) {
                let i = choose|i: int|
                    0 <= i < locked.platforms@.len() && environment.is_additional(
                        #[trigger] locked.platforms@[i],
                    );
                assert(views(additional@).contains(locked.platforms@[i].name@));
            }
        }
    }
    let platforms = verify_platforms(environment, &locked.platforms);
    if platforms.is_err() || !exact {
        assert(verdict(*environment, *locked, mode, channels, locked_channels, platforms));
        return platforms;
    }
    if environment.has_pypi_dependencies {
        let indexes = verify_pypi_indexes(environment, locked);
        if indexes.is_err() {
            assert(verdict(*environment, *locked, mode, channels, locked_channels, indexes));
            return indexes;
        }
        let packages = verify_pypi_packages(environment, &locked.packages);
        if packages.is_err() {
            assert(verdict(*environment, *locked, mode, channels, locked_channels, packages));
            return packages;
        }
    }
    let result = verify_options(environment, locked);
    assert(verdict(*environment, *locked, mode, channels, locked_channels, result));
    result
}

/// Tells whether the locked environment reproduces the requested one exactly.
pub fn verify_environment_satisfiability(
    environment: &RequestedEnvironment,
    locked: &LockedEnvironment,
) -> (result: Result<(), EnvironmentUnsat>)
    ensures
        satisfies(*environment, *locked, SatisfiabilityMode::Exact, result),
{
    verify_environment_satisfiability_with_mode(environment, locked, SatisfiabilityMode::Exact)
}

/// A solution that reproduces the current resolution inputs exactly also satisfies the manifest.
pub proof fn exact_is_sufficient(
    environment: RequestedEnvironment,
    locked: LockedEnvironment,
    exact: Result<(), EnvironmentUnsat>,
    result: Result<(), EnvironmentUnsat>,
)
    requires
        exact is Ok,
        satisfies(environment, locked, SatisfiabilityMode::Exact, exact),
        satisfies(environment, locked, SatisfiabilityMode::Sufficient, result),
    ensures
        result is Ok,
{
}

/// In sufficient mode nothing counts but how the platforms are defined: no channels, no
/// platforms beyond those asked for, no PyPI indexes or packages, and no options of the solver.
pub proof fn sufficient_ignores_policy(
    environment: RequestedEnvironment,
    other: RequestedEnvironment,
    locked: LockedEnvironment,
    other_locked: LockedEnvironment,
    result: Result<(), EnvironmentUnsat>,
)
    requires
        environment.platforms == other.platforms,
        environment.workspace_platforms == other.workspace_platforms,
        locked.platforms == other_locked.platforms,
        satisfies(environment, locked, SatisfiabilityMode::Sufficient, result),
    ensures
        satisfies(other, other_locked, SatisfiabilityMode::Sufficient, result),
{
    lemma_resolvable(views(other.channels@), other.channel_config);
    lemma_resolvable(views(other_locked.channels@), other.channel_config);
    let channels = choose|urls: Seq<Option<Seq<char>>>|
        resolve_to(views(other.channels@), other.channel_config, urls);
    let locked_channels = choose|urls: Seq<Option<Seq<char>>>|
        resolve_to(views(other_locked.channels@), other.channel_config, urls);
    let all = locked.platforms@;
    assert forall|i: int| 0 <= i < all.len() implies environment.is_changed(#[trigger] all[i])
        == other.is_changed(all[i]) by {}
    assert(has_changed(environment, all) == has_changed(other, all));
    match result {
        Err(EnvironmentUnsat::PlatformDefinitionChanged(change)) => {
            let at = choose|at: int| #[trigger]
                environment.first_changed(all, at) && environment.describes_change(
                    all[at],
                    change,
                );
            assert(other.first_changed(all, at));
        },
        _ => {},
    }
    assert(verdict(
        other,
        other_locked,
        SatisfiabilityMode::Sufficient,
        channels,
        locked_channels,
        result,
    ));
}

} // verus!
