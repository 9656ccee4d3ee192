//! Why a locked environment does not stand for the requested one.
use rattler_conda_types::ParseChannelError;
use rattler_lock::PypiIndexes;
use uv_distribution_filename::ExtensionError;
use vstd::prelude::*;

verus! {

/// Declares the error of a channel that has no base URL.
#[verifier::external_type_specification]
#[verifier::external_body]
pub struct ExParseChannelError(ParseChannelError);

/// Declares the indexes that PyPI packages are taken from.
#[verifier::external_type_specification]
#[verifier::external_body]
pub struct ExPypiIndexes(PypiIndexes);

/// Declares the error of a file name that is no distribution's.
#[verifier::external_type_specification]
#[verifier::external_body]
pub struct ExExtensionError(ExtensionError);

/// How versions are chosen.
#[derive(Debug, Clone, Copy, PartialEq, Eq, Structural)]
pub enum SolveStrategy {
    Highest,
    LowestVersion,
    LowestVersionDirect,
}

/// What the order of channels decides.
#[derive(Debug, Clone, Copy, PartialEq, Eq, Structural)]
pub enum ChannelPriority {
    Strict,
    Disabled,
    Flexible,
}

/// Which pre-releases may be chosen.
#[derive(Debug, Clone, Copy, PartialEq, Eq, Structural)]
pub enum PrereleaseMode {
    Disallow,
    Allow,
    IfNecessary,
    Explicit,
    IfNecessaryOrExplicit,
}

/// The definition of a platform is not the one that was locked.
#[derive(Debug)]
pub struct PlatformDefinitionChanged {
    pub name: String,
    pub expected_subdir: String,
    pub found_subdir: String,
    pub expected_virtual_packages: Vec<String>,
    pub found_virtual_packages: Vec<String>,
}

/// The PyPI indexes are not the ones that were locked.
#[derive(Debug)]
pub struct IndexesMismatch {
    pub current: PypiIndexes,
    pub previous: Option<PypiIndexes>,
}

/// Why a locked environment does not stand for the requested one.
#[derive(Debug)]
pub enum EnvironmentUnsat {
    /// Channels were added behind the locked ones.
    ChannelsExtended,
    /// Channels were removed, reordered, or put before the locked ones.
    ChannelsMismatch,
    /// A channel has no base URL.
    InvalidChannel(ParseChannelError),
    /// The lock file has platforms that are not asked for.
    AdditionalPlatformsInLockFile(Vec<String>),
    /// A platform is defined otherwise than it was locked.
    PlatformDefinitionChanged(PlatformDefinitionChanged),
    /// The PyPI indexes are others than the locked ones.
    IndexesMismatch(IndexesMismatch),
    /// The file of a package is no distribution.
    InvalidDistExtension(ExtensionError),
    /// A source package is locked that may not be built.
    NoBuildWithNonBinaryPackages(String),
    /// A wheel is locked that the platform cannot use.
    PypiWheelTagsMismatch { wheel: String },
    /// Versions are to be chosen in another way.
    SolveStrategyMismatch { locked_strategy: SolveStrategy, expected_strategy: SolveStrategy },
    /// The order of channels decides in another way.
    ChannelPriorityMismatch {
        locked_priority: ChannelPriority,
        expected_priority: ChannelPriority,
    },
    /// Other pre-releases may be chosen.
    PypiPrereleaseModeMismatch { locked_mode: PrereleaseMode, expected_mode: PrereleaseMode },
    /// The date up to which packages count cannot be told.
    InvalidExcludeNewer(String),
    /// The date up to which packages count is another.
    ExcludeNewerMismatch(String),
}

} // verus!
