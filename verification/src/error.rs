//! What can be wrong with a script and its metadata.
use std::path::PathBuf;
use std::str::Utf8Error;

use toml_edit::TomlError;
use vstd::prelude::*;

verus! {

/// Declares the error of a byte sequence that is not UTF-8.
#[verifier::external_type_specification]
#[verifier::external_body]
pub struct ExUtf8Error(Utf8Error);

/// Declares the error of a text that is not TOML.
#[verifier::external_type_specification]
#[verifier::external_body]
pub struct ExTomlError(TomlError);

/// Declares an owned path.
#[verifier::external_type_specification]
#[verifier::external_body]
pub struct ExPathBuf(PathBuf);

/// Why a script or an edit to its metadata is refused.
#[derive(Debug)]
pub enum ScriptManifestError {
    /// The metadata is not TOML.
    TomlEdit(TomlError),
    /// The script's file name has no stem that can name a project.
    InvalidFilename { path: PathBuf },
    /// The script already has a metadata block.
    AlreadyInitialized { path: PathBuf },
    /// `tool.pixi.workspace` is not a table.
    InvalidPixiWorkspace,
    /// `tool` is not a table.
    InvalidToolTable,
    /// The editable document has no project table.
    InvalidEditableDocument,
    /// Fields that a script with one implicit environment cannot have.
    UnsupportedFields(Vec<String>),
    /// The script is not valid UTF-8.
    Utf8(Utf8Error),
    /// The opening marker has no closing marker.
    UnclosedBlock,
    /// The script holds more than one metadata block.
    DuplicateBlock,
}

} // verus!
