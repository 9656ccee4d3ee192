//! The cached resolution of a script: where it is coordinated, and what is read from it.
//!
//! The state is separate from a lock file beside the script. It is disposable: it saves a script
//! from being resolved again on every run.
use std::io::Error;
use std::path::PathBuf;

use rattler_digest::digest::Digest;
use rattler_digest::Sha256;
use rattler_lock::LockFile;
use vstd::prelude::*;

use crate::lock_markers::{is_writable, writable};
use crate::lock_text::{fit_to_read, is_fit, Surroundings};
use crate::text::{bytes_of, same_bytes, same_text};

verus! {

/// The version of the stored state that is read and written.
pub const STATE_VERSION: u32 = 1;

/// Declares an error of input or output.
#[verifier::external_type_specification]
#[verifier::external_body]
pub struct ExError(Error);

/// Declares a lock file in memory.
#[verifier::external_type_specification]
#[verifier::external_body]
pub struct ExLockFile(LockFile);

/// The SHA-256 digest of some bytes.
pub uninterp spec fn sha256(bytes: Seq<u8>) -> Seq<u8>;

/// `Sha256::digest` gives the digest of some bytes, which has 32 bytes.
#[verifier::external_body]
fn sha256_of(bytes: &[u8]) -> (digest: Vec<u8>)
    ensures
        digest@ == sha256(bytes@),
        digest@.len() == 32,
{
    Sha256::digest(bytes).to_vec()
}

/// The lower-case digit for a number below sixteen.
pub open spec fn hex_digit(value: u8) -> char {
    if value < 10 {
        ((value + 48) as u8) as char
    } else {
        ((value + 87) as u8) as char
    }
}

/// Two digits for each byte.
pub open spec fn hex_text(bytes: Seq<u8>) -> Seq<char> {
    Seq::new(
        2 * bytes.len(),
        |i: int|
            if i % 2 == 0 {
                hex_digit(bytes[i / 2] / 16)
            } else {
                hex_digit(bytes[i / 2] % 16)
            },
    )
}

/// `hex::encode` writes two lower-case digits for each byte, the higher one first.
#[verifier::external_body]
fn hex_of(bytes: &[u8]) -> (text: String)
    ensures
        text@ == hex_text(bytes@),
{
    hex::encode(bytes)
}

/// The name of the file by which the users of a resolution are coordinated: the first sixteen
/// digits of the digest of what identifies it.
pub open spec fn lock_name(digest: Seq<u8>) -> Seq<char> {
    "pixi-script-"@ + hex_text(digest).take(16) + ".lock"@
}

/// Names a file by a digest.
pub fn lock_name_of_digest(digest: &[u8]) -> (name: String)
    requires
        digest@.len() >= 8,
    ensures
        name@ == lock_name(digest@),
{
    let text = hex_of(digest);
    let mut name = "pixi-script-".to_owned();
    name.append(text.as_str().substring_char(0, 16));
    name.append(".lock");
    assert(name@ =~= lock_name(digest@));
    name
}

/// Names the file by which the users of a resolution are coordinated.
pub fn script_resolution_lock_name(identity: &[u8]) -> (name: String)
    ensures
        name@ == lock_name(sha256(identity@)),
{
    let digest = sha256_of(identity);
    lock_name_of_digest(digest.as_slice())
}

/// The ending of the name of a lock file beside a script.
pub open spec fn sidecar_ending() -> Seq<u8> {
    bytes_of(".pixi.lock"@)
}

/// Names the lock file beside a script. The names are as the operating system has them.
pub fn sidecar_name(script_name: &[u8]) -> (name: Vec<u8>)
    ensures
        name@ == script_name@ + sidecar_ending(),
{
    let mut name: Vec<u8> = Vec::new();
    name.extend_from_slice(script_name);
    name.extend_from_slice(".pixi.lock".as_bytes());
    name
}

/// What identifies a resolution: the lock file beside the script, in the directory as the
/// operating system has it, or the directory of the environment where no lock file can stand
/// beside the script.
#[derive(Debug)]
pub enum ResolutionIdentity {
    Sidecar { parent: Vec<u8>, name: Vec<u8> },
    Environment { directory: Vec<u8> },
}

/// The directory of a script, and the name that the directory has for the script.
#[derive(Debug)]
pub struct PhysicalScript {
    pub parent: Vec<u8>,
    pub name: Vec<u8>,
}

/// Tells what identifies the resolution of a script.
pub fn script_resolution_identity(
    script: Option<PhysicalScript>,
    environment: Vec<u8>,
) -> (identity: ResolutionIdentity)
    ensures
        match script {
            Some(script) => identity matches ResolutionIdentity::Sidecar { parent, name }
                && parent@ == script.parent@ && name@ == script.name@ + sidecar_ending(),
            None => identity matches ResolutionIdentity::Environment { directory } && directory@
                == environment@,
        },
{
    match script {
        Some(script) => ResolutionIdentity::Sidecar {
            parent: script.parent,
            name: sidecar_name(script.name.as_slice()),
        },
        None => ResolutionIdentity::Environment { directory: environment },
    }
}

/// Why the name that a directory has for a script cannot be told.
#[derive(Debug, Clone, Copy, PartialEq, Eq, Structural)]
pub enum FileNameFault {
    /// The directory has several names for the script, and none is the one asked for.
    Ambiguous,
    /// The directory has no name for the script.
    NotFound,
}

/// `names` holds this name.
pub open spec fn has_name(names: Seq<Vec<u8>>, name: Seq<u8>) -> bool {
    exists|i: int| 0 <= i < names.len() && (#[trigger] names[i])@ == name
}

/// `result` is the name to use for a script: the one that was asked for, if it is among the
/// candidates, or else the only candidate.
pub open spec fn selects(
    requested: Seq<u8>,
    candidates: Seq<Vec<u8>>,
    result: Result<Vec<u8>, FileNameFault>,
) -> bool {
    if has_name(candidates, requested) {
        result matches Ok(name) && name@ == requested
    } else if candidates.len() == 1 {
        result matches Ok(name) && name@ == candidates[0]@
    } else if candidates.len() == 0 {
        result == Err::<Vec<u8>, _>(FileNameFault::NotFound)
    } else {
        result == Err::<Vec<u8>, _>(FileNameFault::Ambiguous)
    }
}

/// Copies a name.
fn copy_name(name: &[u8]) -> (copy: Vec<u8>)
    ensures
        copy@ == name@,
{
    let mut copy: Vec<u8> = Vec::new();
    copy.extend_from_slice(name);
    copy
}

/// Selects the name to use for a script.
pub fn select_script_file_name(requested: &[u8], candidates: &Vec<Vec<u8>>) -> (result: Result<
    Vec<u8>,
    FileNameFault,
>)
    ensures
        selects(requested@, candidates@, result),
{
    let mut i: usize = 0;
    while i < candidates.len()
        invariant
            i <= candidates.len(),
            forall|k: int| 0 <= k < i ==> (#[trigger] candidates@[k])@ != requested@,
        decreases candidates.len() - i,
    {
        if same_bytes(candidates[i].as_slice(), requested) {
            assert(candidates@[i as int]@ == requested@);
            return Ok(copy_name(requested));
        }
        i += 1;
    }
    if candidates.len() == 0 {
        Err(FileNameFault::NotFound)
    } else if candidates.len() == 1 {
        Ok(copy_name(candidates[0].as_slice()))
    } else {
        Err(FileNameFault::Ambiguous)
    }
}

/// The names of a list.
pub open spec fn name_texts(names: Seq<Vec<u8>>) -> Seq<Seq<u8>> {
    names.map_values(|name: Vec<u8>| name@)
}

/// Which name is used for a script does not depend on the order of the candidates.
pub proof fn selection_ignores_order(
    requested: Seq<u8>,
    one: Seq<Vec<u8>>,
    other: Seq<Vec<u8>>,
    first: Result<Vec<u8>, FileNameFault>,
    second: Result<Vec<u8>, FileNameFault>,
)
    requires
        name_texts(one).to_multiset() == name_texts(other).to_multiset(),
        selects(requested, one, first),
        selects(requested, other, second),
    ensures
        match (first, second) {
            (Ok(first), Ok(second)) => first@ == second@,
            (Err(first), Err(second)) => first == second,
            _ => false,
        },
{
    broadcast use vstd::seq_lib::group_to_multiset_ensures;

    let ours = name_texts(one);
    let theirs = name_texts(other);
    assert(ours.to_multiset().len() == theirs.to_multiset().len());
    assert(ours.to_multiset().count(requested) == theirs.to_multiset().count(requested));
    assert(has_name(one, requested) <==> ours.contains(requested)) by {
        lemma_has_name(one, requested);
    }
    assert(has_name(other, requested) <==> theirs.contains(requested)) by {
        lemma_has_name(other, requested);
    }
    assert(ours.contains(requested) <==> theirs.contains(requested));
    if one.len() == 1 {
        assert(ours[0] == one[0]@);
        assert(theirs[0] == other[0]@);
        assert(ours.contains(ours[0]));
        assert(theirs.to_multiset().count(ours[0]) > 0);
        assert(theirs.contains(ours[0]));
    }
}

/// A name is in a list exactly where its text is among the texts of the list.
proof fn lemma_has_name(names: Seq<Vec<u8>>, name: Seq<u8>)
    ensures
        has_name(names, name) <==> name_texts(names).contains(name),
{
    if has_name(names, name) {
        let i = choose|i: int| 0 <= i < names.len() && (#[trigger] names[i])@ == name;
        assert(name_texts(names)[i] == name);
    }
    if name_texts(names).contains(name) {
        let i = choose|i: int| 0 <= i < names.len() && name_texts(names)[i] == name;
        assert(names[i]@ == name);
    }
}

/// What tells one file from all others.
#[derive(Debug, Clone, Copy, PartialEq, Eq, Structural)]
pub struct FileId {
    pub device: u64,
    pub inode: u64,
}

/// An entry of a directory.
#[derive(Debug)]
pub struct DirectoryEntry {
    pub name: Vec<u8>,
    pub id: FileId,
}

/// The entry has this name.
pub open spec fn is_named(entry: DirectoryEntry, name: Seq<u8>) -> bool {
    entry.name@ == name
}

/// An entry of the directory has this name.
pub open spec fn has_entry(entries: Seq<DirectoryEntry>, name: Seq<u8>) -> bool {
    exists|i: int| 0 <= i < entries.len() && is_named(#[trigger] entries[i], name)
}

/// The names that a directory has for a file.
pub open spec fn names_of(entries: Seq<DirectoryEntry>, id: FileId) -> Seq<Seq<u8>> {
    entries.filter(|entry: DirectoryEntry| entry.id == id).map_values(
        |entry: DirectoryEntry| entry.name@,
    )
}

/// Finds the name that a directory has for a script: the one that was asked for, if the
/// directory has it, or else the only other name of the same file.
pub fn physical_script_file_name(
    requested: &[u8],
    id: FileId,
    entries: &Vec<DirectoryEntry>,
) -> (result: Result<Vec<u8>, FileNameFault>)
    ensures
        ({
            let names = names_of(entries@, id);
            if has_entry(entries@, requested@) {
                result matches Ok(name) && name@ == requested@
            } else if names.len() == 1 {
                result matches Ok(name) && name@ == names[0]
            } else if names.len() == 0 {
                result == Err::<Vec<u8>, _>(FileNameFault::NotFound)
            } else {
                result == Err::<Vec<u8>, _>(FileNameFault::Ambiguous)
            }
        }),
{
    let ghost same = |entry: DirectoryEntry| entry.id == id;
    let ghost name = |entry: DirectoryEntry| entry.name@;
    let ghost view = |name: Vec<u8>| name@;
    let mut candidates: Vec<Vec<u8>> = Vec::new();
    let mut i: usize = 0;
    assert(candidates@.map_values(view) =~= entries@.take(0).filter(same).map_values(name)) by {
        reveal(Seq::filter);
    }
    while i < entries.len()
        invariant
            i <= entries.len(),
            same == (|entry: DirectoryEntry| entry.id == id),
            name == (|entry: DirectoryEntry| entry.name@),
            view == (|name: Vec<u8>| name@),
            forall|k: int| 0 <= k < i ==> !is_named(#[trigger] entries@[k], requested@),
            candidates@.map_values(view) == entries@.take(i as int).filter(same).map_values(name),
        decreases entries.len() - i,
    {
        let entry = &entries[i];
        if same_bytes(entry.name.as_slice(), requested) {
            assert(is_named(entries@[i as int], requested@));
            return Ok(copy_name(requested));
        }
        proof {
            reveal(Seq::filter);
            assert(entries@.take(i + 1).drop_last() =~= entries@.take(i as int));
            assert(entries@.take(i + 1).last() == entries@[i as int]);
        }
        if entry.id == id {
            let ghost before = candidates@;
            let ghost kept = entries@.take(i as int).filter(same);
            candidates.push(copy_name(entry.name.as_slice()));
            assert(candidates@.map_values(view) =~= before.map_values(view).push(entry.name@));
            assert(kept.push(entries@[i as int]).map_values(name) =~= kept.map_values(name).push(
                entry.name@,
            ));
        }
        i += 1;
    }
    assert(entries@.take(i as int) =~= entries@);
    proof {
        assert forall|k: int| 0 <= k < candidates@.len() implies (#[trigger] candidates@[k])@
            != requested@ by {
            let kept = entries@.filter(same);
            assert(candidates@.map_values(view)[k] == kept.map_values(name)[k]);
            entries@.lemma_filter_contains_rev(same, kept[k]);
            let at = choose|at: int| 0 <= at < entries@.len() && entries@[at] == kept[k];
            assert(!is_named(entries@[at], requested@));
        }
        if candidates@.len() > 0 {
            assert(candidates@.map_values(view)[0] == candidates@[0]@);
        }
    }
    select_script_file_name(requested, &candidates)
}

/// The guard that coordinates the users of a resolution could not be had.
#[derive(Debug)]
pub struct ScriptResolutionStateLockError {
    /// The file that was to be locked.
    pub path: PathBuf,
    pub source: Error,
}

/// A script's metadata, or the resolution that counts, changed while work went on that took it
/// to stay as it was.
#[derive(Debug, Clone, Copy, PartialEq, Eq, Structural)]
pub struct ScriptResolutionConflictError;

/// The contents of a file, or nothing where there is none.
pub open spec fn file_contents(contents: Option<Vec<u8>>) -> Option<Seq<u8>> {
    match contents {
        Some(contents) => Some(contents@),
        None => None,
    }
}

/// Compares what two files hold.
fn same_contents(one: &Option<Vec<u8>>, other: &Option<Vec<u8>>) -> (same: bool)
    ensures
        same == (file_contents(*one) == file_contents(*other)),
{
    match (one, other) {
        (Some(one), Some(other)) => same_bytes(one.as_slice(), other.as_slice()),
        (None, None) => true,
        _ => false,
    }
}

/// What is to be done to a file so that it is as it was.
#[derive(Debug)]
pub enum Restoration {
    /// Nothing.
    Keep,
    /// Write these contents.
    Write(Vec<u8>),
    /// Remove the file.
    Remove,
}

impl Restoration {
    /// What the file holds afterwards.
    pub open spec fn applied(self, current: Option<Seq<u8>>) -> Option<Seq<u8>> {
        match self {
            Restoration::Keep => current,
            Restoration::Write(contents) => Some(contents@),
            Restoration::Remove => None,
        }
    }
}

/// Tells what is to be done to a file so that it is as it was. A file that is as it was is left
/// alone.
fn restoration(current: &Option<Vec<u8>>, state: &Option<Vec<u8>>) -> (action: Restoration)
    ensures
        action.applied(file_contents(*current)) == file_contents(*state),
        action is Keep <==> file_contents(*current) == file_contents(*state),
{
    if same_contents(current, state) {
        return Restoration::Keep;
    }
    match state {
        Some(contents) => Restoration::Write(copy_name(contents.as_slice())),
        None => Restoration::Remove,
    }
}

/// The exact state of the lock file beside a script.
#[derive(Debug, Clone, PartialEq, Eq)]
pub struct ScriptLockFileState(Option<Vec<u8>>);

impl ScriptLockFileState {
    /// What the file holds, or nothing where there is none.
    pub closed spec fn contents(self) -> Option<Seq<u8>> {
        file_contents(self.0)
    }

    /// The state of a file with these contents.
    pub fn from_contents(contents: Vec<u8>) -> (state: ScriptLockFileState)
        ensures
            state.contents() == Some(contents@),
    {
        ScriptLockFileState(Some(contents))
    }

    /// The state of a file that is not there.
    pub fn absent() -> (state: ScriptLockFileState)
        ensures
            state.contents() is None,
    {
        ScriptLockFileState(None)
    }

    /// Whether the file is not there.
    pub fn is_absent(&self) -> (absent: bool)
        ensures
            absent == (self.contents() is None),
    {
        self.0.is_none()
    }

    /// Whether the file is still in this state.
    pub fn is_current(&self, current: &ScriptLockFileState) -> (same: bool)
        ensures
            same == (self.contents() == current.contents()),
    {
        same_contents(&self.0, &current.0)
    }

    /// Refuses to go on if the file is in another state.
    pub fn ensure_current(&self, current: &ScriptLockFileState) -> (result: Result<
        (),
        ScriptResolutionConflictError,
    >)
        ensures
            result is Ok <==> self.contents() == current.contents(),
    {
        if self.is_current(current) {
            Ok(())
        } else {
            Err(ScriptResolutionConflictError)
        }
    }

    /// Tells what is to be done so that the file is in this state.
    pub fn restoration(&self, current: &ScriptLockFileState) -> (action: Restoration)
        ensures
            action.applied(current.contents()) == self.contents(),
            action is Keep <==> current.contents() == self.contents(),
    {
        restoration(&current.0, &self.0)
    }
}

/// The exact state of the file that holds the cached resolution.
#[derive(Debug, Clone, PartialEq, Eq)]
pub struct ScriptResolutionFileState(Option<Vec<u8>>);

impl ScriptResolutionFileState {
    /// What the file holds, or nothing where there is none.
    pub closed spec fn contents(self) -> Option<Seq<u8>> {
        file_contents(self.0)
    }

    /// The state of a file with these contents.
    pub fn from_contents(contents: Vec<u8>) -> (state: ScriptResolutionFileState)
        ensures
            state.contents() == Some(contents@),
    {
        ScriptResolutionFileState(Some(contents))
    }

    /// The state of a file that is not there. To restore it is to clear the cache.
    pub fn absent() -> (state: ScriptResolutionFileState)
        ensures
            state.contents() is None,
    {
        ScriptResolutionFileState(None)
    }

    /// Tells what is to be done so that the file is in this state.
    pub fn restoration(&self, current: &ScriptResolutionFileState) -> (action: Restoration)
        ensures
            action.applied(current.contents()) == self.contents(),
            action is Keep <==> current.contents() == self.contents(),
    {
        restoration(&current.0, &self.0)
    }
}

/// The stable text of a lock file, or nothing where it has none.
pub uninterp spec fn rendered(lock_file: LockFile) -> Option<Seq<char>>;

/// `LockFile::render_to_string` writes a lock file as text, with everything in it in order. The
/// call panics where a marker bounds a version by one with a local part, and, with overflow
/// checks, by one that ends in the largest number.
#[verifier::external_body]
fn render(lock_file: &LockFile) -> (result: Result<String, Error>)
    requires
        is_writable(*lock_file),
    ensures
        match result {
            Ok(text) => rendered(*lock_file) == Some(text@),
            Err(_) => rendered(*lock_file) is None,
        },
{
    lock_file.render_to_string()
}

/// A resolution has no text.
#[derive(Debug)]
pub enum RenderError {
    /// A marker in it cannot be written.
    Marker,
    /// Writing it failed.
    Write(Error),
}

/// Gives the text of a lock file.
fn text_of(lock_file: &LockFile) -> (result: Result<String, RenderError>)
    ensures
        match result {
            Ok(text) => is_writable(*lock_file) && rendered(*lock_file) == Some(text@),
            Err(RenderError::Marker) => !is_writable(*lock_file),
            Err(RenderError::Write(_)) => is_writable(*lock_file) && rendered(*lock_file) is None,
        },
{
    if !writable(lock_file) {
        return Err(RenderError::Marker);
    }
    match render(lock_file) {
        Ok(text) => Ok(text),
        Err(error) => Err(RenderError::Write(error)),
    }
}

/// The stable text by which a resolution is stored and compared: that of a lock file whose
/// markers can be written.
pub open spec fn stable_text(lock_file: LockFile) -> Option<Seq<char>> {
    if is_writable(lock_file) {
        rendered(lock_file)
    } else {
        None
    }
}

/// Compares two resolutions, given their stable texts.
pub fn same_resolution(left: Option<&String>, right: Option<&String>) -> (same: bool)
    ensures
        same == match (left, right) {
            (None, None) => true,
            (Some(left), Some(right)) => left@ == right@,
            _ => false,
        },
{
    match (left, right) {
        (None, None) => true,
        (Some(left), Some(right)) => same_text(left.as_str(), right.as_str()),
        _ => false,
    }
}

/// Compares two resolutions by their stable text.
pub fn script_resolutions_equal(left: Option<&LockFile>, right: Option<&LockFile>) -> (result:
    Result<bool, RenderError>)
    ensures
        match (left, right) {
            (None, None) => result matches Ok(equal) && equal,
            (Some(left), Some(right)) => match result {
                Ok(equal) => stable_text(*left) is Some && stable_text(*right) is Some && equal == (
                stable_text(*left) == stable_text(*right)),
                Err(RenderError::Marker) => !is_writable(*left) || !is_writable(*right),
                Err(RenderError::Write(_)) => (is_writable(*left) && rendered(*left) is None) || (
                is_writable(*right) && rendered(*right) is None),
            },
            _ => result matches Ok(equal) && !equal,
        },
{
    match (left, right) {
        (Some(left), Some(right)) => {
            let left = match text_of(left) {
                Ok(text) => text,
                Err(error) => return Err(error),
            };
            let right = match text_of(right) {
                Ok(text) => text,
                Err(error) => return Err(error),
            };
            Ok(same_resolution(Some(&left), Some(&right)))
        },
        (None, None) => Ok(true),
        _ => Ok(false),
    }
}

/// A resolution as it is stored.
#[derive(Debug)]
pub struct StoredScriptResolution {
    pub version: u32,
    pub lock_file: String,
}

/// The text of the resolution that can be read from what is stored. State of another version is
/// as good as none.
pub open spec fn readable(stored: StoredScriptResolution) -> Option<Seq<char>> {
    if stored.version == STATE_VERSION {
        Some(stored.lock_file@)
    } else {
        None
    }
}

impl StoredScriptResolution {
    /// Prepares a resolution to be stored.
    pub fn of(lock_file: &LockFile) -> (result: Result<StoredScriptResolution, RenderError>)
        ensures
            match result {
                Ok(stored) => stable_text(*lock_file) is Some && readable(stored) == stable_text(
                    *lock_file,
                ),
                Err(RenderError::Marker) => !is_writable(*lock_file),
                Err(RenderError::Write(_)) => is_writable(*lock_file) && rendered(
                    *lock_file,
                ) is None,
            },
    {
        match text_of(lock_file) {
            Ok(lock_file) => Ok(StoredScriptResolution { version: STATE_VERSION, lock_file }),
            Err(error) => Err(error),
        }
    }

    /// The text of the resolution, if it is of the version that is read.
    pub fn text(&self) -> (text: Option<&str>)
        ensures
            match text {
                Some(text) => readable(*self) == Some(text@),
                None => readable(*self) is None,
            },
    {
        if self.version == STATE_VERSION {
            Some(self.lock_file.as_str())
        } else {
            None
        }
    }

    /// Reads the resolution. State of another version, or that holds no lock file, is as good as
    /// none, and so is a text on which the reader would panic. Paths in the text are relative to
    /// `root`. The caller says whether the directory of the project is known, that is whether
    /// `PROJECT_ROOT` is in the environment or there is a current directory. What a text that may
    /// name variables of the environment comes to is left open.
    pub fn lock_file(&self, root: &PathBuf, anchored: bool) -> (lock_file: Option<LockFile>)
        ensures
            match (readable(*self), lock_file) {
                (None, lock_file) => lock_file is None,
                (Some(text), Some(lock_file)) => is_fit(surroundings(*root, anchored), text) && (
                names_no_variables(text) ==> locked_text(text, *root) == Some(rendered(lock_file))),
                (Some(text), None) => is_fit(surroundings(*root, anchored), text)
                    && names_no_variables(text) ==> locked_text(text, *root) is None,
            },
    {
        match self.text() {
            Some(text) => if fit_to_read(Surroundings { rooted: absolute(root), anchored }, text) {
                parse_lock_file(text, root, anchored)
            } else {
                None
            },
            None => None,
        }
    }
}

/// Where a text is read, if paths in it are relative to this directory.
pub open spec fn surroundings(root: PathBuf, anchored: bool) -> Surroundings {
    Surroundings { rooted: is_absolute(root), anchored }
}

/// A text of a lock file in which nothing names a variable of the environment: it has no dollar
/// sign, and no escape sequence by which one could be written.
pub open spec fn names_no_variables(text: Seq<char>) -> bool {
    &&& !text.contains('$')
    &&& forall|i: int|
        0 <= i && i + 1 < text.len() && #[trigger] text[i] == '\\' ==> text[i + 1] != 'x' && text[i
            + 1] != 'u' && text[i + 1] != 'U'
}

/// A path that is absolute on the system that the library is built for.
pub uninterp spec fn is_absolute(path: PathBuf) -> bool;

/// `Path::is_absolute` tells whether a path does not depend on the current directory.
#[verifier::external_body]
fn absolute(path: &PathBuf) -> (absolute: bool)
    ensures
        absolute == is_absolute(*path),
{
    path.is_absolute()
}

/// The stable text of the lock file that a text holds, or nothing where it holds none.
pub uninterp spec fn locked_text(text: Seq<char>, root: PathBuf) -> Option<Option<Seq<char>>>;

/// `LockFile::from_str_with_base_directory` reads a lock file from a text, with paths in it
/// relative to a directory. Requirements in the text may name variables of the environment, so
/// nothing is said of a text in which that can be.
///
/// The call panics on the texts that are not fit to be read, or fails on them. The parser of
/// requirements takes a name or an extra that ends in a separator for a valid one and then fails
/// on it, does not foresee `~=` between a text and a variable of a marker, adds one to numbers of
/// a version, and takes characters for bytes when it looks for `and` and `or`. It asserts that
/// the directory of a path is absolute, and asks for the current directory where a text names
/// `PROJECT_ROOT` and the environment does not have it, so `anchored` must be true only where one
/// of them is there. How deeply parentheses in a marker may be nested depends on the stack.
#[verifier::external_body]
fn parse_lock_file(text: &str, root: &PathBuf, anchored: bool) -> (lock_file: Option<LockFile>)
    requires
        is_fit(surroundings(*root, anchored), text@),
    ensures
        match lock_file {
            Some(lock_file) => names_no_variables(text@) ==> locked_text(text@, *root) == Some(
                rendered(lock_file),
            ),
            None => names_no_variables(text@) ==> locked_text(text@, *root) is None,
        },
{
    LockFile::from_str_with_base_directory(text, Some(root.as_path())).ok()
}

/// What a look-up of a user's home directory comes to.
#[derive(Debug)]
pub enum HomeLookup {
    /// Look again, with room for this many bytes.
    Retry(usize),
    /// The look-up failed with this status.
    Failed(i32),
    /// There is no such user.
    NotFound,
    /// The user's home directory has no name.
    Empty,
    /// This is the home directory.
    Home(Vec<u8>),
}

/// How much room the first look-up of a home directory has: as much as the system suggests, if
/// it suggests any.
pub fn initial_home_buffer(suggested: i64) -> (size: usize)
    ensures
        size > 0,
        size == if suggested > 0 && suggested <= usize::MAX {
            suggested as int
        } else if suggested > 0 {
            usize::MAX as int
        } else {
            1024
        },
{
    if suggested > 0 {
        if suggested as u64 <= usize::MAX as u64 {
            suggested as usize
        } else {
            usize::MAX
        }
    } else {
        1024
    }
}

/// Tells what a look-up of a user's home directory came to, given its status and the name that it
/// found. Where there was not room enough, the next look-up has twice the room.
pub fn home_lookup(
    size: usize,
    status: i32,
    out_of_room: bool,
    home: Option<Vec<u8>>,
) -> (result: HomeLookup)
    ensures
        match result {
            HomeLookup::Retry(next) => out_of_room && next == if 2 * size <= usize::MAX {
                2 * size
            } else {
                usize::MAX as int
            },
            HomeLookup::Failed(found) => !out_of_room && status != 0 && found == status,
            HomeLookup::NotFound => !out_of_room && status == 0 && home is None,
            HomeLookup::Empty => !out_of_room && status == 0 && (home matches Some(home)
                && home@.len() == 0),
            HomeLookup::Home(found) => !out_of_room && status == 0 && home == Some(found)
                && found@.len() > 0,
        },
{
    if out_of_room {
        let next: usize = if size <= usize::MAX / 2 {
            2 * size
        } else {
            usize::MAX
        };
        return HomeLookup::Retry(next);
    }
    if status != 0 {
        return HomeLookup::Failed(status);
    }
    match home {
        None => HomeLookup::NotFound,
        Some(home) => if home.len() == 0 {
            HomeLookup::Empty
        } else {
            HomeLookup::Home(home)
        },
    }
}

/// Only its owner may use the directory of the locks.
pub const LOCK_ROOT_MODE: u32 = 0o700;

/// The directory of the locks is not the user's own.
#[derive(Debug, Clone, Copy, PartialEq, Eq, Structural)]
pub struct ForeignLockRoot;

/// Makes sure that the directory of the locks is the user's own, and tells whether its mode is to
/// be set.
pub fn check_lock_root(is_dir: bool, owner: u32, user: u32, mode: u32) -> (result: Result<
    bool,
    ForeignLockRoot,
>)
    ensures
        match result {
            Ok(set_mode) => is_dir && owner == user && set_mode == (mode & 0o777
                != 0o700),
            Err(_) => !is_dir || owner != user,
        },
{
    if !is_dir || owner != user {
        return Err(ForeignLockRoot);
    }
    Ok(mode & 0o777 != LOCK_ROOT_MODE)
}

/// Why work on a script cannot go on.
#[derive(Debug, Clone, Copy, PartialEq, Eq, Structural)]
pub enum MetadataFault {
    /// The script has no metadata block any more.
    NoBlock,
    /// The part of the metadata that counts for the environment is another.
    Conflict,
}

/// Refuses to go on if the part of a script's metadata that counts for its environment is not
/// what it was. The fingerprints stand for that part; a script that was not read from a file has
/// none to compare.
pub fn check_script_metadata(
    persistent: bool,
    expected: &[u8],
    current: Option<&Vec<u8>>,
) -> (result: Result<(), MetadataFault>)
    ensures
        result is Ok <==> !persistent || (current matches Some(current) && current@ == expected@),
        result matches Err(fault) ==> fault == if current is None {
            MetadataFault::NoBlock
        } else {
            MetadataFault::Conflict
        },
{
    if !persistent {
        return Ok(());
    }
    match current {
        None => Err(MetadataFault::NoBlock),
        Some(current) => if same_bytes(current.as_slice(), expected) {
            Ok(())
        } else {
            Err(MetadataFault::Conflict)
        },
    }
}

} // verus!
