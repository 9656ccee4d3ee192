//! A Python script that carries its own metadata.
use std::path::PathBuf;

use toml_edit::{DocumentMut, Item};
use vstd::prelude::*;
use vstd::utf8::*;

use crate::error::ScriptManifestError;
use crate::ordered::views;
use crate::pyproject::{
    edit_metadata, edit_verdict, edited, edited_document, edited_pixi, edited_project, edits_fit,
    inline_pyproject, inline_verdict, inlined_document, keeps_other_items, pixi_is_usable,
    pyproject_of, with_workspace,
};
use crate::script_block::{
    block_in, holds_block, joined, serialize_metadata, serialized, BlockBytes, BlockFault,
    ScriptBlock,
};
use crate::script_block_laws::{
    block_is_enclosed, encloses, no_stray_returns, written_block_reads_back,
};
use crate::script_header::{extract_script_header, header_of, postlude_of, prelude_of};
use crate::script_metadata::{collect_foreign_root_fields, foreign_root_fields, pixi_of};
use crate::text::{bytes_of, push_text, text_lines};
use crate::toml::{
    clone_document, default_metadata, default_metadata_data, document_data, document_root,
    document_text, fresh_item, get, is_table, is_table_like, item_data, lookup, parse_document,
    place, place_under, placed, print_document, remove, root, root_mut, text_list, toml_data,
    toml_document, with_root, TomlItem,
};

verus! {

/// The stem of a path's file name, where it has one and that is UTF-8.
pub uninterp spec fn utf8_stem(path: PathBuf) -> Option<Seq<char>>;

/// `Path::file_stem` gives the file name without its extension, where the path has one. It is
/// handed on as text, where it is valid UTF-8.
#[verifier::external_body]
fn file_stem(path: &PathBuf) -> (stem: Option<&str>)
    ensures
        match stem {
            Some(stem) => utf8_stem(*path) == Some(stem@),
            None => utf8_stem(*path) is None,
        },
{
    path.file_stem().and_then(|name| name.to_str())
}

/// `<PathBuf as Clone>::clone` gives the same path.
pub assume_specification[ <PathBuf as Clone>::clone ](path: &PathBuf) -> (copy: PathBuf)
    ensures
        copy == *path,
;

/// A path whose file name can name a project.
pub open spec fn names_project(path: PathBuf) -> bool {
    utf8_stem(path) matches Some(stem) && stem.len() > 0
}

/// The name of the project that a script stands for, given the stem of its file name.
pub fn project_name<'a>(stem: Option<&'a str>, path: &PathBuf) -> (result: Result<
    &'a str,
    ScriptManifestError,
>)
    ensures
        match result {
            Ok(name) => stem == Some(name) && name@.len() > 0,
            Err(error) => (stem matches Some(stem) ==> stem@.len() == 0) && error == (
            ScriptManifestError::InvalidFilename { path: *path }),
        },
{
    match stem {
        Some(name) if !name.is_empty() => Ok(name),
        _ => Err(ScriptManifestError::InvalidFilename { path: path.clone() }),
    }
}

/// The name of the project that a script stands for.
pub fn script_name(path: &PathBuf) -> (result: Result<&str, ScriptManifestError>)
    ensures
        match result {
            Ok(name) => names_project(*path) && utf8_stem(*path) == Some(name@),
            Err(error) => !names_project(*path) && error == (ScriptManifestError::InvalidFilename {
                path: *path,
            }),
        },
{
    project_name(file_stem(path), path)
}

/// Which parts of its workspace a script spells out.
#[derive(Debug, Clone, Copy)]
pub struct ScriptWorkspaceConfig {
    pub channels_explicit: bool,
    pub platforms_explicit: bool,
}

/// A pyproject document in its text form, and the script whose directory it is read from.
#[derive(Debug)]
pub struct PyprojectSource {
    pub path: PathBuf,
    pub text: String,
}

/// A Python script with a metadata block.
#[derive(Debug)]
pub struct ScriptManifest {
    path: PathBuf,
    metadata: String,
    prelude: String,
    postlude: String,
}

impl Clone for ScriptManifest {
    fn clone(&self) -> (copy: ScriptManifest)
        ensures
            copy == *self,
    {
        proof {
            use_type_invariant(self);
        }
        ScriptManifest {
            path: self.path.clone(),
            metadata: self.metadata.clone(),
            prelude: self.prelude.clone(),
            postlude: self.postlude.clone(),
        }
    }
}

/// The workspace table of script metadata, under either of its names.
pub open spec fn explicit_workspace(root: TomlItem) -> TomlItem {
    let pixi = pixi_of(root);
    match pixi.child("workspace"@) {
        Some(workspace) => workspace,
        None => match pixi.child("project"@) {
            Some(project) => project,
            None => TomlItem::Empty,
        },
    }
}

/// The metadata that a new script starts with, with its channels and platforms.
pub open spec fn initial_metadata(channels: Seq<String>, platforms: Seq<String>) -> TomlItem {
    let listed = |texts: Seq<String>|
        TomlItem::List(texts.map_values(|text: String| TomlItem::Text(text@)));
    let workspace = TomlItem::Table(Seq::empty()).with_child(
        "channels"@,
        listed(channels),
    ).with_child("platforms"@, listed(platforms));
    let pixi = TomlItem::Table(Seq::empty()).with_child("workspace"@, workspace);
    default_metadata_data().with_child(
        "tool"@,
        TomlItem::Table(Seq::empty()).with_child("pixi"@, pixi),
    )
}

/// The root of a document with a list under a key of its pixi workspace.
pub open spec fn in_workspace(root: Item, key: Seq<char>, texts: Seq<String>) -> Item {
    let list = fresh_item(TomlItem::List(texts.map_values(|text: String| TomlItem::Text(text@))));
    let tool = place_under(root, "tool"@);
    let pixi = place_under(tool, "pixi"@);
    let workspace = place_under(pixi, "workspace"@);
    placed(
        root,
        "tool"@,
        placed(tool, "pixi"@, placed(pixi, "workspace"@, placed(workspace, key, list))),
    )
}

/// The document of the metadata that a new script starts with: that of the text which all new
/// scripts start with, with the channels and platforms put in.
pub open spec fn initial_document(channels: Seq<String>, platforms: Seq<String>) -> DocumentMut {
    let document = toml_document(default_metadata())->Some_0;
    let root = in_workspace(document_root(document), "channels"@, channels);
    with_root(document, in_workspace(root, "platforms"@, platforms))
}

/// The script whose metadata block, between these two texts, holds a document.
pub open spec fn script_around(
    prelude: Seq<u8>,
    document: DocumentMut,
    postlude: Seq<u8>,
) -> Seq<u8> {
    prelude + serialized(bytes_of(document_text(document))) + postlude
}

impl ScriptManifest {
    /// The metadata is TOML, and a metadata block can be put back between the texts around it.
    #[verifier::type_invariant]
    spec fn is_whole(self) -> bool {
        &&& toml_data(self.metadata@) is Some
        &&& encloses(bytes_of(self.prelude@), bytes_of(self.postlude@))
        &&& !holds_block(text_lines(bytes_of(self.postlude@)))
    }

    /// Where the script is.
    pub closed spec fn script_path(self) -> PathBuf {
        self.path
    }

    /// The text of the metadata.
    pub closed spec fn metadata_text(self) -> Seq<char> {
        self.metadata@
    }

    /// The bytes of the metadata and of what stands around its block.
    pub closed spec fn parts(self) -> BlockBytes {
        BlockBytes {
            prelude: bytes_of(self.prelude@),
            metadata: bytes_of(self.metadata@),
            postlude: bytes_of(self.postlude@),
        }
    }

    /// The metadata is the text of the block's bytes.
    pub proof fn metadata_is_its_bytes(self)
        ensures
            self.parts().metadata == bytes_of(self.metadata_text()),
    {
    }

    /// Where the script is.
    pub fn path(&self) -> (path: &PathBuf)
        ensures
            *path == self.script_path(),
    {
        &self.path
    }

    /// The text of the metadata.
    pub fn metadata(&self) -> (metadata: &str)
        ensures
            metadata@ == self.metadata_text(),
    {
        self.metadata.as_str()
    }

    /// Reads the metadata block from the contents of the script at an absolute path.
    pub fn from_path(path: PathBuf, contents: &[u8]) -> (result: Result<
        Option<ScriptManifest>,
        ScriptManifestError,
    >)
        ensures
            match block_in(contents@) {
                Ok(Some(parts)) => match toml_data(decode_utf8(parts.metadata)) {
                    Some(_) => result matches Ok(Some(script)) && script.script_path() == path
                        && script.parts() == parts,
                    None => result matches Err(ScriptManifestError::TomlEdit(_)),
                },
                Ok(None) => result matches Ok(None),
                Err(_) => result matches Err(error) && ScriptBlock::parses_to(
                    contents@,
                    Err(error),
                ),
            },
    {
        let block = match ScriptBlock::parse(contents) {
            Ok(Some(block)) => block,
            Ok(None) => return Ok(None),
            Err(error) => return Err(error),
        };
        proof {
            encode_utf8_decode_utf8(block.metadata@);
            block_is_enclosed(contents@);
        }
        match parse_document(block.metadata.as_str()) {
            Ok(_) => {},
            Err(error) => return Err(ScriptManifestError::TomlEdit(error)),
        }
        Ok(
            Some(
                ScriptManifest {
                    path,
                    metadata: block.metadata,
                    prelude: block.prelude,
                    postlude: block.postlude,
                },
            ),
        )
    }

    /// The metadata as a document.
    pub fn metadata_document(&self) -> (result: Result<DocumentMut, ScriptManifestError>)
        ensures
            result matches Ok(document) && toml_document(self.metadata_text()) == Some(document)
                && toml_data(self.metadata_text()) == Some(document_data(document))
                && document_data(document) is Table,
    {
        proof {
            use_type_invariant(self);
        }
        match parse_document(self.metadata.as_str()) {
            Ok(document) => Ok(document),
            Err(error) => Err(ScriptManifestError::TomlEdit(error)),
        }
    }

    /// Which parts of its workspace the script spells out.
    pub fn workspace_config(&self) -> (result: Result<ScriptWorkspaceConfig, ScriptManifestError>)
        ensures
            result matches Ok(config) && (toml_data(self.metadata_text()) matches Some(root)
                && config.channels_explicit == (explicit_workspace(root).child(
                "channels"@,
            ) is Some) && config.platforms_explicit == (explicit_workspace(root).child(
                "platforms"@,
            ) is Some)),
    {
        let metadata = match self.metadata_document() {
            Ok(metadata) => metadata,
            Err(error) => return Err(error),
        };
        let pixi = match get(root(&metadata), "tool") {
            Some(tool) => get(tool, "pixi"),
            None => None,
        };
        let workspace = match pixi {
            Some(pixi) => match get(pixi, "workspace") {
                Some(workspace) => Some(workspace),
                None => get(pixi, "project"),
            },
            None => None,
        };
        match workspace {
            Some(workspace) => Ok(
                ScriptWorkspaceConfig {
                    channels_explicit: get(workspace, "channels").is_some(),
                    platforms_explicit: get(workspace, "platforms").is_some(),
                },
            ),
            None => Ok(
                ScriptWorkspaceConfig { channels_explicit: false, platforms_explicit: false },
            ),
        }
    }

    /// Puts a metadata block into the contents of a script, which are empty for a new one, and
    /// returns what to write to the absolute path.
    pub fn initialize(
        path: PathBuf,
        contents: &[u8],
        channels: &[String],
        platforms: &[String],
    ) -> (result: Result<String, ScriptManifestError>)
        ensures
            if !names_project(path) {
                result == Err::<String, _>(ScriptManifestError::InvalidFilename { path })
            } else {
                match block_in(contents@) {
                    Err(_) => result matches Err(error) && ScriptBlock::parses_to(
                        contents@,
                        Err(error),
                    ),
                    Ok(Some(_)) => result == Err::<String, _>(
                        ScriptManifestError::AlreadyInitialized { path },
                    ),
                    Ok(None) => if valid_utf8(contents@) {
                        let document = initial_document(channels@, platforms@);
                        result matches Ok(output) && bytes_of(output@) == script_around(
                            prelude_of(header_of(contents@)),
                            document,
                            postlude_of(header_of(contents@)),
                        ) && document_data(document) == initial_metadata(channels@, platforms@)
                    } else {
                        result matches Err(ScriptManifestError::Utf8(_))
                    },
                }
            },
    {
        match script_name(&path) {
            Ok(_) => {},
            Err(error) => return Err(error),
        }
        match ScriptBlock::parse(contents) {
            Ok(Some(_)) => return Err(ScriptManifestError::AlreadyInitialized { path }),
            Ok(None) => {},
            Err(error) => return Err(error),
        }
        let (mark, shebang, body) = match extract_script_header(contents) {
            Ok(header) => header,
            Err(error) => return Err(error),
        };
        let metadata = match Self::new_metadata(channels, platforms) {
            Ok(metadata) => metadata,
            Err(error) => return Err(error),
        };
        let ghost header = header_of(contents@);
        let mut output = String::new();
        push_text(&mut output, mark);
        match shebang {
            Some(shebang) => {
                push_text(&mut output, shebang);
                push_text(&mut output, "\n#\n");
            },
            None => {},
        }
        assert(bytes_of(output@) =~= prelude_of(header));
        push_text(&mut output, serialize_metadata(print_document(&metadata).as_str()).as_str());
        let ghost front = bytes_of(output@);
        if !body.is_empty() {
            push_text(&mut output, "\n");
            push_text(&mut output, body);
            proof {
                crate::script_block::lemma_literals();
                if header.body.len() == 0 {
                    crate::text::lemma_same_bytes(body@, Seq::empty());
                }
            }
            assert(bytes_of(output@) =~= front + postlude_of(header));
        } else {
            assert(body@ =~= Seq::<char>::empty());
            assert(bytes_of(output@) =~= front + postlude_of(header));
        }
        Ok(output)
    }

    /// The metadata document of a new script.
    fn new_metadata(channels: &[String], platforms: &[String]) -> (result: Result<
        DocumentMut,
        ScriptManifestError,
    >)
        ensures
            result matches Ok(document) && document == initial_document(channels@, platforms@)
                && document_data(document) == initial_metadata(channels@, platforms@)
                && document_data(document) is Table,
    {
        let mut metadata = match parse_document(
            "requires-python = \">= 3.11\"\ndependencies = []\n\n[tool.pixi.workspace]\n",
        ) {
            Ok(metadata) => metadata,
            Err(error) => return Err(ScriptManifestError::TomlEdit(error)),
        };
        let fields = root_mut(&mut metadata);
        proof {
            lemma_default_children();
        }
        let ghost data = default_metadata_data();
        let ghost empty = TomlItem::Table(Seq::empty());
        let ghost listed = TomlItem::List(
            channels@.map_values(|text: String| TomlItem::Text(text@)),
        );
        let ghost workspace = empty.with_child("channels"@, listed);
        let ghost pixi = empty.with_child("workspace"@, workspace);
        let ghost tool = empty.with_child("pixi"@, pixi);
        *place(place(place(place(fields, "tool"), "pixi"), "workspace"), "channels") = text_list(
            channels,
        );
        assert(item_data(*fields) == data.with_child("tool"@, tool));
        proof {
            empty.lemma_child_with("workspace"@, workspace, "workspace"@);
            empty.lemma_child_with("pixi"@, pixi, "pixi"@);
            data.lemma_child_with("tool"@, tool, "tool"@);
            let full = workspace.with_child(
                "platforms"@,
                TomlItem::List(platforms@.map_values(|text: String| TomlItem::Text(text@))),
            );
            let full_pixi = empty.with_child("workspace"@, full);
            let full_tool = empty.with_child("pixi"@, full_pixi);
            empty.lemma_with_twice("workspace"@, workspace, full);
            empty.lemma_with_twice("pixi"@, pixi, full_pixi);
            data.lemma_with_twice("tool"@, tool, full_tool);
            data.lemma_child_with("tool"@, full_tool, "tool"@);
        }
        *place(place(place(place(fields, "tool"), "pixi"), "workspace"), "platforms") = text_list(
            platforms,
        );
        Ok(metadata)
    }

    /// The pyproject document for the metadata can be made: where that has no foreign fields at
    /// its root, its `tool.pixi` is a table or missing.
    pub open spec fn is_inlinable(self) -> bool {
        toml_data(self.metadata_text()) matches Some(root) ==> foreign_root_fields(root).len() > 0
            || pixi_is_usable(root)
    }

    /// The pyproject document that the script stands for, where there is one.
    pub open spec fn inlined(self) -> DocumentMut {
        inlined_document(
            toml_document(self.metadata_text())->Some_0,
            utf8_stem(self.script_path())->Some_0,
        )
    }

    /// `result` is the pyproject document that the script stands for, or the reason why there is
    /// none.
    pub open spec fn inlines_to(self, result: Result<DocumentMut, ScriptManifestError>) -> bool {
        if !names_project(self.script_path()) {
            result == Err::<DocumentMut, _>(
                ScriptManifestError::InvalidFilename { path: self.script_path() },
            )
        } else {
            match toml_data(self.metadata_text()) {
                Some(root) => inline_verdict(root, utf8_stem(self.script_path())->Some_0, result)
                    && (result matches Ok(document) ==> document == self.inlined()),
                None => result matches Err(ScriptManifestError::TomlEdit(_)),
            }
        }
    }

    /// Presents the metadata as a pyproject document that manifest editors can work on.
    pub fn pyproject_document(&self) -> (result: Result<DocumentMut, ScriptManifestError>)
        requires
            names_project(self.script_path()) ==> self.is_inlinable(),
        ensures
            self.inlines_to(result),
    {
        match script_name(&self.path) {
            Ok(name) => inline_pyproject(self.metadata.as_str(), name),
            Err(error) => Err(error),
        }
    }

    /// Presents the metadata as a pyproject document, unless that cannot be made.
    pub fn checked_pyproject_document(&self) -> (result: Option<
        Result<DocumentMut, ScriptManifestError>,
    >)
        ensures
            match result {
                Some(result) => (names_project(self.script_path()) ==> self.is_inlinable())
                    && self.inlines_to(result),
                None => names_project(self.script_path()) && !self.is_inlinable(),
            },
    {
        if script_name(&self.path).is_ok() {
            match self.metadata_document() {
                Ok(document) => {
                    if collect_foreign_root_fields(root(&document)).len() == 0 {
                        assert(views(Seq::<String>::empty()).len() == 0);
                        let pixi = match get(root(&document), "tool") {
                            Some(tool) => get(tool, "pixi"),
                            None => None,
                        };
                        match pixi {
                            Some(pixi) => {
                                if !is_table_like(pixi) {
                                    return None;
                                }
                            },
                            None => {},
                        }
                    }
                },
                Err(_) => {},
            }
        }
        Some(self.pyproject_document())
    }

    /// Hands the pyproject document on in its text form, to be read with the semantics of a
    /// `pyproject.toml` in the script's directory.
    pub fn into_workspace_manifest(self) -> (result: Result<PyprojectSource, ScriptManifestError>)
        requires
            names_project(self.script_path()) ==> self.is_inlinable(),
        ensures
            match result {
                Ok(source) => source.path == self.script_path() && self.inlines_to(
                    Ok(self.inlined()),
                ) && source.text@ == document_text(self.inlined()),
                Err(error) => self.inlines_to(Err(error)),
            },
    {
        match self.pyproject_document() {
            Ok(document) => {
                assert(document_data(document) is Table) by {
                    let root = toml_data(self.metadata_text())->Some_0;
                    lemma_pyproject_is_table(root, utf8_stem(self.script_path())->Some_0);
                }
                let text = print_document(&document);
                Ok(PyprojectSource { path: self.path, text })
            },
            Err(error) => Err(error),
        }
    }

    /// Hands the pyproject document on in its text form, unless it cannot be made.
    pub fn checked_workspace_manifest(self) -> (result: Option<
        Result<PyprojectSource, ScriptManifestError>,
    >)
        ensures
            match result {
                Some(Ok(source)) => source.path == self.script_path() && self.inlines_to(
                    Ok(self.inlined()),
                ) && source.text@ == document_text(self.inlined()),
                Some(Err(error)) => self.inlines_to(Err(error)),
                None => names_project(self.script_path()) && !self.is_inlinable(),
            },
    {
        if self.checked_pyproject_document().is_none() {
            return None;
        }
        Some(self.into_workspace_manifest())
    }

    /// The script with this metadata in place of its own, and the Python around it as it was.
    pub fn write_metadata(&self, metadata: &DocumentMut) -> (contents: String)
        requires
            document_data(*metadata) is Table,
        ensures
            bytes_of(contents@) == script_around(
                self.parts().prelude,
                *metadata,
                self.parts().postlude,
            ),
            no_stray_returns(bytes_of(document_text(*metadata))) ==> block_in(bytes_of(contents@))
                == Ok::<Option<BlockBytes>, BlockFault>(
                Some(
                    BlockBytes {
                        metadata: joined(text_lines(bytes_of(document_text(*metadata)))),
                        ..self.parts()
                    },
                ),
            ),
    {
        proof {
            use_type_invariant(self);
            let text = document_text(*metadata);
            encode_utf8_valid_utf8(text);
            if no_stray_returns(bytes_of(text)) {
                written_block_reads_back(
                    self.parts().prelude,
                    bytes_of(text),
                    self.parts().postlude,
                );
            }
        }
        let mut contents = self.prelude.clone();
        push_text(&mut contents, serialize_metadata(print_document(metadata).as_str()).as_str());
        push_text(&mut contents, self.postlude.as_str());
        contents
    }

    /// The edits in a pyproject document can be brought back into the metadata.
    pub open spec fn takes_edits(self, pyproject: TomlItem) -> bool {
        &&& pyproject is Table
        &&& edited_project(pyproject) is Some ==> (toml_data(self.metadata_text()) matches Some(
            root,
        ) ==> edits_fit(root, pyproject))
    }

    /// `result` is the script with the edits of a pyproject document in its metadata, or the
    /// reason why there is none.
    pub open spec fn renders_to(
        self,
        pyproject: DocumentMut,
        result: Result<String, ScriptManifestError>,
    ) -> bool {
        let edits = document_data(pyproject);
        match result {
            Ok(contents) => edited_project(edits) is Some && (toml_data(
                self.metadata_text(),
            ) matches Some(root) && toml_document(self.metadata_text()) matches Some(parsed) && {
                let document = edited_document(parsed, pyproject);
                &&& bytes_of(contents@) == script_around(
                    self.parts().prelude,
                    document,
                    self.parts().postlude,
                )
                &&& document_data(document) == edited(root, edits)
                &&& keeps_other_items(document_root(parsed), document_root(document))
            }),
            Err(error) => edit_verdict(toml_data(self.metadata_text()), edits, Err(error)),
        }
    }

    /// Renders changes that were made to the pyproject document back into the script.
    pub fn render_pyproject_document(&self, pyproject: &DocumentMut) -> (result: Result<
        String,
        ScriptManifestError,
    >)
        requires
            self.takes_edits(document_data(*pyproject)),
        ensures
            self.renders_to(*pyproject, result),
    {
        match edit_metadata(self.metadata.as_str(), pyproject) {
            Ok(metadata) => Ok(self.write_metadata(&metadata)),
            Err(error) => Err(error),
        }
    }

    /// Renders changes that were made to the pyproject document back into the script, unless
    /// the metadata cannot take them.
    pub fn checked_render_pyproject_document(&self, pyproject: &DocumentMut) -> (result: Option<
        Result<String, ScriptManifestError>,
    >)
        ensures
            match result {
                Some(result) => self.takes_edits(document_data(*pyproject)) && self.renders_to(
                    *pyproject,
                    result,
                ),
                None => !self.takes_edits(document_data(*pyproject)),
            },
    {
        let ghost edits = document_data(*pyproject);
        if !is_table(root(pyproject)) {
            return None;
        }
        let mut copy = clone_document(pyproject);
        let source = root_mut(&mut copy);
        let project = match remove(source, "project") {
            Some(project) => is_table_like(&project),
            None => false,
        };
        assert(project == (edited_project(edits) is Some));
        if project {
            proof {
                lemma_edit_keys();
                edits.lemma_child_without("project"@, "tool"@);
            }
            let (held, kept) = match get(source, "tool") {
                Some(tool) => {
                    let shown = get(tool, "pixi").is_some();
                    (remove(place(source, "tool"), "pixi").is_some(), shown)
                },
                None => (false, false),
            };
            assert(held == (edited_pixi(edits) is Some));
            if held {
                match self.metadata_document() {
                    Ok(metadata) => match get(root(&metadata), "tool") {
                        Some(tool) => {
                            if !is_table_like(tool) || (!is_table(tool) && !kept) {
                                return None;
                            }
                        },
                        None => {},
                    },
                    Err(_) => {},
                }
            }
        }
        Some(self.render_pyproject_document(pyproject))
    }
}

/// The keys of an edited document are different keys.
proof fn lemma_edit_keys()
    ensures
        "project"@ != "tool"@,
{
    reveal_strlit("project");
    reveal_strlit("tool");
    assert("project"@.len() == 7);
    assert("tool"@.len() == 4);
}

/// The root of a pyproject document is a table.
proof fn lemma_pyproject_is_table(metadata: TomlItem, name: Seq<char>)
    ensures
        with_workspace(pyproject_of(metadata, name)) is Table,
{
}

/// What the metadata of a new script has under its keys.
proof fn lemma_default_children()
    ensures
        ({
            let empty = TomlItem::Table(Seq::empty());
            let pixi = empty.with_child("workspace"@, empty);
            let tool = empty.with_child("pixi"@, pixi);
            &&& default_metadata_data().child("tool"@) == Some(tool)
            &&& tool.child("pixi"@) == Some(pixi)
            &&& pixi.child("workspace"@) == Some(empty)
            &&& empty.child("channels"@) is None
            &&& forall|item: TomlItem| #[trigger]
                pixi.with_child("workspace"@, item) == empty.with_child("workspace"@, item)
            &&& forall|item: TomlItem| #[trigger]
                tool.with_child("pixi"@, item) == empty.with_child("pixi"@, item)
        }),
{
    let empty = TomlItem::Table(Seq::empty());
    let pixi = empty.with_child("workspace"@, empty);
    let tool = empty.with_child("pixi"@, pixi);
    reveal_strlit("requires-python");
    reveal_strlit("dependencies");
    reveal_strlit("tool");
    assert("requires-python"@.len() == 15);
    assert("dependencies"@.len() == 12);
    assert("tool"@.len() == 4);
    empty.lemma_child_with("workspace"@, empty, "workspace"@);
    empty.lemma_child_with("pixi"@, pixi, "pixi"@);
    assert(pixi->Table_0 =~= seq![("workspace"@, empty)]);
    assert(tool->Table_0 =~= seq![("pixi"@, pixi)]);
    let all = default_metadata_data()->Table_0;
    assert(all.drop_first().drop_first()[0] == ("tool"@, tool));
    assert(lookup(all.drop_first().drop_first(), "tool"@) == Some(tool));
    assert(lookup(all.drop_first(), "tool"@) == Some(tool));
    assert forall|item: TomlItem| #[trigger]
        pixi.with_child("workspace"@, item) == empty.with_child("workspace"@, item) by {
        empty.lemma_with_twice("workspace"@, empty, item);
    }
    assert forall|item: TomlItem| #[trigger]
        tool.with_child("pixi"@, item) == empty.with_child("pixi"@, item) by {
        empty.lemma_with_twice("pixi"@, pixi, item);
    }
}

} // verus!
