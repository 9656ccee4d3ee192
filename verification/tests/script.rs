//! Reading, writing and editing the metadata of scripts.
use std::path::PathBuf;

use pixi_script::error::ScriptManifestError;
use pixi_script::manifest::{project_name, script_name, ScriptManifest};
use pixi_script::script_block::{
    reject_duplicate_block, serialize_metadata, without_line_ending, ScriptBlock,
};
use pixi_script::script_header::extract_script_header;
use toml_edit::{value, DocumentMut, Item, Table};

fn path() -> PathBuf {
    PathBuf::from("/scripts/example.py")
}

fn script(source: &str) -> ScriptManifest {
    ScriptManifest::from_path(path(), source.as_bytes()).unwrap().unwrap()
}

fn owned(texts: &[&str]) -> Vec<String> {
    texts.iter().map(|text| text.to_string()).collect()
}

#[test]
fn initializes_a_script_without_replacing_its_python() {
    let output = ScriptManifest::initialize(
        path(),
        b"#!/usr/bin/env python\r\nprint('hello')\r\n",
        &owned(&["conda-forge"]),
        &owned(&["linux-64"]),
    )
    .unwrap();

    assert_eq!(
        output,
        r#"#!/usr/bin/env python
#
# /// script
# requires-python = ">= 3.11"
# dependencies = []
#
# [tool.pixi.workspace]
# channels = ["conda-forge"]
# platforms = ["linux-64"]
# ///

print('hello')"#
            .to_owned()
            + "\r\n"
    );
    assert_eq!(script(&output).path(), &path());
}

#[test]
fn initializing_preserves_a_utf8_bom_at_the_start_of_the_script() {
    let contents = ScriptManifest::initialize(
        path(),
        "\u{feff}print('hello')\r\n".as_bytes(),
        &[],
        &owned(&["linux-64"]),
    )
    .unwrap();

    assert!(contents.starts_with("\u{feff}# /// script\n"));
    assert_eq!(contents.matches('\u{feff}').count(), 1);
    assert!(contents.ends_with("\n\nprint('hello')\r\n"));

    assert!(matches!(
        ScriptManifest::initialize(path(), contents.as_bytes(), &[], &[]),
        Err(ScriptManifestError::AlreadyInitialized { .. })
    ));
}

#[test]
fn initializes_a_new_script_and_its_parent_directory() {
    assert_eq!(
        ScriptManifest::initialize(path(), b"", &[], &owned(&["osx-arm64"])).unwrap(),
        r#"# /// script
# requires-python = ">= 3.11"
# dependencies = []
#
# [tool.pixi.workspace]
# channels = []
# platforms = ["osx-arm64"]
# ///
"#
    );
}

#[test]
fn refuses_to_initialize_an_existing_script_manifest() {
    assert!(matches!(
        ScriptManifest::initialize(
            path(),
            b"# /// script\n# dependencies = []\n# ///\n",
            &[],
            &[]
        ),
        Err(ScriptManifestError::AlreadyInitialized { .. })
    ));
}

#[test]
fn parses_standard_and_pixi_dependencies_with_pyproject_semantics() {
    let source = r#"#!/usr/bin/env python
# /// script
# requires-python = ">=3.11"
# dependencies = ["requests>=2"]
#
# [tool.pixi.workspace]
# channels = ["conda-forge"]
# platforms = ["linux-64"]
#
# [tool.pixi.dependencies]
# python = "3.12.*"
# zlib = "*"
#
# [tool.some-future-runner]
# option = true
# ///
print("hello")
"#;
    let manifest = script(source).into_workspace_manifest().unwrap();
    assert_eq!(manifest.path, path());
    let pyproject = manifest.text.parse::<DocumentMut>().unwrap();
    assert_eq!(pyproject["project"]["name"].as_str(), Some("example"));
    assert_eq!(pyproject["project"]["requires-python"].as_str(), Some(">=3.11"));
    let texts = |item: &Item| {
        item.as_array()
            .unwrap()
            .iter()
            .map(|text| text.as_str().unwrap().to_owned())
            .collect::<Vec<_>>()
    };
    let pixi = &pyproject["tool"]["pixi"];
    assert_eq!(texts(&pixi["workspace"]["platforms"]), ["linux-64"]);
    assert_eq!(texts(&pixi["workspace"]["channels"]), ["conda-forge"]);
    assert_eq!(pixi["dependencies"]["python"].as_str(), Some("3.12.*"));
    assert_eq!(pixi["dependencies"]["zlib"].as_str(), Some("*"));
    assert_eq!(texts(&pyproject["project"]["dependencies"]), ["requests>=2"]);
    assert!(pyproject["tool"].get("some-future-runner").is_none());
}

#[test]
fn an_empty_standard_script_gets_one_implicit_workspace() {
    let manifest = script(
        r#"# /// script
# dependencies = []
# ///
print("hello")
"#,
    )
    .into_workspace_manifest()
    .unwrap();
    let pyproject = manifest.text.parse::<DocumentMut>().unwrap();

    assert_eq!(pyproject["project"]["name"].as_str(), Some("example"));
    let pixi = pyproject["tool"]["pixi"].as_table().unwrap();
    assert_eq!(pixi.iter().map(|(key, _)| key).collect::<Vec<_>>(), ["workspace"]);
    assert!(pixi["workspace"]["channels"].as_array().unwrap().is_empty());
    assert!(pixi["workspace"]["platforms"].as_array().unwrap().is_empty());
}

#[test]
fn preserves_the_pyproject_project_alias() {
    let script = script(
        r#"# /// script
# dependencies = []
#
# [tool.pixi.project]
# channels = ["conda-forge"]
# platforms = ["linux-64"]
# ///
"#,
    );
    let config = script.workspace_config().unwrap();
    assert!(config.channels_explicit);
    assert!(config.platforms_explicit);
    let pyproject = script
        .into_workspace_manifest()
        .unwrap()
        .text
        .parse::<DocumentMut>()
        .unwrap();

    let pixi = &pyproject["tool"]["pixi"];
    assert_eq!(pixi["project"]["channels"].as_array().unwrap().len(), 1);
    assert_eq!(pixi["project"]["platforms"].as_array().unwrap().len(), 1);
    assert!(pixi.get("workspace").is_none());
}

#[test]
fn rejects_workspace_only_concepts() {
    let error = script(
        r#"# /// script
# dependencies = []
#
# [tool.pixi.target.linux-64.tasks]
# test = "pytest"
#
# [tool.pixi.feature.test.dependencies]
# pytest = "*"
#
# [tool.pixi.target.linux-64.host-dependencies]
# python = "*"
# ///
"#,
    )
    .into_workspace_manifest()
    .unwrap_err();
    let ScriptManifestError::UnsupportedFields(fields) = error else {
        panic!("unexpected error: {error:?}");
    };
    assert_eq!(
        fields,
        [
            "tool.pixi.feature",
            "tool.pixi.target.linux-64.host-dependencies",
            "tool.pixi.target.linux-64.tasks"
        ]
    );
}

#[test]
fn rejects_invalid_and_duplicate_blocks() {
    assert!(matches!(
        ScriptManifest::from_path(
            path(),
            br#"# /// script
# dependencies = []
print("hello")
"#
        ),
        Err(ScriptManifestError::UnclosedBlock)
    ));

    assert!(matches!(
        ScriptManifest::from_path(
            path(),
            br#"# /// script
# dependencies = []
# ///
print("first")
# /// script
# dependencies = []
# ///
"#
        ),
        Err(ScriptManifestError::DuplicateBlock)
    ));
}

#[test]
fn metadata_edits_preserve_the_python_and_other_tools() {
    let script = script(
        r#"#!/usr/bin/env -S uv run --script
# /// script
# dependencies = ["requests"]
#
# [tool.uv]
# prerelease = "allow"
# ///

print("hello")
"#,
    );
    let mut metadata = script.metadata_document().unwrap();
    metadata["dependencies"].as_array_mut().unwrap().push("rich");

    assert_eq!(
        script.write_metadata(&metadata),
        r#"#!/usr/bin/env -S uv run --script
# /// script
# dependencies = ["requests", "rich"]
#
# [tool.uv]
# prerelease = "allow"
# ///

print("hello")
"#
    );
}

#[test]
fn metadata_edits_preserve_bom_crlf_and_missing_final_newline() {
    let script = script(
        "\u{feff}#!/usr/bin/env python\r\n# /// script\r\n# dependencies = []\r\n# ///\r\n\r\nprint('first')\r\nprint('last')",
    );
    let mut pyproject = script.pyproject_document().unwrap();
    pyproject["project"]["dependencies"]
        .as_array_mut()
        .unwrap()
        .push("requests");

    let contents = script.render_pyproject_document(&pyproject).unwrap();

    assert!(contents.starts_with("\u{feff}#!/usr/bin/env python\r\n# /// script\n"));
    assert!(contents.contains("# dependencies = [\"requests\"]\n"));
    assert!(contents.ends_with("\r\nprint('first')\r\nprint('last')"));
    assert!(!contents.ends_with('\n'));
}

#[test]
fn pyproject_edits_round_trip_through_script_metadata() {
    let script = script(
        r#"# /// script
# requires-python = ">= 3.11"
# dependencies = ["requests"]
#
# [tool.uv]
# prerelease = "allow"
#
# [tool.pixi.workspace]
# channels = ["conda-forge"]
# platforms = ["linux-64"]
# ///
print("hello")
"#,
    );
    let mut pyproject = script.pyproject_document().unwrap();
    pyproject["project"]["dependencies"]
        .as_array_mut()
        .unwrap()
        .push("rich");
    pyproject["tool"]["pixi"]["dependencies"] = Item::Table(Table::new());
    pyproject["tool"]["pixi"]["dependencies"]["python"] = value("*");

    assert_eq!(
        script.render_pyproject_document(&pyproject).unwrap(),
        r#"# /// script
# requires-python = ">= 3.11"
# dependencies = ["requests", "rich"]
#
# [tool.uv]
# prerelease = "allow"
#
# [tool.pixi.workspace]
# channels = ["conda-forge"]
# platforms = ["linux-64"]
#
# [tool.pixi.dependencies]
# python = "*"
# ///
print("hello")
"#
    );
}

#[test]
fn a_new_script_keeps_the_rules() {
    let output =
        ScriptManifest::initialize(path(), b"print()\n", &owned(&["a", "b"]), &[]).unwrap();
    let script = script(&output);
    let config = script.workspace_config().unwrap();
    assert!(config.channels_explicit && config.platforms_explicit);
    let pyproject = script.pyproject_document().unwrap();
    let workspace = &pyproject["tool"]["pixi"]["workspace"];
    assert_eq!(workspace["channels"].as_array().unwrap().len(), 2);
    assert!(workspace["platforms"].as_array().unwrap().is_empty());
}

#[test]
fn edits_keep_comments_and_layout() {
    let script = script(
        r#"# /// script
# # The oldest that works.
# requires-python   = ">= 3.11"
# dependencies = []
#
# # Not ours.
# [tool.uv] # kept
# prerelease   = "allow" # too
#
# [tool.pixi.workspace]
# channels = [ "conda-forge" ] # one
# platforms = ["linux-64"]
# ///
"#,
    );
    let mut pyproject = script.pyproject_document().unwrap();
    pyproject["project"]["dependencies"].as_array_mut().unwrap().push("rich");
    assert_eq!(
        script.render_pyproject_document(&pyproject).unwrap(),
        r#"# /// script
# # The oldest that works.
# requires-python   = ">= 3.11"
# dependencies = ["rich"]
#
# # Not ours.
# [tool.uv] # kept
# prerelease   = "allow" # too
#
# [tool.pixi.workspace]
# channels = [ "conda-forge" ] # one
# platforms = ["linux-64"]
# ///
"#
    );
}

#[test]
fn an_unedited_document_changes_nothing() {
    let source = r#"# /// script
# requires-python = ">= 3.11"
# dependencies = ["requests"]
#
# [tool.pixi.workspace]
# channels = ["conda-forge"]
# platforms = ["linux-64"]
#
# [tool.uv]
# prerelease = "allow"
# ///
print("hello")
"#;
    let script = script(source);
    let pyproject = script.pyproject_document().unwrap();
    assert_eq!(script.render_pyproject_document(&pyproject).unwrap(), source);
    assert_eq!(script.clone().metadata(), script.metadata());
}

#[test]
fn a_block_is_found_only_on_a_line_of_its_own() {
    let parse = |source: &str| ScriptBlock::parse(source.as_bytes()).unwrap();
    assert!(parse("print('no metadata')\n").is_none());
    assert!(parse("x = '# /// script'\n").is_none());
    assert!(parse("# /// scripts\n# ///\n").is_none());

    let block = parse("# /// script\n# ///\n").unwrap();
    assert_eq!((block.prelude.as_str(), block.metadata.as_str()), ("", "\n"));
    assert_eq!(block.postlude, "");

    let block = parse("import os\r# /// script\n#\n# a = 1\n# ///\n# ///\n#b\nend").unwrap();
    assert_eq!(block.prelude, "import os\r");
    assert_eq!(block.metadata, "\na = 1\n///\n");
    assert_eq!(block.postlude, "#b\nend");
}

#[test]
fn a_block_must_be_valid_utf8() {
    assert!(matches!(
        ScriptBlock::parse(b"# /// script\n# ///\n\xff"),
        Err(ScriptManifestError::Utf8(_))
    ));
    assert!(matches!(
        ScriptBlock::parse(b"\xff\n# /// script\n# ///\n"),
        Err(ScriptManifestError::Utf8(_))
    ));
    assert!(matches!(ScriptBlock::parse(b"\xff"), Ok(None)));
    assert!(matches!(
        ScriptManifest::initialize(path(), b"\xff", &[], &[]),
        Err(ScriptManifestError::Utf8(_))
    ));
}

#[test]
fn only_a_closed_second_block_is_a_duplicate() {
    assert!(reject_duplicate_block(&vec!["# /// script", "# a", "#b", "# ///"]).is_ok());
    assert!(reject_duplicate_block(&vec!["# /// script", "print()", "# ///"]).is_ok());
    assert!(matches!(
        reject_duplicate_block(&vec!["x", "# /// script", "#", "# ///"]),
        Err(ScriptManifestError::DuplicateBlock)
    ));
}

#[test]
fn line_endings_are_taken_off() {
    assert_eq!(without_line_ending("a\r\n"), "a");
    assert_eq!(without_line_ending("a\n"), "a");
    assert_eq!(without_line_ending("a\r"), "a");
    assert_eq!(without_line_ending("a\n\r"), "a\n");
    assert_eq!(without_line_ending(""), "");
}

#[test]
fn written_metadata_is_read_back() {
    let metadata = "a = 1\n\n# comment\n///\n";
    let written = serialize_metadata(metadata);
    assert_eq!(written, "# /// script\n# a = 1\n#\n# # comment\n# ///\n# ///\n");
    let block = ScriptBlock::parse(written.as_bytes()).unwrap().unwrap();
    assert_eq!(block.metadata, metadata);
    assert_eq!(serialize_metadata(&block.metadata), written);
}

#[test]
fn a_script_that_is_written_back_unchanged_reads_the_same() {
    let source = "# first\n# /// script\n# dependencies = [\"a\"]\n# ///\n\nprint()\n";
    let script = script(source);
    let written = script.write_metadata(&script.metadata_document().unwrap());
    assert_eq!(written, source);
}

#[test]
fn a_header_is_taken_apart() {
    let header = |source| extract_script_header(source).unwrap();
    assert_eq!(header(b"print()".as_slice()), ("", None, "print()"));
    assert_eq!(header(b"#!python\nprint()".as_slice()), ("", Some("#!python"), "print()"));
    assert_eq!(header(b"#!python\r\n\nprint()".as_slice()), ("", Some("#!python"), "\nprint()"));
    assert_eq!(header(b"#!python\rprint()".as_slice()), ("", Some("#!python"), "print()"));
    assert_eq!(
        header("\u{feff}#!python".as_bytes()),
        ("\u{feff}", Some("#!python"), "")
    );
    assert!(matches!(
        extract_script_header(b"\xff"),
        Err(ScriptManifestError::Utf8(_))
    ));
}

#[test]
fn a_second_block_in_the_body_shows_after_initializing() {
    let source = "x = '# /// script'\n# /// script\n# a\n# ///\n";
    let output = ScriptManifest::initialize(path(), source.as_bytes(), &[], &[]).unwrap();
    assert!(matches!(
        ScriptManifest::from_path(path(), output.as_bytes()),
        Err(ScriptManifestError::DuplicateBlock)
    ));
}

#[test]
fn a_script_must_have_a_name() {
    assert_eq!(script_name(&path()).unwrap(), "example");
    assert_eq!(project_name(Some("name"), &path()).unwrap(), "name");
    assert!(project_name(Some(""), &path()).is_err() && project_name(None, &path()).is_err());
    let nameless = PathBuf::from("/");
    assert!(matches!(
        script_name(&nameless),
        Err(ScriptManifestError::InvalidFilename { path }) if path == nameless
    ));
    assert!(matches!(
        ScriptManifest::initialize(nameless, b"", &[], &[]),
        Err(ScriptManifestError::InvalidFilename { .. })
    ));
}

#[test]
fn metadata_must_be_toml() {
    assert!(matches!(
        ScriptManifest::from_path(path(), b"# /// script\n# a = \n# ///\n"),
        Err(ScriptManifestError::TomlEdit(_))
    ));
}

#[test]
fn foreign_root_fields_are_refused_in_their_order() {
    let script = script("# /// script\n# zebra = 1\n# dependencies = []\n# apple = 2\n# ///\n");
    let Err(ScriptManifestError::UnsupportedFields(fields)) = script.pyproject_document() else {
        panic!("the fields do not belong there");
    };
    assert_eq!(fields, ["zebra", "apple"]);
}

#[test]
fn foreign_pixi_fields_are_refused_once_each() {
    let script = script(
        r#"# /// script
# [tool.pixi]
# environments = []
# [tool.pixi.workspace]
# dependencies = {}
# [tool.pixi.package]
# tasks = { package = 1 }
# ///
"#,
    );
    let Err(ScriptManifestError::UnsupportedFields(fields)) = script.pyproject_document() else {
        panic!("the fields do not belong there");
    };
    assert_eq!(
        fields,
        [
            "tool.pixi.environments",
            "tool.pixi.package",
            "tool.pixi.package.tasks",
            "tool.pixi.package.tasks.package",
            "tool.pixi.workspace.dependencies"
        ]
    );
}

#[test]
fn tables_must_be_tables() {
    assert!(matches!(
        script("# /// script\n# tool = 1\n# ///\n").pyproject_document(),
        Err(ScriptManifestError::InvalidToolTable)
    ));
    assert!(matches!(
        script("# /// script\n# tool.pixi.workspace = 1\n# ///\n").pyproject_document(),
        Err(ScriptManifestError::InvalidPixiWorkspace)
    ));
    assert!(matches!(
        script("# /// script\n# tool.pixi.workspace = {}\n# ///\n").pyproject_document(),
        Err(ScriptManifestError::InvalidPixiWorkspace)
    ));
    let odd = script("# /// script\n# tool.pixi = 1\n# ///\n");
    assert!(odd.checked_pyproject_document().is_none());
    assert!(odd.checked_workspace_manifest().is_none());
    let fine = script("# /// script\n# ///\n");
    assert!(matches!(fine.checked_pyproject_document(), Some(Ok(_))));
    assert!(matches!(fine.checked_workspace_manifest(), Some(Ok(_))));
}

#[test]
fn an_edited_document_needs_its_project() {
    let script = script("# /// script\n# requires-python = \"1\"\n# tool = 1\n# ///\n");
    let mut pyproject = DocumentMut::new();
    assert!(matches!(
        script.render_pyproject_document(&pyproject),
        Err(ScriptManifestError::InvalidEditableDocument)
    ));
    pyproject["project"] = value(1);
    assert!(matches!(
        script.checked_render_pyproject_document(&pyproject),
        Some(Err(ScriptManifestError::InvalidEditableDocument))
    ));
    pyproject["project"] = Item::Table(Table::new());
    assert_eq!(
        script.checked_render_pyproject_document(&pyproject).unwrap().unwrap(),
        "# /// script\n# tool = 1\n# dependencies = []\n# ///\n"
    );
    pyproject["tool"]["pixi"] = value("x");
    assert!(script.checked_render_pyproject_document(&pyproject).is_none());
}

#[test]
fn workspace_config_tells_what_is_spelled_out() {
    let config = |source: &str| {
        let config = script(source).workspace_config().unwrap();
        (config.channels_explicit, config.platforms_explicit)
    };
    assert_eq!(config("# /// script\n# ///\n"), (false, false));
    assert_eq!(
        config("# /// script\n# tool.pixi.workspace.channels = []\n# ///\n"),
        (true, false)
    );
    assert_eq!(
        config(
            "# /// script\n# tool.pixi.workspace.channels = []\n# tool.pixi.project.platforms = []\n# ///\n"
        ),
        (true, false)
    );
}
