//! Texts of lock files that are fit to be read, and texts that are not.
use std::path::PathBuf;

use pixi_script::lock_markers::{graph_writable, writable};
use pixi_script::lock_text::{fit_to_read, Surroundings};
use pixi_script::requirement::{harmless, path_named, reportable};
use pixi_script::resolution::{
    script_resolutions_equal, RenderError, StoredScriptResolution, STATE_VERSION,
};
use rattler_lock::LockFile;

const PACKAGES: &str = "\
version: 7
platforms:
- name: linux-64
environments:
  default:
    channels:
    - url: https://conda.anaconda.org/conda-forge/
    indexes:
    - https://pypi.org/simple
    packages:
      linux-64:
      - conda: https://conda.anaconda.org/conda-forge/linux-64/python-3.12.7-hc5c86c4_0_cpython.conda
      - pypi: https://files.pythonhosted.org/packages/requests-2.32.3-py3-none-any.whl
packages:
- conda: https://conda.anaconda.org/conda-forge/linux-64/python-3.12.7-hc5c86c4_0_cpython.conda
  sha256: 674be31ff152d9f0e0fe16959a45e3803a730fc4f54d87df6a9ac4e6a698c41d
  md5: 0515111a9cdf69f83278f7c197db9807
  depends:
  - __glibc >=2.17,<3.0.a0
  - python_abi 3.12.* *_cp312
  - python 3.12.*
  constrains:
  - openssl >=3.3.2,<4.0a0
  license: Python-2.0
  purls: []
  size: 31574780
  timestamp: 1728059777603
- pypi: https://files.pythonhosted.org/packages/requests-2.32.3-py3-none-any.whl
  name: requests
  version: 2.32.3
  sha256: 70761cfe03c773ceb22aa2f671b4757976145175cdfca038c02654d061d6dcc6
  requires_dist:
  - charset-normalizer>=2,<4
  - idna~=3.4
  - numpy==1.26.* ; python_full_version == '3.8.*'
  - urllib3[brotli,zstd]>=1.21.1 ; (os_name == 'nt' and extra == 'a') or (os_name == 'posix' and extra == 'b')
  - pysocks!=1.5.7,>=1.5.6 ; extra == 'socks'
  requires_python: '!=3.0.*,>=2.7'
";

fn root() -> PathBuf {
    PathBuf::from("/scripts")
}

fn stored(text: &str) -> StoredScriptResolution {
    StoredScriptResolution { version: STATE_VERSION, lock_file: text.to_owned() }
}

/// Reads a text, with the directory of the project known.
fn read(text: &str) -> Option<LockFile> {
    stored(text).lock_file(&root(), true)
}

/// The text is fit to be read below an absolute root, with the directory of the project known.
fn fits(text: &str) -> bool {
    fit_to_read(Surroundings { rooted: true, anchored: true }, text)
}

/// The text with another requirement in place of the first one.
fn requiring(requirement: &str) -> String {
    PACKAGES.replace("charset-normalizer>=2,<4", requirement)
}

#[test]
fn an_ordinary_lock_file_is_read_back() {
    let lock_file = LockFile::from_str_with_base_directory(PACKAGES, Some(&root())).unwrap();
    let rendered = lock_file.render_to_string().unwrap();
    assert!(fits(&rendered));
    assert!(rendered.contains("- python 3.12.*\n"));
    assert!(rendered.contains("requires_dist:\n"));
    let stored = StoredScriptResolution::of(&lock_file).unwrap();
    let restored = stored.lock_file(&root(), true).unwrap();
    assert_eq!(restored.render_to_string().unwrap(), rendered);
}

#[test]
fn other_formats_and_layouts_are_read() {
    let text = "version: 6\nenvironments:\n  default:\n    channels:\n    - url: https://example.invalid/\n    packages: {}\npackages: []\n";
    for version in ["version: 4", "version: 5", "version: 6", "version: 7"] {
        assert!(read(&text.replace("version: 6", version)).is_some(), "{version}");
    }
    let oldest = "version: 3\nmetadata:\n  channels: []\n  platforms: []\npackage: []\n";
    for version in ["version: 1", "version: 2", "version: 3"] {
        assert!(read(&oldest.replace("version: 3", version)).is_some(), "{version}");
    }
    assert!(read(&text.replace("version: 6", "version: 8")).is_none());
    for requirement in [
        "\"foo>=1\"",
        "\"\\x66oo>=1\"",
        "|-\n    foo>=1",
        "foo\n    >=1",
        "'foo>=1' # bar- >=1",
        "&name foo>=1",
    ] {
        assert!(read(&requiring(requirement)).is_some(), "{requirement}");
    }
    let long = format!("foo ; os_name == '{}'", "a".repeat(10_000));
    assert!(read(&requiring(&long)).is_some());
    let nested = format!("foo ; {}os_name == 'nt'{}", "(".repeat(200), ")".repeat(200));
    assert!(read(&requiring(&nested)).is_some());
}

#[test]
fn a_requirement_with_a_broken_name_is_as_good_as_none() {
    assert!(read(PACKAGES).is_some());
    for requirement in [
        "foo- >=1",
        "foo. ; os_name == 'nt'",
        "foo_>=1",
        "'foo- >=1'",
        "' foo- >=1'",
        "\"\\x66oo- >=1\"",
        "|-\n    foo- >=1",
        "foo-\n    >=1",
        "foo[bar-]",
        "foo [bar_ , baz]",
        "foo[bar,baz.]>=1",
        "foo[bar-",
    ] {
        assert!(!fits(&requiring(requirement)), "{requirement}");
        assert!(read(&requiring(requirement)).is_none(), "{requirement}");
    }
    for requirement in
        ["foo-bar>=1", "foo_bar[b-a.z]==1.*", "'foo-bar >=1'", "foo @ https://a.invalid/foo-/b.whl"]
    {
        assert!(fits(&requiring(requirement)), "{requirement}");
        assert!(read(&requiring(requirement)).is_some(), "{requirement}");
    }
    // A name that ends in a separator with nothing behind it is an error of its own.
    assert!(fits(&requiring("foo-")));
    assert!(read(&requiring("foo-")).is_none());
    // What a package from a conda channel depends on is no such requirement.
    assert!(read(&PACKAGES.replace("- python 3.12.*", "- python- 3.12.*")).is_some());
}

#[test]
fn a_requirement_of_an_older_format_is_looked_at_too() {
    let text = |requirement: &str| {
        format!(
            "version: 3\nmetadata:\n  channels: []\n  platforms:\n  - linux-64\npackage:\n- platform: linux-64\n  name: bar\n  version: '1'\n  manager: pypi\n  requires_dist:\n  - {requirement}\n  url: https://a.invalid/bar-1-py3-none-any.whl\n  hash:\n    sha256: 70761cfe03c773ceb22aa2f671b4757976145175cdfca038c02654d061d6dcc6\n"
        )
    };
    assert!(read(&text("foo>=1")).is_some());
    assert!(read(&text("foo>=1 ; os_name == 'caf\u{e9}'")).is_some());
    assert!(read(&text("foo- >=1")).is_none());
    assert!(read(&text("foo- >=1").replace("requires_dist", "dependencies")).is_none());
    // The error that this is would be written with half a character underlined.
    assert!(read(&text("foo[b \u{e9}]")).is_none());
    assert!(read(&text("foo [")).is_none());
}

#[test]
fn a_requirement_with_an_unforeseen_marker_is_as_good_as_none() {
    let largest = u64::MAX;
    for requirement in [
        "foo ; 'linux' ~= sys_platform".to_owned(),
        "foo ; os_name == 'nt' or ('linux' ~=sys.platform)".to_owned(),
        "foo ; os_name == 'nt' a\u{e9}".to_owned(),
        "foo ; (os_name == 'nt')a\u{e9}".to_owned(),
        format!("foo ; python_version > '3.{largest}'"),
        format!("foo ; python_version == '3.{largest}'"),
        format!("foo ; python_version >= '3.{largest}.1'"),
        format!("foo ; '3.{largest}' < python_version"),
        format!("foo ; python_version in '3.8 3.{largest}'"),
        format!("foo ; python_version ~= '{largest}.1'"),
        format!("foo ; python_full_version == '3.{largest}.*'"),
        format!("foo ; python_full_version ~= '3.{largest}.1'"),
    ] {
        assert!(!fits(&requiring(&requirement)), "{requirement}");
        assert!(read(&requiring(&requirement)).is_none(), "{requirement}");
    }
    for requirement in [
        "foo~=1.2 ; python_full_version ~= '3.8'".to_owned(),
        "foo ; '3.8' ~= python_version".to_owned(),
        "foo ; sys_platform ~= 'linux'".to_owned(),
        "foo ; os_name == \"' ~= os_name \"".to_owned(),
        "foo @ https://a.invalid/' ~= os_name".to_owned(),
        "foo ; os_name == 'caf\u{e9}' and os_name != '\u{e9}'".to_owned(),
        "foo ; os_name == 'a' and\u{a0}os_name not in 'b'".to_owned(),
        format!("foo ; python_version < '3.{largest}'"),
        format!("foo ; python_version == '3.8.{largest}'"),
        format!("foo ; python_version in '3.8.1 3.{largest}'"),
        format!("foo ; python_full_version > '{largest}'"),
        format!("foo ; os_name == '3.{largest}'"),
        format!("foo>={largest}"),
    ] {
        assert!(fits(&requiring(&requirement)), "{requirement}");
        assert!(read(&requiring(&requirement)).is_some(), "{requirement}");
    }
}

#[test]
fn a_harmless_requirement_is_told_from_others() {
    assert!(harmless("foo"));
    assert!(harmless(""));
    assert!(!harmless("\u{3000}foo- >=1"));
    assert!(harmless("\u{e9}foo- >=1"));
    assert!(!harmless("foo (>=1) ; '' ~= os_name"));
    assert!(!harmless("foo @ ./a;b ; '' ~= os_name"));
    assert!(harmless("foo @ ./a; '' ~= os_name"));
    assert!(path_named("foo @ ./bar"));
    assert!(path_named("foo[a] @ file:///bar"));
    assert!(path_named("foo @ ${PLACE}"));
    assert!(!path_named("foo @ git+https://a.invalid/${PLACE}"));
    assert!(!path_named("foo>=1"));
    assert!(reportable("foo [") && reportable("foo ; os_name == '\u{e9}'"));
    assert!(!reportable("foo [\u{e9}"));
}

#[test]
fn paths_are_read_relative_to_the_root() {
    let relative = PathBuf::from("scripts");
    assert!(stored(PACKAGES).lock_file(&relative, true).is_some());
    let remote = requiring("foo @ https://a.invalid/foo.whl");
    assert!(stored(&remote).lock_file(&relative, true).is_some());
    let text = requiring("foo @ ./foo");
    assert!(stored(&text).lock_file(&root(), true).is_some());
    assert!(stored(&text).lock_file(&relative, true).is_none());
}

#[test]
fn the_directory_of_the_project_is_asked_for_only_where_it_is_known() {
    let text = requiring("foo @ file://${PROJECT_ROOT}/foo");
    assert!(stored(&text).lock_file(&root(), true).is_some());
    assert!(stored(&text).lock_file(&root(), false).is_none());
    assert!(stored(PACKAGES).lock_file(&root(), false).is_some());
    let other = PACKAGES.replace("Python-2.0", "${PROJECT_ROOT}");
    assert!(stored(&other).lock_file(&root(), false).is_some());
}

#[test]
fn a_lock_file_with_a_marker_that_cannot_be_written_is_not_stored() {
    let locked = |requirement: &str| {
        LockFile::from_str_with_base_directory(&requiring(requirement), Some(&root())).unwrap()
    };
    let largest = u64::MAX;
    for requirement in [
        "foo ; python_full_version >= '3' and 'a+b' in platform_version".to_owned(),
        "foo ; python_full_version in '3.8+local'".to_owned(),
        "foo ; python_full_version not in '3.8+local'".to_owned(),
        "foo ; python_full_version not in '3.8+local 3.9+local'".to_owned(),
        format!("foo ; python_full_version < '{largest}'"),
        format!("foo ; python_full_version == '3.{largest}'"),
        format!("foo ; python_full_version != '3.{largest}'"),
        format!("foo ; python_full_version <= '3.{largest}'"),
        "foo ; python_full_version == '3.8.*'".to_owned(),
        "foo ; python_full_version != '3.8.*'".to_owned(),
    ] {
        let lock_file = locked(&requirement);
        assert!(writable(&lock_file), "{requirement}");
        assert!(StoredScriptResolution::of(&lock_file).is_ok(), "{requirement}");
    }
    let plain = locked("foo");
    for requirement in [
        "foo ; python_full_version >= '3' and python_full_version not in '3.8+local'".to_owned(),
        format!("foo ; python_full_version >= '3.{largest}' and python_full_version < '4'"),
        format!("foo ; python_full_version < '3.{largest}' or python_full_version >= '4'"),
    ] {
        let lock_file = locked(&requirement);
        assert!(!writable(&lock_file), "{requirement}");
        assert!(matches!(StoredScriptResolution::of(&lock_file), Err(RenderError::Marker)));
        assert!(matches!(
            script_resolutions_equal(Some(&plain), Some(&lock_file)),
            Err(RenderError::Marker)
        ));
        assert!(!script_resolutions_equal(Some(&lock_file), None).unwrap());
    }
}

#[test]
fn a_graph_is_judged_by_the_bounds_of_versions() {
    assert!(graph_writable("true"));
    assert!(graph_writable("\npython_full_version>=3.8 -> \n  os_name==a+b -> true"));
    assert!(graph_writable("\npython_full_version3.8+a -> true"));
    assert!(graph_writable("\npython_full_version<3.8+a | >3.8+a -> true"));
    assert!(graph_writable("\npython_full_version<3.8+a | >3.8.0+a -> true"));
    assert!(graph_writable("\npython_full_version<3.8+a | >=3.9+b -> true"));
    assert!(graph_writable("\npython_full_version>=3.8+a, <3.9 -> true"));
    assert!(!graph_writable("\npython_full_version<3.8+a | >3.9+a -> true"));
    assert!(!graph_writable("\npython_full_version>=3.8+a -> true"));
    assert!(!graph_writable("\npython_full_version>=3.8+a, <4 -> true"));
    assert!(!graph_writable("\npython_full_version>3.7, <=3.8+a -> true"));
    assert!(!graph_writable("\nos_name==a -> \n  implementation_version<1+a -> true"));
    assert!(graph_writable("\npython_full_version<3.18446744073709551615 -> true"));
    assert!(!graph_writable("\npython_full_version>=3.18446744073709551615, <4 -> true"));
    assert!(graph_writable("\npython_full_version>=18446744073709551615, <18446744073709551615.1 -> true"));
}
