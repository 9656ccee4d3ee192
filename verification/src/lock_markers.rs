//! The markers in a lock file, and whether they can be written as text.
//!
//! The writer of markers panics on some bounds of a version. The markers of a lock file are
//! therefore looked at before it is written.
use std::str::FromStr;

use pep508_rs::pep440_rs::Version;
use pep508_rs::MarkerTree;
use rattler_lock::{LockFile, LockedPackage, PypiPackageData};
use vstd::prelude::*;

use crate::requirement::{
    chars_of, end_of, find, has_at, is_largest, is_word, largest, next_place, parse_version,
    run_end, stands_at, version_data, Class, VersionData, VersionParts,
};

verus! {

/// Declares a package of a lock file.
#[verifier::external_type_specification]
#[verifier::external_body]
pub struct ExLockedPackage(LockedPackage);

/// Declares a package of a lock file that comes from a Python index.
#[verifier::external_type_specification]
#[verifier::external_body]
pub struct ExPypiPackageData(PypiPackageData);

/// Declares a marker.
#[verifier::external_type_specification]
#[verifier::external_body]
pub struct ExMarkerTree(MarkerTree);

/// The packages of a lock file, in order.
pub uninterp spec fn locked_packages(lock_file: LockFile) -> Seq<LockedPackage>;

/// `LockFile::packages` gives the packages of a lock file.
#[verifier::external_body]
fn packages_of(lock_file: &LockFile) -> (packages: &[LockedPackage])
    ensures
        packages@ == locked_packages(*lock_file),
{
    lock_file.packages()
}

/// What a package from a Python index is, unless the package comes from elsewhere.
pub uninterp spec fn python_package(package: LockedPackage) -> Option<PypiPackageData>;

/// `LockedPackage::as_pypi` tells packages from a Python index from all others.
#[verifier::external_body]
fn python_package_of(package: &LockedPackage) -> (data: Option<&PypiPackageData>)
    ensures
        match data {
            Some(data) => python_package(*package) == Some(*data),
            None => python_package(*package) is None,
        },
{
    package.as_pypi()
}

/// The markers of the requirements of a package, in order.
pub uninterp spec fn package_markers(package: PypiPackageData) -> Seq<MarkerTree>;

/// `PypiPackageData::requires_dist` gives the requirements of a package, each of which has a
/// marker.
#[verifier::external_body]
fn markers_of(package: &PypiPackageData) -> (markers: Vec<&MarkerTree>)
    ensures
        markers@.len() == package_markers(*package).len(),
        forall|i: int|
            0 <= i < markers@.len() ==> *(#[trigger] markers@[i]) == package_markers(*package)[i],
{
    package.requires_dist().iter().map(|requirement| &requirement.marker).collect()
}

/// What a marker decides by, as a graph in text. On every line of it stands a variable, the values
/// that it may have, an arrow, and what follows then.
pub uninterp spec fn marker_graph(marker: MarkerTree) -> Seq<char>;

/// `MarkerTree::debug_graph` shows a marker as a graph in text.
#[verifier::external_body]
fn graph_of(marker: &MarkerTree) -> (graph: String)
    ensures
        graph@ == marker_graph(*marker),
{
    format!("{:?}", marker.debug_graph())
}

/// Two texts give the same version.
pub uninterp spec fn same_version(one: Seq<char>, other: Seq<char>) -> bool;

/// `<Version as PartialEq>::eq` compares the versions that two texts give, by way of
/// `<Version as FromStr>::from_str`.
#[verifier::external_body]
fn versions_agree(one: &[char], other: &[char]) -> (agree: bool)
    ensures
        agree == same_version(one@, other@),
{
    let one = Version::from_str(&one.iter().collect::<String>()).ok();
    let other = Version::from_str(&other.iter().collect::<String>()).ok();
    one == other
}

/// Where a range of versions ends on one side.
pub enum Edge {
    /// Nowhere.
    Open,
    /// With a version that belongs to it.
    With(Seq<char>),
    /// Beside a version that does not belong to it.
    Beside(Seq<char>),
}

impl Edge {
    /// The version at the edge.
    pub open spec fn version(self) -> Option<VersionData> {
        match self {
            Edge::Open => None,
            Edge::With(text) => version_data(text),
            Edge::Beside(text) => version_data(text),
        }
    }

    /// The version at the edge has a local part.
    pub open spec fn is_local(self) -> bool {
        self.version() matches Some(version) && version.local
    }
}

/// The version behind an operator that may have an equality sign behind it.
pub open spec fn edge_behind(text: Seq<char>) -> Edge {
    if has_at(text, 1, '=') {
        Edge::With(text.skip(2))
    } else {
        Edge::Beside(text.skip(1))
    }
}

/// The edges of a range that is written in one piece.
pub open spec fn edges_of(text: Seq<char>) -> (Edge, Edge) {
    let comma = next_place(text, 0, ',');
    if text == "*"@ {
        (Edge::Open, Edge::Open)
    } else if has_at(text, 0, '<') {
        (Edge::Open, edge_behind(text))
    } else if has_at(text, 0, '>') {
        if 2 <= comma && comma + 2 < text.len() {
            (edge_behind(text.take(comma)), edge_behind(text.skip(comma + 2)))
        } else if text.len() >= 2 {
            (edge_behind(text), Edge::Open)
        } else {
            (Edge::Open, Edge::Open)
        }
    } else {
        (Edge::With(text), Edge::With(text))
    }
}

/// The pieces of a range, from a place on.
pub open spec fn pieces(text: Seq<char>, at: int) -> Seq<(Edge, Edge)>
    decreases text.len() - at,
{
    let bar = next_place(text, at, '|');
    if 0 <= at < bar && bar + 2 <= text.len() {
        seq![edges_of(text.subrange(at, bar - 1))] + pieces(text, bar + 2)
    } else {
        seq![edges_of(text.subrange(at, text.len() as int))]
    }
}

/// Between two pieces of a range only one version is missing.
pub open spec fn leaves_one_out(one: (Edge, Edge), next: (Edge, Edge)) -> bool {
    one.1 matches Edge::Beside(last) && next.0 matches Edge::Beside(first) && same_version(
        last,
        first,
    )
}

/// The range is that of all versions but single ones.
pub open spec fn is_inequality(pieces: Seq<(Edge, Edge)>) -> bool {
    &&& pieces.first().0 is Open
    &&& pieces.last().1 is Open
    &&& forall|i: int|
        0 < i < pieces.len() ==> leaves_one_out(pieces[i - 1], #[trigger] pieces[i])
}

/// The release of a version has two numbers, and the second is the largest. To see whether another
/// version follows on it, the writer adds to that number.
pub open spec fn is_last(version: VersionData) -> bool {
    version.release.len() == 2 && is_largest(version.release, 1)
}

/// The release of a version has two numbers, and another version follows on it.
pub open spec fn follows(one: VersionData, next: VersionData) -> bool {
    &&& one.release.len() == 2
    &&& next.release.len() == 2
    &&& next.release[0] == one.release[0]
    &&& next.release[1] == one.release[1] + 1
}

/// The writer tries whether the second edge follows on the first.
pub open spec fn is_last_edge(edge: Edge) -> bool {
    edge.version() matches Some(version) && is_last(version)
}

/// The second edge follows on the first.
pub open spec fn is_next_edge(edge: Edge, next: Edge) -> bool {
    edge.version() matches Some(one) && next.version() matches Some(two) && follows(one, two)
}

/// A piece of a range can be written on its own. Only a single version may have a local part.
pub open spec fn is_piece_writable(text: (Edge, Edge)) -> bool {
    match text {
        (Edge::With(one), Edge::With(other)) => one == other || (!text.0.is_local()
            && !text.1.is_local()),
        (Edge::With(_), Edge::Beside(_)) => !is_last_edge(text.0) && (is_next_edge(text.0, text.1)
            || (!text.0.is_local() && !text.1.is_local())),
        _ => !text.0.is_local() && !text.1.is_local(),
    }
}

/// The range is that of all versions but those from one to another.
pub open spec fn is_gap(pieces: Seq<(Edge, Edge)>) -> bool {
    &&& pieces.len() == 2
    &&& pieces[0].0 is Open
    &&& pieces[0].1 is Beside
    &&& pieces[1].0 is With
    &&& pieces[1].1 is Open
}

/// A range can be written.
pub open spec fn is_range_writable(pieces: Seq<(Edge, Edge)>) -> bool {
    ||| is_inequality(pieces)
    ||| is_gap(pieces) && !is_last_edge(pieces[0].1) && is_next_edge(pieces[0].1, pieces[1].0)
    ||| (is_gap(pieces) ==> !is_last_edge(pieces[0].1)) && forall|i: int|
        0 <= i < pieces.len() ==> is_piece_writable(#[trigger] pieces[i])
}

/// A word stands at a place of a text.
pub open spec fn has_word(text: Seq<char>, at: int, word: Seq<char>) -> bool {
    at + word.len() <= text.len() && text.subrange(at, at + word.len()) == word
}

/// Where the range starts on a line of a graph, behind a variable that holds a version.
pub open spec fn range_start(line: Seq<char>) -> Option<int> {
    let start = run_end(line, 0, Class::White);
    if has_word(line, start, "python_full_version"@) {
        Some(start + "python_full_version"@.len())
    } else if has_word(line, start, "python_version"@) {
        Some(start + "python_version"@.len())
    } else if has_word(line, start, "implementation_version"@) {
        Some(start + "implementation_version"@.len())
    } else {
        None
    }
}

/// A line of a graph can be written: if it shows the range of a version, that range can.
pub open spec fn is_line_writable(line: Seq<char>) -> bool {
    match range_start(line) {
        Some(start) => {
            let arrow = next_place(line, start, '-');
            start < arrow < line.len() ==> is_range_writable(
                pieces(line.subrange(start, arrow - 1), 0),
            )
        },
        None => true,
    }
}

/// The lines of a graph can be written, from a place on.
pub open spec fn is_graph_writable(graph: Seq<char>, at: int) -> bool
    decreases graph.len() - at,
{
    let end = next_place(graph, at, '\n');
    &&& 0 <= at <= end <= graph.len() ==> is_line_writable(graph.subrange(at, end))
    &&& 0 <= at <= end < graph.len() ==> is_graph_writable(graph, end + 1)
}

/// The markers of a package from a Python index can be written.
pub open spec fn are_markers_writable(package: PypiPackageData) -> bool {
    forall|i: int|
        0 <= i < package_markers(package).len() ==> is_graph_writable(
            marker_graph(#[trigger] package_markers(package)[i]),
            0,
        )
}

/// The markers of a package can be written, if it has any.
pub open spec fn is_package_writable(package: LockedPackage) -> bool {
    python_package(package) matches Some(data) ==> are_markers_writable(data)
}

/// Every marker in a lock file can be written.
pub open spec fn is_writable(lock_file: LockFile) -> bool {
    forall|i: int|
        0 <= i < locked_packages(lock_file).len() ==> is_package_writable(
            #[trigger] locked_packages(lock_file)[i],
        )
}

/// An edge of a range that was found in a text.
enum FoundEdge {
    Open,
    With(Vec<char>),
    Beside(Vec<char>),
}

impl FoundEdge {
    /// The edge as it was written.
    spec fn edge(self) -> Edge {
        match self {
            FoundEdge::Open => Edge::Open,
            FoundEdge::With(version) => Edge::With(version@),
            FoundEdge::Beside(version) => Edge::Beside(version@),
        }
    }

    /// Reads the version at the edge.
    fn version(&self) -> (version: Option<VersionParts>)
        ensures
            match version {
                Some(version) => self.edge().version() == Some(version.data()),
                None => self.edge().version() is None,
            },
    {
        match self {
            FoundEdge::Open => None,
            FoundEdge::With(text) => parse_version(text.as_slice()),
            FoundEdge::Beside(text) => parse_version(text.as_slice()),
        }
    }

    /// Tells whether the version at the edge has a local part.
    fn local(&self) -> (local: bool)
        ensures
            local == self.edge().is_local(),
    {
        match self.version() {
            Some(version) => version.local,
            None => false,
        }
    }

    /// Tells whether the writer would add to the largest number of the version.
    fn last(&self) -> (last: bool)
        ensures
            last == is_last_edge(self.edge()),
    {
        match self.version() {
            Some(version) => version.release.len() == 2 && largest(&version.release, 1),
            None => false,
        }
    }

    /// Tells whether another edge follows on this one.
    fn precedes(&self, next: &FoundEdge) -> (precedes: bool)
        ensures
            precedes == is_next_edge(self.edge(), next.edge()),
    {
        match (self.version(), next.version()) {
            (Some(one), Some(two)) => one.release.len() == 2 && two.release.len() == 2
                && two.release[0] == one.release[0] && one.release[1] < u64::MAX && two.release[1]
                == one.release[1] + 1,
            _ => false,
        }
    }
}

/// Two edges of a piece of a range.
struct Piece {
    lower: FoundEdge,
    upper: FoundEdge,
}

impl Piece {
    spec fn edges(self) -> (Edge, Edge) {
        (self.lower.edge(), self.upper.edge())
    }

    /// Tells whether the piece can be written on its own.
    fn writable(&self) -> (writable: bool)
        ensures
            writable == is_piece_writable(self.edges()),
    {
        let local = self.lower.local() || self.upper.local();
        match (&self.lower, &self.upper) {
            (FoundEdge::With(one), FoundEdge::With(other)) => !local || same_chars(one, other),
            (FoundEdge::With(_), FoundEdge::Beside(_)) => !self.lower.last() && (!local
                || self.lower.precedes(&self.upper)),
            _ => !local,
        }
    }
}

/// The edges of some pieces.
spec fn all_edges(pieces: Seq<Piece>) -> Seq<(Edge, Edge)> {
    pieces.map_values(|piece: Piece| piece.edges())
}

/// Compares two texts.
fn same_chars(one: &Vec<char>, other: &Vec<char>) -> (same: bool)
    ensures
        same == (one@ == other@),
{
    if one.len() != other.len() {
        return false;
    }
    let mut i: usize = 0;
    while i < one.len()
        invariant
            i <= one@.len(),
            one@.len() == other@.len(),
            forall|j: int| 0 <= j < i ==> one@[j] == other@[j],
        decreases one@.len() - i,
    {
        if one[i] != other[i] {
            assert(one@[i as int] != other@[i as int]);
            return false;
        }
        i += 1;
    }
    assert(one@ =~= other@);
    true
}

/// Finds the edge behind an operator.
fn find_edge(text: &[char]) -> (edge: FoundEdge)
    requires
        text@.len() > 0,
    ensures
        edge.edge() == edge_behind(text@),
{
    if stands_at(text, 1, '=') {
        let version = vstd::slice::slice_subrange(text, 2, text.len());
        assert(version@ =~= text@.skip(2));
        FoundEdge::With(vstd::slice::slice_to_vec(version))
    } else {
        let version = vstd::slice::slice_subrange(text, 1, text.len());
        assert(version@ =~= text@.skip(1));
        FoundEdge::Beside(vstd::slice::slice_to_vec(version))
    }
}

/// Finds the edges of a range that is written in one piece.
fn find_edges(text: &[char]) -> (piece: Piece)
    ensures
        piece.edges() == edges_of(text@),
{
    assert(text@.subrange(0, text@.len() as int) =~= text@);
    if is_word(text, 0, text.len(), "*") {
        Piece { lower: FoundEdge::Open, upper: FoundEdge::Open }
    } else if text.len() > 0 && text[0] == '<' {
        Piece { lower: FoundEdge::Open, upper: find_edge(text) }
    } else if text.len() > 0 && text[0] == '>' {
        let comma: usize = find(text, 0, ',');
        if 2 <= comma && comma < text.len() && text.len() - comma > 2 {
            let front = vstd::slice::slice_subrange(text, 0, comma);
            let back = vstd::slice::slice_subrange(text, comma + 2, text.len());
            assert(front@ =~= text@.take(comma as int));
            assert(back@ =~= text@.skip(comma + 2));
            Piece { lower: find_edge(front), upper: find_edge(back) }
        } else if text.len() >= 2 {
            Piece { lower: find_edge(text), upper: FoundEdge::Open }
        } else {
            Piece { lower: FoundEdge::Open, upper: FoundEdge::Open }
        }
    } else {
        Piece {
            lower: FoundEdge::With(vstd::slice::slice_to_vec(text)),
            upper: FoundEdge::With(vstd::slice::slice_to_vec(text)),
        }
    }
}

/// Finds the pieces of a range.
fn find_pieces(text: &[char]) -> (found: Vec<Piece>)
    ensures
        all_edges(found@) == pieces(text@, 0),
        found@.len() > 0,
{
    let mut found: Vec<Piece> = Vec::new();
    let mut at: usize = 0;
    assert(all_edges(found@) + pieces(text@, 0) =~= pieces(text@, 0));
    loop
        invariant
            at <= text@.len(),
            all_edges(found@) + pieces(text@, at as int) == pieces(text@, 0),
        decreases text@.len() - at,
    {
        let bar: usize = find(text, at, '|');
        let ghost before = found@;
        if at < bar && bar < text.len() && text.len() - bar >= 2 {
            let piece = find_edges(vstd::slice::slice_subrange(text, at, bar - 1));
            found.push(piece);
            assert(all_edges(found@) =~= all_edges(before).push(piece.edges()));
            assert(all_edges(found@) + pieces(text@, bar + 2) =~= all_edges(before) + pieces(
                text@,
                at as int,
            ));
            at = bar + 2;
        } else {
            let piece = find_edges(vstd::slice::slice_subrange(text, at, text.len()));
            found.push(piece);
            assert(all_edges(found@) =~= all_edges(before).push(piece.edges()));
            assert(all_edges(found@) =~= all_edges(before) + pieces(text@, at as int));
            return found;
        }
    }
}

/// Tells whether between two pieces only one version is missing.
fn one_left_out(one: &Piece, next: &Piece) -> (left_out: bool)
    ensures
        left_out == leaves_one_out(one.edges(), next.edges()),
{
    match (&one.upper, &next.lower) {
        (FoundEdge::Beside(last), FoundEdge::Beside(first)) => versions_agree(
            last.as_slice(),
            first.as_slice(),
        ),
        _ => false,
    }
}

/// Tells whether a range is that of all versions but single ones.
fn inequality(found: &Vec<Piece>) -> (inequality: bool)
    requires
        found@.len() > 0,
    ensures
        inequality == is_inequality(all_edges(found@)),
{
    let ghost all = all_edges(found@);
    assert(all.len() == found@.len());
    assert(all.first() == found@[0].edges());
    assert(all.last() == found@[found@.len() - 1].edges());
    if !matches!(found[0].lower, FoundEdge::Open) || !matches!(
        found[found.len() - 1].upper,
        FoundEdge::Open
    ) {
        return false;
    }
    let mut at: usize = 1;
    while at < found.len()
        invariant
            1 <= at <= found@.len(),
            all == all_edges(found@),
            all.len() == found@.len(),
            forall|i: int| 0 < i < at ==> leaves_one_out(all[i - 1], #[trigger] all[i]),
        decreases found@.len() - at,
    {
        assert(all[at as int] == found@[at as int].edges());
        assert(all[at - 1] == found@[at - 1].edges());
        if !one_left_out(&found[at - 1], &found[at]) {
            assert(!leaves_one_out(all[at - 1], all[at as int]));
            return false;
        }
        at += 1;
    }
    true
}

/// Tells whether a range can be written.
fn range_writable(text: &[char]) -> (writable: bool)
    ensures
        writable == is_range_writable(pieces(text@, 0)),
{
    let found = find_pieces(text);
    let ghost all = all_edges(found@);
    assert(all.len() == found@.len());
    if inequality(&found) {
        return true;
    }
    if found.len() == 2 {
        assert(all[0] == found@[0].edges());
        assert(all[1] == found@[1].edges());
        if matches!(found[0].lower, FoundEdge::Open) && matches!(
            found[0].upper,
            FoundEdge::Beside(_)
        ) && matches!(found[1].lower, FoundEdge::With(_)) && matches!(
            found[1].upper,
            FoundEdge::Open
        ) {
            assert(is_gap(all));
            if found[0].upper.last() {
                return false;
            }
            if found[0].upper.precedes(&found[1].lower) {
                return true;
            }
        }
    }
    let mut at: usize = 0;
    while at < found.len()
        invariant
            at <= found@.len(),
            all == all_edges(found@),
            all.len() == found@.len(),
            all == pieces(text@, 0),
            !is_inequality(all),
            is_gap(all) ==> !is_last_edge(all[0].1) && !is_next_edge(all[0].1, all[1].0),
            forall|i: int| 0 <= i < at ==> is_piece_writable(#[trigger] all[i]),
        decreases found@.len() - at,
    {
        assert(all[at as int] == found@[at as int].edges());
        if !found[at].writable() {
            assert(!is_piece_writable(all[at as int]));
            return false;
        }
        at += 1;
    }
    true
}

/// Finds a word at a place, and where it ends.
fn behind_word(text: &[char], at: usize, word: &str) -> (end: Option<usize>)
    requires
        at <= text@.len(),
    ensures
        match end {
            Some(end) => has_word(text@, at as int, word@) && end == at + word@.len() && end
                <= text@.len(),
            None => !has_word(text@, at as int, word@),
        },
{
    let len: usize = word.unicode_len();
    if len <= text.len() - at && is_word(text, at, at + len, word) {
        Some(at + len)
    } else {
        None
    }
}

/// Finds where the range starts on a line of a graph.
fn find_range(line: &[char]) -> (start: Option<usize>)
    ensures
        match start {
            Some(start) => range_start(line@) == Some(start as int) && start <= line@.len(),
            None => range_start(line@) is None,
        },
{
    let start: usize = end_of(line, 0, Class::White);
    match behind_word(line, start, "python_full_version") {
        Some(end) => Some(end),
        None => match behind_word(line, start, "python_version") {
            Some(end) => Some(end),
            None => behind_word(line, start, "implementation_version"),
        },
    }
}

/// Tells whether a line of a graph can be written.
fn line_writable(line: &[char]) -> (writable: bool)
    ensures
        writable == is_line_writable(line@),
{
    match find_range(line) {
        Some(start) => {
            let arrow: usize = find(line, start, '-');
            if start < arrow && arrow < line.len() {
                range_writable(vstd::slice::slice_subrange(line, start, arrow - 1))
            } else {
                true
            }
        },
        None => true,
    }
}

/// Tells whether a graph can be written.
pub fn graph_writable(graph: &str) -> (writable: bool)
    ensures
        writable == is_graph_writable(graph@, 0),
{
    let chars = chars_of(graph);
    let text = chars.as_slice();
    let mut at: usize = 0;
    loop
        invariant
            at <= text@.len(),
            text@ == graph@,
            is_graph_writable(graph@, 0) == is_graph_writable(text@, at as int),
        decreases text@.len() - at,
    {
        let end: usize = find(text, at, '\n');
        if !line_writable(vstd::slice::slice_subrange(text, at, end)) {
            return false;
        }
        if end == text.len() {
            return true;
        }
        at = end + 1;
    }
}

/// Tells whether the markers of a package from a Python index can be written.
fn markers_writable(package: &PypiPackageData) -> (writable: bool)
    ensures
        writable == are_markers_writable(*package),
{
    let markers = markers_of(package);
    let mut at: usize = 0;
    while at < markers.len()
        invariant
            at <= markers@.len(),
            markers@.len() == package_markers(*package).len(),
            forall|i: int|
                0 <= i < markers@.len() ==> *(#[trigger] markers@[i]) == package_markers(
                    *package,
                )[i],
            forall|i: int|
                0 <= i < at ==> is_graph_writable(
                    marker_graph(#[trigger] package_markers(*package)[i]),
                    0,
                ),
        decreases markers@.len() - at,
    {
        assert(*markers@[at as int] == package_markers(*package)[at as int]);
        if !graph_writable(graph_of(markers[at]).as_str()) {
            assert(!is_graph_writable(marker_graph(package_markers(*package)[at as int]), 0));
            return false;
        }
        at += 1;
    }
    true
}

/// Tells whether the markers of a package can be written.
fn package_writable(package: &LockedPackage) -> (writable: bool)
    ensures
        writable == is_package_writable(*package),
{
    match python_package_of(package) {
        Some(data) => markers_writable(data),
        None => true,
    }
}

/// Tells whether every marker in a lock file can be written.
pub fn writable(lock_file: &LockFile) -> (writable: bool)
    ensures
        writable == is_writable(*lock_file),
{
    let packages = packages_of(lock_file);
    let mut at: usize = 0;
    while at < packages.len()
        invariant
            at <= packages@.len(),
            packages@ == locked_packages(*lock_file),
            forall|i: int|
                0 <= i < at ==> is_package_writable(#[trigger] locked_packages(*lock_file)[i]),
        decreases packages@.len() - at,
    {
        if !package_writable(&packages[at]) {
            assert(!is_package_writable(locked_packages(*lock_file)[at as int]));
            return false;
        }
        at += 1;
    }
    true
}

} // verus!
