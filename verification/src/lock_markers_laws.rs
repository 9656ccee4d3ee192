//! Which lock files are written, said of each marker in them on its own.
use rattler_lock::LockFile;
use vstd::prelude::*;

use crate::lock_markers::{
    are_markers_writable, is_graph_writable, is_last_edge, is_line_writable, is_next_edge,
    is_package_writable, is_piece_writable, is_range_writable, is_writable, locked_packages, marker_graph,
    package_markers, python_package, Edge,
};
use crate::requirement::next_place;
use crate::requirement_laws::first_places_are_found;

verus! {

/// A line of a text stands from one place to another.
pub open spec fn is_line(text: Seq<char>, from: int, to: int) -> bool {
    &&& 0 <= from <= to <= text.len()
    &&& from > 0 ==> text[from - 1] == '\n'
    &&& forall|i: int| from <= i < to ==> #[trigger] text[i] != '\n'
    &&& to < text.len() ==> text[to] == '\n'
}

/// A graph can be written, from the start of a line on, exactly if every line from there on can.
proof fn lemma_lines(graph: Seq<char>, at: int)
    requires
        0 <= at <= graph.len(),
        at > 0 ==> graph[at - 1] == '\n',
    ensures
        is_graph_writable(graph, at) <==> forall|from: int, to: int| #[trigger]
            is_line(graph, from, to) && at <= from ==> is_line_writable(graph.subrange(from, to)),
    decreases graph.len() - at,
{
    let end = next_place(graph, at, '\n');
    first_places_are_found(graph, at, end, '\n');
    assert(is_line(graph, at, end));
    if end < graph.len() {
        lemma_lines(graph, end + 1);
    }
    if is_graph_writable(graph, at) {
        assert forall|from: int, to: int| #[trigger]
            is_line(graph, from, to) && at <= from implies is_line_writable(
            graph.subrange(from, to),
        ) by {
            if from == at {
                first_places_are_found(graph, at, to, '\n');
                assert(to == end);
            } else {
                assert(graph[from - 1] == '\n');
                assert(from > end);
            }
        }
    }
}

/// A graph can be written exactly if each of its lines can.
pub proof fn every_line_counts(graph: Seq<char>)
    ensures
        is_graph_writable(graph, 0) <==> forall|from: int, to: int| #[trigger]
            is_line(graph, from, to) ==> is_line_writable(graph.subrange(from, to)),
{
    lemma_lines(graph, 0);
}

/// The line stands in the graph of a marker of a package in a lock file.
pub open spec fn is_line_of(
    lock_file: LockFile,
    package: int,
    marker: int,
    from: int,
    to: int,
) -> bool {
    &&& 0 <= package < locked_packages(lock_file).len()
    &&& python_package(locked_packages(lock_file)[package]) matches Some(data) && 0 <= marker
        < package_markers(data).len() && is_line(
        marker_graph(package_markers(data)[marker]),
        from,
        to,
    )
}

/// One line that cannot be written, in any marker of any package, keeps a lock file from being
/// written.
pub proof fn one_line_keeps_a_lock_file(
    lock_file: LockFile,
    package: int,
    marker: int,
    from: int,
    to: int,
)
    requires
        is_line_of(lock_file, package, marker, from, to),
        is_writable(lock_file),
    ensures
        ({
            let data = python_package(locked_packages(lock_file)[package])->Some_0;
            is_line_writable(
                marker_graph(package_markers(data)[marker]).subrange(from, to),
            )
        }),
{
    let data = python_package(locked_packages(lock_file)[package])->Some_0;
    assert(is_package_writable(locked_packages(lock_file)[package]));
    assert(are_markers_writable(data));
    every_line_counts(marker_graph(package_markers(data)[marker]));
}

/// A lock file of which every line can be written can be written.
pub proof fn writable_lines_make_a_lock_file(lock_file: LockFile)
    requires
        forall|package: int, marker: int, from: int, to: int| #[trigger]
            is_line_of(lock_file, package, marker, from, to) ==> is_line_writable(
                marker_graph(
                    package_markers(
                        python_package(locked_packages(lock_file)[package])->Some_0,
                    )[marker],
                ).subrange(from, to),
            ),
    ensures
        is_writable(lock_file),
{
    assert forall|package: int| 0 <= package < locked_packages(lock_file).len() implies
        is_package_writable(#[trigger] locked_packages(lock_file)[package]) by {
        match python_package(locked_packages(lock_file)[package]) {
            Some(data) => {
                assert forall|marker: int| 0 <= marker < package_markers(data).len() implies
                    is_graph_writable(
                    marker_graph(#[trigger] package_markers(data)[marker]),
                    0,
                ) by {
                    let graph = marker_graph(package_markers(data)[marker]);
                    assert forall|from: int, to: int| #[trigger]
                        is_line(graph, from, to) implies is_line_writable(
                        graph.subrange(from, to),
                    ) by {
                        assert(is_line_of(lock_file, package, marker, from, to));
                    }
                    every_line_counts(graph);
                }
            },
            None => {},
        }
    }
}

/// A range whose edges have no local part and do not end in the largest number can be written.
pub proof fn plain_ranges_are_written(pieces: Seq<(Edge, Edge)>)
    requires
        forall|i: int|
            0 <= i < pieces.len() ==> !(#[trigger] pieces[i]).0.is_local()
                && !pieces[i].1.is_local() && !is_last_edge(pieces[i].0) && !is_last_edge(
                pieces[i].1,
            ),
    ensures
        is_range_writable(pieces),
{
    assert forall|i: int| 0 <= i < pieces.len() implies is_piece_writable(#[trigger] pieces[i]) by {
        assert(!pieces[i].0.is_local());
    }
}

/// A single bound by a version with a local part cannot be written, unless it is that version
/// alone.
pub proof fn local_bounds_are_refused(piece: (Edge, Edge))
    requires
        piece.0.is_local() || piece.1.is_local(),
        piece.0 is Open || piece.1 is Open,
    ensures
        !is_piece_writable(piece),
        !is_range_writable(seq![piece]),
{
    let pieces = seq![piece];
    assert(pieces[0] == piece);
    assert(pieces.first() == piece && pieces.last() == piece);
}

/// A range from one version to another, both of which belong to it, can be written exactly if it is
/// one version or neither has a local part.
pub proof fn closed_ranges_have_no_local_part(one: Seq<char>, other: Seq<char>)
    ensures
        ({
            let piece = (Edge::With(one), Edge::With(other));
            is_piece_writable(piece) <==> one == other || !(piece.0.is_local()
                || piece.1.is_local())
        }),
{
}

/// A range up to a version that does not belong to it cannot be written if it starts with one that
/// ends in the largest number. Otherwise it can, unless a version at its edges has a local part
/// and the one does not follow on the other.
pub proof fn half_open_ranges_may_follow(one: Seq<char>, other: Seq<char>)
    ensures
        ({
            let piece = (Edge::With(one), Edge::Beside(other));
            let local = piece.0.is_local() || piece.1.is_local();
            &&& is_last_edge(piece.0) ==> !is_piece_writable(piece)
            &&& !is_last_edge(piece.0) && !local ==> is_piece_writable(piece)
            &&& !is_last_edge(piece.0) && local ==> (is_piece_writable(piece) <==> is_next_edge(
                piece.0,
                piece.1,
            ))
        }),
{
}

} // verus!
