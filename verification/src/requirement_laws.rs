//! Where the parts of a requirement end, and which requirements are kept from their parser.
use vstd::prelude::*;

use crate::requirement::{
    are_versions, extras_start, has_broken_extra, has_broken_name, is_alphanumeric, is_broken, is_harmless,
    is_separator, is_white, lists_largest, name_end, name_start, next_place, overflows, run_end,
    significant, Class, Comparison, Side, VersionData,
};

verus! {

/// All characters from one place to another are of the class, and the next is not.
pub open spec fn is_run(text: Seq<char>, from: int, to: int, class: Class) -> bool {
    &&& 0 <= from <= to <= text.len()
    &&& forall|i: int| from <= i < to ==> class.holds(#[trigger] text[i])
    &&& to < text.len() ==> !class.holds(text[to])
}

/// The characters of a class end where the first stands that is not of it.
pub proof fn runs_end_with_their_class(text: Seq<char>, from: int, to: int, class: Class)
    requires
        0 <= from <= text.len(),
    ensures
        run_end(text, from, class) == to <==> is_run(text, from, to, class),
    decreases text.len() - from,
{
    if from < text.len() && class.holds(text[from]) {
        runs_end_with_their_class(text, from + 1, to, class);
        if is_run(text, from, to, class) {
            assert(from < to);
        }
    } else if is_run(text, from, to, class) && from < to {
        assert(class.holds(text[from]));
    }
}

/// A character is found where it first stands, or else at the end.
pub proof fn first_places_are_found(text: Seq<char>, from: int, to: int, c: char)
    requires
        0 <= from <= text.len(),
    ensures
        next_place(text, from, c) == to <==> from <= to <= text.len() && (forall|i: int|
            from <= i < to ==> #[trigger] text[i] != c) && (to < text.len() ==> text[to] == c),
    decreases text.len() - from,
{
    if from < text.len() && text[from] != c {
        first_places_are_found(text, from + 1, to, c);
        if from <= to <= text.len() && (to < text.len() ==> text[to] == c) {
            assert(from < to);
        }
    } else if from < to <= text.len() && forall|i: int| from <= i < to ==> #[trigger] text[i] != c {
        assert(text[from] != c);
    }
}

/// A name stands in a text, behind white space, and something else behind it.
pub open spec fn is_named(text: Seq<char>, start: int, end: int) -> bool {
    &&& 0 <= start < end < text.len()
    &&& forall|i: int| 0 <= i < start ==> is_white(#[trigger] text[i])
    &&& !is_white(text[start])
    &&& forall|i: int|
        start <= i < end ==> is_alphanumeric(#[trigger] text[i]) || is_separator(text[i])
    &&& !is_alphanumeric(text[end]) && !is_separator(text[end])
}

/// Where the name of a text stands.
proof fn lemma_named(text: Seq<char>, start: int, end: int)
    requires
        is_named(text, start, end),
    ensures
        name_start(text) == start,
        name_end(text) == end,
{
    runs_end_with_their_class(text, 0, start, Class::White);
    runs_end_with_their_class(text, start, end, Class::Name);
    assert(is_run(text, 0, start, Class::White));
    assert(is_run(text, start, end, Class::Name));
}

/// A name that ends in a separator, with more behind it, keeps a requirement from its parser.
pub proof fn broken_names_are_refused(text: Seq<char>, start: int, end: int)
    requires
        is_named(text, start, end),
        is_alphanumeric(text[start]),
        is_separator(text[end - 1]),
    ensures
        !is_harmless(text),
{
    lemma_named(text, start, end);
    assert(has_broken_name(text));
}

/// An extra that ends in a separator, anywhere in the list of extras, keeps a requirement from its
/// parser.
pub proof fn broken_extras_are_refused(text: Seq<char>, start: int, end: int, open: int, at: int)
    requires
        is_named(text, start, end),
        end <= open < at < text.len(),
        forall|i: int| end <= i < open ==> is_white(#[trigger] text[i]),
        text[open] == '[',
        forall|i: int| open <= i <= at ==> #[trigger] text[i] != ']',
        is_separator(text[at]),
        at + 1 < text.len() ==> !is_alphanumeric(text[at + 1]) && !is_separator(text[at + 1]),
    ensures
        !is_harmless(text),
{
    lemma_named(text, start, end);
    runs_end_with_their_class(text, end, open, Class::White);
    assert(is_run(text, end, open, Class::White));
    assert(extras_start(text) == open);
    let close = next_place(text, open, ']');
    first_places_are_found(text, open, close, ']');
    assert(at < close) by {
        if close <= at {
            assert(text[close] == ']');
        }
    }
    assert(is_separator(text[at]));
    assert(has_broken_extra(text));
}

/// Exchanging the sides of a comparison twice changes nothing. Only the comparisons by size
/// change.
pub proof fn sides_are_exchanged_back(comparison: Comparison)
    ensures
        comparison.flipped().flipped() == comparison,
        comparison.flipped() == comparison <==> !(comparison is Less || comparison is LessEqual
            || comparison is Greater || comparison is GreaterEqual),
        comparison.flipped().is_equality() <==> comparison.is_equality(),
        (comparison is LessEqual || comparison is GreaterEqual) <==> (
        comparison.flipped() is LessEqual || comparison.flipped() is GreaterEqual),
{
}

/// A release has the largest number somewhere.
pub open spec fn has_largest(version: VersionData) -> bool {
    exists|i: int| 0 <= i < version.release.len() && #[trigger] version.release[i] == u64::MAX
}

/// Only the largest number can be added to in vain.
pub proof fn only_the_largest_number_overflows(
    variable: Seq<char>,
    comparison: Comparison,
    version: VersionData,
)
    ensures
        overflows(variable, comparison, version) ==> has_largest(version),
{
}

/// The Python version cannot be compared for equality with a minor version that has the largest
/// number, and can with every other minor version. The full version can with all of them.
pub proof fn largest_minor_versions_are_refused(version: VersionData, comparison: Comparison)
    requires
        !version.wildcard,
        version.release.len() == 2,
        comparison.is_equality(),
    ensures
        overflows("python_version"@, comparison, version) <==> version.release[1] == u64::MAX,
        !overflows("python_full_version"@, comparison, version),
{
    reveal_strlit("python_version");
    reveal_strlit("python_full_version");
    assert("python_version"@.len() != "python_full_version"@.len());
    reveal_with_fuel(significant, 3);
}

/// The numbers of a release that count end in one that is not zero, and only zeros follow. A
/// release of zeros behind its first number counts whole.
pub proof fn trailing_zeros_do_not_count(release: Seq<u64>, len: int)
    requires
        0 < len <= release.len(),
    ensures
        ({
            let count = significant(release, len);
            ||| 1 < count <= len && release[count - 1] != 0 && forall|i: int|
                count <= i < len ==> #[trigger] release[i] == 0
            ||| count == release.len() && forall|i: int|
                1 <= i < len ==> #[trigger] release[i] == 0
        }),
    decreases len,
{
    if len > 1 && release[len - 1] == 0 {
        trailing_zeros_do_not_count(release, len - 1);
    }
}

/// A comparison of a version with a variable is refused exactly if it is with its sides
/// exchanged, unless the version has a star behind it.
pub proof fn exchanged_sides_are_refused_alike(
    variable: Seq<char>,
    comparison: Comparison,
    text: Seq<char>,
)
    requires
        !(comparison is In),
        crate::requirement::version_data(text) matches Some(version) ==> !version.wildcard,
    ensures
        is_broken(Side::Version(variable), comparison, Side::Quoted(text)) <==> is_broken(
            Side::Quoted(text),
            comparison.flipped(),
            Side::Version(variable),
        ),
{
    sides_are_exchanged_back(comparison);
}

/// A compatible release of a variable that holds a text is refused if the text comes first, and
/// nothing else about such a variable is.
pub proof fn texts_have_no_compatible_releases(side: Side, comparison: Comparison)
    ensures
        is_broken(side, comparison, Side::Text) <==> side is Quoted && comparison is Compatible,
        !is_broken(Side::Text, comparison, side),
        !is_broken(Side::Extra, comparison, side),
        !is_broken(side, comparison, Side::Extra),
{
}

/// A name is broken only if it ends in a separator with more behind it.
pub proof fn only_broken_names_are_refused(text: Seq<char>)
    requires
        has_broken_name(text),
    ensures
        exists|start: int, end: int| #[trigger]
            is_named(text, start, end) && is_alphanumeric(text[start]) && is_separator(
                text[end - 1],
            ),
{
    let start = name_start(text);
    let end = name_end(text);
    runs_end_with_their_class(text, 0, start, Class::White);
    runs_end_with_their_class(text, start, end, Class::Name);
    assert(is_run(text, 0, start, Class::White));
    assert(is_run(text, start, end, Class::Name));
    assert forall|i: int| 0 <= i < start implies is_white(#[trigger] text[i]) by {
        assert(Class::White.holds(text[i]));
    }
    assert forall|i: int| start <= i < end implies is_alphanumeric(#[trigger] text[i])
        || is_separator(text[i]) by {
        assert(Class::Name.holds(text[i]));
    }
    assert(is_named(text, start, end));
}

/// An extra is broken only if it stands in a list of extras and ends in a separator.
pub proof fn only_broken_extras_are_refused(text: Seq<char>)
    requires
        has_broken_extra(text),
    ensures
        exists|open: int, at: int|
            0 <= open < at < text.len() && #[trigger] text[open] == '[' && is_separator(
                #[trigger] text[at],
            ) && (at + 1 < text.len() ==> !is_alphanumeric(text[at + 1]) && !is_separator(
                text[at + 1],
            )) && forall|i: int| open <= i <= at ==> #[trigger] text[i] != ']',
{
    let open = extras_start(text);
    let close = next_place(text, open, ']');
    first_places_are_found(text, open, close, ']');
    let at = choose|at: int|
        open < at < close && #[trigger] is_separator(text[at]) && !(at + 1 < text.len()
            && Class::Name.holds(text[at + 1]));
    assert(text[open] == '[' && is_separator(text[at]));
}

/// The Python version is compared by size with a minor version in vain exactly if that has the
/// largest number and the comparison is with what follows it. With a version of three numbers it
/// is if the second is the largest, whatever the comparison. A local part keeps both from it.
pub proof fn largest_numbers_are_added_to_by_size(version: VersionData, comparison: Comparison)
    requires
        !version.wildcard,
        comparison is Less || comparison is LessEqual || comparison is Greater
            || comparison is GreaterEqual,
    ensures
        version.local ==> !overflows("python_version"@, comparison, version),
        version.release.len() == 2 && !version.local ==> (overflows(
            "python_version"@,
            comparison,
            version,
        ) <==> version.release[1] == u64::MAX && (comparison is Greater
            || comparison is LessEqual)),
        version.release.len() == 3 && version.release[2] != 0 && !version.local ==> (overflows(
            "python_version"@,
            comparison,
            version,
        ) <==> version.release[1] == u64::MAX),
        !overflows("python_full_version"@, comparison, version),
{
    reveal_strlit("python_version");
    reveal_strlit("python_full_version");
    assert("python_version"@.len() != "python_full_version"@.len());
    reveal_with_fuel(significant, 4);
}

/// A compatible release of a version with two numbers is looked for in vain exactly if the first
/// is the largest, and one of a single number or with a local part never is. Equality with all
/// versions that begin with some numbers is in vain exactly if the last of these is the largest,
/// but for the Python version only where there are no more than two.
pub proof fn largest_numbers_are_added_to_by_prefix(variable: Seq<char>, version: VersionData)
    ensures
        !version.wildcard && version.release.len() == 2 && !version.local ==> (overflows(
            variable,
            Comparison::Compatible,
            version,
        ) <==> version.release[0] == u64::MAX),
        !version.wildcard && (version.release.len() <= 1 || version.local) ==> !overflows(
            variable,
            Comparison::Compatible,
            version,
        ),
        version.wildcard && version.release.len() > 0 ==> (overflows(
            variable,
            Comparison::Equal,
            version,
        ) <==> version.release.last() == u64::MAX && (variable == "python_version"@
            ==> version.release.len() < 3)),
        version.wildcard ==> !overflows(variable, Comparison::Compatible, version) && !overflows(
            variable,
            Comparison::Less,
            version,
        ),
{
    reveal_with_fuel(significant, 4);
}

/// A list of versions is refused only for the Python version, and only if all of its words are
/// versions and one of them has the largest number.
pub proof fn only_lists_of_versions_are_refused(variable: Seq<char>, text: Seq<char>)
    ensures
        is_broken(Side::Version(variable), Comparison::In, Side::Quoted(text)) ==> variable
            == "python_version"@ && are_versions(text, 0) && lists_largest(text, 0),
        !is_broken(Side::Quoted(text), Comparison::In, Side::Version(variable)),
{
}

} // verus!
