//! Sets of texts, kept as lists in order.
use vstd::prelude::*;

use crate::text::{bytes_of, lemma_same_bytes, same_text};

verus! {

/// One byte sequence comes before another in the order of their bytes.
pub open spec fn bytes_before(one: Seq<u8>, other: Seq<u8>) -> bool
    decreases one.len(),
{
    if other.len() == 0 {
        false
    } else if one.len() == 0 {
        true
    } else if one[0] == other[0] {
        bytes_before(one.drop_first(), other.drop_first())
    } else {
        one[0] < other[0]
    }
}

/// One text comes before another.
pub open spec fn text_before(one: Seq<char>, other: Seq<char>) -> bool {
    bytes_before(bytes_of(one), bytes_of(other))
}

/// The texts of a list.
pub open spec fn views(texts: Seq<String>) -> Seq<Seq<char>> {
    texts.map_values(|text: String| text@)
}

/// Each text of a list comes before all that follow it.
pub open spec fn ascending(texts: Seq<Seq<char>>) -> bool {
    forall|i: int, j: int| 0 <= i < j < texts.len() ==> text_before(texts[i], texts[j])
}

/// No byte sequence comes before itself, and of two that differ one comes before the other.
proof fn lemma_before_total(one: Seq<u8>, other: Seq<u8>)
    ensures
        one == other ==> !bytes_before(one, other),
        one != other ==> bytes_before(one, other) || bytes_before(other, one),
        !(bytes_before(one, other) && bytes_before(other, one)),
    decreases one.len(),
{
    if one.len() > 0 && other.len() > 0 {
        lemma_before_total(one.drop_first(), other.drop_first());
        if one[0] == other[0] && one.drop_first() == other.drop_first() {
            assert(one =~= seq![one[0]] + one.drop_first());
            assert(other =~= seq![other[0]] + other.drop_first());
        }
    } else if one.len() == 0 && other.len() == 0 {
        assert(one =~= other);
    }
}

/// What comes before something comes before all that follows it.
proof fn lemma_before_transitive(one: Seq<u8>, two: Seq<u8>, three: Seq<u8>)
    requires
        bytes_before(one, two),
        bytes_before(two, three),
    ensures
        bytes_before(one, three),
    decreases one.len(),
{
    if one.len() > 0 && one[0] == two[0] && two[0] == three[0] {
        lemma_before_transitive(one.drop_first(), two.drop_first(), three.drop_first());
    }
}

/// The first byte in which two sequences differ decides which comes before the other, and where
/// they do not differ the shorter one does.
pub proof fn first_difference_decides(one: Seq<u8>, other: Seq<u8>, at: int)
    requires
        0 <= at <= one.len(),
        at <= other.len(),
        forall|i: int| 0 <= i < at ==> #[trigger] one[i] == other[i],
        at < one.len() && at < other.len() ==> one[at] != other[at],
    ensures
        bytes_before(one, other) <==> at < other.len() && (at == one.len() || one[at] < other[at]),
    decreases at,
{
    if at > 0 {
        let rest = one.drop_first();
        let others = other.drop_first();
        assert(one[0] == other[0]);
        assert forall|i: int| 0 <= i < at - 1 implies #[trigger] rest[i] == others[i] by {
            assert(one[i + 1] == other[i + 1]);
        }
        first_difference_decides(rest, others, at - 1);
    }
}

/// Two ascending lists of the same texts are the same list.
pub proof fn ascending_lists_agree(one: Seq<Seq<char>>, other: Seq<Seq<char>>)
    requires
        ascending(one),
        ascending(other),
        one.to_set() == other.to_set(),
    ensures
        one == other,
    decreases one.len(),
{
    if one.len() == 0 {
        if other.len() > 0 {
            assert(other.to_set().contains(other[0]));
        }
        assert(one =~= other);
    } else {
        assert(one.to_set().contains(one[0]));
        let i = choose|i: int| 0 <= i < other.len() && other[i] == one[0];
        assert(other.to_set().contains(other[0]));
        let j = choose|j: int| 0 <= j < one.len() && one[j] == other[0];
        lemma_before_total(bytes_of(one[0]), bytes_of(other[0]));
        if i > 0 && j > 0 {
            assert(text_before(one[0], one[j]));
            assert(text_before(other[0], other[i]));
        }
        assert(one[0] == other[0]);
        let rest = one.drop_first();
        let others = other.drop_first();
        assert forall|text: Seq<char>| rest.to_set().contains(text) implies others.to_set().contains(
            text,
        ) by {
            let at = choose|at: int| 0 <= at < rest.len() && rest[at] == text;
            assert(one[at + 1] == text);
            assert(one.to_set().contains(text));
            let found = choose|found: int| 0 <= found < other.len() && other[found] == text;
            lemma_before_total(bytes_of(one[0]), bytes_of(text));
            assert(text_before(one[0], one[at + 1]));
            assert(found > 0);
            assert(others[found - 1] == text);
        }
        assert forall|text: Seq<char>| others.to_set().contains(text) implies rest.to_set().contains(
            text,
        ) by {
            let at = choose|at: int| 0 <= at < others.len() && others[at] == text;
            assert(other[at + 1] == text);
            assert(other.to_set().contains(text));
            let found = choose|found: int| 0 <= found < one.len() && one[found] == text;
            lemma_before_total(bytes_of(other[0]), bytes_of(text));
            assert(text_before(other[0], other[at + 1]));
            assert(found > 0);
            assert(rest[found - 1] == text);
        }
        assert(rest.to_set() =~= others.to_set());
        ascending_lists_agree(rest, others);
        assert(one =~= seq![one[0]] + rest);
        assert(other =~= seq![other[0]] + others);
    }
}

/// Whether one text comes before another.
fn is_before(one: &str, other: &str) -> (before: bool)
    ensures
        before == text_before(one@, other@),
{
    let left = one.as_bytes();
    let right = other.as_bytes();
    let mut i: usize = 0;
    assert(left@.skip(0) =~= left@);
    assert(right@.skip(0) =~= right@);
    while i < left.len() && i < right.len() && left[i] == right[i]
        invariant
            i <= left.len(),
            i <= right.len(),
            bytes_before(left@, right@) == bytes_before(
                left@.skip(i as int),
                right@.skip(i as int),
            ),
        decreases left.len() - i,
    {
        assert(left@.skip(i as int).drop_first() =~= left@.skip(i + 1));
        assert(right@.skip(i as int).drop_first() =~= right@.skip(i + 1));
        i += 1;
    }
    if i == right.len() {
        false
    } else if i == left.len() {
        true
    } else {
        left[i] < right[i]
    }
}

/// Whether a text is in a list.
pub fn contains_text(texts: &Vec<String>, text: &str) -> (found: bool)
    ensures
        found == views(texts@).contains(text@),
{
    let mut i: usize = 0;
    while i < texts.len()
        invariant
            i <= texts.len(),
            forall|k: int| 0 <= k < i ==> views(texts@)[k] != text@,
        decreases texts.len() - i,
    {
        if same_text(texts[i].as_str(), text) {
            assert(views(texts@)[i as int] == text@);
            return true;
        }
        i += 1;
    }
    false
}

/// Puts a text where it belongs in an ascending list, unless it is already there.
fn insert_ascending(texts: &mut Vec<String>, text: String)
    requires
        ascending(views(old(texts)@)),
    ensures
        ascending(views(final(texts)@)),
        views(final(texts)@).to_set() == views(old(texts)@).to_set().insert(text@),
{
    let ghost before = views(texts@);
    let mut at: usize = 0;
    while at < texts.len() && is_before(texts[at].as_str(), text.as_str())
        invariant
            at <= texts.len(),
            before == views(texts@),
            forall|i: int| 0 <= i < at ==> text_before(before[i], text@),
        decreases texts.len() - at,
    {
        assert(before[at as int] == texts@[at as int]@);
        at += 1;
    }
    if at < texts.len() {
        assert(before[at as int] == texts@[at as int]@);
        if !is_before(text.as_str(), texts[at].as_str()) {
            proof {
                lemma_before_total(bytes_of(text@), bytes_of(before[at as int]));
                lemma_same_bytes_or(text@, before[at as int]);
                assert(before.to_set().contains(before[at as int]));
                assert(before.to_set().insert(text@) =~= before.to_set());
            }
            return;
        }
    }
    let ghost inserted = text@;
    texts.insert(at, text);
    proof {
        let after = views(texts@);
        assert(after =~= before.insert(at as int, inserted));
        assert forall|i: int, j: int| 0 <= i < j < after.len() implies text_before(
            after[i],
            after[j],
        ) by {
            if i < at {
                if j > at && i < at {
                    assert(after[j] == before[j - 1]);
                }
            } else if i == at {
                assert(after[j] == before[j - 1]);
                if j - 1 > at {
                    assert(text_before(before[at as int], before[j - 1]));
                    lemma_before_transitive(
                        bytes_of(inserted),
                        bytes_of(before[at as int]),
                        bytes_of(before[j - 1]),
                    );
                }
            } else {
                assert(after[i] == before[i - 1]);
                assert(after[j] == before[j - 1]);
            }
        }
        assert forall|x: Seq<char>| after.to_set().contains(x) == before.to_set().insert(
            inserted,
        ).contains(x) by {
            if before.to_set().contains(x) {
                let k = choose|k: int| 0 <= k < before.len() && before[k] == x;
                if k < at {
                    assert(after[k] == x);
                } else {
                    assert(after[k + 1] == x);
                }
            }
            if x == inserted {
                assert(after[at as int] == x);
            }
            if after.to_set().contains(x) && x != inserted {
                let k = choose|k: int| 0 <= k < after.len() && after[k] == x;
                if k < at {
                    assert(before[k] == x);
                } else {
                    assert(before[k - 1] == x);
                }
            }
        }
        assert(after.to_set() =~= before.to_set().insert(inserted));
    }
}

/// Texts neither of which comes before the other are the same text.
proof fn lemma_same_bytes_or(one: Seq<char>, other: Seq<char>)
    ensures
        bytes_of(one) == bytes_of(other) ==> one == other,
{
    if bytes_of(one) == bytes_of(other) {
        lemma_same_bytes(one, other);
    }
}

/// Puts texts in order and drops those that occur again.
pub fn sort_dedup(texts: Vec<String>) -> (sorted: Vec<String>)
    ensures
        ascending(views(sorted@)),
        views(sorted@).to_set() == views(texts@).to_set(),
{
    let mut sorted: Vec<String> = Vec::new();
    let ghost all = views(texts@);
    let mut i: usize = 0;
    assert(views(sorted@).to_set() =~= all.take(0).to_set());
    while i < texts.len()
        invariant
            i <= texts.len(),
            all == views(texts@),
            ascending(views(sorted@)),
            views(sorted@).to_set() == all.take(i as int).to_set(),
        decreases texts.len() - i,
    {
        insert_ascending(&mut sorted, texts[i].clone());
        proof {
            assert(all.take(i + 1) =~= all.take(i as int).push(all[i as int]));
            all.take(i as int).lemma_push_to_set_commute(all[i as int]);
        }
        i += 1;
    }
    assert(all.take(i as int) =~= all);
    sorted
}

} // verus!
