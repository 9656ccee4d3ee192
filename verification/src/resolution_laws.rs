//! What names a resolution has, and which name a script has in its directory.
use vstd::prelude::*;

use crate::resolution::{
    hex_digit, hex_text, lock_name, names_of, readable, selects, DirectoryEntry, FileId,
    FileNameFault, StoredScriptResolution,
};

verus! {

/// Different numbers below sixteen have different digits.
proof fn lemma_digits_differ(one: u8, other: u8)
    requires
        one < 16,
        other < 16,
        hex_digit(one) == hex_digit(other),
    ensures
        one == other,
{
    assert(one < 10 ==> (((one + 48) as u8) as char) as int == one + 48);
    assert(one >= 10 ==> (((one + 87) as u8) as char) as int == one + 87);
    assert(other < 10 ==> (((other + 48) as u8) as char) as int == other + 48);
    assert(other >= 10 ==> (((other + 87) as u8) as char) as int == other + 87);
}

/// Two resolutions are coordinated by one file exactly if the first eight bytes of their digests
/// are the same. The name is plain, whatever the digest.
pub proof fn lock_names_tell_digests_apart(one: Seq<u8>, other: Seq<u8>)
    requires
        one.len() >= 8,
        other.len() >= 8,
    ensures
        lock_name(one) == lock_name(other) <==> one.take(8) == other.take(8),
        lock_name(one).len() == 33,
{
    reveal_strlit("pixi-script-");
    reveal_strlit(".lock");
    let ours = hex_text(one).take(16);
    let theirs = hex_text(other).take(16);
    if lock_name(one) == lock_name(other) {
        assert forall|i: int| 0 <= i < 8 implies one[i] == other[i] by {
            assert(lock_name(one)[12 + 2 * i] == ours[2 * i]);
            assert(lock_name(other)[12 + 2 * i] == theirs[2 * i]);
            assert(lock_name(one)[12 + 2 * i + 1] == ours[2 * i + 1]);
            assert(lock_name(other)[12 + 2 * i + 1] == theirs[2 * i + 1]);
            assert((2 * i) / 2 == i && (2 * i + 1) / 2 == i);
            assert(ours[2 * i] == hex_digit(one[i] / 16));
            assert(theirs[2 * i] == hex_digit(other[i] / 16));
            assert(ours[2 * i + 1] == hex_digit(one[i] % 16));
            assert(theirs[2 * i + 1] == hex_digit(other[i] % 16));
            lemma_digits_differ(one[i] / 16, other[i] / 16);
            lemma_digits_differ(one[i] % 16, other[i] % 16);
        }
        assert(one.take(8) =~= other.take(8));
    }
    if one.take(8) == other.take(8) {
        assert forall|i: int| 0 <= i < 16 implies ours[i] == theirs[i] by {
            assert(one.take(8)[i / 2] == one[i / 2]);
            assert(other.take(8)[i / 2] == other[i / 2]);
        }
        assert(ours =~= theirs);
    }
}

/// The entry is one of the file.
pub open spec fn is_of(entry: DirectoryEntry, id: FileId) -> bool {
    entry.id == id
}

/// A directory has no name for a file exactly if no entry is of that file, one exactly if one
/// entry is, and that is the entry's, and several exactly if several entries are.
pub proof fn names_are_those_of_the_entries(entries: Seq<DirectoryEntry>, id: FileId)
    ensures
        ({
            let names = names_of(entries, id);
            &&& names.len() == 0 <==> forall|i: int|
                0 <= i < entries.len() ==> !is_of(#[trigger] entries[i], id)
            &&& names.len() == 1 <==> exists|at: int|
                0 <= at < entries.len() && is_of(#[trigger] entries[at], id) && names
                    == seq![entries[at].name@] && forall|i: int|
                    0 <= i < entries.len() && i != at ==> !is_of(#[trigger] entries[i], id)
            &&& names.len() >= 2 <==> exists|i: int, j: int|
                0 <= i < j < entries.len() && is_of(#[trigger] entries[i], id) && is_of(
                    #[trigger] entries[j],
                    id,
                )
        }),
    decreases entries.len(),
{
    reveal(Seq::filter);
    let same = |entry: DirectoryEntry| entry.id == id;
    let name = |entry: DirectoryEntry| entry.name@;
    let names = names_of(entries, id);
    if entries.len() == 0 {
        assert(names.len() == 0);
    } else {
        let front = entries.drop_last();
        let last = entries.last();
        let before = names_of(front, id);
        let end = entries.len() - 1;
        names_are_those_of_the_entries(front, id);
        assert(forall|i: int| 0 <= i < front.len() ==> front[i] == entries[i]);
        if is_of(last, id) {
            assert(names =~= before.push(last.name@)) by {
                assert(front.filter(same).push(last).map_values(name) =~= front.filter(
                    same,
                ).map_values(name).push(name(last)));
            }
            assert(is_of(entries[end], id));
            if before.len() == 0 {
                assert forall|i: int| 0 <= i < entries.len() && i != end implies !is_of(
                    #[trigger] entries[i],
                    id,
                ) by {
                    assert(!is_of(front[i], id));
                }
                assert(names =~= seq![entries[end].name@]);
            } else {
                let at = if before.len() == 1 {
                    choose|at: int|
                        0 <= at < front.len() && is_of(#[trigger] front[at], id) && before
                            == seq![front[at].name@] && forall|i: int|
                            0 <= i < front.len() && i != at ==> !is_of(#[trigger] front[i], id)
                } else {
                    let (i, j) = choose|i: int, j: int|
                        0 <= i < j < front.len() && is_of(#[trigger] front[i], id) && is_of(
                            #[trigger] front[j],
                            id,
                        );
                    i
                };
                assert(is_of(entries[at], id));
            }
        } else {
            assert(names == before);
            if before.len() == 1 {
                let at = choose|at: int|
                    0 <= at < front.len() && is_of(#[trigger] front[at], id) && before
                        == seq![front[at].name@] && forall|i: int|
                        0 <= i < front.len() && i != at ==> !is_of(#[trigger] front[i], id);
                assert(is_of(entries[at], id));
                assert forall|i: int| 0 <= i < entries.len() && i != at implies !is_of(
                    #[trigger] entries[i],
                    id,
                ) by {
                    if i < front.len() {
                        assert(!is_of(front[i], id));
                    }
                }
            } else if before.len() >= 2 {
                let (i, j) = choose|i: int, j: int|
                    0 <= i < j < front.len() && is_of(#[trigger] front[i], id) && is_of(
                        #[trigger] front[j],
                        id,
                    );
                assert(is_of(entries[i], id) && is_of(entries[j], id));
            } else {
                assert forall|i: int| 0 <= i < entries.len() implies !is_of(
                    #[trigger] entries[i],
                    id,
                ) by {
                    if i < front.len() {
                        assert(!is_of(front[i], id));
                    }
                }
            }
        }
    }
}

/// The name that is used is a candidate, and another one than was asked for only if it is the
/// only one. It fails for want of candidates, or if there are several and none was asked for.
pub proof fn selected_names_are_candidates(
    requested: Seq<u8>,
    candidates: Seq<Vec<u8>>,
    result: Result<Vec<u8>, FileNameFault>,
)
    requires
        selects(requested, candidates, result),
    ensures
        match result {
            Ok(name) => (exists|i: int|
                0 <= i < candidates.len() && (#[trigger] candidates[i])@ == name@) && (name@
                == requested || candidates.len() == 1),
            Err(FileNameFault::NotFound) => candidates.len() == 0,
            Err(FileNameFault::Ambiguous) => candidates.len() >= 2 && forall|i: int|
                0 <= i < candidates.len() ==> (#[trigger] candidates[i])@ != requested,
        },
        (exists|i: int| 0 <= i < candidates.len() && (#[trigger] candidates[i])@ == requested)
            ==> (result matches Ok(name) && name@ == requested),
{
    if result is Ok && candidates.len() == 1 {
        assert(candidates[0]@ == candidates[0]@);
    }
}

/// What is read is what was stored, and it is read exactly if it is of the first version.
pub proof fn only_the_first_version_is_read(stored: StoredScriptResolution)
    ensures
        readable(stored) is Some <==> stored.version == 1,
        readable(stored) matches Some(text) ==> text == stored.lock_file@,
{
}

} // verus!
