//! How a metadata block is read from a script, said of each line on its own.
use vstd::prelude::*;
use vstd::utf8::*;

use crate::script_block::{
    block_in, closes_at, closing_comment, comment, comment_line, holds_block, joined,
    leading_comments, lemma_block_in, lemma_literals, opening, starts_a_line, BlockBytes,
    BlockFault,
};
use crate::script_header::lemma_header_literals;
use crate::text::{
    bytes_of, occurs_at, occurs_first_at, raw_lines, text_lines, trimmed,
};

verus! {

/// What a comment line says is what follows the number sign and a space, or nothing where that
/// sign stands alone. Any other line is no comment.
pub proof fn comments_follow_their_sign(line: Seq<u8>, content: Seq<u8>)
    ensures
        comment(line) == Some(content) <==> line == seq![0x23u8, 0x20u8] + content || (line
            == seq![0x23u8] && content.len() == 0),
{
    let signed = seq![0x23u8, 0x20u8] + content;
    if comment(line) == Some(content) {
        if line.len() == 1 {
            assert(line =~= seq![0x23u8]);
        } else {
            assert(line =~= signed);
        }
    }
    if line == signed {
        assert(line.skip(2) =~= content);
        assert(line[0] == 0x23 && line[1] == 0x20);
    }
    if line == seq![0x23u8] && content.len() == 0 {
        assert(content =~= Seq::empty());
    }
}

/// The ending that is taken from a line, and nothing else is: a line feed, a carriage return, or
/// one behind the other, and nothing where the line ends in neither.
pub proof fn endings_are_taken_from_lines(line: Seq<u8>)
    ensures
        ({
            let text = trimmed(line);
            ||| line == text + seq![0x0du8, 0x0au8]
            ||| line == text + seq![0x0au8] && !(text.len() > 0 && text.last() == 0x0d)
            ||| line == text + seq![0x0du8]
            ||| line == text && !(text.len() > 0 && (text.last() == 0x0a || text.last() == 0x0d))
        }),
{
    let text = trimmed(line);
    if line.len() > 0 && line.last() == 0x0a {
        let shorter = line.drop_last();
        if shorter.len() > 0 && shorter.last() == 0x0d {
            assert(line =~= text + seq![0x0du8, 0x0au8]);
        } else {
            assert(line =~= text + seq![0x0au8]);
        }
    } else if line.len() > 0 && line.last() == 0x0d {
        assert(line =~= text + seq![0x0du8]);
    }
}

/// A line of metadata is written so that it reads back, with nothing behind it but a line feed.
/// An empty one gets no space.
pub proof fn lines_are_written_as_comments(line: Seq<u8>)
    ensures
        comment_line(line).last() == 0x0a,
        comment(comment_line(line).drop_last()) == Some(line),
        line.len() == 0 ==> comment_line(line).len() == 2,
{
    let written = comment_line(line).drop_last();
    if line.len() == 0 {
        assert(written =~= seq![0x23u8]);
    } else {
        assert(written =~= seq![0x23u8, 0x20u8] + line);
    }
    comments_follow_their_sign(written, line);
}

/// The line says something, or is no comment.
pub open spec fn said(lines: Seq<Seq<u8>>, at: int) -> Option<Seq<u8>> {
    comment(trimmed(lines[at]))
}

/// The comments at the front are those of the lines up to the first that is none.
proof fn lemma_leading(lines: Seq<Seq<u8>>)
    ensures
        leading_comments(lines).len() <= lines.len(),
        forall|i: int|
            0 <= i < leading_comments(lines).len() ==> #[trigger] said(lines, i) == Some(
                leading_comments(lines)[i],
            ),
        leading_comments(lines).len() < lines.len() ==> said(
            lines,
            leading_comments(lines).len() as int,
        ) is None,
    decreases lines.len(),
{
    if lines.len() > 0 {
        let rest = lines.drop_first();
        lemma_leading(rest);
        assert forall|i: int| 0 <= i < leading_comments(lines).len() implies #[trigger] said(
            lines,
            i,
        ) == Some(leading_comments(lines)[i]) by {
            if i > 0 {
                assert(lines[i] == rest[i - 1]);
                assert(said(rest, i - 1) == Some(leading_comments(rest)[i - 1]));
            }
        }
        if said(lines, 0) is Some && leading_comments(lines).len() < lines.len() {
            let count = leading_comments(lines).len() as int;
            assert(lines[count] == rest[count - 1]);
            assert(said(rest, count - 1) is None);
        }
    }
}

/// The line closes the block that the first line opens: it says three slashes, all lines up to it
/// say something, and no other line does so before one that says nothing.
pub open spec fn is_closed_by(lines: Seq<Seq<u8>>, last: int) -> bool {
    &&& 1 <= last < lines.len()
    &&& said(lines, last) == Some(seq![0x2fu8, 0x2fu8, 0x2fu8])
    &&& forall|i: int| 1 <= i <= last ==> #[trigger] said(lines, i) is Some
    &&& forall|later: int|
        last < later < lines.len() && #[trigger] said(lines, later) == Some(
            seq![0x2fu8, 0x2fu8, 0x2fu8],
        ) ==> exists|i: int| last < i < later && #[trigger] said(lines, i) is None
}

/// The line that closes a block is the one whose comment does.
proof fn lemma_closed(lines: Seq<Seq<u8>>, last: int)
    requires
        lines.len() > 0,
    ensures
        is_closed_by(lines, last) <==> closes_at(leading_comments(lines.drop_first()), last - 1),
{
    lemma_literals();
    let rest = lines.drop_first();
    let comments = leading_comments(rest);
    lemma_leading(rest);
    assert forall|i: int| 1 <= i < lines.len() implies #[trigger] said(lines, i) == said(
        rest,
        i - 1,
    ) by {
        assert(rest[i - 1] == lines[i]);
    }
    if is_closed_by(lines, last) {
        if comments.len() <= last - 1 {
            let gap = comments.len() as int;
            assert(said(rest, gap) is None);
            assert(said(lines, gap + 1) is Some);
        }
        assert(said(rest, last - 1) == Some(comments[last - 1]));
        assert(said(lines, last) == said(rest, last - 1));
        assert forall|later: int| last - 1 < later < comments.len() implies comments[later]
            != closing_comment() by {
            if comments[later] == closing_comment() {
                assert(said(rest, later) == Some(comments[later]));
                assert(said(lines, later + 1) == said(rest, later));
                let i = choose|i: int| last < i < later + 1 && #[trigger] said(lines, i) is None;
                assert(said(rest, i - 1) == Some(comments[i - 1]));
            }
        }
    }
    if closes_at(comments, last - 1) {
        assert(said(rest, last - 1) == Some(comments[last - 1]));
        assert forall|i: int| 1 <= i <= last implies #[trigger] said(lines, i) is Some by {
            assert(said(rest, i - 1) == Some(comments[i - 1]));
        }
        assert forall|later: int|
            last < later < lines.len() && #[trigger] said(lines, later) == Some(
                seq![0x2fu8, 0x2fu8, 0x2fu8],
            ) implies exists|i: int| last < i < later && #[trigger] said(lines, i) is None by {
            let gap = comments.len() as int;
            if later - 1 < gap {
                assert(said(rest, later - 1) == Some(comments[later - 1]));
            } else {
                assert(said(rest, gap) is None);
                assert(said(lines, gap + 1) is None);
            }
        }
    }
}

/// What the lines before the last say, put together.
pub open spec fn metadata_before(lines: Seq<Seq<u8>>, last: int) -> Seq<u8> {
    joined(Seq::new((last - 1) as nat, |i: int| said(lines, i + 1)->Some_0))
}

/// A block may stand here: nothing is before it, or a byte order mark, or a line ending.
pub open spec fn may_stand_behind(prelude: Seq<u8>) -> bool {
    prelude.len() == 0 || prelude == seq![0xefu8, 0xbbu8, 0xbfu8] || prelude.last() == 0x0a
        || prelude.last() == 0x0d
}

/// The first place at which the opening line's text stands decides. If a line starts there, and is
/// no more than that text, a block is there. It goes up to the line that closes it, without which
/// it is a fault. Its metadata is what the lines between say, and everything before and behind it
/// is kept. Another block behind it is a fault.
pub proof fn blocks_are_read_as_they_stand(contents: Seq<u8>, at: int)
    requires
        occurs_first_at(contents, bytes_of("# /// script"@), at),
    ensures
        ({
            let prelude = contents.take(at);
            let lines = raw_lines(contents.skip(at));
            let valid = valid_utf8(prelude) && valid_utf8(contents.skip(at));
            let opens = may_stand_behind(prelude) && valid && trimmed(lines[0]) == bytes_of(
                "# /// script"@,
            );
            match block_in(contents) {
                Ok(None) => !may_stand_behind(prelude) || (valid && !opens),
                Err(BlockFault::NotUtf8) => may_stand_behind(prelude) && !valid,
                Err(BlockFault::Unclosed) => opens && forall|last: int| !is_closed_by(lines, last),
                Err(BlockFault::Duplicate) => opens && exists|last: int| #[trigger]
                    is_closed_by(lines, last) && holds_block(
                        text_lines(lines.skip(last + 1).flatten()),
                    ),
                Ok(Some(block)) => opens && block.prelude == prelude && exists|last: int| #[trigger]
                    is_closed_by(lines, last) && block.metadata == metadata_before(lines, last)
                        && block.postlude == lines.skip(last + 1).flatten() && !holds_block(
                        text_lines(block.postlude),
                    ),
            }
        }),
{
    lemma_literals();
    lemma_header_literals();
    lemma_block_in(contents, at);
    let prelude = contents.take(at);
    let rest = contents.skip(at);
    let lines = raw_lines(rest);
    assert(starts_a_line(prelude) <==> may_stand_behind(prelude));
    assert(contents.subrange(at, at + opening().len()) == opening());
    assert(rest.len() > 0);
    assert(lines.len() > 0);
    let comments = leading_comments(lines.drop_first());
    assert forall|last: int| is_closed_by(lines, last) <==> closes_at(comments, last - 1) by {
        lemma_closed(lines, last);
    }
    if comments.contains(closing_comment()) {
        let some = choose|i: int| 0 <= i < comments.len() && comments[i] == closing_comment();
        lemma_last(comments, some);
        let end = choose|end: int| closes_at(comments, end);
        let last = end + 1;
        assert(closes_at(comments, last - 1));
        assert(is_closed_by(lines, last));
        lemma_leading(lines.drop_first());
        assert(comments.take(end) =~= Seq::new(
            (last - 1) as nat,
            |i: int| said(lines, i + 1)->Some_0,
        )) by {
            assert forall|i: int| 0 <= i < end implies comments[i] == #[trigger] said(
                lines,
                i + 1,
            )->Some_0 by {
                assert(said(lines.drop_first(), i) == Some(comments[i]));
                assert(lines.drop_first()[i] == lines[i + 1]);
            }
        }
        assert(lines.skip(end + 2) == lines.skip(last + 1));
    } else {
        assert forall|last: int| !is_closed_by(lines, last) by {
            if is_closed_by(lines, last) {
                assert(closes_at(comments, last - 1));
                assert(comments.contains(comments[last - 1]));
            }
        }
    }
}

/// Of the comments that close a block one is the last.
proof fn lemma_last(comments: Seq<Seq<u8>>, at: int)
    requires
        0 <= at < comments.len(),
        comments[at] == closing_comment(),
    ensures
        exists|end: int| closes_at(comments, end),
    decreases comments.len() - at,
{
    if exists|later: int| at < later < comments.len() && comments[later] == closing_comment() {
        let later = choose|later: int|
            at < later < comments.len() && comments[later] == closing_comment();
        lemma_last(comments, later);
    } else {
        assert(closes_at(comments, at));
    }
}

/// A script in which the opening line's text stands nowhere has no block.
pub proof fn scripts_without_the_opening_have_no_block(contents: Seq<u8>)
    requires
        forall|at: int| !occurs_at(contents, bytes_of("# /// script"@), at),
    ensures
        block_in(contents) == Ok::<Option<BlockBytes>, BlockFault>(None),
{
}

} // verus!
