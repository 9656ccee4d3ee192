//! What is written into a script is what is read from it.
use vstd::prelude::*;
use vstd::utf8::*;

use crate::script_block::{
    block_at, block_in, closes_at, closing, closing_comment, comment, comment_line, holds_block,
    joined, leading_comments, lemma_block_in, lemma_literals, opening, serialized, starts_a_line,
    BlockBytes, BlockFault,
};
use crate::text::{
    lemma_boundary_behind_ascii, lemma_line_len, lemma_raw_lines_cons, lemma_raw_lines_flatten,
    lemma_text_line_shape, line_len, line_text, occurs_at, occurs_first_at, raw_lines, text_lines,
    trimmed, without_last, CARRIAGE_RETURN, LINE_FEED,
};

verus! {

/// No line of the text ends in a carriage return once its line ending is taken off.
pub open spec fn no_stray_returns(text: Seq<u8>) -> bool {
    forall|i: int|
        0 <= i < text_lines(text).len() ==> ends_without_return(#[trigger] text_lines(text)[i])
}

/// The line does not end in a carriage return.
pub open spec fn ends_without_return(line: Seq<u8>) -> bool {
    line.len() > 0 ==> line.last() != CARRIAGE_RETURN
}

/// A block can be put between these two texts and found again: nothing before it looks like
/// an opening line, and no closing line follows it among the comments right behind it.
pub open spec fn encloses(prelude: Seq<u8>, postlude: Seq<u8>) -> bool {
    &&& valid_utf8(prelude)
    &&& valid_utf8(postlude)
    &&& starts_a_line(prelude)
    &&& occurs_first_at(prelude + opening(), opening(), prelude.len() as int)
    &&& !leading_comments(raw_lines(postlude)).contains(closing_comment())
}

/// Taking a trailing ASCII byte off leaves valid UTF-8.
proof fn lemma_valid_without_last(text: Seq<u8>, byte: u8)
    requires
        valid_utf8(text),
        byte < 0x80,
    ensures
        valid_utf8(without_last(text, byte)),
{
    if text.len() > 0 && text.last() == byte {
        lemma_boundary_behind_ascii(text, text.len() - 1);
        valid_utf8_split(text, text.len() - 1);
        assert(text.drop_last() =~= text.subrange(0, text.len() - 1));
    }
}

/// Every line of a valid text is valid.
proof fn lemma_valid_lines(text: Seq<u8>)
    requires
        valid_utf8(text),
    ensures
        forall|i: int| 0 <= i < raw_lines(text).len() ==> valid_utf8(#[trigger] raw_lines(text)[i]),
        forall|i: int|
            0 <= i < text_lines(text).len() ==> valid_utf8(#[trigger] text_lines(text)[i]),
    decreases text.len(),
{
    if text.len() > 0 {
        lemma_line_len(text);
        let n = line_len(text) as int;
        if n < text.len() {
            lemma_boundary_behind_ascii(text, n - 1);
        } else {
            is_char_boundary_start_end_of_seq(text);
        }
        valid_utf8_split(text, n);
        assert(text.take(n) == text.subrange(0, n));
        assert(text.skip(n) == text.subrange(n, text.len() as int));
        lemma_valid_lines(text.skip(n));
        assert forall|i: int| 0 <= i < raw_lines(text).len() implies valid_utf8(
            #[trigger] raw_lines(text)[i],
        ) by {
            if i > 0 {
                assert(raw_lines(text)[i] == raw_lines(text.skip(n))[i - 1]);
            }
        }
        assert forall|i: int| 0 <= i < text_lines(text).len() implies valid_utf8(
            #[trigger] text_lines(text)[i],
        ) by {
            let line = raw_lines(text)[i];
            assert(text_lines(text)[i] == line_text(line));
            lemma_valid_without_last(line, LINE_FEED);
            lemma_valid_without_last(without_last(line, LINE_FEED), CARRIAGE_RETURN);
        }
    }
}

/// Valid parts make a valid whole.
proof fn lemma_valid_flatten(parts: Seq<Seq<u8>>)
    requires
        forall|i: int| 0 <= i < parts.len() ==> valid_utf8(#[trigger] parts[i]),
    ensures
        valid_utf8(parts.flatten()),
    decreases parts.len(),
{
    if parts.len() > 0 {
        assert forall|i: int| 0 <= i < parts.drop_first().len() implies valid_utf8(
            #[trigger] parts.drop_first()[i],
        ) by {
            assert(parts.drop_first()[i] == parts[i + 1]);
        }
        lemma_valid_flatten(parts.drop_first());
        assert(valid_utf8(parts[0]));
        valid_utf8_concat(parts.first(), parts.drop_first().flatten());
    }
}

/// ASCII bytes are valid UTF-8.
pub proof fn lemma_valid_ascii(text: Seq<u8>)
    requires
        forall|i: int| 0 <= i < text.len() ==> #[trigger] text[i] < 0x80,
    ensures
        valid_utf8(text),
    decreases text.len(),
{
    if text.len() > 0 {
        let byte = text[0];
        assert(byte < 0x80 ==> (byte & 0x7f) == byte) by (bit_vector);
        assert(length_of_first_scalar(text) == 1);
        assert(valid_first_scalar(text));
        assert(pop_first_scalar(text) =~= text.drop_first());
        lemma_valid_ascii(text.drop_first());
    }
}

/// Metadata that is valid UTF-8 is written as valid UTF-8.
pub proof fn lemma_valid_serialized(metadata: Seq<u8>)
    requires
        valid_utf8(metadata),
    ensures
        valid_utf8(serialized(metadata)),
{
    lemma_literals();
    lemma_valid_lines(metadata);
    let lines = text_lines(metadata);
    let written = lines.map_values(|line: Seq<u8>| comment_line(line));
    let front = seq![0x23u8, 0x20];
    let end = seq![LINE_FEED];
    lemma_valid_ascii(front);
    lemma_valid_ascii(end);
    lemma_valid_ascii(seq![0x23u8, LINE_FEED]);
    lemma_valid_ascii(opening());
    lemma_valid_ascii(closing());
    assert forall|i: int| 0 <= i < written.len() implies valid_utf8(#[trigger] written[i]) by {
        assert(written[i] == comment_line(lines[i]));
        assert(valid_utf8(lines[i]));
        valid_utf8_concat(front, lines[i]);
        valid_utf8_concat(front + lines[i], end);
    }
    lemma_valid_flatten(written);
    valid_utf8_concat(opening(), end);
    valid_utf8_concat(opening() + end, written.flatten());
    valid_utf8_concat(opening() + end + written.flatten(), closing());
    valid_utf8_concat(opening() + end + written.flatten() + closing(), end);
}

/// Comment lines in front of other lines come out as comments in front of theirs.
proof fn lemma_comments_of_written(lines: Seq<Seq<u8>>, rest: Seq<u8>)
    requires
        forall|i: int, j: int|
            0 <= i < lines.len() && 0 <= j < lines[i].len() ==> lines[i][j] != LINE_FEED,
        forall|i: int| 0 <= i < lines.len() ==> ends_without_return(#[trigger] lines[i]),
    ensures
        ({
            let written = lines.map_values(|line: Seq<u8>| comment_line(line));
            &&& raw_lines(written.flatten() + rest) == written + raw_lines(rest)
            &&& leading_comments(raw_lines(written.flatten() + rest)) == lines + leading_comments(
                raw_lines(rest),
            )
        }),
    decreases lines.len(),
{
    let to_comment = |line: Seq<u8>| comment_line(line);
    let written = lines.map_values(to_comment);
    if lines.len() == 0 {
        assert(written.flatten() + rest =~= rest);
        assert(written + raw_lines(rest) =~= raw_lines(rest));
        assert(lines + leading_comments(raw_lines(rest)) =~= leading_comments(raw_lines(rest)));
    } else {
        let others = lines.drop_first();
        assert forall|i: int, j: int| 0 <= i < others.len() && 0 <= j < others[i].len() implies
            others[i][j] != LINE_FEED by {
            assert(others[i] == lines[i + 1]);
        }
        assert forall|i: int| 0 <= i < others.len() implies ends_without_return(
            #[trigger] others[i],
        ) by {
            assert(others[i] == lines[i + 1]);
        }
        lemma_comments_of_written(others, rest);
        let others_written = others.map_values(to_comment);
        assert(written.drop_first() =~= others_written);
        let first = comment_line(lines[0]);
        assert(written.first() == first);
        assert(written.flatten() == first + others_written.flatten());
        assert(written.flatten() + rest =~= first + (others_written.flatten() + rest));
        assert forall|i: int| 0 <= i < first.len() - 1 implies first[i] != LINE_FEED by {
            if i >= 2 {
                assert(first[i] == lines[0][i - 2]);
            }
        }
        lemma_raw_lines_cons(first, others_written.flatten() + rest);
        let all = raw_lines(written.flatten() + rest);
        assert(all =~= written + raw_lines(rest));
        assert(all[0] == first);
        assert(all.drop_first() =~= raw_lines(others_written.flatten() + rest));
        assert(without_last(first, LINE_FEED) =~= first.drop_last());
        if lines[0].len() > 0 {
            assert(first.drop_last() =~= seq![0x23u8, 0x20] + lines[0]);
            assert(first.drop_last().last() == lines[0].last());
            assert(ends_without_return(lines[0]));
            assert(trimmed(first) == first.drop_last());
            assert(trimmed(first).skip(2) =~= lines[0]);
        } else {
            assert(first.drop_last() =~= seq![0x23u8]);
            assert(trimmed(first) == first.drop_last());
            assert(lines[0] =~= Seq::<u8>::empty());
        }
        assert(comment(trimmed(first)) == Some(lines[0]));
        assert(leading_comments(all) =~= lines + leading_comments(raw_lines(rest)));
    }
}

/// The lines of a text from any of them on are the lines of the text they make.
proof fn lemma_raw_lines_suffix(text: Seq<u8>, count: int)
    requires
        0 <= count <= raw_lines(text).len(),
    ensures
        raw_lines(raw_lines(text).skip(count).flatten()) == raw_lines(text).skip(count),
    decreases count,
{
    if count == 0 {
        assert(raw_lines(text).skip(0) =~= raw_lines(text));
        lemma_raw_lines_flatten(text);
    } else {
        lemma_line_len(text);
        let rest = text.skip(line_len(text) as int);
        assert(raw_lines(text).skip(count) =~= raw_lines(rest).skip(count - 1));
        lemma_raw_lines_suffix(rest, count - 1);
    }
}

/// The comments from any of them on are the comments of the lines from there on.
proof fn lemma_leading_comments_suffix(lines: Seq<Seq<u8>>, count: int)
    requires
        0 <= count <= leading_comments(lines).len(),
    ensures
        count <= lines.len(),
        leading_comments(lines.skip(count)) == leading_comments(lines).skip(count),
    decreases count,
{
    if count == 0 {
        assert(lines.skip(0) =~= lines);
        assert(leading_comments(lines).skip(0) =~= leading_comments(lines));
    } else {
        let rest = lines.drop_first();
        assert(leading_comments(lines).drop_first() =~= leading_comments(rest));
        lemma_leading_comments_suffix(rest, count - 1);
        assert(lines.skip(count) =~= rest.skip(count - 1));
        assert(leading_comments(lines).skip(count) =~= leading_comments(rest).skip(count - 1));
    }
}

/// A block can be put back between the texts that it was read from.
pub proof fn block_is_enclosed(contents: Seq<u8>)
    requires
        block_in(contents) matches Ok(Some(_)),
    ensures
        block_in(contents) matches Ok(Some(block)) && encloses(block.prelude, block.postlude)
            && !holds_block(text_lines(block.postlude)),
{
    lemma_literals();
    let block = block_in(contents)->Ok_0->Some_0;
    let any = choose|at: int| occurs_at(contents, opening(), at);
    lemma_first_occurrence(contents, opening(), any);
    let at = choose|at: int| occurs_first_at(contents, opening(), at);
    assert(occurs_first_at(contents, opening(), at));
    lemma_block_in(contents, at);
    let prelude = contents.take(at);
    let rest = contents.skip(at);
    let marked = prelude + opening();
    assert(contents.subrange(at, at + opening().len()) == opening());
    assert(marked =~= contents.take(at + opening().len()));
    assert(marked.subrange(at, at + opening().len()) =~= opening());
    assert forall|earlier: int| 0 <= earlier < at implies !occurs_at(
        marked,
        opening(),
        earlier,
    ) by {
        if occurs_at(marked, opening(), earlier) {
            assert(contents.subrange(earlier, earlier + opening().len()) =~= marked.subrange(
                earlier,
                earlier + opening().len(),
            ));
            assert(occurs_at(contents, opening(), earlier));
        }
    }
    let lines = raw_lines(rest);
    let comments = leading_comments(lines.drop_first());
    let some = choose|i: int| 0 <= i < comments.len() && comments[i] == closing_comment();
    lemma_closes(comments, some);
    let end = choose|end: int| closes_at(comments, end);
    assert(closes_at(comments, end));
    lemma_leading_comments_suffix(lines.drop_first(), end + 1);
    assert(lines.drop_first().skip(end + 1) =~= lines.skip(end + 2));
    lemma_raw_lines_suffix(rest, end + 2);
    lemma_valid_lines(rest);
    assert forall|i: int| 0 <= i < lines.skip(end + 2).len() implies valid_utf8(
        #[trigger] lines.skip(end + 2)[i],
    ) by {
        assert(lines.skip(end + 2)[i] == lines[i + end + 2]);
    }
    lemma_valid_flatten(lines.skip(end + 2));
    let left = leading_comments(raw_lines(block.postlude));
    if left.contains(closing_comment()) {
        let i = choose|i: int| 0 <= i < left.len() && left[i] == closing_comment();
        assert(comments[end + 1 + i] == closing_comment());
    }
}

/// Where a part occurs at all, it has a first occurrence.
proof fn lemma_first_occurrence(text: Seq<u8>, part: Seq<u8>, at: int)
    requires
        occurs_at(text, part, at),
    ensures
        exists|first: int| occurs_first_at(text, part, first),
    decreases at,
{
    if exists|earlier: int| 0 <= earlier < at && occurs_at(text, part, earlier) {
        let earlier = choose|earlier: int| 0 <= earlier < at && occurs_at(text, part, earlier);
        lemma_first_occurrence(text, part, earlier);
    } else {
        assert(occurs_first_at(text, part, at));
    }
}

/// Where a closing comment stands at all, one of them is the last.
proof fn lemma_closes(comments: Seq<Seq<u8>>, at: int)
    requires
        0 <= at < comments.len(),
        comments[at] == closing_comment(),
    ensures
        exists|end: int| closes_at(comments, end),
    decreases comments.len() - at,
{
    if exists|later: int| at < later < comments.len() && comments[later] == closing_comment() {
        let later = choose|later: int|
            at < later < comments.len() && comments[later] == closing_comment();
        lemma_closes(comments, later);
    } else {
        assert(closes_at(comments, at));
    }
}

/// Behind a prelude that does not look like an opening line, a written block is found.
proof fn lemma_block_found(prelude: Seq<u8>, rest: Seq<u8>)
    requires
        occurs_first_at(prelude + opening(), opening(), prelude.len() as int),
        opening().len() <= rest.len(),
        rest.take(opening().len() as int) == opening(),
    ensures
        block_in(prelude + rest) == block_at(prelude, rest),
{
    let at = prelude.len() as int;
    let contents = prelude + rest;
    let marked = prelude + opening();
    assert(contents.take(at) =~= prelude);
    assert(contents.skip(at) =~= rest);
    assert(contents.subrange(at, at + opening().len()) =~= rest.take(opening().len() as int));
    assert forall|earlier: int| 0 <= earlier < at implies !occurs_at(
        contents,
        opening(),
        earlier,
    ) by {
        if occurs_at(contents, opening(), earlier) {
            assert forall|i: int| 0 <= i < marked.len() implies marked[i] == contents[i] by {
                if i >= at {
                    assert(rest.take(opening().len() as int)[i - at] == rest[i - at]);
                }
            }
            assert(marked.subrange(earlier, earlier + opening().len()) =~= contents.subrange(
                earlier,
                earlier + opening().len(),
            ));
            assert(occurs_at(marked, opening(), earlier));
        }
    }
    lemma_block_in(contents, at);
}

/// The lines of a written block and the text behind it.
proof fn lemma_written_lines(metadata: Seq<u8>, postlude: Seq<u8>)
    requires
        no_stray_returns(metadata),
    ensures
        ({
            let lines = raw_lines(serialized(metadata) + postlude);
            &&& lines.len() > 0
            &&& trimmed(lines[0]) == opening()
            &&& leading_comments(lines.drop_first()) == text_lines(metadata) + (
            seq![closing_comment()] + leading_comments(raw_lines(postlude)))
            &&& text_lines(metadata).len() + 2 <= lines.len()
            &&& lines.skip(text_lines(metadata).len() as int + 2) == raw_lines(postlude)
        }),
{
    lemma_literals();
    let inner = text_lines(metadata);
    let written = inner.map_values(|line: Seq<u8>| comment_line(line));
    let first = opening() + seq![LINE_FEED];
    let last = closing() + seq![LINE_FEED];
    let tail_text = last + postlude;
    let behind = written.flatten() + tail_text;
    assert(serialized(metadata) + postlude =~= first + behind);
    lemma_raw_lines_cons(first, behind);
    lemma_raw_lines_cons(last, postlude);
    assert forall|i: int, j: int| 0 <= i < inner.len() && 0 <= j < inner[i].len() implies
        inner[i][j] != LINE_FEED by {
        lemma_text_line_shape(metadata, i);
    }
    lemma_comments_of_written(inner, tail_text);
    let lines = raw_lines(serialized(metadata) + postlude);
    assert(lines[0] == first);
    assert(without_last(first, LINE_FEED) =~= opening());
    assert(lines.drop_first() =~= raw_lines(behind));
    let tail = raw_lines(tail_text);
    assert(tail[0] == last);
    assert(tail.drop_first() =~= raw_lines(postlude));
    assert(without_last(last, LINE_FEED) =~= closing());
    assert(trimmed(last) == closing());
    assert(closing().skip(2) =~= closing_comment());
    assert(leading_comments(tail) == seq![closing_comment()] + leading_comments(
        raw_lines(postlude),
    ));
    assert(lines.skip(inner.len() as int + 2) =~= raw_lines(postlude));
}

/// A block that is written between two texts that enclose it is read back from there, with
/// these texts around it. Only a second block in the text behind it is in the way.
pub proof fn written_block_reads_back(prelude: Seq<u8>, metadata: Seq<u8>, postlude: Seq<u8>)
    requires
        encloses(prelude, postlude),
        valid_utf8(metadata),
        no_stray_returns(metadata),
    ensures
        block_in(prelude + serialized(metadata) + postlude) == if holds_block(
            text_lines(postlude),
        ) {
            Err::<Option<BlockBytes>, BlockFault>(BlockFault::Duplicate)
        } else {
            Ok::<Option<BlockBytes>, BlockFault>(
                Some(BlockBytes { prelude, metadata: joined(text_lines(metadata)), postlude }),
            )
        },
{
    let rest = serialized(metadata) + postlude;
    assert(prelude + serialized(metadata) + postlude =~= prelude + rest);
    assert(rest.take(opening().len() as int) =~= opening());
    lemma_block_found(prelude, rest);
    lemma_valid_serialized(metadata);
    valid_utf8_concat(serialized(metadata), postlude);
    lemma_written_lines(metadata, postlude);
    let inner = text_lines(metadata);
    let after = leading_comments(raw_lines(postlude));
    let comments = leading_comments(raw_lines(rest).drop_first());
    let end = inner.len() as int;
    assert(comments[end] == closing_comment());
    assert forall|later: int| end < later < comments.len() implies comments[later]
        != closing_comment() by {
        assert(comments[later] == after[later - end - 1]);
    }
    assert(closes_at(comments, end));
    let found = choose|end: int| closes_at(comments, end);
    assert(closes_at(comments, found));
    assert(found == end);
    assert(comments.take(end) =~= inner);
    lemma_raw_lines_flatten(postlude);
}

/// Replacing the metadata of a script leaves the Python around it as it was, and the script
/// then has the new metadata.
pub proof fn edited_block_reads_back(contents: Seq<u8>, metadata: Seq<u8>)
    requires
        block_in(contents) matches Ok(Some(_)),
        valid_utf8(metadata),
        no_stray_returns(metadata),
    ensures
        block_in(contents) matches Ok(Some(block)) && block_in(
            block.prelude + serialized(metadata) + block.postlude,
        ) == Ok::<Option<BlockBytes>, BlockFault>(
            Some(
                BlockBytes {
                    prelude: block.prelude,
                    metadata: joined(text_lines(metadata)),
                    postlude: block.postlude,
                },
            ),
        ),
{
    block_is_enclosed(contents);
    let block = block_in(contents)->Ok_0->Some_0;
    written_block_reads_back(block.prelude, metadata, block.postlude);
}

/// Lines that are put together and taken apart again are the same lines.
pub proof fn joined_lines_come_apart(lines: Seq<Seq<u8>>)
    requires
        lines.len() > 0,
        forall|i: int, j: int|
            0 <= i < lines.len() && 0 <= j < lines[i].len() ==> lines[i][j] != LINE_FEED,
        forall|i: int| 0 <= i < lines.len() ==> ends_without_return(#[trigger] lines[i]),
    ensures
        text_lines(joined(lines)) == lines,
    decreases lines.len(),
{
    let ended = |line: Seq<u8>| line.push(LINE_FEED);
    let others = lines.drop_first();
    let rest = others.map_values(ended).flatten();
    let first = lines[0].push(LINE_FEED);
    assert(lines.map_values(ended).drop_first() =~= others.map_values(ended));
    assert(joined(lines) == first + rest);
    lemma_raw_lines_cons(first, rest);
    assert(first.drop_last() =~= lines[0]);
    assert(ends_without_return(lines[0]));
    assert(line_text(first) == lines[0]);
    if others.len() == 0 {
        assert(rest =~= Seq::<u8>::empty());
        assert(text_lines(joined(lines)) =~= lines);
    } else {
        assert forall|i: int, j: int| 0 <= i < others.len() && 0 <= j < others[i].len() implies
            others[i][j] != LINE_FEED by {
            assert(others[i] == lines[i + 1]);
        }
        assert forall|i: int| 0 <= i < others.len() implies ends_without_return(
            #[trigger] others[i],
        ) by {
            assert(others[i] == lines[i + 1]);
        }
        joined_lines_come_apart(others);
        assert(text_lines(joined(lines)) =~= seq![line_text(first)] + text_lines(rest));
        assert(text_lines(joined(lines)) =~= lines);
    }
}

/// Metadata in the form in which it is read: every line of it ends in a line feed, and none in
/// a carriage return and a line feed.
pub open spec fn ends_lines_plainly(metadata: Seq<u8>) -> bool {
    &&& metadata.len() > 0
    &&& metadata.last() == LINE_FEED
    &&& forall|i: int|
        0 <= i < metadata.len() - 1 && metadata[i + 1] == LINE_FEED ==> #[trigger] metadata[i]
            != CARRIAGE_RETURN
}

/// The lines of such metadata, each with a line feed behind it, are what it is made of.
proof fn lemma_plain_lines(metadata: Seq<u8>)
    requires
        ends_lines_plainly(metadata),
    ensures
        text_lines(metadata).map_values(|line: Seq<u8>| line.push(LINE_FEED)) == raw_lines(
            metadata,
        ),
        raw_lines(metadata).len() > 0,
        no_stray_returns(metadata),
    decreases metadata.len(),
{
    let ended = |line: Seq<u8>| line.push(LINE_FEED);
    lemma_line_len(metadata);
    let n = line_len(metadata) as int;
    let line = metadata.take(n);
    let rest = metadata.skip(n);
    assert(line.last() == LINE_FEED);
    if n > 1 {
        assert(line.drop_last().last() == metadata[n - 2]);
        assert(metadata[n - 2] != CARRIAGE_RETURN);
    }
    assert(line_text(line) == line.drop_last());
    assert(line.drop_last().push(LINE_FEED) =~= line);
    assert(text_lines(metadata) =~= seq![line_text(line)] + text_lines(rest));
    if rest.len() > 0 {
        assert(rest.last() == metadata.last());
        assert forall|i: int|
            0 <= i < rest.len() - 1 && rest[i + 1] == LINE_FEED implies #[trigger] rest[i]
            != CARRIAGE_RETURN by {
            assert(rest[i] == metadata[n + i]);
            assert(rest[i + 1] == metadata[n + i + 1]);
        }
        lemma_plain_lines(rest);
        assert(text_lines(metadata).map_values(ended) =~= seq![line] + text_lines(rest).map_values(
            ended,
        ));
        assert forall|i: int| 0 <= i < text_lines(metadata).len() implies ends_without_return(
            #[trigger] text_lines(metadata)[i],
        ) by {
            if i > 0 {
                assert(text_lines(metadata)[i] == text_lines(rest)[i - 1]);
            }
        }
    } else {
        assert(text_lines(metadata).map_values(ended) =~= raw_lines(metadata));
    }
}

/// Metadata whose lines all end in plain line feeds is read back to the letter.
pub proof fn plain_metadata_is_kept(metadata: Seq<u8>)
    requires
        ends_lines_plainly(metadata),
    ensures
        joined(text_lines(metadata)) == metadata,
        no_stray_returns(metadata),
{
    lemma_plain_lines(metadata);
    lemma_raw_lines_flatten(metadata);
}

/// A script whose metadata is written back unchanged is read as before, with the same
/// metadata and the same Python around it.
pub proof fn unchanged_metadata_reads_back(contents: Seq<u8>)
    requires
        block_in(contents) matches Ok(Some(block)) && ends_lines_plainly(block.metadata),
    ensures
        block_in(contents) matches Ok(Some(block)) && block_in(
            block.prelude + serialized(block.metadata) + block.postlude,
        ) == block_in(contents),
{
    let block = block_in(contents)->Ok_0->Some_0;
    lemma_block_metadata_valid(contents);
    plain_metadata_is_kept(block.metadata);
    edited_block_reads_back(contents, block.metadata);
}

/// The metadata that is read from a script is valid UTF-8.
proof fn lemma_block_metadata_valid(contents: Seq<u8>)
    requires
        block_in(contents) matches Ok(Some(_)),
    ensures
        block_in(contents) matches Ok(Some(block)) && valid_utf8(block.metadata),
{
    let any = choose|at: int| occurs_at(contents, opening(), at);
    lemma_first_occurrence(contents, opening(), any);
    let at = choose|at: int| occurs_first_at(contents, opening(), at);
    let rest = contents.skip(at);
    let lines = raw_lines(rest);
    lemma_literals();
    assert(occurs_first_at(contents, opening(), at));
    assert(rest.len() > 0);
    let comments = leading_comments(lines.drop_first());
    let some = choose|i: int| 0 <= i < comments.len() && comments[i] == closing_comment();
    lemma_closes(comments, some);
    let end = choose|end: int| closes_at(comments, end);
    assert(closes_at(comments, end));
    lemma_valid_lines(rest);
    assert forall|i: int| 0 <= i < lines.drop_first().len() implies valid_utf8(
        #[trigger] lines.drop_first()[i],
    ) by {
        assert(lines.drop_first()[i] == lines[i + 1]);
    }
    lemma_valid_comments(lines.drop_first());
    let ended = comments.take(end).map_values(|line: Seq<u8>| line.push(LINE_FEED));
    lemma_valid_ascii(seq![LINE_FEED]);
    assert forall|i: int| 0 <= i < ended.len() implies valid_utf8(#[trigger] ended[i]) by {
        assert(ended[i] =~= comments[i] + seq![LINE_FEED]);
        valid_utf8_concat(comments[i], seq![LINE_FEED]);
    }
    lemma_valid_flatten(ended);
}

/// What the comments among valid lines say is valid.
proof fn lemma_valid_comments(lines: Seq<Seq<u8>>)
    requires
        forall|i: int| 0 <= i < lines.len() ==> valid_utf8(#[trigger] lines[i]),
    ensures
        forall|i: int|
            0 <= i < leading_comments(lines).len() ==> valid_utf8(
                #[trigger] leading_comments(lines)[i],
            ),
    decreases lines.len(),
{
    if lines.len() > 0 && comment(trimmed(lines[0])) is Some {
        let line = trimmed(lines[0]);
        let content = comment(line)->Some_0;
        assert(valid_utf8(lines[0]));
        lemma_valid_without_last(lines[0], LINE_FEED);
        lemma_valid_without_last(without_last(lines[0], LINE_FEED), CARRIAGE_RETURN);
        if line.len() >= 2 {
            lemma_boundary_behind_ascii(line, 1);
            valid_utf8_split(line, 2);
            assert(line.skip(2) == line.subrange(2, line.len() as int));
        }
        assert(valid_utf8(content));
        let rest = lines.drop_first();
        assert forall|i: int| 0 <= i < rest.len() implies valid_utf8(#[trigger] rest[i]) by {
            assert(rest[i] == lines[i + 1]);
        }
        lemma_valid_comments(rest);
        assert forall|i: int| 0 <= i < leading_comments(lines).len() implies valid_utf8(
            #[trigger] leading_comments(lines)[i],
        ) by {
            if i > 0 {
                assert(leading_comments(lines)[i] == leading_comments(rest)[i - 1]);
            }
        }
    }
}

} // verus!
