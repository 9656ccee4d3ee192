//! The metadata block of a script: where it stands, what it holds, and how it is written.
use vstd::prelude::*;
use vstd::utf8::*;

use crate::error::ScriptManifestError;
use crate::text::{
    all_bytes, bytes_of, find_first, lemma_boundary_behind_ascii, lemma_raw_lines_flatten, line_text, occurs_at, occurs_first_at,
    push_text, raw_lines, same_bytes, same_text, split_lines, text_lines, trimmed, without_last, CARRIAGE_RETURN,
    LINE_FEED,
};

verus! {

/// The line that opens a metadata block.
pub open spec fn opening() -> Seq<u8> {
    bytes_of("# /// script"@)
}

/// The line that closes a metadata block.
pub open spec fn closing() -> Seq<u8> {
    bytes_of("# ///"@)
}

/// The byte order mark that may stand before everything else in a file.
pub open spec fn byte_order_mark() -> Seq<u8> {
    bytes_of("\u{feff}"@)
}

/// What a comment line says: nothing for a bare `#`, or what follows `# `.
pub open spec fn comment(line: Seq<u8>) -> Option<Seq<u8>> {
    if line.len() == 1 && line[0] == 0x23 {
        Some(Seq::empty())
    } else if line.len() >= 2 && line[0] == 0x23 && line[1] == 0x20 {
        Some(line.skip(2))
    } else {
        None
    }
}

/// What the comment lines at the front of `lines` say, up to the first line that is no
/// comment.
pub open spec fn leading_comments(lines: Seq<Seq<u8>>) -> Seq<Seq<u8>>
    decreases lines.len(),
{
    if lines.len() == 0 {
        Seq::empty()
    } else {
        match comment(trimmed(lines[0])) {
            Some(content) => seq![content] + leading_comments(lines.drop_first()),
            None => Seq::empty(),
        }
    }
}

/// What the comment on the closing line says.
pub open spec fn closing_comment() -> Seq<u8> {
    bytes_of("///"@)
}

/// The comment at this index is the last of those that close a block.
pub open spec fn closes_at(comments: Seq<Seq<u8>>, index: int) -> bool {
    &&& 0 <= index < comments.len()
    &&& comments[index] == closing_comment()
    &&& forall|later: int| index < later < comments.len() ==> comments[later] != closing_comment()
}

/// Lines of metadata as one text, in which a line feed follows each line. No lines at all
/// make one empty line.
pub open spec fn joined(lines: Seq<Seq<u8>>) -> Seq<u8> {
    if lines.len() == 0 {
        seq![LINE_FEED]
    } else {
        lines.map_values(|line: Seq<u8>| line.push(LINE_FEED)).flatten()
    }
}

/// A whole block stands among the lines: an opening line, comment lines, and among them a closing
/// line.
pub open spec fn holds_block(lines: Seq<Seq<u8>>) -> bool {
    exists|first: int, last: int| block_between(lines, first, last)
}

/// The line `first` opens a block, the line `last` closes it, and all that follows the
/// opening line up to there are comments.
pub open spec fn block_between(lines: Seq<Seq<u8>>, first: int, last: int) -> bool {
    &&& 0 <= first < last < lines.len()
    &&& lines[first] == opening()
    &&& lines[last] == closing()
    &&& forall|i: int| first < i <= last ==> (#[trigger] comment(lines[i])) is Some
}

/// A block may stand at the very start of a file, behind its byte order mark, or at the
/// start of a line.
pub open spec fn starts_a_line(prelude: Seq<u8>) -> bool {
    ||| prelude.len() == 0
    ||| prelude == byte_order_mark()
    ||| prelude.last() == CARRIAGE_RETURN
    ||| prelude.last() == LINE_FEED
}

/// Why a file with an opening line has no metadata that can be read.
pub enum BlockFault {
    NotUtf8,
    Unclosed,
    Duplicate,
}

/// A metadata block and the bytes around it.
pub struct BlockBytes {
    pub prelude: Seq<u8>,
    pub metadata: Seq<u8>,
    pub postlude: Seq<u8>,
}

/// The metadata block in the bytes of a file: none, or one, or a fault.
///
/// The first occurrence of the opening line's text decides. Where that is not a line of its
/// own, the file has no block.
pub open spec fn block_in(contents: Seq<u8>) -> Result<Option<BlockBytes>, BlockFault> {
    if exists|at: int| occurs_at(contents, opening(), at) {
        let at = choose|at: int| occurs_first_at(contents, opening(), at);
        block_at(contents.take(at), contents.skip(at))
    } else {
        Ok(None)
    }
}

/// The metadata block in a file whose opening line's text first stands between `prelude` and
/// the rest of the file.
pub open spec fn block_at(prelude: Seq<u8>, rest: Seq<u8>) -> Result<
    Option<BlockBytes>,
    BlockFault,
> {
    let lines = raw_lines(rest);
    let comments = leading_comments(lines.drop_first());
    if !starts_a_line(prelude) {
        Ok(None)
    } else if !valid_utf8(prelude) || !valid_utf8(rest) {
        Err(BlockFault::NotUtf8)
    } else if trimmed(lines[0]) != opening() {
        Ok(None)
    } else if !comments.contains(closing_comment()) {
        Err(BlockFault::Unclosed)
    } else {
        let end = choose|end: int| closes_at(comments, end);
        let postlude = lines.skip(end + 2).flatten();
        if holds_block(text_lines(postlude)) {
            Err(BlockFault::Duplicate)
        } else {
            Ok(Some(BlockBytes { prelude, metadata: joined(comments.take(end)), postlude }))
        }
    }
}

/// How one line of metadata is written into a script.
pub open spec fn comment_line(line: Seq<u8>) -> Seq<u8> {
    if line.len() == 0 {
        seq![0x23, LINE_FEED]
    } else {
        seq![0x23, 0x20] + line + seq![LINE_FEED]
    }
}

/// A metadata block as it is written into a script.
pub open spec fn serialized(metadata: Seq<u8>) -> Seq<u8> {
    opening() + seq![LINE_FEED] + text_lines(metadata).map_values(
        |line: Seq<u8>| comment_line(line),
    ).flatten() + closing() + seq![LINE_FEED]
}

/// The texts of the literals that blocks are made of, byte by byte.
pub proof fn lemma_literals()
    ensures
        opening() == seq![
            0x23u8,
            0x20,
            0x2f,
            0x2f,
            0x2f,
            0x20,
            0x73,
            0x63,
            0x72,
            0x69,
            0x70,
            0x74,
        ],
        closing() == seq![0x23u8, 0x20, 0x2f, 0x2f, 0x2f],
        closing_comment() == seq![0x2fu8, 0x2f, 0x2f],
        bytes_of("#"@) == seq![0x23u8],
        bytes_of("# "@) == seq![0x23u8, 0x20],
        bytes_of("\n"@) == seq![LINE_FEED],
{
    reveal_strlit("# /// script");
    reveal_strlit("# ///");
    reveal_strlit("///");
    reveal_strlit("#");
    reveal_strlit("# ");
    reveal_strlit("\n");
    is_ascii_chars_encode_utf8("# /// script"@);
    is_ascii_chars_encode_utf8("# ///"@);
    is_ascii_chars_encode_utf8("///"@);
    is_ascii_chars_encode_utf8("#"@);
    is_ascii_chars_encode_utf8("# "@);
    is_ascii_chars_encode_utf8("\n"@);
    assert(opening() =~= seq![
        0x23u8,
        0x20,
        0x2f,
        0x2f,
        0x2f,
        0x20,
        0x73,
        0x63,
        0x72,
        0x69,
        0x70,
        0x74,
    ]);
    assert(closing() =~= seq![0x23u8, 0x20, 0x2f, 0x2f, 0x2f]);
    assert(closing_comment() =~= seq![0x2fu8, 0x2f, 0x2f]);
    assert(bytes_of("#"@) =~= seq![0x23u8]);
    assert(bytes_of("# "@) =~= seq![0x23u8, 0x20]);
    assert(bytes_of("\n"@) =~= seq![LINE_FEED]);
}

/// `text` without its last byte, if that is `byte`.
fn strip_last(text: &str, byte: u8) -> (stripped: &str)
    requires
        byte < 0x80,
    ensures
        bytes_of(stripped@) == without_last(bytes_of(text@), byte),
{
    let bytes = text.as_bytes();
    if bytes.len() == 0 || bytes[bytes.len() - 1] != byte {
        return text;
    }
    proof {
        encode_utf8_valid_utf8(text@);
        lemma_boundary_behind_ascii(bytes@, bytes@.len() - 1);
    }
    let (front, _) = text.split_at(bytes.len() - 1);
    assert(bytes_of(front@) == bytes_of(text@).drop_last());
    front
}

/// A line without its line feed and the carriage return that then ends it.
pub fn without_line_ending(line: &str) -> (stripped: &str)
    ensures
        bytes_of(stripped@) == trimmed(bytes_of(line@)),
{
    strip_last(strip_last(line, LINE_FEED), CARRIAGE_RETURN)
}

/// A line without its line ending, `\n` or `\r\n`.
fn without_newline(line: &str) -> (stripped: &str)
    ensures
        bytes_of(stripped@) == line_text(bytes_of(line@)),
{
    let bytes = line.as_bytes();
    if bytes.len() > 0 && bytes[bytes.len() - 1] == LINE_FEED {
        without_line_ending(line)
    } else {
        line
    }
}

/// Splits a text into its lines, without their line endings.
fn lines_of<'a>(text: &'a str) -> (lines: Vec<&'a str>)
    ensures
        all_bytes(lines@) == text_lines(bytes_of(text@)),
{
    let raw = split_lines(text);
    let mut lines: Vec<&'a str> = Vec::new();
    let mut i: usize = 0;
    while i < raw.len()
        invariant
            i <= raw.len(),
            all_bytes(raw@) == raw_lines(bytes_of(text@)),
            all_bytes(lines@) == text_lines(bytes_of(text@)).take(i as int),
        decreases raw.len() - i,
    {
        let line = without_newline(raw[i]);
        assert(all_bytes(raw@)[i as int] == bytes_of(raw@[i as int]@));
        assert(all_bytes(lines@.push(line)) =~= all_bytes(lines@).push(bytes_of(line@)));
        assert(text_lines(bytes_of(text@)).take(i + 1) =~= text_lines(bytes_of(text@)).take(
            i as int,
        ).push(bytes_of(line@)));
        lines.push(line);
        i += 1;
    }
    assert(text_lines(bytes_of(text@)).take(i as int) =~= text_lines(bytes_of(text@)));
    lines
}

/// What a comment line says, if the line is a comment.
fn comment_of(line: &str) -> (content: Option<&str>)
    ensures
        match content {
            Some(content) => comment(bytes_of(line@)) == Some(bytes_of(content@)),
            None => comment(bytes_of(line@)) is None,
        },
{
    let bytes = line.as_bytes();
    proof {
        encode_utf8_valid_utf8(line@);
    }
    if bytes.len() == 1 && bytes[0] == 0x23 {
        proof {
            lemma_boundary_behind_ascii(bytes@, 0);
        }
        let (_, content) = line.split_at(1);
        assert(bytes_of(content@) =~= Seq::<u8>::empty());
        Some(content)
    } else if bytes.len() >= 2 && bytes[0] == 0x23 && bytes[1] == 0x20 {
        proof {
            lemma_boundary_behind_ascii(bytes@, 1);
        }
        let (_, content) = line.split_at(2);
        assert(bytes_of(content@) =~= bytes@.skip(2));
        Some(content)
    } else {
        None
    }
}

/// Collects what the comment lines behind the first line say, up to the first line that is no
/// comment.
fn comments_behind_first<'a>(lines: &Vec<&'a str>) -> (comments: Vec<&'a str>)
    requires
        lines.len() > 0,
    ensures
        all_bytes(comments@) == leading_comments(all_bytes(lines@).drop_first()),
{
    let ghost all = all_bytes(lines@);
    let mut comments: Vec<&'a str> = Vec::new();
    let mut i: usize = 1;
    assert(all.skip(1) =~= all.drop_first());
    assert(all_bytes(comments@) + leading_comments(all.skip(1)) =~= leading_comments(all.skip(1)));
    while i < lines.len()
        invariant
            1 <= i <= lines.len(),
            all == all_bytes(lines@),
            all_bytes(comments@) + leading_comments(all.skip(i as int)) == leading_comments(
                all.drop_first(),
            ),
        decreases lines.len() - i,
    {
        let line = without_line_ending(lines[i]);
        let ghost left = all.skip(i as int);
        assert(left[0] == bytes_of(lines@[i as int]@));
        match comment_of(line) {
            Some(content) => {
                proof {
                    assert(left.drop_first() =~= all.skip(i + 1));
                    assert(leading_comments(left) == seq![bytes_of(content@)] + leading_comments(
                        all.skip(i + 1),
                    ));
                    assert(all_bytes(comments@.push(content)) =~= all_bytes(comments@).push(
                        bytes_of(content@),
                    ));
                    assert(all_bytes(comments@) + leading_comments(left) =~= all_bytes(
                        comments@.push(content),
                    ) + leading_comments(all.skip(i + 1)));
                }
                comments.push(content);
            },
            None => {
                assert(all_bytes(comments@) + leading_comments(left) =~= all_bytes(comments@));
                return comments;
            },
        }
        i += 1;
    }
    assert(all_bytes(comments@) + leading_comments(all.skip(i as int)) =~= all_bytes(comments@));
    comments
}

/// Which of the comments is the last that closes a block.
fn closing_index(comments: &Vec<&str>) -> (found: Option<usize>)
    ensures
        match found {
            Some(index) => closes_at(all_bytes(comments@), index as int),
            None => !all_bytes(comments@).contains(closing_comment()),
        },
{
    let ghost all = all_bytes(comments@);
    let mut left: usize = comments.len();
    while left > 0
        invariant
            left <= comments.len(),
            all == all_bytes(comments@),
            forall|later: int| left <= later < all.len() ==> all[later] != closing_comment(),
        decreases left,
    {
        left -= 1;
        assert(all[left as int] == bytes_of(comments@[left as int]@));
        if same_text(comments[left], "///") {
            return Some(left);
        }
    }
    None
}

/// Puts the first lines of metadata together, a line feed behind each.
fn join_lines(lines: &Vec<&str>, count: usize) -> (metadata: String)
    requires
        count <= lines.len(),
    ensures
        bytes_of(metadata@) == joined(all_bytes(lines@).take(count as int)),
{
    let ghost all = all_bytes(lines@).take(count as int);
    let ghost ended = |line: Seq<u8>| line.push(LINE_FEED);
    let mut metadata = String::new();
    proof {
        lemma_literals();
    }
    if count == 0 {
        push_text(&mut metadata, "\n");
        assert(bytes_of(metadata@) =~= seq![LINE_FEED]);
        return metadata;
    }
    let mut i: usize = 0;
    assert(bytes_of(metadata@) =~= all.take(0).map_values(ended).flatten());
    while i < count
        invariant
            i <= count <= lines.len(),
            all == all_bytes(lines@).take(count as int),
            ended == (|line: Seq<u8>| line.push(LINE_FEED)),
            bytes_of(metadata@) == all.take(i as int).map_values(ended).flatten(),
        decreases count - i,
    {
        let line = lines[i];
        proof {
            lemma_literals();
            assert(all[i as int] == bytes_of(line@));
            assert(all.take(i + 1).map_values(ended) =~= all.take(i as int).map_values(ended).push(
                bytes_of(line@).push(LINE_FEED),
            ));
            all.take(i as int).map_values(ended).lemma_flatten_push(
                bytes_of(line@).push(LINE_FEED),
            );
        }
        push_text(&mut metadata, line);
        push_text(&mut metadata, "\n");
        assert(bytes_of(metadata@) =~= all.take(i + 1).map_values(ended).flatten());
        i += 1;
    }
    assert(all.take(i as int) =~= all);
    metadata
}

/// Puts the lines from the given one on together.
fn concat_from(lines: &Vec<&str>, start: usize) -> (text: String)
    requires
        start <= lines.len(),
    ensures
        bytes_of(text@) == all_bytes(lines@).skip(start as int).flatten(),
{
    let ghost all = all_bytes(lines@);
    let mut text = String::new();
    let mut i: usize = start;
    assert(bytes_of(text@) =~= all.subrange(start as int, start as int).flatten());
    while i < lines.len()
        invariant
            start <= i <= lines.len(),
            all == all_bytes(lines@),
            bytes_of(text@) == all.subrange(start as int, i as int).flatten(),
        decreases lines.len() - i,
    {
        let line = lines[i];
        proof {
            assert(all[i as int] == bytes_of(line@));
            assert(all.subrange(start as int, i + 1) =~= all.subrange(start as int, i as int).push(
                bytes_of(line@),
            ));
            all.subrange(start as int, i as int).lemma_flatten_push(bytes_of(line@));
        }
        push_text(&mut text, line);
        i += 1;
    }
    assert(all.subrange(start as int, i as int) =~= all.skip(start as int));
    text
}

/// A metadata block and the Python around it.
#[derive(Debug)]
pub struct ScriptBlock {
    pub prelude: String,
    pub metadata: String,
    pub postlude: String,
}

impl ScriptBlock {
    /// The block's three parts as bytes.
    pub open spec fn parts(self) -> BlockBytes {
        BlockBytes {
            prelude: bytes_of(self.prelude@),
            metadata: bytes_of(self.metadata@),
            postlude: bytes_of(self.postlude@),
        }
    }

    /// `result` is what the metadata block in a file with these contents comes to.
    pub open spec fn parses_to(
        contents: Seq<u8>,
        result: Result<Option<ScriptBlock>, ScriptManifestError>,
    ) -> bool {
        match block_in(contents) {
            Ok(None) => result matches Ok(None),
            Ok(Some(parts)) => result matches Ok(Some(block)) && block.parts() == parts,
            Err(BlockFault::NotUtf8) => result matches Err(ScriptManifestError::Utf8(_)),
            Err(BlockFault::Unclosed) => result matches Err(ScriptManifestError::UnclosedBlock),
            Err(BlockFault::Duplicate) => result matches Err(ScriptManifestError::DuplicateBlock),
        }
    }

    /// Finds the metadata block in the contents of a file.
    pub fn parse(contents: &[u8]) -> (result: Result<Option<ScriptBlock>, ScriptManifestError>)
        ensures
            Self::parses_to(contents@, result),
    {
        let index = match find_first(contents, "# /// script".as_bytes()) {
            Some(index) => index,
            None => return Ok(None),
        };
        proof {
            lemma_block_in(contents@, index as int);
        }
        let head = vstd::slice::slice_subrange(contents, 0, index);
        let tail = vstd::slice::slice_subrange(contents, index, contents.len());
        assert(head@ == contents@.take(index as int));
        assert(tail@ == contents@.skip(index as int));
        let follows_mark = same_bytes(head, "\u{feff}".as_bytes());
        if index != 0 && !follows_mark && contents[index - 1] != CARRIAGE_RETURN && contents[index
            - 1] != LINE_FEED {
            return Ok(None);
        }
        assert(starts_a_line(head@));
        let prelude = match std::str::from_utf8(head) {
            Ok(prelude) => prelude,
            Err(error) => return Err(ScriptManifestError::Utf8(error)),
        };
        let rest = match std::str::from_utf8(tail) {
            Ok(rest) => rest,
            Err(error) => return Err(ScriptManifestError::Utf8(error)),
        };
        let lines = split_lines(rest);
        proof {
            lemma_literals();
            lemma_raw_lines_flatten(tail@);
            assert(lines@.len() == all_bytes(lines@).len());
            if lines@.len() == 0 {
                assert(raw_lines(tail@).flatten() =~= Seq::<u8>::empty());
            }
            assert(all_bytes(lines@)[0] == bytes_of(lines@[0]@));
        }
        if !same_text(without_line_ending(lines[0]), "# /// script") {
            return Ok(None);
        }
        let comments = comments_behind_first(&lines);
        let end = match closing_index(&comments) {
            Some(end) => end,
            None => return Err(ScriptManifestError::UnclosedBlock),
        };
        proof {
            let all = all_bytes(comments@);
            assert(all.contains(closing_comment()));
            assert(closes_at(all, choose|at: int| closes_at(all, at)));
            lemma_leading_comments_len(all_bytes(lines@).drop_first());
            assert(all.len() + 1 <= lines@.len());
            assert(end + 2 <= lines.len());
        }
        let postlude = concat_from(&lines, end + 2);
        match reject_duplicate_block(&lines_of(postlude.as_str())) {
            Ok(()) => {},
            Err(error) => return Err(error),
        }
        let metadata = join_lines(&comments, end);
        Ok(Some(ScriptBlock { prelude: prelude.to_owned(), metadata, postlude }))
    }
}

/// The first occurrence of the opening line's text is where a block is looked for.
pub proof fn lemma_block_in(contents: Seq<u8>, at: int)
    requires
        occurs_first_at(contents, opening(), at),
    ensures
        block_in(contents) == block_at(contents.take(at), contents.skip(at)),
{
    let found = choose|at: int| occurs_first_at(contents, opening(), at);
    assert(occurs_first_at(contents, opening(), found));
    if found < at {
        assert(!occurs_at(contents, opening(), found));
    }
    if at < found {
        assert(!occurs_at(contents, opening(), at));
    }
}

/// There are no more leading comments than lines.
proof fn lemma_leading_comments_len(lines: Seq<Seq<u8>>)
    ensures
        leading_comments(lines).len() <= lines.len(),
    decreases lines.len(),
{
    if lines.len() > 0 {
        lemma_leading_comments_len(lines.drop_first());
    }
}

/// Refuses lines among which a whole metadata block stands.
pub fn reject_duplicate_block(lines: &Vec<&str>) -> (result: Result<(), ScriptManifestError>)
    ensures
        holds_block(all_bytes(lines@)) ==> result matches Err(ScriptManifestError::DuplicateBlock),
        !holds_block(all_bytes(lines@)) ==> result is Ok,
{
    let ghost all = all_bytes(lines@);
    let mut first: usize = 0;
    while first < lines.len()
        invariant
            first <= lines.len(),
            all == all_bytes(lines@),
            forall|i: int, j: int| i < first ==> !block_between(all, i, j),
        decreases lines.len() - first,
    {
        if same_text(lines[first], "# /// script") {
            assert(all[first as int] == opening());
            let mut last: usize = first + 1;
            let mut comments: bool = true;
            while comments && last < lines.len()
                invariant
                    first < last <= lines.len(),
                    all == all_bytes(lines@),
                    all[first as int] == opening(),
                    comments ==> forall|i: int|
                        first < i < last ==> (#[trigger] comment(all[i])) is Some,
                    forall|j: int| j < last ==> !block_between(all, first as int, j),
                    !comments ==> last < lines.len() && comment(all[last as int]) is None,
                decreases lines.len() - last, (if comments { 1nat } else { 0nat }),
            {
                assert(all[last as int] == bytes_of(lines@[last as int]@));
                match comment_of(lines[last]) {
                    Some(_) => {
                        if same_text(lines[last], "# ///") {
                            assert(block_between(all, first as int, last as int));
                            return Err(ScriptManifestError::DuplicateBlock);
                        }
                        last += 1;
                    },
                    None => {
                        comments = false;
                    },
                }
            }
            assert forall|j: int| !block_between(all, first as int, j) by {
                if block_between(all, first as int, j) && last <= j {
                    assert(comment(all[last as int]) is Some);
                }
            }
        } else {
            assert(all[first as int] != opening());
        }
        first += 1;
    }
    Ok(())
}

/// Writes metadata as a block of comment lines.
pub fn serialize_metadata(metadata: &str) -> (output: String)
    ensures
        bytes_of(output@) == serialized(bytes_of(metadata@)),
{
    proof {
        lemma_literals();
    }
    let mut output = String::new();
    push_text(&mut output, "# /// script");
    push_text(&mut output, "\n");
    let lines = lines_of(metadata);
    let ghost all = text_lines(bytes_of(metadata@));
    let ghost written = |line: Seq<u8>| comment_line(line);
    let ghost head = opening() + seq![LINE_FEED];
    let mut i: usize = 0;
    assert(bytes_of(output@) =~= head + all.take(0).map_values(written).flatten());
    while i < lines.len()
        invariant
            i <= lines.len(),
            all_bytes(lines@) == all,
            written == (|line: Seq<u8>| comment_line(line)),
            bytes_of(output@) == head + all.take(i as int).map_values(written).flatten(),
        decreases lines.len() - i,
    {
        let line = lines[i];
        let ghost before = bytes_of(output@);
        proof {
            lemma_literals();
            assert(all[i as int] == bytes_of(line@));
            assert(all.take(i + 1).map_values(written) =~= all.take(i as int).map_values(
                written,
            ).push(comment_line(bytes_of(line@))));
            all.take(i as int).map_values(written).lemma_flatten_push(
                comment_line(bytes_of(line@)),
            );
        }
        if line.as_bytes().len() == 0 {
            push_text(&mut output, "#");
        } else {
            push_text(&mut output, "# ");
            push_text(&mut output, line);
        }
        push_text(&mut output, "\n");
        assert(bytes_of(output@) =~= before + comment_line(bytes_of(line@)));
        assert(bytes_of(output@) =~= head + all.take(i + 1).map_values(written).flatten());
        i += 1;
    }
    assert(all.take(i as int) =~= all);
    push_text(&mut output, "# ///");
    push_text(&mut output, "\n");
    output
}

} // verus!
