//! The front of a script that has no metadata block yet, and where one goes.
use vstd::prelude::*;
use vstd::utf8::*;

use crate::error::ScriptManifestError;
use crate::script_block::{
    block_in, byte_order_mark, holds_block, joined, leading_comments, lemma_literals, opening,
    serialized, starts_a_line, BlockBytes, BlockFault,
};
use crate::script_block_laws::{lemma_valid_ascii, no_stray_returns, written_block_reads_back};
use crate::text::{
    bytes_of, lemma_boundary_behind_ascii, lemma_raw_lines_cons, occurs_at, occurs_first_at,
    raw_lines, same_bytes, text_lines, without_last, CARRIAGE_RETURN, LINE_FEED,
};

verus! {

/// What stands at the front of a script, and what follows it.
pub struct HeaderBytes {
    pub mark: Seq<u8>,
    pub shebang: Option<Seq<u8>>,
    pub body: Seq<u8>,
}

/// How many bytes stand before the first line break.
pub open spec fn unbroken_len(text: Seq<u8>) -> nat
    decreases text.len(),
{
    if text.len() == 0 || text[0] == CARRIAGE_RETURN || text[0] == LINE_FEED {
        0
    } else {
        1 + unbroken_len(text.drop_first())
    }
}

/// How many bytes the line break at the front of a text has.
pub open spec fn break_len(text: Seq<u8>) -> int {
    if text.len() >= 2 && text[0] == CARRIAGE_RETURN && text[1] == LINE_FEED {
        2
    } else if text.len() >= 1 && (text[0] == CARRIAGE_RETURN || text[0] == LINE_FEED) {
        1
    } else {
        0
    }
}

/// The first two bytes of a shebang line.
pub open spec fn shebang_start() -> Seq<u8> {
    bytes_of("#!"@)
}

/// Takes a script apart into its byte order mark, its shebang line and its body. The line break
/// behind the shebang line belongs to neither.
pub open spec fn header_of(text: Seq<u8>) -> HeaderBytes {
    let mark = if byte_order_mark().is_prefix_of(text) {
        byte_order_mark()
    } else {
        Seq::empty()
    };
    let rest = text.skip(mark.len() as int);
    if shebang_start().is_prefix_of(rest) {
        let end = unbroken_len(rest) as int;
        HeaderBytes {
            mark,
            shebang: Some(rest.take(end)),
            body: rest.skip(end + break_len(rest.skip(end))),
        }
    } else {
        HeaderBytes { mark, shebang: None, body: rest }
    }
}

/// What goes before the metadata block of a script with this header.
pub open spec fn prelude_of(header: HeaderBytes) -> Seq<u8> {
    match header.shebang {
        Some(shebang) => header.mark + shebang + bytes_of("\n#\n"@),
        None => header.mark,
    }
}

/// What goes behind the metadata block of a script with this header.
pub open spec fn postlude_of(header: HeaderBytes) -> Seq<u8> {
    if header.body.len() == 0 {
        Seq::empty()
    } else {
        seq![LINE_FEED] + header.body
    }
}

/// The texts of the literals at the front of a script, byte by byte.
pub proof fn lemma_header_literals()
    ensures
        byte_order_mark() == seq![0xefu8, 0xbb, 0xbf],
        shebang_start() == seq![0x23u8, 0x21],
        bytes_of("\n#\n"@) == seq![LINE_FEED, 0x23u8, LINE_FEED],
{
    reveal_strlit("\u{feff}");
    reveal_strlit("#!");
    reveal_strlit("\n#\n");
    is_ascii_chars_encode_utf8("#!"@);
    is_ascii_chars_encode_utf8("\n#\n"@);
    let mark = "\u{feff}"@;
    let scalar = mark[0] as u32;
    assert(scalar == 0xfeff);
    assert(mark.drop_first() =~= Seq::<char>::empty());
    assert(encode_utf8(mark.drop_first()) =~= Seq::<u8>::empty());
    assert(0xE0u8 | ((0xfeffu32 >> 12) & 0x0F) as u8 == 0xef) by (bit_vector);
    assert(0x80u8 | ((0xfeffu32 >> 6) & 0x3F) as u8 == 0xbb) by (bit_vector);
    assert(0x80u8 | (0xfeffu32 & 0x3F) as u8 == 0xbf) by (bit_vector);
    assert(byte_order_mark() =~= seq![0xefu8, 0xbb, 0xbf]);
    assert(shebang_start() =~= seq![0x23u8, 0x21]);
    assert(bytes_of("\n#\n"@) =~= seq![LINE_FEED, 0x23u8, LINE_FEED]);
}

/// Where the first line break stands.
proof fn lemma_unbroken_len(text: Seq<u8>)
    ensures
        unbroken_len(text) <= text.len(),
        forall|i: int|
            0 <= i < unbroken_len(text) ==> text[i] != CARRIAGE_RETURN && text[i] != LINE_FEED,
        unbroken_len(text) < text.len() ==> (text[unbroken_len(text) as int] == CARRIAGE_RETURN
            || text[unbroken_len(text) as int] == LINE_FEED),
    decreases text.len(),
{
    if text.len() > 0 && text[0] != CARRIAGE_RETURN && text[0] != LINE_FEED {
        let rest = text.drop_first();
        lemma_unbroken_len(rest);
        assert forall|i: int| 0 <= i < unbroken_len(text) implies text[i] != CARRIAGE_RETURN
            && text[i] != LINE_FEED by {
            if i > 0 {
                assert(text[i] == rest[i - 1]);
            }
        }
        assert(unbroken_len(text) < text.len() ==> text[unbroken_len(text) as int]
            == rest[unbroken_len(rest) as int]);
    }
}

/// The first line break is fixed by where it stands.
proof fn lemma_unbroken_len_is(text: Seq<u8>, len: int)
    requires
        0 <= len <= text.len(),
        forall|i: int| 0 <= i < len ==> text[i] != CARRIAGE_RETURN && text[i] != LINE_FEED,
        len < text.len() ==> text[len] == CARRIAGE_RETURN || text[len] == LINE_FEED,
    ensures
        unbroken_len(text) == len,
{
    lemma_unbroken_len(text);
    if unbroken_len(text) < len {
        assert(text[unbroken_len(text) as int] != CARRIAGE_RETURN);
    }
    if len < unbroken_len(text) {
        assert(text[len] != CARRIAGE_RETURN);
    }
}

/// Whether a text starts with a part.
fn starts_with(text: &str, part: &str) -> (starts: bool)
    ensures
        starts == bytes_of(part@).is_prefix_of(bytes_of(text@)),
{
    let bytes = text.as_bytes();
    let front = part.as_bytes();
    if bytes.len() < front.len() {
        return false;
    }
    let head = vstd::slice::slice_subrange(bytes, 0, front.len());
    same_bytes(head, front)
}

/// Takes the contents of a script apart into its byte order mark, its shebang line and the
/// rest.
pub fn extract_script_header<'a>(contents: &'a [u8]) -> (result: Result<
    (&'a str, Option<&'a str>, &'a str),
    ScriptManifestError,
>)
    ensures
        match result {
            Ok((mark, shebang, body)) => {
                let header = header_of(contents@);
                &&& valid_utf8(contents@)
                &&& bytes_of(mark@) == header.mark
                &&& match shebang {
                    Some(shebang) => header.shebang == Some(bytes_of(shebang@)),
                    None => header.shebang is None,
                }
                &&& bytes_of(body@) == header.body
            },
            Err(error) => !valid_utf8(contents@) && error is Utf8,
        },
{
    let text: &'a str = match std::str::from_utf8(contents) {
        Ok(text) => text,
        Err(error) => return Err(ScriptManifestError::Utf8(error)),
    };
    proof {
        lemma_header_literals();
        is_char_boundary_start_end_of_seq(contents@);
    }
    let mark_len: usize = if starts_with(text, "\u{feff}") {
        proof {
            assert(contents@.subrange(0, 3) =~= byte_order_mark());
            assert(contents@[0] == byte_order_mark()[0]);
            assert(length_of_first_scalar(contents@) == 3);
            assert(is_char_boundary(pop_first_scalar(contents@), 0));
        }
        3
    } else {
        0
    };
    let (mark, rest) = text.split_at(mark_len);
    let ghost rest_bytes = bytes_of(rest@);
    assert(bytes_of(mark@) =~= header_of(contents@).mark);
    assert(rest_bytes =~= contents@.skip(mark_len as int));
    if !starts_with(rest, "#!") {
        return Ok((mark, None, rest));
    }
    let bytes = rest.as_bytes();
    let mut end: usize = 0;
    while end < bytes.len() && bytes[end] != CARRIAGE_RETURN && bytes[end] != LINE_FEED
        invariant
            end <= bytes.len(),
            bytes@ == rest_bytes,
            forall|i: int|
                0 <= i < end ==> rest_bytes[i] != CARRIAGE_RETURN && rest_bytes[i] != LINE_FEED,
        decreases bytes.len() - end,
    {
        end += 1;
    }
    proof {
        lemma_unbroken_len_is(rest_bytes, end as int);
        encode_utf8_valid_utf8(rest@);
        is_char_boundary_start_end_of_seq(rest_bytes);
        if end < bytes.len() {
            lemma_boundary_behind_ascii(rest_bytes, end as int);
        }
    }
    let (shebang, broken) = rest.split_at(end);
    let ghost broken_bytes = bytes_of(broken@);
    let behind = broken.as_bytes();
    let width: usize = if behind.len() >= 2 && behind[0] == CARRIAGE_RETURN && behind[1]
        == LINE_FEED {
        2
    } else if behind.len() >= 1 && (behind[0] == CARRIAGE_RETURN || behind[0] == LINE_FEED) {
        1
    } else {
        0
    };
    proof {
        encode_utf8_valid_utf8(broken@);
        is_char_boundary_start_end_of_seq(broken_bytes);
        if width > 0 {
            lemma_boundary_behind_ascii(broken_bytes, width - 1);
        }
    }
    let (_, body) = broken.split_at(width);
    assert(bytes_of(shebang@) =~= rest_bytes.take(end as int));
    assert(broken_bytes =~= rest_bytes.skip(end as int));
    assert(bytes_of(body@) =~= rest_bytes.skip(end + width));
    Ok((mark, Some(shebang), body))
}

/// The parts of a valid script are valid.
proof fn lemma_header_valid(text: Seq<u8>)
    requires
        valid_utf8(text),
    ensures
        valid_utf8(prelude_of(header_of(text))),
        valid_utf8(postlude_of(header_of(text))),
{
    lemma_header_literals();
    let header = header_of(text);
    let n = header.mark.len() as int;
    let rest = text.skip(n);
    is_char_boundary_start_end_of_seq(text);
    if n > 0 {
        assert(text[0] == byte_order_mark()[0]);
        assert(length_of_first_scalar(text) == 3);
        assert(is_char_boundary(pop_first_scalar(text), 0));
    }
    valid_utf8_split(text, n);
    assert(rest == text.subrange(n, text.len() as int));
    encode_utf8_valid_utf8("\u{feff}"@);
    assert(valid_utf8(header.mark));
    lemma_valid_ascii(seq![LINE_FEED]);
    lemma_valid_ascii(bytes_of("\n#\n"@));
    if header.shebang is Some {
        let end = unbroken_len(rest) as int;
        lemma_unbroken_len(rest);
        is_char_boundary_start_end_of_seq(rest);
        if end < rest.len() {
            lemma_boundary_behind_ascii(rest, end);
        }
        valid_utf8_split(rest, end);
        assert(rest.take(end) == rest.subrange(0, end));
        let broken = rest.skip(end);
        assert(broken == rest.subrange(end, rest.len() as int));
        let width = break_len(broken);
        is_char_boundary_start_end_of_seq(broken);
        if width > 0 {
            lemma_boundary_behind_ascii(broken, width - 1);
        }
        valid_utf8_split(broken, width);
        assert(header.body =~= broken.subrange(width, broken.len() as int));
        valid_utf8_concat(header.mark, rest.take(end));
        valid_utf8_concat(header.mark + rest.take(end), bytes_of("\n#\n"@));
    }
    valid_utf8_concat(seq![LINE_FEED], header.body);
}

/// The opening line's text does not stand where it would have to hold a line feed, nor where a
/// byte stands that is not its first.
proof fn lemma_no_opening(text: Seq<u8>, at: int, offset: int)
    requires
        0 <= at,
        0 <= offset < opening().len(),
        at + offset < text.len(),
        text[at + offset] == LINE_FEED || offset == 0 && text[at] != 0x23,
    ensures
        !occurs_at(text, opening(), at),
{
    lemma_literals();
    if occurs_at(text, opening(), at) {
        assert(text.subrange(at, at + opening().len())[offset] == text[at + offset]);
    }
}

/// Nothing before a new metadata block looks like its opening line, unless the shebang line
/// does.
proof fn lemma_prelude_unmarked(header: HeaderBytes)
    requires
        header.mark == byte_order_mark() || header.mark.len() == 0,
        header.shebang matches Some(shebang) ==> forall|at: int|
            !occurs_at(shebang, opening(), at),
    ensures
        occurs_first_at(
            prelude_of(header) + opening(),
            opening(),
            prelude_of(header).len() as int,
        ),
{
    let prelude = prelude_of(header);
    let text = prelude + opening();
    let len = opening().len() as int;
    let start = header.mark.len() as int;
    assert(len == 12) by {
        lemma_literals();
    }
    assert(bytes_of("\n#\n"@) == seq![LINE_FEED, 0x23u8, LINE_FEED]) by {
        lemma_header_literals();
    }
    assert(forall|i: int| 0 <= i < start ==> header.mark[i] != 0x23) by {
        lemma_header_literals();
    }
    assert(text.subrange(prelude.len() as int, prelude.len() + len) =~= opening());
    assert forall|at: int| 0 <= at < prelude.len() implies !occurs_at(text, opening(), at) by {
        if at < start {
            assert(text[at] == header.mark[at]);
            lemma_no_opening(text, at, 0);
        } else {
            let shebang = header.shebang->Some_0;
            let end = start + shebang.len();
            assert(text[end] == LINE_FEED);
            assert(text[end + 2] == LINE_FEED);
            if at + len <= end {
                assert(shebang.subrange(at - start, at - start + len) =~= text.subrange(
                    at,
                    at + len,
                ));
                assert(!occurs_at(shebang, opening(), at - start));
            } else if at <= end {
                lemma_no_opening(text, at, end - at);
            } else {
                lemma_no_opening(text, at, end + 2 - at);
            }
        }
    }
}

/// A script into which a metadata block was put reads back with that metadata. What stood at
/// its front stays in front, and its body behind. A second block in that body is in the way;
/// an opening line's text within the shebang line is left out.
pub proof fn initialized_script_reads_back(contents: Seq<u8>, metadata: Seq<u8>)
    requires
        valid_utf8(contents),
        valid_utf8(metadata),
        no_stray_returns(metadata),
        header_of(contents).shebang matches Some(shebang) ==> forall|at: int|
            !occurs_at(shebang, opening(), at),
    ensures
        ({
            let prelude = prelude_of(header_of(contents));
            let postlude = postlude_of(header_of(contents));
            block_in(prelude + serialized(metadata) + postlude) == if holds_block(
                text_lines(postlude),
            ) {
                Err::<Option<BlockBytes>, BlockFault>(BlockFault::Duplicate)
            } else {
                Ok::<Option<BlockBytes>, BlockFault>(
                    Some(BlockBytes { prelude, metadata: joined(text_lines(metadata)), postlude }),
                )
            }
        }),
{
    let header = header_of(contents);
    let postlude = postlude_of(header);
    lemma_header_literals();
    lemma_header_valid(contents);
    lemma_prelude_unmarked(header);
    assert(starts_a_line(prelude_of(header)));
    if postlude.len() > 0 {
        let first = seq![LINE_FEED];
        lemma_raw_lines_cons(first, header.body);
        assert(raw_lines(postlude)[0] == first);
        assert(without_last(first, LINE_FEED) =~= Seq::<u8>::empty());
        assert(leading_comments(raw_lines(postlude)) =~= Seq::empty());
    }
    written_block_reads_back(prelude_of(header), metadata, postlude);
}

} // verus!
