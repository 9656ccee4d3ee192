//! Byte-level text: lines, occurrences and UTF-8 boundaries.
use vstd::prelude::*;
use vstd::utf8::*;

verus! {

/// The byte that ends a line.
pub const LINE_FEED: u8 = 0x0a;

/// The byte that may stand before a line feed.
pub const CARRIAGE_RETURN: u8 = 0x0d;

/// `std::str::from_utf8` accepts exactly the valid UTF-8 sequences, and the text it
/// returns has the very bytes it was given.
pub assume_specification[ std::str::from_utf8 ](bytes: &[u8]) -> (result: Result<
    &str,
    std::str::Utf8Error,
>)
    ensures
        result is Ok <==> valid_utf8(bytes@),
        result matches Ok(text) ==> bytes_of(text@) == bytes@,
;

/// The bytes of a text.
pub open spec fn bytes_of(text: Seq<char>) -> Seq<u8> {
    encode_utf8(text)
}

/// `part` stands in `text` at position `at`.
pub open spec fn occurs_at(text: Seq<u8>, part: Seq<u8>, at: int) -> bool {
    &&& 0 <= at
    &&& at + part.len() <= text.len()
    &&& text.subrange(at, at + part.len()) == part
}

/// `part` stands in `text` at position `at` and nowhere before it.
pub open spec fn occurs_first_at(text: Seq<u8>, part: Seq<u8>, at: int) -> bool {
    &&& occurs_at(text, part, at)
    &&& forall|earlier: int| 0 <= earlier < at ==> !occurs_at(text, part, earlier)
}

/// The length of the first line of `text`, its line feed included.
pub open spec fn line_len(text: Seq<u8>) -> nat
    decreases text.len(),
{
    if text.len() == 0 {
        0
    } else if text[0] == LINE_FEED {
        1
    } else {
        1 + line_len(text.drop_first())
    }
}

/// The lines of `text`, each with its line feed.
pub open spec fn raw_lines(text: Seq<u8>) -> Seq<Seq<u8>>
    decreases text.len(),
{
    if text.len() == 0 {
        Seq::empty()
    } else {
        proof {
            lemma_line_len(text);
        }
        seq![text.take(line_len(text) as int)] + raw_lines(text.skip(line_len(text) as int))
    }
}

/// A line without the line feed at its end and, whether or not there was one, without the
/// carriage return that then ends it.
pub open spec fn trimmed(line: Seq<u8>) -> Seq<u8> {
    without_last(without_last(line, LINE_FEED), CARRIAGE_RETURN)
}

/// A line without its line ending: `\n` or `\r\n`. A carriage return with no line feed
/// behind it stays.
pub open spec fn line_text(line: Seq<u8>) -> Seq<u8> {
    if line.len() > 0 && line.last() == LINE_FEED {
        without_last(line.drop_last(), CARRIAGE_RETURN)
    } else {
        line
    }
}

/// `text` without its last byte, if that is `byte`.
pub open spec fn without_last(text: Seq<u8>, byte: u8) -> Seq<u8> {
    if text.len() > 0 && text.last() == byte {
        text.drop_last()
    } else {
        text
    }
}

/// The lines of `text` without their line endings.
pub open spec fn text_lines(text: Seq<u8>) -> Seq<Seq<u8>> {
    raw_lines(text).map_values(|line: Seq<u8>| line_text(line))
}

/// The bytes of each text of a sequence.
pub open spec fn all_bytes(texts: Seq<&str>) -> Seq<Seq<u8>> {
    texts.map_values(|text: &str| bytes_of(text@))
}

/// The first line of a text that is not empty is not empty, and ends at the only line feed
/// in it or at the end of the text.
pub proof fn lemma_line_len(text: Seq<u8>)
    requires
        text.len() > 0,
    ensures
        0 < line_len(text) <= text.len(),
        forall|i: int| 0 <= i < line_len(text) - 1 ==> text[i] != LINE_FEED,
        text[line_len(text) - 1] == LINE_FEED || line_len(text) == text.len(),
    decreases text.len(),
{
    if text[0] != LINE_FEED && text.len() > 1 {
        let rest = text.drop_first();
        lemma_line_len(rest);
        assert forall|i: int| 0 <= i < line_len(text) - 1 implies text[i] != LINE_FEED by {
            if i > 0 {
                assert(rest[i - 1] == text[i]);
            }
        }
        assert(text[line_len(text) - 1] == rest[line_len(rest) - 1]);
    } else if text[0] != LINE_FEED {
        assert(line_len(text.drop_first()) == 0);
    }
}

/// The first line is fixed by where its line feed stands.
pub proof fn lemma_line_len_is(text: Seq<u8>, len: nat)
    requires
        0 < len <= text.len(),
        forall|i: int| 0 <= i < len - 1 ==> text[i] != LINE_FEED,
        text[len - 1] == LINE_FEED || len == text.len(),
    ensures
        line_len(text) == len,
{
    lemma_line_len(text);
    if line_len(text) < len {
        assert(text[line_len(text) - 1] != LINE_FEED);
    }
    if len < line_len(text) {
        assert(text[len - 1] != LINE_FEED);
    }
}

/// The lines of a text, put together, are the text.
pub proof fn lemma_raw_lines_flatten(text: Seq<u8>)
    ensures
        raw_lines(text).flatten() == text,
    decreases text.len(),
{
    if text.len() > 0 {
        lemma_line_len(text);
        let n = line_len(text) as int;
        lemma_raw_lines_flatten(text.skip(n));
        let lines = raw_lines(text);
        assert(lines.drop_first() =~= raw_lines(text.skip(n)));
        assert(lines.first() == text.take(n));
        assert(lines.flatten() == lines.first() + lines.drop_first().flatten());
        assert(text.take(n) + text.skip(n) =~= text);
    } else {
        assert(raw_lines(text).flatten() =~= text);
    }
}

/// A line in front of a text is the first line of the two together.
pub proof fn lemma_raw_lines_cons(line: Seq<u8>, rest: Seq<u8>)
    requires
        line.len() > 0,
        line.last() == LINE_FEED,
        forall|i: int| 0 <= i < line.len() - 1 ==> line[i] != LINE_FEED,
    ensures
        raw_lines(line + rest) == seq![line] + raw_lines(rest),
{
    let text = line + rest;
    assert(text[line.len() - 1] == line.last());
    lemma_line_len_is(text, line.len());
    assert(text.take(line.len() as int) =~= line);
    assert(text.skip(line.len() as int) =~= rest);
}

/// No line holds a line feed but at its end, and none is empty.
pub proof fn lemma_raw_line_shape(text: Seq<u8>, index: int)
    requires
        0 <= index < raw_lines(text).len(),
    ensures
        raw_lines(text)[index].len() > 0,
        forall|i: int|
            0 <= i < raw_lines(text)[index].len() - 1 ==> raw_lines(text)[index][i] != LINE_FEED,
    decreases text.len(),
{
    lemma_line_len(text);
    let n = line_len(text) as int;
    if index > 0 {
        lemma_raw_line_shape(text.skip(n), index - 1);
        assert(raw_lines(text)[index] == raw_lines(text.skip(n))[index - 1]);
    } else {
        assert(raw_lines(text)[0] == text.take(n));
    }
}

/// A line without its line ending holds no line feed.
pub proof fn lemma_text_line_shape(text: Seq<u8>, index: int)
    requires
        0 <= index < text_lines(text).len(),
    ensures
        forall|i: int|
            0 <= i < text_lines(text)[index].len() ==> text_lines(text)[index][i] != LINE_FEED,
{
    lemma_raw_line_shape(text, index);
    let line = raw_lines(text)[index];
    assert(text_lines(text)[index] == line_text(line));
    assert forall|i: int| 0 <= i < line_text(line).len() implies line_text(line)[i]
        != LINE_FEED by {
        if i == line.len() - 1 {
            assert(line.last() != LINE_FEED);
        }
        assert(line_text(line)[i] == line[i]);
    }
}

/// The bytes of two texts put together are the bytes of the one, then those of the other.
pub proof fn lemma_bytes_concat(front: Seq<char>, back: Seq<char>)
    ensures
        bytes_of(front + back) == bytes_of(front) + bytes_of(back),
    decreases front.len(),
{
    if front.len() == 0 {
        assert(front + back =~= back);
        assert(bytes_of(front) + bytes_of(back) =~= bytes_of(back));
    } else {
        lemma_bytes_concat(front.drop_first(), back);
        assert((front + back).drop_first() =~= front.drop_first() + back);
        assert(bytes_of(front + back) =~= bytes_of(front) + bytes_of(back));
    }
}

/// Two texts with the same bytes are the same text.
pub proof fn lemma_same_bytes(one: Seq<char>, other: Seq<char>)
    requires
        bytes_of(one) == bytes_of(other),
    ensures
        one == other,
{
    encode_utf8_decode_utf8(one);
    encode_utf8_decode_utf8(other);
}

/// A text starts with another exactly where its bytes do.
pub proof fn lemma_prefix_bytes(part: Seq<char>, text: Seq<char>)
    ensures
        part.is_prefix_of(text) <==> bytes_of(part).is_prefix_of(bytes_of(text)),
    decreases part.len(),
{
    if part.is_prefix_of(text) {
        assert(text =~= part + text.skip(part.len() as int));
        lemma_bytes_concat(part, text.skip(part.len() as int));
    } else if bytes_of(part).is_prefix_of(bytes_of(text)) {
        if part.len() == 0 {
            assert(part =~= text.take(0));
        } else if text.len() == 0 {
            encode_utf8_first_scalar(part);
        } else {
            encode_utf8_first_scalar(part);
            encode_utf8_first_scalar(text);
            lemma_same_first(part, text);
            let front = encode_scalar(part[0] as u32);
            assert(bytes_of(part).skip(front.len() as int) =~= bytes_of(part.drop_first()));
            assert(bytes_of(text).skip(front.len() as int) =~= bytes_of(text.drop_first()));
            assert(bytes_of(part.drop_first()).is_prefix_of(bytes_of(text.drop_first())));
            lemma_prefix_bytes(part.drop_first(), text.drop_first());
            assert forall|i: int| 0 <= i < part.len() implies part[i] == text[i] by {
                if i > 0 {
                    assert(part.drop_first()[i - 1] == text.drop_first().take(
                        part.len() - 1,
                    )[i - 1]);
                }
            }
            assert(part =~= text.take(part.len() as int));
        }
    }
}

/// Texts that are not empty and whose bytes start alike start with the same character.
proof fn lemma_same_first(part: Seq<char>, text: Seq<char>)
    requires
        part.len() > 0,
        text.len() > 0,
        bytes_of(part).is_prefix_of(bytes_of(text)),
    ensures
        part[0] == text[0],
{
    encode_utf8_first_scalar(part);
    encode_utf8_first_scalar(text);
    let one = bytes_of(part);
    let other = bytes_of(text);
    assert forall|i: int| 0 <= i < one.len() implies one[i] == other[i] by {
        assert(other.take(one.len() as int)[i] == other[i]);
    }
    assert(decode_first_scalar(one) == decode_first_scalar(other));
    char_u32_cast(part[0], decode_first_scalar(one));
    char_u32_cast(text[0], decode_first_scalar(other));
}

/// A character starts behind every ASCII byte.
pub proof fn lemma_boundary_behind_ascii(bytes: Seq<u8>, at: int)
    requires
        valid_utf8(bytes),
        0 <= at < bytes.len(),
        bytes[at] < 0x80,
    ensures
        is_char_boundary(bytes, at),
        is_char_boundary(bytes, at + 1),
    decreases bytes.len(),
{
    is_char_boundary_iff_not_is_continuation_byte(bytes, at);
    let n = length_of_first_scalar(bytes);
    let rest = pop_first_scalar(bytes);
    if at == 0 {
        assert(n == 1);
        assert(is_char_boundary(rest, 0));
    } else {
        if at < n {
            assert(is_continuation_byte(bytes[at]));
        }
        assert(rest[at - n] == bytes[at]);
        lemma_boundary_behind_ascii(rest, at - n);
    }
}

/// Compares two byte sequences.
pub fn same_bytes(one: &[u8], other: &[u8]) -> (same: bool)
    ensures
        same == (one@ == other@),
{
    if one.len() != other.len() {
        return false;
    }
    let mut i: usize = 0;
    while i < one.len()
        invariant
            one.len() == other.len(),
            i <= one.len(),
            one@.take(i as int) == other@.take(i as int),
        decreases one.len() - i,
    {
        if one[i] != other[i] {
            assert(one@[i as int] != other@[i as int]);
            return false;
        }
        assert(one@.take(i + 1) =~= one@.take(i as int).push(one@[i as int]));
        assert(other@.take(i + 1) =~= other@.take(i as int).push(other@[i as int]));
        i += 1;
    }
    assert(one@.take(i as int) =~= one@);
    assert(other@.take(i as int) =~= other@);
    true
}

/// Compares two texts.
pub fn same_text(one: &str, other: &str) -> (same: bool)
    ensures
        same == (one@ == other@),
        same == (bytes_of(one@) == bytes_of(other@)),
{
    let same = same_bytes(one.as_bytes(), other.as_bytes());
    proof {
        if bytes_of(one@) == bytes_of(other@) {
            lemma_same_bytes(one@, other@);
        }
    }
    same
}

/// Appends a text to another.
pub fn push_text(text: &mut String, part: &str)
    ensures
        final(text)@ == old(text)@ + part@,
        bytes_of(final(text)@) == bytes_of(old(text)@) + bytes_of(part@),
{
    proof {
        lemma_bytes_concat(text@, part@);
    }
    text.append(part);
}

/// Where `part` stands in `text` for the first time.
pub fn find_first(text: &[u8], part: &[u8]) -> (found: Option<usize>)
    ensures
        found matches Some(at) ==> occurs_first_at(text@, part@, at as int),
        found is None ==> forall|at: int| !occurs_at(text@, part@, at),
{
    if part.len() > text.len() {
        return None;
    }
    let last: usize = text.len() - part.len();
    let mut at: usize = 0;
    loop
        invariant
            at <= last,
            last == text.len() - part.len(),
            forall|earlier: int| 0 <= earlier < at ==> !occurs_at(text@, part@, earlier),
        decreases last - at,
    {
        let window = vstd::slice::slice_subrange(text, at, at + part.len());
        if same_bytes(window, part) {
            return Some(at);
        }
        if at == last {
            return None;
        }
        at += 1;
    }
}

/// Splits a text into its lines, each with its line feed.
pub fn split_lines<'a>(text: &'a str) -> (lines: Vec<&'a str>)
    ensures
        all_bytes(lines@) == raw_lines(bytes_of(text@)),
{
    let mut lines: Vec<&'a str> = Vec::new();
    let mut rest: &'a str = text;
    let ghost whole = bytes_of(text@);
    assert(all_bytes(lines@) + raw_lines(whole) =~= raw_lines(whole));
    while rest.as_bytes().len() > 0
        invariant
            all_bytes(lines@) + raw_lines(bytes_of(rest@)) == raw_lines(whole),
        decreases bytes_of(rest@).len(),
    {
        let bytes = rest.as_bytes();
        let ghost seen = bytes_of(rest@);
        let mut end: usize = 0;
        while end < bytes.len() && bytes[end] != LINE_FEED
            invariant
                end <= bytes.len(),
                bytes@ == seen,
                forall|i: int| 0 <= i < end ==> seen[i] != LINE_FEED,
            decreases bytes.len() - end,
        {
            end += 1;
        }
        proof {
            encode_utf8_valid_utf8(rest@);
            is_char_boundary_start_end_of_seq(seen);
        }
        if end < bytes.len() {
            proof {
                lemma_boundary_behind_ascii(seen, end as int);
            }
            end += 1;
        }
        proof {
            lemma_line_len_is(seen, end as nat);
        }
        let (line, others) = rest.split_at(end);
        proof {
            assert(bytes_of(line@) == seen.take(end as int));
            assert(bytes_of(others@) == seen.skip(end as int));
            assert(raw_lines(seen) == seq![bytes_of(line@)] + raw_lines(bytes_of(others@)));
            assert(all_bytes(lines@.push(line)) =~= all_bytes(lines@).push(bytes_of(line@)));
            assert(all_bytes(lines@) + raw_lines(seen) =~= all_bytes(lines@.push(line))
                + raw_lines(bytes_of(others@)));
        }
        lines.push(line);
        rest = others;
    }
    assert(all_bytes(lines@) + raw_lines(bytes_of(rest@)) =~= all_bytes(lines@));
    lines
}

} // verus!
