//! What a script is made of at its front, and what is kept of it around a new metadata block.
use vstd::prelude::*;

use crate::script_header::{
    break_len, header_of, lemma_header_literals, postlude_of, prelude_of, unbroken_len,
    HeaderBytes,
};
use crate::text::bytes_of;

verus! {

/// A line feed, a carriage return, or one behind the other.
pub open spec fn is_line_break(text: Seq<u8>) -> bool {
    text == seq![0x0au8] || text == seq![0x0du8] || text == seq![0x0du8, 0x0au8]
}

/// There is no line break in a text.
pub open spec fn is_one_line(text: Seq<u8>) -> bool {
    forall|i: int| 0 <= i < text.len() ==> #[trigger] text[i] != 0x0a && text[i] != 0x0d
}

/// The text starts with a byte order mark.
pub open spec fn is_marked(text: Seq<u8>) -> bool {
    text.len() >= 3 && text[0] == 0xef && text[1] == 0xbb && text[2] == 0xbf
}

/// The text starts with a number sign and an exclamation mark.
pub open spec fn is_shebang(text: Seq<u8>) -> bool {
    text.len() >= 2 && text[0] == 0x23 && text[1] == 0x21
}

/// Everything before the first line break is one line, and something is left only if there is a
/// break.
proof fn lemma_unbroken(text: Seq<u8>)
    ensures
        unbroken_len(text) <= text.len(),
        is_one_line(text.take(unbroken_len(text) as int)),
        unbroken_len(text) < text.len() ==> text[unbroken_len(text) as int] == 0x0a
            || text[unbroken_len(text) as int] == 0x0d,
    decreases text.len(),
{
    if text.len() > 0 && text[0] != 0x0a && text[0] != 0x0d {
        let rest = text.drop_first();
        lemma_unbroken(rest);
        let front = text.take(unbroken_len(text) as int);
        assert forall|i: int| 0 <= i < front.len() implies #[trigger] front[i] != 0x0a && front[i]
            != 0x0d by {
            if i > 0 {
                assert(front[i] == rest.take(unbroken_len(rest) as int)[i - 1]);
            }
        }
    }
}

/// Put together again, with the line break that was taken out, the parts are the script. The mark
/// is there if the script has one, and the shebang line if one comes next. That is one line, and
/// the whole of it.
pub proof fn parts_make_the_script(text: Seq<u8>)
    ensures
        ({
            let header = header_of(text);
            let rest = text.skip(header.mark.len() as int);
            &&& header.mark == if is_marked(text) {
                seq![0xefu8, 0xbbu8, 0xbfu8]
            } else {
                Seq::empty()
            }
            &&& header.shebang is Some <==> is_shebang(rest)
            &&& match header.shebang {
                None => text == header.mark + header.body,
                Some(shebang) => {
                    &&& is_one_line(shebang)
                    &&& is_shebang(shebang)
                    &&& text == header.mark + shebang && header.body.len() == 0 || exists|
                        ending: Seq<u8>,
                    | #[trigger]
                        is_line_break(ending) && text == header.mark + shebang + ending
                            + header.body && !(ending == seq![0x0du8] && header.body.len() > 0
                            && header.body[0] == 0x0a)
                },
            }
        }),
{
    lemma_header_literals();
    let header = header_of(text);
    let mark = header.mark;
    let rest = text.skip(mark.len() as int);
    let sign = bytes_of("\u{feff}"@);
    if is_marked(text) {
        assert(text.take(3) =~= seq![0xefu8, 0xbbu8, 0xbfu8]);
        assert(sign.is_prefix_of(text));
    } else if sign.is_prefix_of(text) {
        assert(text[0] == sign[0] && text[1] == sign[1] && text[2] == sign[2]);
    }
    let start = bytes_of("#!"@);
    if is_shebang(rest) {
        assert(rest.take(2) =~= seq![0x23u8, 0x21u8]);
        assert(start.is_prefix_of(rest));
    } else if start.is_prefix_of(rest) {
        assert(rest[0] == start[0] && rest[1] == start[1]);
    }
    if header.shebang is Some {
        let end = unbroken_len(rest) as int;
        let shebang = rest.take(end);
        lemma_unbroken(rest);
        reveal_with_fuel(unbroken_len, 3);
        assert(rest[0] == 0x23 && rest[1] == 0x21);
        assert(end >= 2);
        let broken = rest.skip(end);
        let width = break_len(broken);
        let ending = broken.take(width);
        assert(rest =~= shebang + ending + header.body);
        assert(text =~= mark + shebang + ending + header.body);
        if end < rest.len() {
            assert(broken[0] == rest[end]);
            if width == 2 {
                assert(ending =~= seq![0x0du8, 0x0au8]);
            } else {
                assert(ending =~= seq![broken[0]]);
                if header.body.len() > 0 {
                    assert(header.body[0] == broken[1]);
                }
                if ending == seq![0x0du8] {
                    assert(ending[0] == 0x0d);
                }
            }
            assert(is_line_break(ending));
        } else {
            assert(text =~= mark + shebang);
        }
    } else {
        assert(text =~= mark + header.body);
    }
}

/// Around a new metadata block everything of a script stays: the mark and the shebang line in
/// front, on a line of their own and with an empty comment behind, and the body at the end,
/// behind an empty line.
pub proof fn nothing_of_a_script_is_lost(header: HeaderBytes)
    ensures
        ({
            let prelude = prelude_of(header);
            let postlude = postlude_of(header);
            &&& header.mark.is_prefix_of(prelude)
            &&& match header.shebang {
                Some(shebang) => (header.mark + shebang).is_prefix_of(prelude) && prelude.skip(
                    (header.mark.len() + shebang.len()) as int,
                ) == seq![0x0au8, 0x23u8, 0x0au8],
                None => prelude == header.mark,
            }
            &&& header.body.is_suffix_of(postlude)
            &&& header.body.len() == 0 <==> postlude.len() == 0
            &&& header.body.len() > 0 ==> postlude.len() == header.body.len() + 1 && postlude[0]
                == 0x0a
        }),
{
    lemma_header_literals();
    let prelude = prelude_of(header);
    let postlude = postlude_of(header);
    match header.shebang {
        Some(shebang) => {
            assert(prelude.skip((header.mark.len() + shebang.len()) as int) =~= seq![
                0x0au8,
                0x23u8,
                0x0au8,
            ]);
        },
        None => {},
    }
    if header.body.len() > 0 {
        assert(postlude.skip(1) =~= header.body);
    }
}

} // verus!
