//! The plain written form of a list of paths, and the law that every list
//! written in this form is decoded to itself.
//!
//! The plain form has no blanks. Inside a string a double quote and a
//! backslash are written with a backslash before them, a character below
//! U+0020 is written as `\u00` and two hexadecimal digits, and every other
//! character stands for itself.

use vstd::prelude::*;
use crate::payload::{
    after_chars, array_from, code_unit, decoded_paths, escape, hex_value, is_control,
    skip_blanks, string_body, strings_from,
};

verus! {

/// The hexadecimal digit, in lower case, of a value below sixteen.
pub open spec fn digit_of(value: u32) -> char
    recommends
        value < 16,
{
    if value < 10 {
        ('0' as u32 + value) as char
    } else {
        ('a' as u32 + value - 10) as char
    }
}

/// The written form of one character of a string.
pub open spec fn written_char(c: char) -> Seq<char> {
    if c == '"' {
        seq!['\\', '"']
    } else if c == '\\' {
        seq!['\\', '\\']
    } else if is_control(c) {
        seq!['\\', 'u', '0', '0', digit_of(c as u32 / 16), digit_of(c as u32 % 16)]
    } else {
        seq![c]
    }
}

/// The written form of the characters of a string, without the quotes.
pub open spec fn written_chars(text: Seq<char>) -> Seq<char>
    decreases text.len(),
{
    if text.len() == 0 {
        Seq::empty()
    } else {
        written_char(text[0]) + written_chars(text.drop_first())
    }
}

/// The written form of a string, between its quotes.
pub open spec fn written_string(text: Seq<char>) -> Seq<char> {
    seq!['"'] + written_chars(text) + seq!['"']
}

/// The written form of the strings of a list, separated by commas.
pub open spec fn written_strings(paths: Seq<Seq<char>>) -> Seq<char>
    decreases paths.len(),
{
    if paths.len() == 0 {
        Seq::empty()
    } else if paths.len() == 1 {
        written_string(paths[0])
    } else {
        written_string(paths[0]) + seq![','] + written_strings(paths.drop_first())
    }
}

/// The plain written form of a list of paths.
pub open spec fn encoded_paths(paths: Seq<Seq<char>>) -> Seq<char> {
    seq!['['] + written_strings(paths) + seq![']']
}

/// `part` stands in `text` from position `at` on.
pub open spec fn occurs(text: Seq<char>, at: int, part: Seq<char>) -> bool {
    &&& 0 <= at
    &&& at + part.len() <= text.len()
    &&& forall|k: int| 0 <= k < part.len() ==> text[at + k] == #[trigger] part[k]
}

/// Where two parts stand one after the other, each of them stands in its
/// place.
proof fn lemma_occurs_split(text: Seq<char>, at: int, first: Seq<char>, second: Seq<char>)
    requires
        occurs(text, at, first + second),
    ensures
        occurs(text, at, first),
        occurs(text, at + first.len(), second),
{
    let both = first + second;
    assert forall|k: int| 0 <= k < first.len() implies text[at + k] == #[trigger] first[k] by {
        assert(both[k] == first[k]);
    }
    assert forall|k: int| 0 <= k < second.len() implies text[at + first.len() + k]
        == #[trigger] second[k] by {
        assert(both[first.len() + k] == second[k]);
    }
}

/// The digit of a value denotes that value.
proof fn lemma_digit_value(value: u32)
    requires
        value < 16,
    ensures
        hex_value(digit_of(value)) == Some(value),
{
}

/// The written form of a character is read back as that character.
proof fn lemma_written_char_is_read(text: Seq<char>, at: int, c: char)
    requires
        occurs(text, at, written_char(c)),
    ensures
        string_body(text, at) == after_chars(
            seq![c],
            string_body(text, at + written_char(c).len()),
        ),
{
    let part = written_char(c);
    assert(text[at + 0] == part[0]);
    if c == '"' || c == '\\' {
        assert(text[at + 1] == part[1]);
        assert(escape(text, at + 1) == Some((c, at + 2)));
    } else if is_control(c) {
        let high = (c as u32 / 16) as u32;
        let low = (c as u32 % 16) as u32;
        assert(text[at + 1] == part[1]);
        assert(text[at + 2] == part[2]);
        assert(text[at + 3] == part[3]);
        assert(text[at + 4] == part[4]);
        assert(text[at + 5] == part[5]);
        lemma_digit_value(0);
        lemma_digit_value(high);
        lemma_digit_value(low);
        assert(hex_value('0') == Some(0u32));
        assert(code_unit(text, at + 2) == Some(c as u32));
        assert((c as u32) as char == c);
        assert(escape(text, at + 1) == Some((c, at + 6)));
    }
}

/// The written form of a string, from its first character to its closing
/// quote, is read back as that string.
proof fn lemma_written_chars_are_read(text: Seq<char>, at: int, content: Seq<char>)
    requires
        occurs(text, at, written_chars(content) + seq!['"']),
    ensures
        string_body(text, at) == Some((content, at + written_chars(content).len() + 1)),
    decreases content.len(),
{
    if content.len() == 0 {
        assert(written_chars(content) + seq!['"'] == seq!['"']);
        assert(text[at + 0] == seq!['"'][0]);
    } else {
        let head = written_char(content[0]);
        let rest = content.drop_first();
        let tail = written_chars(rest) + seq!['"'];
        assert(written_chars(content) + seq!['"'] == head + tail);
        lemma_occurs_split(text, at, head, tail);
        lemma_written_char_is_read(text, at, content[0]);
        lemma_written_chars_are_read(text, at + head.len(), rest);
        assert(seq![content[0]] + rest == content);
    }
}

/// The written form of a list that is not empty, from the opening quote of
/// its first string to the closing bracket, is read back as that list.
proof fn lemma_written_strings_are_read(text: Seq<char>, at: int, paths: Seq<Seq<char>>)
    requires
        paths.len() > 0,
        occurs(text, at, written_strings(paths) + seq![']']),
    ensures
        strings_from(text, at) == Some((paths, at + written_strings(paths).len() + 1)),
    decreases paths.len(),
{
    let first = paths[0];
    let body = written_chars(first) + seq!['"'];
    let end = at + 1 + body.len();
    if paths.len() == 1 {
        assert(written_strings(paths) + seq![']'] == seq!['"'] + (body + seq![']']));
        lemma_occurs_split(text, at, seq!['"'], body + seq![']']);
        lemma_occurs_split(text, at + 1, body, seq![']']);
        assert(text[at + 0] == seq!['"'][0]);
        lemma_written_chars_are_read(text, at + 1, first);
        assert(text[end + 0] == seq![']'][0]);
        assert(skip_blanks(text, end) == end);
        assert(written_strings(paths).len() == 1 + body.len());
        assert(seq![first] == paths);
    } else {
        let rest = paths.drop_first();
        let more = written_strings(rest) + seq![']'];
        assert(written_strings(paths) + seq![']'] == seq!['"'] + (body + (seq![','] + more)));
        lemma_occurs_split(text, at, seq!['"'], body + (seq![','] + more));
        lemma_occurs_split(text, at + 1, body, seq![','] + more);
        lemma_occurs_split(text, end, seq![','], more);
        assert(text[at + 0] == seq!['"'][0]);
        lemma_written_chars_are_read(text, at + 1, first);
        assert(text[end + 0] == seq![','][0]);
        assert(skip_blanks(text, end) == end);
        assert(written_strings(rest)[0] == '"') by {
            if rest.len() == 1 {
                assert(written_strings(rest) == written_string(rest[0]));
            } else {
                assert(written_strings(rest) == written_string(rest[0]) + seq![',']
                    + written_strings(rest.drop_first()));
            }
        }
        assert(text[end + 1 + 0] == more[0]);
        assert(skip_blanks(text, end + 1) == end + 1);
        lemma_written_strings_are_read(text, end + 1, rest);
        assert(written_strings(paths).len() == 1 + body.len() + 1 + written_strings(rest).len());
        assert(seq![first] + rest == paths);
    }
}

/// Every list of paths, written in the plain form, is decoded to itself. So
/// the decoder accepts every list, and tells any two lists apart.
pub proof fn law_encoded_paths_decode_to_themselves(paths: Seq<Seq<char>>)
    ensures
        decoded_paths(encoded_paths(paths)) == Some(paths),
{
    let text = encoded_paths(paths);
    let inner = written_strings(paths) + seq![']'];
    assert(text == seq!['['] + inner);
    assert(text[0] == '[');
    assert(skip_blanks(text, 0) == 0);
    assert(occurs(text, 1, inner)) by {
        assert forall|k: int| 0 <= k < inner.len() implies text[1int + k] == #[trigger] inner[k] by {}
    }
    if paths.len() == 0 {
        assert(text[1] == ']');
        assert(skip_blanks(text, 1) == 1);
        assert(array_from(text, 1) == Some((Seq::<Seq<char>>::empty(), 2int)));
        assert(skip_blanks(text, 2) == 2);
        assert(paths == Seq::<Seq<char>>::empty());
    } else {
        assert(written_strings(paths)[0] == '"') by {
            if paths.len() == 1 {
                assert(written_strings(paths) == written_string(paths[0]));
            } else {
                assert(written_strings(paths) == written_string(paths[0]) + seq![',']
                    + written_strings(paths.drop_first()));
            }
        }
        assert(text[1int + 0] == inner[0]);
        assert(skip_blanks(text, 1) == 1);
        lemma_written_strings_are_read(text, 1, paths);
        assert(skip_blanks(text, text.len() as int) == text.len());
    }
}

} // verus!
