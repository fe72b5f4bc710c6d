//! The drop payload: a JSON array whose elements are strings.
//!
//! A payload is well formed when it is, between optional blanks, an opening
//! bracket, strings separated by commas, and a closing bracket, and nothing
//! else. A string stands between double quotes and holds characters from
//! U+0020 upwards, where a backslash introduces one of the escapes
//! `\" \\ \/ \b \f \n \r \t` or `\u` with four hexadecimal digits. A `\u`
//! escape in the range of the leading surrogates must be followed by one in
//! the range of the trailing surrogates, and the two denote one character.
//! Anything else is malformed, an element that is not a string included.

use vstd::prelude::*;

verus! {

/// The characters that may stand between the parts of a payload.
pub open spec fn is_blank(c: char) -> bool {
    c == ' ' || c == '\t' || c == '\n' || c == '\r'
}

/// The characters that a string may hold only in escaped form.
pub open spec fn is_control(c: char) -> bool {
    c as u32 <= 0x1F
}

/// The first position from `at` on that holds no blank.
pub open spec fn skip_blanks(text: Seq<char>, at: int) -> int
    decreases text.len() - at,
{
    if 0 <= at < text.len() && is_blank(text[at]) {
        skip_blanks(text, at + 1)
    } else {
        at
    }
}

/// The value of a hexadecimal digit, in either case.
pub open spec fn hex_value(c: char) -> Option<u32> {
    if '0' <= c && c <= '9' {
        Some((c as u32 - '0' as u32) as u32)
    } else if 'a' <= c && c <= 'f' {
        Some((c as u32 - 'a' as u32 + 10) as u32)
    } else if 'A' <= c && c <= 'F' {
        Some((c as u32 - 'A' as u32 + 10) as u32)
    } else {
        None
    }
}

/// The number that the four hexadecimal digits from `at` on denote.
pub open spec fn code_unit(text: Seq<char>, at: int) -> Option<u32> {
    if 0 <= at && at + 4 <= text.len() && hex_value(text[at]) is Some && hex_value(text[at + 1])
        is Some && hex_value(text[at + 2]) is Some && hex_value(text[at + 3]) is Some {
        Some(
            (hex_value(text[at])->0 * 4096 + hex_value(text[at + 1])->0 * 256 + hex_value(
                text[at + 2],
            )->0 * 16 + hex_value(text[at + 3])->0) as u32,
        )
    } else {
        None
    }
}

/// The range of the leading surrogates.
pub open spec fn is_leading_surrogate(unit: u32) -> bool {
    0xD800 <= unit <= 0xDBFF
}

/// The range of the trailing surrogates.
pub open spec fn is_trailing_surrogate(unit: u32) -> bool {
    0xDC00 <= unit <= 0xDFFF
}

/// The character that a pair of surrogates denotes.
pub open spec fn paired(leading: u32, trailing: u32) -> char {
    (0x10000 + (leading - 0xD800) * 0x400 + (trailing - 0xDC00)) as char
}

/// The escape whose first character after the backslash stands at `at`: the
/// character it denotes and the position after the escape.
pub open spec fn escape(text: Seq<char>, at: int) -> Option<(char, int)> {
    if !(0 <= at < text.len()) {
        None
    } else if text[at] == '"' {
        Some(('"', at + 1))
    } else if text[at] == '\\' {
        Some(('\\', at + 1))
    } else if text[at] == '/' {
        Some(('/', at + 1))
    } else if text[at] == 'b' {
        Some(('\u{8}', at + 1))
    } else if text[at] == 'f' {
        Some(('\u{c}', at + 1))
    } else if text[at] == 'n' {
        Some(('\n', at + 1))
    } else if text[at] == 'r' {
        Some(('\r', at + 1))
    } else if text[at] == 't' {
        Some(('\t', at + 1))
    } else if text[at] == 'u' {
        match code_unit(text, at + 1) {
            Some(unit) => if is_leading_surrogate(unit) {
                if at + 7 <= text.len() && text[at + 5] == '\\' && text[at + 6] == 'u' {
                    match code_unit(text, at + 7) {
                        Some(second) => if is_trailing_surrogate(second) {
                            Some((paired(unit, second), at + 11))
                        } else {
                            None
                        },
                        None => None,
                    }
                } else {
                    None
                }
            } else if is_trailing_surrogate(unit) {
                None
            } else {
                Some((unit as char, at + 5))
            },
            None => None,
        }
    } else {
        None
    }
}

/// `rest` with `prefix` put before its characters.
pub open spec fn after_chars(prefix: Seq<char>, rest: Option<(Seq<char>, int)>) -> Option<
    (Seq<char>, int),
> {
    match rest {
        Some((tail, end)) => Some((prefix + tail, end)),
        None => None,
    }
}

/// The string whose first character after the opening quote stands at `at`:
/// the characters it denotes and the position after the closing quote.
pub open spec fn string_body(text: Seq<char>, at: int) -> Option<(Seq<char>, int)>
    decreases text.len() - at,
{
    if !(0 <= at < text.len()) {
        None
    } else if text[at] == '"' {
        Some((Seq::empty(), at + 1))
    } else if text[at] == '\\' {
        match escape(text, at + 1) {
            Some((c, next)) => after_chars(seq![c], string_body(text, next)),
            None => None,
        }
    } else if is_control(text[at]) {
        None
    } else {
        after_chars(seq![text[at]], string_body(text, at + 1))
    }
}

/// `rest` with `prefix` put before its strings.
pub open spec fn after_strings(
    prefix: Seq<Seq<char>>,
    rest: Option<(Seq<Seq<char>>, int)>,
) -> Option<(Seq<Seq<char>>, int)> {
    match rest {
        Some((tail, end)) => Some((prefix + tail, end)),
        None => None,
    }
}

/// The strings of an array from the opening quote of one of them at `at` up
/// to the closing bracket: the strings and the position after the bracket.
pub open spec fn strings_from(text: Seq<char>, at: int) -> Option<(Seq<Seq<char>>, int)>
    decreases text.len() - at,
{
    if 0 <= at < text.len() && text[at] == '"' {
        match string_body(text, at + 1) {
            Some((first, end)) => {
                let next = skip_blanks(text, end);
                if 0 <= next < text.len() && text[next] == ']' {
                    Some((seq![first], next + 1))
                } else if 0 <= next < text.len() && text[next] == ',' {
                    proof {
                        lemma_string_body_advances(text, at + 1);
                        lemma_skip_blanks_advances(text, end);
                        lemma_skip_blanks_advances(text, next + 1);
                    }
                    after_strings(seq![first], strings_from(text, skip_blanks(text, next + 1)))
                } else {
                    None
                }
            },
            None => None,
        }
    } else {
        None
    }
}

/// The array that begins after the opening bracket, at `at`.
pub open spec fn array_from(text: Seq<char>, at: int) -> Option<(Seq<Seq<char>>, int)> {
    let first = skip_blanks(text, at);
    if 0 <= first < text.len() && text[first] == ']' {
        Some((Seq::empty(), first + 1))
    } else {
        strings_from(text, first)
    }
}

/// The list of strings that a payload denotes, or `None` for a malformed one.
pub open spec fn decoded_paths(text: Seq<char>) -> Option<Seq<Seq<char>>> {
    let open = skip_blanks(text, 0);
    if 0 <= open < text.len() && text[open] == '[' {
        match array_from(text, open + 1) {
            Some((paths, end)) => if skip_blanks(text, end) == text.len() {
                Some(paths)
            } else {
                None
            },
            None => None,
        }
    } else {
        None
    }
}

/// Skipping blanks never moves backwards and never leaves the text.
pub proof fn lemma_skip_blanks_advances(text: Seq<char>, at: int)
    ensures
        at <= skip_blanks(text, at),
        at <= text.len() ==> skip_blanks(text, at) <= text.len(),
        0 <= skip_blanks(text, at) < text.len() ==> !is_blank(text[skip_blanks(text, at)]),
    decreases text.len() - at,
{
    if 0 <= at < text.len() && is_blank(text[at]) {
        lemma_skip_blanks_advances(text, at + 1);
    }
}

/// A string ends after the position at which its body begins, within the
/// text.
pub proof fn lemma_string_body_advances(text: Seq<char>, at: int)
    ensures
        string_body(text, at) matches Some((_, end)) ==> at < end <= text.len(),
    decreases text.len() - at,
{
    if !(0 <= at < text.len()) {
    } else if text[at] == '"' {
    } else if text[at] == '\\' {
        match escape(text, at + 1) {
            Some((c, next)) => {
                lemma_string_body_advances(text, next);
            },
            None => {},
        }
    } else if is_control(text[at]) {
    } else {
        lemma_string_body_advances(text, at + 1);
    }
}

/// Putting characters before a string part by part is putting them before
/// it at once.
proof fn lemma_after_chars_twice(
    first: Seq<char>,
    second: Seq<char>,
    rest: Option<(Seq<char>, int)>,
)
    ensures
        after_chars(first, after_chars(second, rest)) == after_chars(first + second, rest),
{
    if let Some((tail, end)) = rest {
        assert(first + (second + tail) =~= (first + second) + tail);
    }
}

/// The same for the strings of an array.
proof fn lemma_after_strings_twice(
    first: Seq<Seq<char>>,
    second: Seq<Seq<char>>,
    rest: Option<(Seq<Seq<char>>, int)>,
)
    ensures
        after_strings(first, after_strings(second, rest)) == after_strings(first + second, rest),
{
    if let Some((tail, end)) = rest {
        assert(first + (second + tail) =~= (first + second) + tail);
    }
}

/// The character with a given number, where there is one: every number up to
/// U+10FFFF but those of the surrogates.
pub open spec fn scalar(value: u32) -> Option<char> {
    if value <= 0xD7FF || 0xE000 <= value <= 0x10FFFF {
        Some(value as char)
    } else {
        None
    }
}

/// `String::push` of the standard library appends the character to the text.
pub assume_specification[ String::push ](text: &mut String, c: char)
    ensures
        final(text)@ == old(text)@.push(c),
;

/// `char::from_u32` of the standard library returns the character with the
/// given number, and `None` for a surrogate and for a number above U+10FFFF.
pub assume_specification[ char::from_u32 ](value: u32) -> (c: Option<char>)
    ensures
        c == scalar(value),
;

/// The characters of `text`, one by one.
fn characters(text: &str) -> (chars: Vec<char>)
    ensures
        chars@ == text@,
{
    let mut chars: Vec<char> = Vec::new();
    for c in it: text.chars()
        invariant
            it.seq() == text@,
            chars@ == it.seq().take(it.index()),
    {
        chars.push(c);
    }
    chars
}

/// Tells whether `c` is a blank.
fn is_blank_character(c: char) -> (blank: bool)
    ensures
        blank == is_blank(c),
{
    c == ' ' || c == '\t' || c == '\n' || c == '\r'
}

/// The first position from `at` on that holds no blank.
fn pass_blanks(chars: &Vec<char>, at: usize) -> (next: usize)
    requires
        at <= chars.len(),
    ensures
        next == skip_blanks(chars@, at as int),
        at <= next <= chars.len(),
{
    let mut i: usize = at;
    while i < chars.len() && is_blank_character(chars[i])
        invariant
            at <= i <= chars.len(),
            skip_blanks(chars@, at as int) == skip_blanks(chars@, i as int),
        decreases chars.len() - i,
    {
        i += 1;
    }
    i
}

/// The value of `c` as a hexadecimal digit.
fn hex_digit(c: char) -> (value: Option<u32>)
    ensures
        value == hex_value(c),
        value matches Some(v) ==> v < 16,
{
    if '0' <= c && c <= '9' {
        Some(c as u32 - '0' as u32)
    } else if 'a' <= c && c <= 'f' {
        Some(c as u32 - 'a' as u32 + 10)
    } else if 'A' <= c && c <= 'F' {
        Some(c as u32 - 'A' as u32 + 10)
    } else {
        None
    }
}

/// Reads the four hexadecimal digits from `at` on.
fn read_code_unit(chars: &Vec<char>, at: usize) -> (unit: Option<u32>)
    requires
        at <= chars.len(),
    ensures
        unit == code_unit(chars@, at as int),
        unit matches Some(u) ==> u <= 0xFFFF,
{
    if chars.len() - at < 4 {
        return None;
    }
    match (
        hex_digit(chars[at]),
        hex_digit(chars[at + 1]),
        hex_digit(chars[at + 2]),
        hex_digit(chars[at + 3]),
    ) {
        (Some(a), Some(b), Some(c), Some(d)) => Some(a * 4096 + b * 256 + c * 16 + d),
        _ => None,
    }
}

/// Reads the escape whose first character after the backslash stands at
/// `at`.
fn read_escape(chars: &Vec<char>, at: usize) -> (found: Option<(char, usize)>)
    requires
        at <= chars.len(),
    ensures
        match found {
            Some((c, next)) => escape(chars@, at as int) == Some((c, next as int)) && at < next
                <= chars.len(),
            None => escape(chars@, at as int) is None,
        },
{
    if at >= chars.len() {
        return None;
    }
    let c: char = chars[at];
    if c == '"' {
        Some(('"', at + 1))
    } else if c == '\\' {
        Some(('\\', at + 1))
    } else if c == '/' {
        Some(('/', at + 1))
    } else if c == 'b' {
        Some(('\u{8}', at + 1))
    } else if c == 'f' {
        Some(('\u{c}', at + 1))
    } else if c == 'n' {
        Some(('\n', at + 1))
    } else if c == 'r' {
        Some(('\r', at + 1))
    } else if c == 't' {
        Some(('\t', at + 1))
    } else if c == 'u' {
        let unit: u32 = match read_code_unit(chars, at + 1) {
            Some(unit) => unit,
            None => { return None; },
        };
        if 0xD800 <= unit && unit <= 0xDBFF {
            if chars.len() - at < 7 || chars[at + 5] != '\\' || chars[at + 6] != 'u' {
                return None;
            }
            let second: u32 = match read_code_unit(chars, at + 7) {
                Some(second) => second,
                None => { return None; },
            };
            if !(0xDC00 <= second && second <= 0xDFFF) {
                return None;
            }
            match char::from_u32(0x10000 + (unit - 0xD800) * 0x400 + (second - 0xDC00)) {
                Some(c) => Some((c, at + 11)),
                None => None,
            }
        } else {
            match char::from_u32(unit) {
                Some(c) => Some((c, at + 5)),
                None => None,
            }
        }
    } else {
        None
    }
}

/// Reads the string whose first character after the opening quote stands at
/// `at`, up to and including the closing quote.
fn read_string(chars: &Vec<char>, at: usize) -> (found: Option<(String, usize)>)
    requires
        at <= chars.len(),
    ensures
        match found {
            Some((text, end)) => string_body(chars@, at as int) == Some((text@, end as int))
                && at < end <= chars.len(),
            None => string_body(chars@, at as int) is None,
        },
{
    let mut text = String::new();
    let mut i: usize = at;
    loop
        invariant
            at <= i <= chars.len(),
            string_body(chars@, at as int) == after_chars(text@, string_body(chars@, i as int)),
        decreases chars.len() - i,
    {
        if i >= chars.len() {
            return None;
        }
        let c: char = chars[i];
        if c == '"' {
            assert(text@ + Seq::<char>::empty() =~= text@);
            return Some((text, i + 1));
        }
        if c == '\\' {
            match read_escape(chars, i + 1) {
                Some((escaped, next)) => {
                    proof {
                        lemma_after_chars_twice(
                            text@,
                            seq![escaped],
                            string_body(chars@, next as int),
                        );
                        assert(text@ + seq![escaped] =~= text@.push(escaped));
                    }
                    text.push(escaped);
                    i = next;
                },
                None => {
                    return None;
                },
            }
        } else if c as u32 <= 0x1F {
            return None;
        } else {
            proof {
                lemma_after_chars_twice(text@, seq![c], string_body(chars@, i + 1));
                assert(text@ + seq![c] =~= text@.push(c));
            }
            text.push(c);
            i += 1;
        }
    }
}

/// Reads the strings of an array from the opening quote of one of them at
/// `at` up to and including the closing bracket.
fn read_strings(chars: &Vec<char>, at: usize) -> (found: Option<(Vec<String>, usize)>)
    requires
        at <= chars.len(),
    ensures
        match found {
            Some((paths, end)) => strings_from(chars@, at as int) == Some(
                (paths.deep_view(), end as int),
            ) && at < end <= chars.len(),
            None => strings_from(chars@, at as int) is None,
        },
{
    let mut paths: Vec<String> = Vec::new();
    let mut i: usize = at;
    loop
        invariant
            at <= i <= chars.len(),
            strings_from(chars@, at as int) == after_strings(
                paths.deep_view(),
                strings_from(chars@, i as int),
            ),
        decreases chars.len() - i,
    {
        if i >= chars.len() || chars[i] != '"' {
            return None;
        }
        let (text, end) = match read_string(chars, i + 1) {
            Some(found) => found,
            None => { return None; },
        };
        let next: usize = pass_blanks(chars, end);
        if next >= chars.len() {
            return None;
        }
        let ghost before = paths.deep_view();
        if chars[next] == ']' {
            paths.push(text);
            assert(paths.deep_view() =~= before + seq![text@]);
            return Some((paths, next + 1));
        } else if chars[next] == ',' {
            proof {
                lemma_after_strings_twice(
                    before,
                    seq![text@],
                    strings_from(chars@, skip_blanks(chars@, next + 1)),
                );
            }
            paths.push(text);
            assert(paths.deep_view() =~= before + seq![text@]);
            i = pass_blanks(chars, next + 1);
        } else {
            return None;
        }
    }
}

/// Decodes a drop payload into its list of paths. A malformed payload gives
/// `None`.
pub fn decode_path_list(payload: &str) -> (paths: Option<Vec<String>>)
    ensures
        paths.deep_view() == decoded_paths(payload@),
{
    let chars = characters(payload);
    let open: usize = pass_blanks(&chars, 0);
    if open >= chars.len() || chars[open] != '[' {
        return None;
    }
    let first: usize = pass_blanks(&chars, open + 1);
    let (paths, end) = if first < chars.len() && chars[first] == ']' {
        (Vec::new(), first + 1)
    } else {
        match read_strings(&chars, first) {
            Some(found) => found,
            None => { return None; },
        }
    };
    if pass_blanks(&chars, end) == chars.len() {
        Some(paths)
    } else {
        None
    }
}

} // verus!
