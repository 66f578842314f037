//! Characters of texts: conversions, classes and lines.

use vstd::prelude::*;

verus! {

/// `String::push` appends the given character to the end of the string.
pub assume_specification[ String::push ](text: &mut String, c: char)
    ensures
        final(text)@ == old(text)@.push(c),
;

/// The characters of a text.
pub(crate) fn chars_of(text: &str) -> (chars: Vec<char>)
    ensures
        chars@ == text@,
{
    let mut chars: Vec<char> = Vec::new();
    push_text(&mut chars, text);
    assert(chars@ =~= text@);
    chars
}

/// Appends the characters of a text.
pub(crate) fn push_text(chars: &mut Vec<char>, text: &str)
    ensures
        final(chars)@ == old(chars)@ + text@,
{
    let ghost before = chars@;
    for c in iter: text.chars()
        invariant
            iter.seq() == text@,
            chars@ == before + text@.take(iter.index() as int),
    {
        chars.push(c);
        assert(before + text@.take(iter.index() as int + 1) =~= (before + text@.take(
            iter.index() as int,
        )).push(c));
    }
    assert(text@.take(text@.len() as int) =~= text@);
}

/// The text made of characters.
pub(crate) fn text_of_chars(chars: &Vec<char>) -> (text: String)
    ensures
        text@ == chars@,
{
    let mut text = String::new();
    for i in 0..chars.len()
        invariant
            text@ == chars@.take(i as int),
    {
        text.push(chars[i]);
        assert(chars@.take(i as int + 1) =~= chars@.take(i as int).push(chars@[i as int]));
    }
    assert(chars@.take(chars@.len() as int) =~= chars@);
    text
}

/// A character repeated.
pub open spec fn repeated(c: char, count: nat) -> Seq<char> {
    Seq::new(count, |i: int| c)
}

pub(crate) fn repeat_char(c: char, count: usize) -> (chars: Vec<char>)
    ensures
        chars@ == repeated(c, count as nat),
{
    let mut chars: Vec<char> = Vec::new();
    for i in 0..count
        invariant
            chars@.len() == i,
            forall|j: int| 0 <= j < i ==> chars@[j] == c,
    {
        chars.push(c);
    }
    assert(chars@ =~= repeated(c, count as nat));
    chars
}

/// Characters with the Unicode property `White_Space`.
pub open spec fn is_whitespace(c: char) -> bool {
    ||| 0x9 <= c as u32 <= 0xD
    ||| c as u32 == 0x20
    ||| c as u32 == 0x85
    ||| c as u32 == 0xA0
    ||| c as u32 == 0x1680
    ||| 0x2000 <= c as u32 <= 0x200A
    ||| c as u32 == 0x2028
    ||| c as u32 == 0x2029
    ||| c as u32 == 0x202F
    ||| c as u32 == 0x205F
    ||| c as u32 == 0x3000
}

pub(crate) fn whitespace(c: char) -> (white: bool)
    ensures
        white == is_whitespace(c),
{
    let code: u32 = c as u32;
    (code >= 0x9 && code <= 0xD) || code == 0x20 || code == 0x85 || code == 0xA0 || code == 0x1680
        || (code >= 0x2000 && code <= 0x200A) || code == 0x2028 || code == 0x2029 || code == 0x202F
        || code == 0x205F || code == 0x3000
}

/// Control characters: the Unicode general category `Cc`.
pub open spec fn is_control(c: char) -> bool {
    c as u32 <= 0x1F || 0x7F <= c as u32 <= 0x9F
}

pub(crate) fn control(c: char) -> (control: bool)
    ensures
        control == is_control(c),
{
    let code: u32 = c as u32;
    code <= 0x1F || (code >= 0x7F && code <= 0x9F)
}

/// The digits of a number in base ten, without leading zeros.
pub open spec fn decimal(number: nat) -> Seq<char>
    decreases number,
{
    if number < 10 {
        seq![digit(number)]
    } else {
        decimal(number / 10).push(digit(number % 10))
    }
}

/// A digit as a character.
pub open spec fn digit(value: nat) -> char {
    (0x30 + value) as char
}

pub(crate) fn push_decimal(chars: &mut Vec<char>, number: u64)
    ensures
        final(chars)@ == old(chars)@ + decimal(number as nat),
    decreases number,
{
    let ghost before = chars@;
    if number >= 10 {
        push_decimal(chars, number / 10);
    }
    let last: u8 = (number % 10) as u8;
    chars.push((0x30 + last) as char);
    assert(chars@ =~= before + decimal(number as nat));
}

/// The digits of a number as a text.
pub(crate) fn decimal_text(number: u64) -> (text: String)
    ensures
        text@ == decimal(number as nat),
{
    let mut chars: Vec<char> = Vec::new();
    push_decimal(&mut chars, number);
    assert(chars@ =~= decimal(number as nat));
    text_of_chars(&chars)
}

/// Whether a text holds a control character.
pub open spec fn has_control(text: Seq<char>) -> bool {
    exists|i: int| 0 <= i < text.len() && is_control(#[trigger] text[i])
}

pub(crate) fn with_control(text: &str) -> (found: bool)
    ensures
        found == has_control(text@),
{
    let mut found = false;
    for c in iter: text.chars()
        invariant
            iter.seq() == text@,
            found == exists|i: int| 0 <= i < iter.index() && is_control(#[trigger] text@[i]),
    {
        if control(c) {
            assert(is_control(text@[iter.index() as int]));
            found = true;
        }
    }
    found
}

/// Two texts, one behind the other.
pub(crate) fn joined(first: &str, second: &str) -> (text: String)
    ensures
        text@ == first@ + second@,
{
    let mut text: String = first.to_owned();
    text.append(second);
    text
}

/// The characters of an optional text.
pub open spec fn optional_text(text: Option<String>) -> Option<Seq<char>> {
    match text {
        Some(text) => Some(text@),
        None => None,
    }
}

/// The characters of an optional borrowed text.
pub open spec fn optional_str(text: Option<&str>) -> Option<Seq<char>> {
    match text {
        Some(text) => Some(text@),
        None => None,
    }
}

pub(crate) fn borrowed_text(text: &Option<String>) -> (borrowed: Option<&str>)
    ensures
        optional_str(borrowed) == optional_text(*text),
{
    match text {
        Some(text) => Some(text.as_str()),
        None => None,
    }
}

pub(crate) fn duplicate_text(text: &Option<String>) -> (copy: Option<String>)
    ensures
        optional_text(copy) == optional_text(*text),
{
    match text {
        Some(text) => Some(text.clone()),
        None => None,
    }
}

pub(crate) fn same_optional_text(first: &Option<String>, second: &Option<String>) -> (same: bool)
    ensures
        same == (optional_text(*first) == optional_text(*second)),
{
    match (first, second) {
        (Some(first), Some(second)) => *first == *second,
        (None, None) => true,
        _ => false,
    }
}

} // verus!
