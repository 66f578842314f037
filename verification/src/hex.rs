//! Hexadecimal text.

use vstd::prelude::*;
use crate::text_chars::text_of_chars;

verus! {

/// A hexadecimal digit, in lower case.
pub open spec fn hex_digit(value: nat) -> char {
    if value < 10 {
        (0x30 + value) as char
    } else {
        (0x57 + value) as char
    }
}

/// Whether a character is a hexadecimal digit in lower case.
pub open spec fn is_hex_digit(c: char) -> bool {
    '0' <= c <= '9' || 'a' <= c <= 'f'
}

/// Two digits for each byte.
pub open spec fn hex_text(bytes: Seq<u8>) -> Seq<char> {
    Seq::new(
        2 * bytes.len(),
        |i: int|
            if i % 2 == 0 {
                hex_digit((bytes[i / 2] / 16) as nat)
            } else {
                hex_digit((bytes[i / 2] % 16) as nat)
            },
    )
}

fn digit_of(value: u8) -> (digit: char)
    requires
        value < 16,
    ensures
        digit == hex_digit(value as nat),
{
    if value < 10 {
        (0x30 + value) as char
    } else {
        (0x57 + value) as char
    }
}

/// The bytes as hexadecimal text.
pub(crate) fn hex(bytes: &[u8]) -> (text: String)
    ensures
        text@ == hex_text(bytes@),
{
    let mut chars: Vec<char> = Vec::new();
    let count: usize = bytes.len();
    for i in 0..count
        invariant
            count == bytes@.len(),
            chars@ == hex_text(bytes@.take(i as int)),
    {
        let ghost before = chars@;
        chars.push(digit_of(bytes[i] / 16));
        chars.push(digit_of(bytes[i] % 16));
        let ghost more = bytes@.take(i as int + 1);
        assert forall|j: int| 0 <= j < chars@.len() implies #[trigger] chars@[j] == hex_text(
            more,
        )[j] by {
            if j < 2 * i {
                assert(before[j] == hex_text(bytes@.take(i as int))[j]);
                assert(more[j / 2] == bytes@.take(i as int)[j / 2]);
            }
        }
        assert(chars@ =~= hex_text(more));
    }
    assert(bytes@.take(bytes@.len() as int) =~= bytes@);
    text_of_chars(&chars)
}

/// Different bytes have different texts.
pub proof fn law_hex_is_injective(first: Seq<u8>, second: Seq<u8>)
    requires
        hex_text(first) == hex_text(second),
    ensures
        first == second,
{
    assert(hex_text(first).len() == 2 * first.len());
    assert(hex_text(second).len() == 2 * second.len());
    assert forall|i: int| 0 <= i < first.len() implies first[i] == second[i] by {
        let even = 2 * i;
        let odd = 2 * i + 1;
        assert(even / 2 == i && even % 2 == 0 && odd / 2 == i && odd % 2 == 1);
        assert(hex_text(first)[even] == hex_digit((first[i] / 16) as nat));
        assert(hex_text(second)[even] == hex_digit((second[i] / 16) as nat));
        assert(hex_text(first)[odd] == hex_digit((first[i] % 16) as nat));
        assert(hex_text(second)[odd] == hex_digit((second[i] % 16) as nat));
        lemma_digit_is_injective((first[i] / 16) as nat, (second[i] / 16) as nat);
        lemma_digit_is_injective((first[i] % 16) as nat, (second[i] % 16) as nat);
        assert(first[i] as int == 16 * (first[i] / 16) + first[i] % 16);
        assert(second[i] as int == 16 * (second[i] / 16) + second[i] % 16);
    }
    assert(first =~= second);
}

pub(crate) proof fn lemma_hex_digits(bytes: Seq<u8>, at: int)
    requires
        0 <= at < 2 * bytes.len(),
    ensures
        is_hex_digit(hex_text(bytes)[at]),
{
    let byte = bytes[at / 2];
    assert(byte / 16 < 16 && byte % 16 < 16);
}

proof fn lemma_digit_is_injective(first: nat, second: nat)
    requires
        first < 16,
        second < 16,
        hex_digit(first) == hex_digit(second),
    ensures
        first == second,
{
    assert(hex_digit(first) as u32 == hex_digit(second) as u32);
}

} // verus!
