//! Text out of raw bytes and UTF-16 units, as other programs and the system give it. What is no
//! text becomes replacement characters.

use vstd::prelude::*;

verus! {

/// The text of `bytes`, with replacement characters in place of what is no UTF-8.
pub uninterp spec fn lossy_text(bytes: Seq<u8>) -> Seq<char>;

/// Whether a unit is the first half of a pair.
pub open spec fn is_high(unit: u16) -> bool {
    0xd800 <= unit <= 0xdbff
}

/// Whether a unit is the second half of a pair.
pub open spec fn is_low(unit: u16) -> bool {
    0xdc00 <= unit <= 0xdfff
}

/// The character of a pair of halves.
pub open spec fn pair_char(high: u16, low: u16) -> char {
    (0x10000 + (high - 0xd800) * 0x400 + (low - 0xdc00)) as char
}

/// The text of `units`: a unit that is no half of a pair is a character, two halves in order are
/// one character, and a half that stands by itself becomes a replacement character.
pub open spec fn utf16_text(units: Seq<u16>) -> Seq<char>
    decreases units.len(),
{
    if units.len() == 0 {
        seq![]
    } else if !is_high(units[0]) && !is_low(units[0]) {
        seq![units[0] as char] + utf16_text(units.skip(1))
    } else if is_high(units[0]) && units.len() > 1 && is_low(units[1]) {
        seq![pair_char(units[0], units[1])] + utf16_text(units.skip(2))
    } else {
        seq!['\u{fffd}'] + utf16_text(units.skip(1))
    }
}

/// The units of a character.
pub open spec fn char_units(c: char) -> Seq<u16> {
    let n = c as int;
    if n < 0x10000 {
        seq![n as u16]
    } else {
        seq![
            (0xd800 + (n - 0x10000) / 0x400) as u16,
            (0xdc00 + (n - 0x10000) % 0x400) as u16,
        ]
    }
}

/// The units of a text.
pub open spec fn utf16_units(text: Seq<char>) -> Seq<u16>
    decreases text.len(),
{
    if text.len() == 0 {
        seq![]
    } else {
        char_units(text[0]) + utf16_units(text.skip(1))
    }
}

proof fn lemma_char_is_read_back(c: char, rest: Seq<u16>)
    ensures
        utf16_text(char_units(c) + rest) == seq![c] + utf16_text(rest),
{
    let n = c as int;
    let own = char_units(c);
    let units = own + rest;
    assert(units.skip(own.len() as int) =~= rest);
    assert(units[0] == own[0]);
    if n < 0x10000 {
        assert(units[0] as char == c);
    } else {
        assert(units[1] == own[1]);
        assert(pair_char(own[0], own[1]) == c);
    }
}

/// A text that is written as UTF-16 is read back as it was.
pub proof fn law_utf16_is_read_back(text: Seq<char>)
    ensures
        utf16_text(utf16_units(text)) == text,
    decreases text.len(),
{
    if text.len() > 0 {
        lemma_char_is_read_back(text[0], utf16_units(text.skip(1)));
        law_utf16_is_read_back(text.skip(1));
    }
    assert(utf16_text(utf16_units(text)) =~= text);
}

/// `String::from_utf8_lossy`. Claimed of it: its result depends on the bytes alone, and is the
/// text that they encode where they are UTF-8. Where they are not, how many replacement
/// characters come, and where, is left unsaid.
#[verifier::external_body]
pub(crate) fn read_text(bytes: &[u8]) -> (r: String)
    ensures
        r@ == lossy_text(bytes@),
        vstd::utf8::valid_utf8(bytes@) ==> r@ == vstd::utf8::decode_utf8(bytes@),
{
    String::from_utf8_lossy(bytes).into_owned()
}

/// `String::from_utf16_lossy`. Claimed of it: its result is the text of the units, with a
/// replacement character for each half of a pair that stands by itself.
#[verifier::external_body]
pub(crate) fn read_utf16(units: &[u16]) -> (r: String)
    ensures
        r@ == utf16_text(units@),
{
    String::from_utf16_lossy(units)
}

/// A half of a pair that stands by itself becomes one replacement character, and takes nothing of
/// what follows along.
pub proof fn law_lone_halves(half: u16, rest: Seq<u16>)
    ensures
        0xdc00 <= half <= 0xdfff ==> utf16_text(seq![half] + rest) == seq!['\u{fffd}']
            + utf16_text(rest),
        0xd800 <= half <= 0xdbff && (rest.len() == 0 || !(0xdc00 <= rest[0] <= 0xdfff))
            ==> utf16_text(seq![half] + rest) == seq!['\u{fffd}'] + utf16_text(rest),
        !(0xd800 <= half <= 0xdfff) ==> utf16_text(seq![half] + rest) == seq![half as char]
            + utf16_text(rest),
{
    let units = seq![half] + rest;
    assert(units.skip(1) =~= rest);
    assert(units[0] == half);
    if rest.len() > 0 {
        assert(units[1] == rest[0]);
    }
}

} // verus!
