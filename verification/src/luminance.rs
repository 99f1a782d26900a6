//! The luminance controller: the brightness that a fetched state asks for.
//!
//! The state is read as a decimal number: an optional sign, digits, and
//! optionally a point and more digits, with at least one digit in all. The
//! number is cut off at the point and brought into the display's range, so
//! that anything negative is 0 and anything above 255 is 255. A state that is
//! no such number, or a fetch that failed, asks for nothing: the display keeps
//! the brightness it has.

use vstd::prelude::*;
use vstd::string::StringSliceAdditionalSpecFns;
use crate::error::RequestError;
use crate::render::fetched_state;

verus! {

/// Byte of the character `0`.
pub const DIGIT_ZERO: u8 = 0x30;

/// Byte of the character `9`.
pub const DIGIT_NINE: u8 = 0x39;

/// Byte of the character `+`.
pub const PLUS: u8 = 0x2B;

/// Byte of the character `-`.
pub const MINUS: u8 = 0x2D;

/// Byte of the character `.`.
pub const POINT: u8 = 0x2E;

/// The brightest level that the display accepts.
pub const MAX_LEVEL: u8 = 255;

/// Whether a byte is a decimal digit.
pub open spec fn is_digit(byte: u8) -> bool {
    DIGIT_ZERO <= byte <= DIGIT_NINE
}

/// Whether every byte is a decimal digit.
pub open spec fn all_digits(text: Seq<u8>) -> bool {
    forall|i: int| 0 <= i < text.len() ==> is_digit(#[trigger] text[i])
}

/// Number of decimal digits that a text starts with.
pub open spec fn digit_run(text: Seq<u8>) -> nat
    decreases text.len(),
{
    if text.len() > 0 && is_digit(text[0]) {
        1 + digit_run(text.drop_first())
    } else {
        0
    }
}

/// The number that a sequence of decimal digits writes.
pub open spec fn digits_value(digits: Seq<u8>) -> nat
    decreases digits.len(),
{
    if digits.len() == 0 {
        0
    } else {
        10 * digits_value(digits.drop_last()) + (digits.last() - DIGIT_ZERO) as nat
    }
}

/// A number brought into the display's range: 255 for anything above it.
pub open spec fn clamp_level(value: nat) -> u8 {
    if value >= MAX_LEVEL {
        MAX_LEVEL
    } else {
        value as u8
    }
}

/// Whether a text starts with a sign.
pub open spec fn has_sign(text: Seq<u8>) -> bool {
    text.len() > 0 && (text[0] == PLUS || text[0] == MINUS)
}

/// Whether a text starts with a minus sign.
pub open spec fn is_negative(text: Seq<u8>) -> bool {
    text.len() > 0 && text[0] == MINUS
}

/// The text behind its sign, if it has one.
pub open spec fn magnitude(text: Seq<u8>) -> Seq<u8> {
    if has_sign(text) {
        text.drop_first()
    } else {
        text
    }
}

/// The digits before the point.
pub open spec fn whole_part(text: Seq<u8>) -> Seq<u8> {
    magnitude(text).take(digit_run(magnitude(text)) as int)
}

/// What follows the digits before the point: nothing, or the point and the
/// fraction.
pub open spec fn tail_part(text: Seq<u8>) -> Seq<u8> {
    magnitude(text).skip(digit_run(magnitude(text)) as int)
}

/// Whether a text is a decimal number: an optional sign, digits, optionally a
/// point and digits, and at least one digit in all.
pub open spec fn is_decimal(text: Seq<u8>) -> bool {
    let tail = tail_part(text);
    if tail.len() == 0 {
        whole_part(text).len() >= 1
    } else {
        tail[0] == POINT && all_digits(tail.drop_first()) && whole_part(text).len() + tail.len()
            >= 2
    }
}

/// The level that a text asks for: its number cut off at the point and
/// brought into the range from 0 to 255; nothing for a text that is no
/// decimal number.
pub open spec fn luminance_level(text: Seq<u8>) -> Option<u8> {
    if !is_decimal(text) {
        None
    } else if is_negative(text) {
        Some(0u8)
    } else {
        Some(clamp_level(digits_value(whole_part(text))))
    }
}

/// The level that the outcome of a fetch asks for: that of the state text,
/// and nothing after a failed fetch.
pub open spec fn requested_level(state: Option<Seq<char>>) -> Option<u8> {
    match state {
        Some(text) => luminance_level(vstd::utf8::encode_utf8(text)),
        None => None,
    }
}

/// The digit run of a text ends at `count` if the first `count` bytes are
/// digits and the next one, if there is one, is not.
proof fn lemma_digit_run_is(text: Seq<u8>, count: nat)
    requires
        count <= text.len(),
        forall|i: int| 0 <= i < count ==> is_digit(#[trigger] text[i]),
        count < text.len() ==> !is_digit(text[count as int]),
    ensures
        digit_run(text) == count,
    decreases count,
{
    if count > 0 {
        let rest = text.drop_first();
        assert forall|i: int| 0 <= i < count - 1 implies is_digit(#[trigger] rest[i]) by {
            assert(rest[i] == text[i + 1]);
        }
        lemma_digit_run_is(rest, (count - 1) as nat);
    }
}

fn digit_at(bytes: &[u8], index: usize) -> (digit: bool)
    requires
        index < bytes@.len(),
    ensures
        digit == is_digit(bytes@[index as int]),
{
    DIGIT_ZERO <= bytes[index] && bytes[index] <= DIGIT_NINE
}

/// Reads the digits from `start` on: where they end, and the number they
/// write, which is 255 where it is more than that.
fn scan_digits(bytes: &[u8], start: usize) -> (scanned: (usize, u8))
    requires
        start <= bytes@.len(),
    ensures
        start <= scanned.0 <= bytes@.len(),
        scanned.0 - start == digit_run(bytes@.skip(start as int)),
        scanned.1 == clamp_level(digits_value(bytes@.subrange(start as int, scanned.0 as int))),
{
    let length: usize = bytes.len();
    let mut index: usize = start;
    let mut level: u8 = 0;
    while index < length && digit_at(bytes, index)
        invariant
            length == bytes@.len(),
            start <= index <= length,
            forall|i: int| start <= i < index ==> is_digit(#[trigger] bytes@[i]),
            level == clamp_level(digits_value(bytes@.subrange(start as int, index as int))),
        decreases length - index,
    {
        let digit: u8 = bytes[index] - DIGIT_ZERO;
        proof {
            let longer = bytes@.subrange(start as int, index as int + 1);
            assert(longer.drop_last() =~= bytes@.subrange(start as int, index as int));
            assert(longer.last() == bytes@[index as int]);
        }
        level = if level > 25 || (level == 25 && digit >= 5) {
            MAX_LEVEL
        } else {
            level * 10 + digit
        };
        index += 1;
    }
    proof {
        let rest = bytes@.skip(start as int);
        assert forall|i: int| 0 <= i < index - start implies is_digit(#[trigger] rest[i]) by {
            assert(rest[i] == bytes@[start + i]);
        }
        lemma_digit_run_is(rest, (index - start) as nat);
    }
    (index, level)
}

/// Whether all bytes from `start` on are digits.
fn digits_to_end(bytes: &[u8], start: usize) -> (digits: bool)
    requires
        start <= bytes@.len(),
    ensures
        digits == all_digits(bytes@.skip(start as int)),
{
    let length: usize = bytes.len();
    let mut index: usize = start;
    while index < length
        invariant
            length == bytes@.len(),
            start <= index <= length,
            forall|i: int| start <= i < index ==> is_digit(#[trigger] bytes@[i]),
        decreases length - index,
    {
        if !digit_at(bytes, index) {
            assert(bytes@.skip(start as int)[index - start] == bytes@[index as int]);
            return false;
        }
        index += 1;
    }
    assert forall|i: int| 0 <= i < bytes@.skip(start as int).len() implies is_digit(
        #[trigger] bytes@.skip(start as int)[i],
    ) by {
        assert(bytes@.skip(start as int)[i] == bytes@[start + i]);
    }
    true
}

/// Reads the level that a state text asks for.
pub fn parse_level(text: &str) -> (level: Option<u8>)
    ensures
        level == luminance_level(text.spec_bytes()),
{
    let bytes: &[u8] = text.as_bytes();
    let length: usize = bytes.len();
    let negative: bool = length > 0 && bytes[0] == MINUS;
    let start: usize = if length > 0 && (bytes[0] == PLUS || bytes[0] == MINUS) {
        1
    } else {
        0
    };
    assert(magnitude(bytes@) =~= bytes@.skip(start as int));
    let (whole_end, level) = scan_digits(bytes, start);
    proof {
        assert(whole_part(bytes@) =~= bytes@.subrange(start as int, whole_end as int));
        assert(tail_part(bytes@) =~= bytes@.skip(whole_end as int));
    }
    if whole_end < length {
        assert(tail_part(bytes@).drop_first() =~= bytes@.skip(whole_end as int + 1));
        if bytes[whole_end] != POINT || !digits_to_end(bytes, whole_end + 1) || length - start
            < 2 {
            return None;
        }
    } else if whole_end == start {
        return None;
    }
    if negative {
        Some(0)
    } else {
        Some(level)
    }
}

/// The brightness of the display, as the controller last set it.
#[derive(Clone, Copy, Debug, PartialEq, Eq)]
pub struct Brightness {
    pub level: u8,
}

impl Brightness {
    /// The controller before the first refresh: the display is at the level
    /// that it was set to at startup.
    pub fn new(default_level: u8) -> (brightness: Self)
        ensures
            brightness.level == default_level,
    {
        Brightness { level: default_level }
    }

    /// Takes in the outcome of fetching the luminance source and returns the
    /// level to set the display to, if any.
    ///
    /// A state that reads as a decimal number sets its level. A failed fetch
    /// and a state that is no number set nothing, and the brightness stays as
    /// it is.
    pub fn update(&mut self, fetched: &Result<&str, RequestError>) -> (command: Option<u8>)
        ensures
            command == requested_level(fetched_state(fetched)),
            final(self).level == level_after(old(self).level, command),
            fetched is Err ==> command is None && final(self).level == old(self).level,
    {
        match fetched {
            Ok(state) => {
                let requested: Option<u8> = parse_level(state);
                if let Some(level) = requested {
                    self.level = level;
                }
                requested
            },
            Err(_) => None,
        }
    }
}

/// The brightness of the display after a command: the level set, or the level
/// before where nothing was set.
pub open spec fn level_after(before: u8, command: Option<u8>) -> u8 {
    match command {
        Some(level) => level,
        None => before,
    }
}

} // verus!
