//! Reading a size such as `10MB` or `1.5G`.
//!
//! A size is read in two steps. The first, here, takes the text apart: a
//! plain count of bytes is read in full, anything else is split into a number
//! and the multiplier of its unit. The second, scaling a number that may have
//! a fraction, is left to the caller.

use vstd::prelude::*;
use vstd::string::StrSliceExecFns;

verus! {

/// Why a size was not understood.
#[derive(Clone, Copy, Debug, PartialEq, Eq, Structural)]
pub enum SizeError {
    /// Nothing but whitespace.
    Empty,
    /// A unit with no number before it.
    NoNumber,
    /// A unit that is not one of B, K, M, G, T, P, with or without a B after it.
    UnknownSuffix,
}

/// Whether a character is whitespace: the characters that have the Unicode
/// property `White_Space`.
pub open spec fn white_space(c: char) -> bool {
    let code = c as u32;
    ||| 0x09 <= code <= 0x0D
    ||| code == 0x20
    ||| code == 0x85
    ||| code == 0xA0
    ||| code == 0x1680
    ||| 0x2000 <= code <= 0x200A
    ||| code == 0x2028
    ||| code == 0x2029
    ||| code == 0x202F
    ||| code == 0x205F
    ||| code == 0x3000
}

/// A text without the whitespace at its start.
pub open spec fn without_leading(text: Seq<char>) -> Seq<char>
    decreases text.len(),
{
    if text.len() > 0 && white_space(text[0]) {
        without_leading(text.drop_first())
    } else {
        text
    }
}

/// A text without the whitespace at its end.
pub open spec fn without_trailing(text: Seq<char>) -> Seq<char>
    decreases text.len(),
{
    if text.len() > 0 && white_space(text.last()) {
        without_trailing(text.drop_last())
    } else {
        text
    }
}

/// A text without the whitespace at its start and at its end.
pub open spec fn trimmed(text: Seq<char>) -> Seq<char> {
    without_trailing(without_leading(text))
}

/// Removes leading and trailing whitespace with `str::trim`, for which
/// whitespace is what has the Unicode property `White_Space`.
#[verifier::external_body]
pub(crate) fn trim<'a>(text: &'a str) -> (rest: &'a str)
    ensures
        rest@ == trimmed(text@),
{
    text.trim()
}

/// Whether `char::is_alphabetic` holds of a character: the Unicode property `Alphabetic`.
pub uninterp spec fn alphabetic(c: char) -> bool;

/// Asks `char::is_alphabetic`.
#[verifier::external_body]
pub(crate) fn is_alphabetic(c: char) -> (r: bool)
    ensures
        r == alphabetic(c),
{
    c.is_alphabetic()
}

/// What `str::to_uppercase` makes of a text.
pub uninterp spec fn uppercased(text: Seq<char>) -> Seq<char>;

/// Converts to upper case with `str::to_uppercase`.
#[verifier::external_body]
pub(crate) fn to_uppercase(text: &str) -> (upper: String)
    ensures
        upper@ == uppercased(text@),
{
    text.to_uppercase()
}

/// The value of a decimal digit.
pub open spec fn digit_value(c: char) -> Option<nat> {
    if 48 <= c as u32 <= 57 {
        Some((c as u32 - 48) as nat)
    } else {
        None
    }
}

/// The number that a run of decimal digits denotes; `None` where a character
/// is no digit.
pub open spec fn digits_value(digits: Seq<char>) -> Option<nat>
    decreases digits.len(),
{
    if digits.len() == 0 {
        Some(0)
    } else {
        match (digits_value(digits.drop_last()), digit_value(digits.last())) {
            (Some(value), Some(digit)) => Some(value * 10 + digit),
            _ => None,
        }
    }
}

/// A count of bytes written in full: an optional `+`, then at least one
/// decimal digit and nothing else, with a value that fits in `u64`.
pub open spec fn plain_bytes(text: Seq<char>) -> Option<u64> {
    let digits = if text.len() > 0 && text[0] == '+' {
        text.drop_first()
    } else {
        text
    };
    if digits.len() == 0 {
        None
    } else {
        within_u64(digits_value(digits))
    }
}

/// A number as a `u64`, where there is one and it fits.
pub open spec fn within_u64(value: Option<nat>) -> Option<u64> {
    match value {
        Some(value) => if value <= u64::MAX {
            Some(value as u64)
        } else {
            None
        },
        None => None,
    }
}

/// Where the unit begins: the index of the first alphabetic character, or
/// the length of the text where there is none.
pub open spec fn boundary(text: Seq<char>) -> nat
    decreases text.len(),
{
    if text.len() == 0 || alphabetic(text[0]) {
        0
    } else {
        1 + boundary(text.drop_first())
    }
}

pub const KIB: u64 = 1024;

pub const MIB: u64 = 1024 * 1024;

pub const GIB: u64 = 1024 * 1024 * 1024;

pub const TIB: u64 = 1024 * 1024 * 1024 * 1024;

pub const PIB: u64 = 1024 * 1024 * 1024 * 1024 * 1024;

/// The multiplier of a unit's letter.
pub open spec fn letter_multiplier(letter: char) -> Option<u64> {
    if letter == 'K' {
        Some(KIB)
    } else if letter == 'M' {
        Some(MIB)
    } else if letter == 'G' {
        Some(GIB)
    } else if letter == 'T' {
        Some(TIB)
    } else if letter == 'P' {
        Some(PIB)
    } else {
        None
    }
}

/// The multiplier of a unit in upper case: none or `B` for bytes, and `K`,
/// `M`, `G`, `T`, `P`, each with or without a `B` after it, for the powers of 1024.
pub open spec fn unit_multiplier(unit: Seq<char>) -> Option<u64> {
    if unit.len() == 0 {
        Some(1)
    } else if unit.len() == 1 {
        if unit[0] == 'B' {
            Some(1)
        } else {
            letter_multiplier(unit[0])
        }
    } else if unit.len() == 2 && unit[1] == 'B' {
        letter_multiplier(unit[0])
    } else {
        None
    }
}

/// A size as its text gives it.
pub enum Size {
    /// A count of bytes.
    Bytes(u64),
    /// A number, still as text, and the multiplier of its unit.
    Scaled { number: Seq<char>, multiplier: u64 },
}

/// A size taken apart.
#[derive(Debug)]
pub enum ParsedSize {
    /// A count of bytes, written in full.
    Bytes(u64),
    /// A number, which may have a fraction, to be multiplied by `multiplier`.
    Scaled { number: String, multiplier: u64 },
}

impl View for ParsedSize {
    type V = Size;

    open spec fn view(&self) -> Size {
        match self {
            ParsedSize::Bytes(bytes) => Size::Bytes(*bytes),
            ParsedSize::Scaled { number, multiplier } => Size::Scaled {
                number: number@,
                multiplier: *multiplier,
            },
        }
    }
}

/// What a text says as a size. Whitespace around it does not count. A plain
/// count of bytes stands for itself. Otherwise the text is split before its
/// first alphabetic character into a number, which must not be empty, and a
/// unit, which is read without regard to case.
pub open spec fn size_of_text(text: Seq<char>) -> Result<Size, SizeError> {
    let text = trimmed(text);
    if text.len() == 0 {
        Err(SizeError::Empty)
    } else if plain_bytes(text) is Some {
        Ok(Size::Bytes(plain_bytes(text)->0))
    } else if boundary(text) == 0 {
        Err(SizeError::NoNumber)
    } else {
        match unit_multiplier(uppercased(text.skip(boundary(text) as int))) {
            Some(multiplier) => Ok(
                Size::Scaled { number: text.take(boundary(text) as int), multiplier },
            ),
            None => Err(SizeError::UnknownSuffix),
        }
    }
}

/// Once a prefix of the digits denotes more than `u64` holds, so does the whole.
proof fn lemma_digits_grow(digits: Seq<char>, n: int)
    requires
        0 <= n <= digits.len(),
    ensures
        digits_value(digits.take(n)) is None ==> digits_value(digits) is None,
        digits_value(digits) matches Some(whole) ==> digits_value(digits.take(n))->0 <= whole,
    decreases digits.len() - n,
{
    if n == digits.len() {
        assert(digits.take(n) =~= digits);
    } else {
        lemma_digits_grow(digits, n + 1);
        assert(digits.take(n + 1).drop_last() =~= digits.take(n));
    }
}

/// Reads an optional `+` and a run of decimal digits as a `u64`.
pub fn parse_plain_bytes(text: &str) -> (bytes: Option<u64>)
    ensures
        bytes == plain_bytes(text@),
{
    let n: usize = text.unicode_len();
    let start: usize = if n > 0 && text.get_char(0) == '+' {
        1
    } else {
        0
    };
    if start == n {
        return None;
    }
    let ghost digits = text@.skip(start as int);
    proof {
        if start == 1 {
            assert(text@.drop_first() =~= digits);
        } else {
            assert(text@ =~= digits);
        }
    }
    let mut value: u64 = 0;
    let mut i: usize = start;
    while i < n
        invariant
            n == text@.len(),
            start <= i <= n,
            digits == text@.skip(start as int),
            plain_bytes(text@) == within_u64(digits_value(digits)),
            digits_value(digits.take(i - start)) == Some(value as nat),
        decreases n - i,
    {
        let c = text.get_char(i);
        let code: u32 = c as u32;
        proof {
            lemma_digits_grow(digits, i - start + 1);
            assert(digits.take(i - start + 1).drop_last() =~= digits.take(i - start));
            assert(digits.take(i - start + 1).last() == c);
        }
        if code < 48 || code > 57 {
            return None;
        }
        let digit: u64 = (code - 48) as u64;
        if value > (u64::MAX - digit) / 10 {
            return None;
        }
        value = value * 10 + digit;
        i = i + 1;
    }
    proof {
        assert(digits.take(n - start) =~= digits);
    }
    Some(value)
}

/// The boundary of a text lies at `b` where no character before `b` is
/// alphabetic and the one at `b`, if there is one, is.
proof fn lemma_boundary(text: Seq<char>, b: int)
    requires
        0 <= b <= text.len(),
        forall|i: int| 0 <= i < b ==> !alphabetic(#[trigger] text[i]),
        b < text.len() ==> alphabetic(text[b]),
    ensures
        boundary(text) == b,
    decreases text.len(),
{
    if b > 0 {
        let rest = text.drop_first();
        assert forall|i: int| 0 <= i < b - 1 implies !alphabetic(#[trigger] rest[i]) by {
            assert(rest[i] == text[i + 1]);
        }
        lemma_boundary(rest, b - 1);
    }
}

/// Finds where the unit of a size begins.
pub fn find_boundary(text: &str) -> (b: usize)
    ensures
        b == boundary(text@),
        b <= text@.len(),
{
    let n: usize = text.unicode_len();
    let mut i: usize = 0;
    while i < n
        invariant
            n == text@.len(),
            i <= n,
            forall|k: int| 0 <= k < i ==> !alphabetic(#[trigger] text@[k]),
        decreases n - i,
    {
        if is_alphabetic(text.get_char(i)) {
            proof {
                lemma_boundary(text@, i as int);
            }
            return i;
        }
        i = i + 1;
    }
    proof {
        lemma_boundary(text@, n as int);
    }
    n
}

fn multiplier_of_letter(letter: char) -> (multiplier: Option<u64>)
    ensures
        multiplier == letter_multiplier(letter),
{
    if letter == 'K' {
        Some(KIB)
    } else if letter == 'M' {
        Some(MIB)
    } else if letter == 'G' {
        Some(GIB)
    } else if letter == 'T' {
        Some(TIB)
    } else if letter == 'P' {
        Some(PIB)
    } else {
        None
    }
}

/// The multiplier of a unit that is already in upper case.
pub fn multiplier_of_unit(unit: &str) -> (multiplier: Option<u64>)
    ensures
        multiplier == unit_multiplier(unit@),
{
    let n: usize = unit.unicode_len();
    if n == 0 {
        Some(1)
    } else if n == 1 {
        let c = unit.get_char(0);
        if c == 'B' {
            Some(1)
        } else {
            multiplier_of_letter(c)
        }
    } else if n == 2 && unit.get_char(1) == 'B' {
        multiplier_of_letter(unit.get_char(0))
    } else {
        None
    }
}

/// Takes a size apart: see [`size_of_text`].
pub fn parse_size(s: &str) -> (parsed: Result<ParsedSize, SizeError>)
    ensures
        match parsed {
            Ok(size) => size_of_text(s@) == Ok::<Size, SizeError>(size@),
            Err(e) => size_of_text(s@) == Err::<Size, SizeError>(e),
        },
{
    let text = trim(s);
    let n: usize = text.unicode_len();
    if n == 0 {
        return Err(SizeError::Empty);
    }
    if let Some(bytes) = parse_plain_bytes(text) {
        return Ok(ParsedSize::Bytes(bytes));
    }
    let b = find_boundary(text);
    if b == 0 {
        return Err(SizeError::NoNumber);
    }
    let suffix = text.substring_char(b, n);
    let upper = to_uppercase(suffix);
    proof {
        assert(text@.skip(b as int) =~= text@.subrange(b as int, n as int));
        assert(text@.take(b as int) =~= text@.subrange(0, b as int));
    }
    match multiplier_of_unit(upper.as_str()) {
        Some(multiplier) => {
            let number = text.substring_char(0, b).to_owned();
            Ok(ParsedSize::Scaled { number, multiplier })
        },
        None => Err(SizeError::UnknownSuffix),
    }
}

} // verus!
