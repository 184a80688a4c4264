//! The texts that are numbers: an optional sign, then `inf`, `infinity` or
//! `nan` in any case, or digits with at most one point among them and an
//! optional exponent.

use vstd::prelude::*;
use crate::text::characters;

verus! {

/// Whether a character is a decimal digit.
pub open spec fn is_digit(c: char) -> bool {
    c == '0' || c == '1' || c == '2' || c == '3' || c == '4' || c == '5' || c == '6' || c == '7'
        || c == '8' || c == '9'
}

/// Whether a character is a sign.
pub open spec fn is_sign(c: char) -> bool {
    c == '+' || c == '-'
}

/// The end of the run of digits that begins at `from`: the place of the
/// first character at or behind `from` that is no digit.
pub open spec fn digits_end(text: Seq<char>, from: int) -> int
    decreases text.len() - from,
{
    if 0 <= from < text.len() && is_digit(text[from]) {
        digits_end(text, from + 1)
    } else {
        from
    }
}

/// A letter of the words `inf`, `infinity` and `nan` in lower case; any
/// other character as it is.
pub open spec fn folded(c: char) -> char {
    if c == 'I' {
        'i'
    } else if c == 'N' {
        'n'
    } else if c == 'F' {
        'f'
    } else if c == 'T' {
        't'
    } else if c == 'Y' {
        'y'
    } else if c == 'A' {
        'a'
    } else {
        c
    }
}

/// Whether the text from `start` on is the given word, in any case.
pub open spec fn is_word(text: Seq<char>, start: int, word: Seq<char>) -> bool {
    &&& text.len() - start == word.len()
    &&& forall|i: int| 0 <= i < word.len() ==> folded(#[trigger] text[start + i]) == word[i]
}

/// Whether the text from `at` on is an exponent: `e` or `E`, an optional
/// sign, and one digit or more.
pub open spec fn is_exponent(text: Seq<char>, at: int) -> bool {
    &&& at + 1 < text.len()
    &&& (text[at] == 'e' || text[at] == 'E')
    &&& {
        let start = if is_sign(text[at + 1]) {
            at + 2
        } else {
            at + 1
        };
        start < text.len() && digits_end(text, start) == text.len()
    }
}

/// Whether the text from `start` on is a number in digits: digits with at
/// most one point before, among or behind them, then nothing or an exponent.
pub open spec fn is_decimal(text: Seq<char>, start: int) -> bool {
    let whole_end = digits_end(text, start);
    let fraction_start = if whole_end < text.len() && text[whole_end] == '.' {
        whole_end + 1
    } else {
        whole_end
    };
    let fraction_end = digits_end(text, fraction_start);
    &&& (whole_end - start) + (fraction_end - fraction_start) >= 1
    &&& (fraction_end == text.len() || is_exponent(text, fraction_end))
}

/// Whether the text is a number.
pub open spec fn is_numeric(text: Seq<char>) -> bool {
    let start: int = if text.len() > 0 && is_sign(text[0]) {
        1
    } else {
        0
    };
    is_word(text, start, "inf"@) || is_word(text, start, "infinity"@) || is_word(
        text,
        start,
        "nan"@,
    ) || is_decimal(text, start)
}

/// Whether a character is a decimal digit.
fn digit(c: char) -> (yes: bool)
    ensures
        yes == is_digit(c),
{
    c == '0' || c == '1' || c == '2' || c == '3' || c == '4' || c == '5' || c == '6' || c == '7'
        || c == '8' || c == '9'
}

/// A letter of the three words in lower case; any other character as it is.
fn fold(c: char) -> (lower: char)
    ensures
        lower == folded(c),
{
    if c == 'I' {
        'i'
    } else if c == 'N' {
        'n'
    } else if c == 'F' {
        'f'
    } else if c == 'T' {
        't'
    } else if c == 'Y' {
        'y'
    } else if c == 'A' {
        'a'
    } else {
        c
    }
}

/// The end of the run of digits that begins at `from`.
fn run_end(text: &Vec<char>, from: usize) -> (end: usize)
    requires
        from <= text.len(),
    ensures
        end == digits_end(text@, from as int),
        from <= end <= text.len(),
{
    let mut i: usize = from;
    while i < text.len() && digit(text[i])
        invariant
            from <= i <= text.len(),
            digits_end(text@, from as int) == digits_end(text@, i as int),
        decreases text.len() - i,
    {
        i = i + 1;
    }
    i
}

/// Whether the text from `start` on is the given word, in any case.
fn word_at(text: &Vec<char>, start: usize, word: &str) -> (yes: bool)
    requires
        start <= text.len(),
    ensures
        yes == is_word(text@, start as int, word@),
{
    let letters = characters(word);
    if text.len() - start != letters.len() {
        return false;
    }
    let mut i: usize = 0;
    while i < letters.len()
        invariant
            i <= letters.len(),
            start <= text.len(),
            text.len() - start == letters.len(),
            letters@ == word@,
            forall|k: int| 0 <= k < i ==> folded(#[trigger] text@[start + k]) == word@[k],
        decreases letters.len() - i,
    {
        if fold(text[start + i]) != letters[i] {
            return false;
        }
        i = i + 1;
    }
    true
}

/// Whether the text from `at` on is an exponent.
fn exponent_at(text: &Vec<char>, at: usize) -> (yes: bool)
    requires
        at <= text.len(),
    ensures
        yes == is_exponent(text@, at as int),
{
    if text.len() - at < 2 {
        return false;
    }
    if text[at] != 'e' && text[at] != 'E' {
        return false;
    }
    let sign = text[at + 1];
    let start = if sign == '+' || sign == '-' {
        at + 2
    } else {
        at + 1
    };
    if start >= text.len() {
        return false;
    }
    run_end(text, start) == text.len()
}

/// Whether the text from `start` on is a number in digits.
fn decimal_at(text: &Vec<char>, start: usize) -> (yes: bool)
    requires
        start <= text.len(),
    ensures
        yes == is_decimal(text@, start as int),
{
    let whole_end = run_end(text, start);
    let fraction_start = if whole_end < text.len() && text[whole_end] == '.' {
        whole_end + 1
    } else {
        whole_end
    };
    let fraction_end = run_end(text, fraction_start);
    if (whole_end - start) + (fraction_end - fraction_start) < 1 {
        return false;
    }
    fraction_end == text.len() || exponent_at(text, fraction_end)
}

/// Whether the text is a number.
pub fn is_number(text: &str) -> (yes: bool)
    ensures
        yes == is_numeric(text@),
{
    let chars = characters(text);
    let start: usize = if chars.len() > 0 && (chars[0] == '+' || chars[0] == '-') {
        1
    } else {
        0
    };
    word_at(&chars, start, "inf") || word_at(&chars, start, "infinity") || word_at(
        &chars,
        start,
        "nan",
    ) || decimal_at(&chars, start)
}

} // verus!
