//! Text as the ledger holds it: blanks, decimal numbers, and how a number
//! is read from a field.

use vstd::prelude::*;
use vstd::string::*;

verus! {

/// `n` blanks.
pub open spec fn blanks(n: int) -> Seq<char> {
    Seq::new(
        if n > 0 {
            n as nat
        } else {
            0
        },
        |i: int| ' ',
    )
}

/// The character of a decimal digit.
pub open spec fn digit_char(digit: int) -> char {
    if digit == 0 {
        '0'
    } else if digit == 1 {
        '1'
    } else if digit == 2 {
        '2'
    } else if digit == 3 {
        '3'
    } else if digit == 4 {
        '4'
    } else if digit == 5 {
        '5'
    } else if digit == 6 {
        '6'
    } else if digit == 7 {
        '7'
    } else if digit == 8 {
        '8'
    } else {
        '9'
    }
}

/// The decimal digits of a number, without leading zeros.
pub open spec fn decimal(n: nat) -> Seq<char>
    decreases n,
{
    if n < 10 {
        seq![digit_char(n as int)]
    } else {
        decimal(n / 10).push(digit_char((n % 10) as int))
    }
}

/// A number at the right of `width` characters, after blanks; a number
/// with more digits takes the room that it needs.
pub open spec fn right_aligned(n: nat, width: int) -> Seq<char> {
    blanks(width - decimal(n).len()) + decimal(n)
}

/// Whether a character is white space.
pub open spec fn is_blank(c: char) -> bool {
    let code = c as u32;
    ||| 0x09 <= code <= 0x0d
    ||| code == 0x20
    ||| code == 0x85
    ||| code == 0xa0
    ||| code == 0x1680
    ||| 0x2000 <= code <= 0x200a
    ||| code == 0x2028
    ||| code == 0x2029
    ||| code == 0x202f
    ||| code == 0x205f
    ||| code == 0x3000
}

/// The place of the first character at or after `from` that is not white
/// space, or the length of the text where there is none.
pub open spec fn skip_blanks(text: Seq<char>, from: int) -> int
    decreases text.len() - from,
{
    if from < text.len() && is_blank(text[from]) {
        skip_blanks(text, from + 1)
    } else {
        from
    }
}

/// The place after the last character before `to` that is not white
/// space, or `from` where there is none from there on.
pub open spec fn drop_blanks(text: Seq<char>, from: int, to: int) -> int
    decreases to - from,
{
    if from < to && is_blank(text[to - 1]) {
        drop_blanks(text, from, to - 1)
    } else {
        to
    }
}

/// The text without the white space at its start and at its end.
pub open spec fn trimmed(text: Seq<char>) -> Seq<char> {
    let start = skip_blanks(text, 0);
    text.subrange(start, drop_blanks(text, start, text.len() as int))
}

/// Whether a character is a decimal digit.
pub open spec fn is_digit(c: char) -> bool {
    '0' <= c <= '9'
}

/// The number that a sequence of decimal digits stands for.
pub open spec fn digits_value(digits: Seq<char>) -> nat
    decreases digits.len(),
{
    if digits.len() == 0 {
        0
    } else {
        (digits_value(digits.drop_last()) * 10 + (digits.last() as u32 - '0' as u32)) as nat
    }
}

/// The number that a sequence of characters stands for if all of them are
/// decimal digits and there is at least one.
pub open spec fn digits_number(digits: Seq<char>) -> Option<nat> {
    if digits.len() > 0 && forall|i: int| 0 <= i < digits.len() ==> is_digit(#[trigger] digits[i]) {
        Some(digits_value(digits))
    } else {
        None
    }
}

/// The number that a text stands for: decimal digits, at least one, after
/// a `+` or after nothing. Any other text stands for no number.
pub open spec fn number(text: Seq<char>) -> Option<nat> {
    if text.len() > 0 && text[0] == '+' {
        digits_number(text.subrange(1, text.len() as int))
    } else {
        digits_number(text)
    }
}

/// Whether a character is white space.
pub(crate) fn blank(c: char) -> (yes: bool)
    ensures
        yes == is_blank(c),
{
    let code: u32 = c as u32;
    (0x09 <= code && code <= 0x0d) || code == 0x20 || code == 0x85 || code == 0xa0 || code
        == 0x1680 || (0x2000 <= code && code <= 0x200a) || code == 0x2028 || code == 0x2029
        || code == 0x202f || code == 0x205f || code == 0x3000
}

/// Reads the number that a text of at most three characters stands for
/// once the white space round it is taken away.
pub(crate) fn read_number(field: &str) -> (value: Option<u32>)
    requires
        field@.len() <= 3,
    ensures
        match value {
            Some(n) => number(trimmed(field@)) == Some(n as nat),
            None => number(trimmed(field@)) is None,
        },
{
    let length = field.unicode_len();
    let mut start: usize = 0;
    while start < length && blank(field.get_char(start))
        invariant
            start <= length == field@.len(),
            skip_blanks(field@, 0) == skip_blanks(field@, start as int),
        decreases length - start,
    {
        start += 1;
    }
    let mut end: usize = length;
    while start < end && blank(field.get_char(end - 1))
        invariant
            start <= end <= length == field@.len(),
            drop_blanks(field@, start as int, length as int) == drop_blanks(
                field@,
                start as int,
                end as int,
            ),
        decreases end - start,
    {
        end -= 1;
    }
    let ghost text = trimmed(field@);
    let first: usize = if start < end && field.get_char(start) == '+' {
        start + 1
    } else {
        start
    };
    let ghost digits = field@.subrange(first as int, end as int);
    assert(number(text) == digits_number(digits)) by {
        if text.len() > 0 && text[0] == '+' {
            assert(digits =~= text.subrange(1, text.len() as int));
        }
    }
    if first >= end {
        return None;
    }
    let mut value: u32 = 0;
    let mut i: usize = first;
    while i < end
        invariant
            first <= i <= end <= length == field@.len() <= 3,
            digits == field@.subrange(first as int, end as int),
            number(trimmed(field@)) == digits_number(digits),
            forall|j: int| 0 <= j < i - first ==> is_digit(#[trigger] digits[j]),
            value == digits_value(digits.subrange(0, i - first)),
            i - first == 0 ==> value == 0,
            i - first == 1 ==> value < 10,
            i - first == 2 ==> value < 100,
            value < 1000,
        decreases end - i,
    {
        let c = field.get_char(i);
        if c < '0' || c > '9' {
            assert(!is_digit(digits[i - first]));
            return None;
        }
        assert(digits.subrange(0, i - first + 1).drop_last() =~= digits.subrange(0, i - first));
        value = value * 10 + (c as u32 - '0' as u32);
        i += 1;
    }
    assert(digits.subrange(0, digits.len() as int) =~= digits);
    Some(value)
}

/// The text of one decimal digit.
pub(crate) fn digit_text(digit: u32) -> (text: &'static str)
    requires
        digit < 10,
    ensures
        text@ == seq![digit_char(digit as int)],
{
    proof {
        reveal_strlit("0");
        reveal_strlit("1");
        reveal_strlit("2");
        reveal_strlit("3");
        reveal_strlit("4");
        reveal_strlit("5");
        reveal_strlit("6");
        reveal_strlit("7");
        reveal_strlit("8");
        reveal_strlit("9");
    }
    let text = if digit == 0 {
        "0"
    } else if digit == 1 {
        "1"
    } else if digit == 2 {
        "2"
    } else if digit == 3 {
        "3"
    } else if digit == 4 {
        "4"
    } else if digit == 5 {
        "5"
    } else if digit == 6 {
        "6"
    } else if digit == 7 {
        "7"
    } else if digit == 8 {
        "8"
    } else {
        "9"
    };
    text
}

/// Adds the decimal digits of `n` to the end of `text`.
pub(crate) fn append_decimal(text: &mut String, n: u32)
    ensures
        final(text)@ == old(text)@ + decimal(n as nat),
    decreases n,
{
    if n >= 10 {
        append_decimal(text, n / 10);
    }
    text.append(digit_text(n % 10));
}

/// How many decimal digits a number has.
pub(crate) fn decimal_width(n: u32) -> (width: usize)
    ensures
        width == decimal(n as nat).len(),
        1 <= width <= 10,
        n < 1_000_000_000 ==> width <= 9,
        n < 100_000_000 ==> width <= 8,
        n < 10_000_000 ==> width <= 7,
        n < 1_000_000 ==> width <= 6,
        n < 100_000 ==> width <= 5,
        n < 10_000 ==> width <= 4,
        n < 1_000 ==> width <= 3,
        n < 100 ==> width <= 2,
        n < 10 ==> width <= 1,
    decreases n,
{
    if n < 10 {
        1
    } else {
        decimal_width(n / 10) + 1
    }
}

/// A number at the right of `width` characters.
pub(crate) fn right_aligned_text(n: u32, width: usize) -> (text: String)
    ensures
        text@ == right_aligned(n as nat, width as int),
{
    let digits = decimal_width(n);
    let mut text = String::new();
    if digits < width {
        append_blanks(&mut text, width - digits);
    }
    append_decimal(&mut text, n);
    text
}

/// Adds `n` blanks to the end of `text`.
pub(crate) fn append_blanks(text: &mut String, n: usize)
    ensures
        final(text)@ == old(text)@ + blanks(n as int),
{
    let mut i: usize = 0;
    while i < n
        invariant
            i <= n,
            text@ == old(text)@ + blanks(i as int),
        decreases n - i,
    {
        proof {
            reveal_strlit(" ");
        }
        text.append(" ");
        i += 1;
    }
}

/// A score of at most 999 has at most three digits, and a higher one has
/// more.
pub proof fn lemma_decimal_len(n: nat)
    ensures
        decimal(n).len() >= 1,
        n < 10 <==> decimal(n).len() == 1,
        10 <= n < 100 <==> decimal(n).len() == 2,
        100 <= n < 1000 <==> decimal(n).len() == 3,
    decreases n,
{
    if n >= 10 {
        lemma_decimal_len(n / 10);
    }
}

/// The character of a digit is a digit and stands for it.
proof fn lemma_digit_char(digit: int)
    requires
        0 <= digit <= 9,
    ensures
        is_digit(digit_char(digit)),
        digit_char(digit) as u32 - '0' as u32 == digit,
{
}

/// The digits of a number stand for that number.
pub proof fn lemma_decimal_value(n: nat)
    ensures
        digits_number(decimal(n)) == Some(n),
    decreases n,
{
    let digits = decimal(n);
    lemma_digit_char((n % 10) as int);
    if n >= 10 {
        let head = decimal(n / 10);
        lemma_decimal_value(n / 10);
        assert(digits.drop_last() =~= head);
        assert forall|i: int| 0 <= i < digits.len() implies is_digit(#[trigger] digits[i]) by {
            assert(i < head.len() ==> digits[i] == head[i]);
        }
    } else {
        reveal_with_fuel(digits_value, 2);
    }
}

} // verus!
