//! Decimal numbers as they stand in a vocabulary file and in token names.

use vstd::prelude::*;
use vstd::string::*;
use vstd::utf8::{encode_utf8, is_ascii_chars, is_ascii_chars_encode_utf8};

verus! {

/// Why a rank field is not a `u32`.
#[derive(Clone, Copy, Debug, PartialEq, Eq, Structural)]
pub enum RankError {
    /// The field is empty.
    Empty,
    /// The field holds something that is no decimal digit, or only a sign.
    InvalidDigit,
    /// The digits read so far already exceed `u32::MAX`.
    Overflow,
}

/// An ASCII digit.
pub open spec fn is_digit(byte: u8) -> bool {
    48 <= byte <= 57
}

/// Reads `digits[at..]` onto `acc`, most significant digit first. The first
/// byte that is no digit, or that carries the value past `u32::MAX`, decides
/// the error.
pub open spec fn read_digits(digits: Seq<u8>, at: int, acc: u32) -> Result<u32, RankError>
    decreases digits.len() - at,
{
    if at < 0 || at >= digits.len() {
        Ok(acc)
    } else if !is_digit(digits[at]) {
        Err(RankError::InvalidDigit)
    } else if acc * 10 + (digits[at] - 48) > u32::MAX {
        Err(RankError::Overflow)
    } else {
        read_digits(digits, at + 1, (acc * 10 + (digits[at] - 48)) as u32)
    }
}

/// The number a rank field denotes: an optional `+`, then at least one
/// decimal digit, the whole no larger than `u32::MAX`.
pub open spec fn rank_of(field: Seq<u8>) -> Result<u32, RankError> {
    if field.len() == 0 {
        Err(RankError::Empty)
    } else {
        let start: int = if field[0] == 43 { 1 } else { 0 };
        if start == field.len() {
            Err(RankError::InvalidDigit)
        } else {
            read_digits(field, start, 0)
        }
    }
}

/// Parses a rank field.
pub fn parse_rank(field: &[u8]) -> (rank: Result<u32, RankError>)
    ensures
        rank == rank_of(field@),
{
    if field.len() == 0 {
        return Err(RankError::Empty);
    }
    let start: usize = if field[0] == 43 { 1 } else { 0 };
    if start == field.len() {
        return Err(RankError::InvalidDigit);
    }
    let mut at: usize = start;
    let mut acc: u32 = 0;
    while at < field.len()
        invariant
            start <= at <= field.len(),
            read_digits(field@, at as int, acc) == rank_of(field@),
        decreases field.len() - at,
    {
        let byte: u8 = field[at];
        if byte < 48 || byte > 57 {
            return Err(RankError::InvalidDigit);
        }
        let digit: u32 = (byte - 48) as u32;
        if acc > (u32::MAX - digit) / 10 {
            return Err(RankError::Overflow);
        }
        acc = acc * 10 + digit;
        at = at + 1;
    }
    Ok(acc)
}

/// What is reported to the caller for each `RankError`.
pub open spec fn rank_error_text(error: RankError) -> Seq<char> {
    match error {
        RankError::Empty => "cannot parse integer from empty string"@,
        RankError::InvalidDigit => "invalid digit found in string"@,
        RankError::Overflow => "number too large to fit in target type"@,
    }
}

impl RankError {
    /// The text of this error.
    pub fn message(&self) -> (text: String)
        ensures
            text@ == rank_error_text(*self),
    {
        match self {
            RankError::Empty => String::from_str("cannot parse integer from empty string"),
            RankError::InvalidDigit => String::from_str("invalid digit found in string"),
            RankError::Overflow => String::from_str("number too large to fit in target type"),
        }
    }
}

/// The character of a digit.
pub open spec fn digit_char(digit: int) -> char {
    if digit == 0 {
        '0'
    } else if digit == 1 {
        '1'
    } else if digit == 2 {
        '2'
    } else if digit == 3 {
        '3'
    } else if digit == 4 {
        '4'
    } else if digit == 5 {
        '5'
    } else if digit == 6 {
        '6'
    } else if digit == 7 {
        '7'
    } else if digit == 8 {
        '8'
    } else {
        '9'
    }
}

/// `n` in decimal, without sign or leading zeros.
pub open spec fn decimal_text(n: nat) -> Seq<char>
    decreases n,
{
    if n < 10 {
        seq![digit_char(n as int)]
    } else {
        decimal_text(n / 10).push(digit_char((n % 10) as int))
    }
}

/// Whether a character is a decimal digit.
pub open spec fn is_digit_char(c: char) -> bool {
    c == '0' || c == '1' || c == '2' || c == '3' || c == '4' || c == '5' || c == '6' || c == '7'
        || c == '8' || c == '9'
}

/// A number in decimal has at least one digit, one exactly when it is below
/// ten, and nothing but digits.
pub proof fn lemma_decimal_text(n: nat)
    ensures
        decimal_text(n).len() >= 1,
        n < 10 <==> decimal_text(n).len() == 1,
        forall|k: int| 0 <= k < decimal_text(n).len() ==> is_digit_char(#[trigger] decimal_text(n)[k]),
    decreases n,
{
    if n >= 10 {
        lemma_decimal_text(n / 10);
    }
}

/// Two numbers that are written alike are one number.
pub proof fn lemma_decimal_text_injective(a: nat, b: nat)
    requires
        decimal_text(a) == decimal_text(b),
    ensures
        a == b,
    decreases a,
{
    lemma_decimal_text(a);
    lemma_decimal_text(b);
    if a < 10 {
        assert(b < 10);
        assert(decimal_text(a)[0] == digit_char(a as int));
        assert(decimal_text(b)[0] == digit_char(b as int));
    } else {
        assert(b >= 10);
        let head_a = decimal_text(a / 10);
        let head_b = decimal_text(b / 10);
        assert(decimal_text(a).last() == digit_char((a % 10) as int));
        assert(decimal_text(b).last() == digit_char((b % 10) as int));
        assert(decimal_text(a).drop_last() =~= head_a);
        assert(decimal_text(b).drop_last() =~= head_b);
        lemma_decimal_text_injective(a / 10, b / 10);
        assert(a % 10 == b % 10);
    }
}

/// The bytes of a number written in decimal: one byte for each digit.
proof fn lemma_decimal_bytes(n: nat)
    ensures
        encode_utf8(decimal_text(n)).len() == decimal_text(n).len(),
        forall|k: int|
            0 <= k < decimal_text(n).len() ==> is_digit(#[trigger] encode_utf8(decimal_text(n))[k]),
        n < 10 ==> encode_utf8(decimal_text(n)) == seq![(48 + n) as u8],
        n >= 10 ==> encode_utf8(decimal_text(n)) == encode_utf8(decimal_text(n / 10)).push(
            (48 + n % 10) as u8,
        ),
{
    lemma_decimal_text(n);
    let text = decimal_text(n);
    assert(is_ascii_chars(text));
    is_ascii_chars_encode_utf8(text);
    let bytes = encode_utf8(text);
    assert forall|k: int| 0 <= k < text.len() implies is_digit(#[trigger] bytes[k]) by {
        assert(is_digit_char(text[k]));
        assert(bytes[k] == text[k] as u8);
    }
    if n < 10 {
        assert(bytes[0] == digit_char(n as int) as u8);
        assert(bytes =~= seq![(48 + n) as u8]);
    } else {
        let head = decimal_text(n / 10);
        lemma_decimal_text(n / 10);
        assert(is_ascii_chars(head));
        is_ascii_chars_encode_utf8(head);
        assert(text.last() == digit_char((n % 10) as int));
        assert(bytes[text.len() - 1] == text[text.len() - 1] as u8);
        assert forall|k: int| 0 <= k < head.len() implies bytes[k] == encode_utf8(head)[k] by {
            assert(text[k] == head[k]);
            assert(bytes[k] == text[k] as u8);
            assert(encode_utf8(head)[k] == head[k] as u8);
        }
        assert(bytes =~= encode_utf8(head).push((48 + n % 10) as u8));
    }
}

/// Reading digits with one more digit behind them is reading them and then
/// the one more.
proof fn lemma_read_one_more(digits: Seq<u8>, last: u8, at: int, acc: u32)
    requires
        0 <= at <= digits.len(),
        is_digit(last),
    ensures
        read_digits(digits.push(last), at, acc) == match read_digits(digits, at, acc) {
            Err(error) => Err::<u32, RankError>(error),
            Ok(value) => if value * 10 + (last - 48) > u32::MAX {
                Err(RankError::Overflow)
            } else {
                Ok((value * 10 + (last - 48)) as u32)
            },
        },
    decreases digits.len() - at,
{
    let longer = digits.push(last);
    if at < digits.len() {
        assert(longer[at] == digits[at]);
        if is_digit(digits[at]) && acc * 10 + (digits[at] - 48) <= u32::MAX {
            lemma_read_one_more(digits, last, at + 1, (acc * 10 + (digits[at] - 48)) as u32);
        }
    } else {
        assert(longer[at] == last);
        assert(read_digits(digits, at, acc) == Ok::<u32, RankError>(acc));
        if acc * 10 + (last - 48) <= u32::MAX {
            assert(read_digits(longer, at + 1, (acc * 10 + (last - 48)) as u32) == Ok::<
                u32,
                RankError,
            >((acc * 10 + (last - 48)) as u32));
        }
    }
}

/// A number that is written in decimal is read back as itself.
pub proof fn law_written_numbers_are_read_back(n: nat)
    requires
        n <= u32::MAX,
    ensures
        rank_of(encode_utf8(decimal_text(n))) == Ok::<u32, RankError>(n as u32),
    decreases n,
{
    lemma_decimal_bytes(n);
    lemma_decimal_text(n);
    let bytes = encode_utf8(decimal_text(n));
    assert(is_digit(bytes[0]));
    if n < 10 {
        assert(read_digits(bytes, 1, n as u32) == Ok::<u32, RankError>(n as u32));
    } else {
        let head = encode_utf8(decimal_text(n / 10));
        law_written_numbers_are_read_back(n / 10);
        lemma_decimal_bytes(n / 10);
        lemma_decimal_text(n / 10);
        assert(is_digit(head[0]));
        lemma_read_one_more(head, (48 + n % 10) as u8, 0, 0);
    }
}

fn digit_text(digit: u32) -> (text: &'static str)
    requires
        digit < 10,
    ensures
        text@ == seq![digit_char(digit as int)],
{
    proof {
        reveal_strlit("0");
        reveal_strlit("1");
        reveal_strlit("2");
        reveal_strlit("3");
        reveal_strlit("4");
        reveal_strlit("5");
        reveal_strlit("6");
        reveal_strlit("7");
        reveal_strlit("8");
        reveal_strlit("9");
    }
    let text = if digit == 0 {
        "0"
    } else if digit == 1 {
        "1"
    } else if digit == 2 {
        "2"
    } else if digit == 3 {
        "3"
    } else if digit == 4 {
        "4"
    } else if digit == 5 {
        "5"
    } else if digit == 6 {
        "6"
    } else if digit == 7 {
        "7"
    } else if digit == 8 {
        "8"
    } else {
        "9"
    };
    assert(text@ =~= seq![digit_char(digit as int)]);
    text
}

/// Writes `n` in decimal.
pub fn format_decimal(n: u32) -> (text: String)
    ensures
        text@ == decimal_text(n as nat),
    decreases n,
{
    if n < 10 {
        String::from_str(digit_text(n))
    } else {
        let head = format_decimal(n / 10);
        let text = head.concat(digit_text(n % 10));
        assert(text@ =~= decimal_text(n as nat));
        text
    }
}

} // verus!
