//! Unsigned decimal text: the number that a text denotes, and the text of a number.
//!
//! A decimal text is an optional `+` followed by one or more ASCII digits. Nothing
//! else is accepted: no minus sign, no blanks, no separators.

use vstd::prelude::*;

verus! {

/// Whether `c` is one of the ten ASCII digits.
pub open spec fn is_digit(c: char) -> bool {
    '0' as u32 <= c as u32 <= '9' as u32
}

/// The number that the digit `c` stands for.
pub open spec fn digit_value(c: char) -> nat
    recommends
        is_digit(c),
{
    (c as u32 - '0' as u32) as nat
}

/// The digit that stands for `d`.
pub open spec fn digit_char(d: nat) -> char
    recommends
        d < 10,
{
    if d == 0 {
        '0'
    } else if d == 1 {
        '1'
    } else if d == 2 {
        '2'
    } else if d == 3 {
        '3'
    } else if d == 4 {
        '4'
    } else if d == 5 {
        '5'
    } else if d == 6 {
        '6'
    } else if d == 7 {
        '7'
    } else if d == 8 {
        '8'
    } else {
        '9'
    }
}

/// Whether every character of `s` is a digit.
pub open spec fn all_digits(s: Seq<char>) -> bool {
    forall|i: int| 0 <= i < s.len() ==> is_digit(#[trigger] s[i])
}

/// The number that a run of digits denotes, most significant digit first.
pub open spec fn digits_value(digits: Seq<char>) -> nat
    decreases digits.len(),
{
    if digits.len() == 0 {
        0
    } else {
        digits_value(digits.drop_last()) * 10 + digit_value(digits.last())
    }
}

/// The digits of a decimal text: the text without its leading `+`, if it has one.
pub open spec fn unsigned_part(text: Seq<char>) -> Seq<char> {
    if text.len() > 0 && text[0] == '+' {
        text.drop_first()
    } else {
        text
    }
}

/// Whether `text` is a decimal text: an optional `+`, then at least one digit and
/// nothing but digits.
pub open spec fn is_decimal(text: Seq<char>) -> bool {
    unsigned_part(text).len() > 0 && all_digits(unsigned_part(text))
}

/// The number that `text` denotes, if `text` is a decimal text and the number fits
/// in 64 bits.
pub open spec fn decimal_u64(text: Seq<char>) -> Option<u64> {
    if is_decimal(text) && digits_value(unsigned_part(text)) <= u64::MAX {
        Some(digits_value(unsigned_part(text)) as u64)
    } else {
        None
    }
}

/// The decimal text of `n`: its digits, most significant first, without a sign and
/// without leading zeros.
pub open spec fn decimal_text(n: nat) -> Seq<char>
    decreases n,
{
    if n < 10 {
        seq![digit_char(n)]
    } else {
        decimal_text(n / 10).push(digit_char(n % 10))
    }
}

/// Appending a character to a run of digits multiplies its value by ten and adds
/// the character's value.
pub proof fn lemma_digits_value_push(digits: Seq<char>, c: char)
    ensures
        digits_value(digits.push(c)) == digits_value(digits) * 10 + digit_value(c),
{
    assert(digits.push(c).drop_last() =~= digits);
}

/// A run of digits denotes at least as much as each of its prefixes.
pub proof fn lemma_digits_value_prefix(digits: Seq<char>, k: int)
    requires
        0 <= k <= digits.len(),
    ensures
        digits_value(digits.take(k)) <= digits_value(digits),
    decreases digits.len(),
{
    if k == digits.len() {
        assert(digits.take(k) =~= digits);
    } else {
        lemma_digits_value_prefix(digits.drop_last(), k);
        assert(digits.drop_last().take(k) =~= digits.take(k));
    }
}

/// The decimal text of a number is a decimal text, and it denotes that number.
pub proof fn lemma_decimal_text_denotes(n: nat)
    ensures
        decimal_text(n).len() > 0,
        all_digits(decimal_text(n)),
        decimal_text(n)[0] != '+',
        digits_value(decimal_text(n)) == n,
    decreases n,
{
    if n < 10 {
        let text = seq![digit_char(n)];
        assert(text.drop_last() =~= Seq::<char>::empty());
        assert(digits_value(text.drop_last()) == 0);
    } else {
        lemma_decimal_text_denotes(n / 10);
        lemma_digits_value_push(decimal_text(n / 10), digit_char(n % 10));
    }
}

/// Reading back the decimal text of a 64-bit number gives that number.
pub proof fn lemma_decimal_round_trip(n: u64)
    ensures
        decimal_u64(decimal_text(n as nat)) == Some(n),
{
    lemma_decimal_text_denotes(n as nat);
}

/// Where the digits of a text start: behind the sign, if it has one.
spec fn digits_start(signed: bool) -> int {
    if signed {
        1
    } else {
        0
    }
}

/// Reads `text` as an unsigned decimal number of 64 bits.
///
/// The result is `None` when `text` is empty, is a lone `+`, holds anything but
/// digits after the optional `+`, or denotes a number above `u64::MAX`.
pub fn parse_u64(text: &str) -> (parsed: Option<u64>)
    ensures
        parsed == decimal_u64(text@),
{
    let mut value: u64 = 0;
    let mut at_start = true;
    let mut signed = false;
    let mut any_digit = false;
    for c in it: text.chars()
        invariant
            it.seq() == text@,
            at_start <==> it.index() == 0,
            signed <==> (it.index() > 0 && text@[0] == '+'),
            any_digit <==> it.index() > digits_start(signed),
            all_digits(text@.subrange(digits_start(signed), it.index() as int)),
            value == digits_value(text@.subrange(digits_start(signed), it.index() as int)),
    {
        let ghost start = digits_start(signed);
        let ghost at = it.index() as int;
        if at_start && c == '+' {
            signed = true;
            at_start = false;
            assert(text@.subrange(1, 1) =~= Seq::<char>::empty());
        } else {
            at_start = false;
            let code: u32 = c as u32;
            if code < 48 || code > 57 {
                proof {
                    let digits = unsigned_part(text@);
                    assert(digits[at - start] == c);
                    assert(!is_digit(digits[at - start]));
                }
                return None;
            }
            let digit: u64 = (code - 48) as u64;
            proof {
                let before = text@.subrange(start, at);
                let after = text@.subrange(start, at + 1);
                assert(after =~= before.push(c));
                lemma_digits_value_push(before, c);
            }
            if value > (u64::MAX - digit) / 10 {
                proof {
                    let digits = unsigned_part(text@);
                    lemma_digits_value_prefix(digits, at + 1 - start);
                    assert(digits.take(at + 1 - start) =~= text@.subrange(start, at + 1));
                }
                return None;
            }
            value = value * 10 + digit;
            any_digit = true;
        }
    }
    proof {
        assert(unsigned_part(text@) =~= text@.subrange(digits_start(signed), text@.len() as int));
    }
    if any_digit {
        Some(value)
    } else {
        None
    }
}

/// The characters of `digits` in reverse order, each digit as its character.
spec fn reversed_digit_chars(digits: Seq<u8>) -> Seq<char> {
    Seq::new(digits.len(), |i: int| digit_char(digits[digits.len() - 1 - i] as nat))
}

/// The one-character text of the digit `d`.
fn digit_str(d: u8) -> (text: &'static str)
    requires
        d < 10,
    ensures
        text@ == seq![digit_char(d as nat)],
{
    proof {
        reveal_strlit("0");
        reveal_strlit("1");
        reveal_strlit("2");
        reveal_strlit("3");
        reveal_strlit("4");
        reveal_strlit("5");
        reveal_strlit("6");
        reveal_strlit("7");
        reveal_strlit("8");
        reveal_strlit("9");
    }
    let text = if d == 0 {
        "0"
    } else if d == 1 {
        "1"
    } else if d == 2 {
        "2"
    } else if d == 3 {
        "3"
    } else if d == 4 {
        "4"
    } else if d == 5 {
        "5"
    } else if d == 6 {
        "6"
    } else if d == 7 {
        "7"
    } else if d == 8 {
        "8"
    } else {
        "9"
    };
    assert(text@ =~= seq![digit_char(d as nat)]);
    text
}

/// Writes `n` as decimal text.
pub fn format_u64(n: u64) -> (text: String)
    ensures
        text@ == decimal_text(n as nat),
        decimal_u64(text@) == Some(n),
{
    let mut digits: Vec<u8> = Vec::new();
    let mut rest: u64 = n;
    while rest >= 10
        invariant
            decimal_text(n as nat) == decimal_text(rest as nat) + reversed_digit_chars(digits@),
            forall|i: int| 0 <= i < digits@.len() ==> digits@[i] < 10,
        decreases rest,
    {
        let ghost before = digits@;
        let low: u8 = (rest % 10) as u8;
        digits.push(low);
        proof {
            assert(reversed_digit_chars(digits@) =~= seq![digit_char(low as nat)]
                + reversed_digit_chars(before));
            assert(decimal_text(rest as nat) == decimal_text((rest / 10) as nat).push(
                digit_char(low as nat),
            ));
            assert(decimal_text((rest / 10) as nat).push(digit_char(low as nat))
                + reversed_digit_chars(before) =~= decimal_text((rest / 10) as nat)
                + reversed_digit_chars(digits@));
        }
        rest = rest / 10;
    }
    let ghost before = digits@;
    digits.push(rest as u8);
    proof {
        assert(reversed_digit_chars(digits@) =~= seq![digit_char(rest as nat)]
            + reversed_digit_chars(before));
    }
    let mut text = String::new();
    let mut left: usize = digits.len();
    while left > 0
        invariant
            left <= digits@.len(),
            forall|i: int| 0 <= i < digits@.len() ==> digits@[i] < 10,
            text@ == reversed_digit_chars(digits@).take(digits@.len() - left),
        decreases left,
    {
        left = left - 1;
        text.append(digit_str(digits[left]));
        assert(text@ =~= reversed_digit_chars(digits@).take(digits@.len() - left));
    }
    proof {
        assert(reversed_digit_chars(digits@).take(digits@.len() as int) =~= reversed_digit_chars(
            digits@,
        ));
        lemma_decimal_round_trip(n);
    }
    text
}

} // verus!
