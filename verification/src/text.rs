//! Decimal text of small numbers, as it appears in questions and store keys.
use vstd::prelude::*;
use vstd::string::*;

verus! {

/// The character that writes the decimal digit `d`.
pub open spec fn digit_char(d: int) -> char {
    if d == 0 {
        '0'
    } else if d == 1 {
        '1'
    } else if d == 2 {
        '2'
    } else if d == 3 {
        '3'
    } else if d == 4 {
        '4'
    } else if d == 5 {
        '5'
    } else if d == 6 {
        '6'
    } else if d == 7 {
        '7'
    } else if d == 8 {
        '8'
    } else {
        '9'
    }
}

/// Whether `c` is one of the ten decimal digits.
pub open spec fn is_digit(c: char) -> bool {
    '0' <= c && c <= '9'
}

/// The number that the decimal digit `c` writes.
pub open spec fn digit_value(c: char) -> int {
    c as int - 48
}

/// The decimal notation of `n`, without leading zeros.
pub open spec fn decimal_text(n: u8) -> Seq<char> {
    if n < 10 {
        seq![digit_char(n as int)]
    } else if n < 100 {
        seq![digit_char(n as int / 10), digit_char(n as int % 10)]
    } else {
        seq![digit_char(n as int / 100), digit_char((n as int / 10) % 10), digit_char(n as int % 10)]
    }
}

/// `digit_char` and `digit_value` undo each other.
pub proof fn lemma_digit_round_trip()
    ensures
        forall|d: int| 0 <= d <= 9 ==> is_digit(#[trigger] digit_char(d)) && digit_value(digit_char(d)) == d,
        forall|c: char| is_digit(c) ==> 0 <= #[trigger] digit_value(c) <= 9 && digit_char(digit_value(c)) == c,
{
    assert forall|c: char| is_digit(c) implies 0 <= #[trigger] digit_value(c) <= 9 && digit_char(
        digit_value(c),
    ) == c by {
        let v = digit_value(c);
        assert(48 <= c as int <= 57);
        assert(digit_char(v) as int == c as int);
    }
}

/// The number that a decimal digit writes.
pub fn digit_number(c: char) -> (d: u8)
    requires
        is_digit(c),
    ensures
        d == digit_value(c),
{
    (c as u32 - 48) as u8
}

/// The one-character text of a decimal digit.
fn digit_text(d: u8) -> (text: &'static str)
    requires
        d < 10,
    ensures
        text@ == seq![digit_char(d as int)],
{
    proof {
        reveal_strlit("0");
        reveal_strlit("1");
        reveal_strlit("2");
        reveal_strlit("3");
        reveal_strlit("4");
        reveal_strlit("5");
        reveal_strlit("6");
        reveal_strlit("7");
        reveal_strlit("8");
        reveal_strlit("9");
    }
    let text = match d {
        0 => "0",
        1 => "1",
        2 => "2",
        3 => "3",
        4 => "4",
        5 => "5",
        6 => "6",
        7 => "7",
        8 => "8",
        _ => "9",
    };
    assert(text@ =~= seq![digit_char(d as int)]);
    text
}

/// Appends the decimal notation of `n` to `text`.
pub fn append_decimal(text: &mut String, n: u8)
    ensures
        final(text)@ == old(text)@ + decimal_text(n),
{
    if n >= 100 {
        text.append(digit_text(n / 10 / 10));
    }
    if n >= 10 {
        text.append(digit_text((n / 10) % 10));
    }
    text.append(digit_text(n % 10));
    assert(text@ =~= old(text)@ + decimal_text(n));
}

} // verus!
