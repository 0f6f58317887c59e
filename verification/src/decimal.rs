//! Port numbers as decimal text.

use vstd::prelude::*;

verus! {

/// A decimal digit.
pub open spec fn is_digit(c: char) -> bool {
    '0' <= c <= '9'
}

/// Whether a text holds decimal digits only.
pub open spec fn all_digits(text: Seq<char>) -> bool {
    forall|i: int| 0 <= i < text.len() ==> is_digit(#[trigger] text[i])
}

/// The number that decimal digits stand for.
pub open spec fn digits_value(digits: Seq<char>) -> nat
    decreases digits.len(),
{
    if digits.len() == 0 {
        0
    } else {
        digits_value(digits.drop_last()) * 10 + (digits.last() as nat - '0' as nat) as nat
    }
}

/// A text without the plus sign that it may start with.
pub open spec fn unsigned(text: Seq<char>) -> Seq<char> {
    if text.len() > 0 && text[0] == '+' {
        text.skip(1)
    } else {
        text
    }
}

/// The port that a text stands for: decimal digits, after a plus sign at will, for a number
/// that fits.
pub open spec fn port_value(text: Seq<char>) -> Option<u16> {
    let digits = unsigned(text);
    if digits.len() > 0 && all_digits(digits) && digits_value(digits) <= u16::MAX {
        Some(digits_value(digits) as u16)
    } else {
        None
    }
}

/// The decimal digit for a number below ten.
pub open spec fn digit_char(digit: nat) -> char {
    ('0' as nat + digit) as char
}

/// A number in decimal digits, without leading zeros.
pub open spec fn decimal_text(number: nat) -> Seq<char>
    decreases number,
{
    if number < 10 {
        seq![digit_char(number)]
    } else {
        decimal_text(number / 10).push(digit_char(number % 10))
    }
}

/// Further digits do not make a number smaller.
proof fn lemma_value_grows(digits: Seq<char>, shorter: int)
    requires
        all_digits(digits),
        0 <= shorter <= digits.len(),
    ensures
        digits_value(digits.take(shorter)) <= digits_value(digits),
    decreases digits.len() - shorter,
{
    if shorter < digits.len() {
        lemma_value_grows(digits, shorter + 1);
        assert(digits.take(shorter + 1).drop_last() =~= digits.take(shorter));
    } else {
        assert(digits.take(shorter) =~= digits);
    }
}

/// Reads a port number.
pub fn parse_port(text: &str) -> (port: Option<u16>)
    ensures
        port == port_value(text@),
{
    let len: usize = text.unicode_len();
    if len == 0 {
        return None;
    }
    let start: usize = if text.get_char(0) == '+' {
        1
    } else {
        0
    };
    let ghost digits = unsigned(text@);
    assert(digits =~= text@.skip(start as int));
    if start == len {
        return None;
    }
    let mut value: u32 = 0;
    let mut i: usize = start;
    while i < len
        invariant
            start <= i <= len,
            len == text@.len(),
            start <= 1,
            digits == text@.skip(start as int),
            digits == unsigned(text@),
            all_digits(digits.take(i - start)),
            value == digits_value(digits.take(i - start)),
            value <= u16::MAX,
        decreases len - i,
    {
        let c = text.get_char(i);
        assert(c == digits[i - start]);
        if c < '0' || c > '9' {
            return None;
        }
        let ghost before = digits.take(i - start);
        let ghost after = digits.take(i + 1 - start);
        assert(after.drop_last() =~= before);
        assert(after.last() == c);
        assert(all_digits(after)) by {
            assert forall|j: int| 0 <= j < after.len() implies is_digit(#[trigger] after[j]) by {
                if j < before.len() {
                    assert(before[j] == after[j]);
                }
            }
        }
        value = value * 10 + (c as u32 - '0' as u32);
        if value > u16::MAX as u32 {
            proof {
                if all_digits(digits) {
                    lemma_value_grows(digits, i + 1 - start);
                }
            }
            return None;
        }
        i = i + 1;
    }
    assert(digits.take(len - start) =~= digits);
    Some(value as u16)
}

/// Writes a port number.
pub fn write_port(port: u16) -> (text: String)
    ensures
        text@ == decimal_text(port as nat),
    decreases port,
{
    let digit: &str = digit_text(port % 10);
    if port < 10 {
        digit.to_owned()
    } else {
        let mut text = write_port(port / 10);
        text.append(digit);
        text
    }
}

/// The text of one decimal digit.
fn digit_text(digit: u16) -> (text: &'static str)
    requires
        digit < 10,
    ensures
        text@ == seq![digit_char(digit as nat)],
{
    proof {
        reveal_strlit("0");
        reveal_strlit("1");
        reveal_strlit("2");
        reveal_strlit("3");
        reveal_strlit("4");
        reveal_strlit("5");
        reveal_strlit("6");
        reveal_strlit("7");
        reveal_strlit("8");
        reveal_strlit("9");
    }
    let text: &'static str = match digit {
        0 => "0",
        1 => "1",
        2 => "2",
        3 => "3",
        4 => "4",
        5 => "5",
        6 => "6",
        7 => "7",
        8 => "8",
        _ => "9",
    };
    assert(text@ =~= seq![digit_char(digit as nat)]);
    text
}

/// What is written for a number holds digits only and stands for that number.
proof fn lemma_decimal_text_value(number: nat)
    ensures
        decimal_text(number).len() > 0,
        all_digits(decimal_text(number)),
        digits_value(decimal_text(number)) == number,
    decreases number,
{
    if number < 10 {
        let text = decimal_text(number);
        assert(text.drop_last() =~= Seq::<char>::empty());
        assert(digits_value(text.drop_last()) == 0);
        assert(text.last() == digit_char(number));
    } else {
        lemma_decimal_text_value(number / 10);
        let front = decimal_text(number / 10);
        let text = decimal_text(number);
        assert(text.drop_last() =~= front);
        assert(text.last() == digit_char(number % 10));
        assert forall|i: int| 0 <= i < text.len() implies is_digit(#[trigger] text[i]) by {
            if i < front.len() {
                assert(front[i] == text[i]);
            }
        }
    }
}

/// A port that was written is read back as the same port.
pub proof fn lemma_port_round_trip(port: u16)
    ensures
        port_value(decimal_text(port as nat)) == Some(port),
{
    lemma_decimal_text_value(port as nat);
    assert(is_digit(decimal_text(port as nat)[0]));
}

} // verus!
