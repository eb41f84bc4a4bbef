//! Decimal numbers as text: reading operands and writing counts.

use vstd::prelude::*;

use crate::span::to_chars;

verus! {

/// Whether `c` is a decimal digit.
pub open spec fn is_digit(c: char) -> bool {
    '0' <= c <= '9'
}

/// The digit that stands for `d`, where `d` is below ten.
pub open spec fn digit_char(d: nat) -> char {
    if d == 0 {
        '0'
    } else if d == 1 {
        '1'
    } else if d == 2 {
        '2'
    } else if d == 3 {
        '3'
    } else if d == 4 {
        '4'
    } else if d == 5 {
        '5'
    } else if d == 6 {
        '6'
    } else if d == 7 {
        '7'
    } else if d == 8 {
        '8'
    } else {
        '9'
    }
}

/// The number that the digit `c` stands for.
pub open spec fn digit_value(c: char) -> nat {
    if c == '1' {
        1
    } else if c == '2' {
        2
    } else if c == '3' {
        3
    } else if c == '4' {
        4
    } else if c == '5' {
        5
    } else if c == '6' {
        6
    } else if c == '7' {
        7
    } else if c == '8' {
        8
    } else if c == '9' {
        9
    } else {
        0
    }
}

/// Whether `text` is one or more decimal digits.
pub open spec fn all_digits(text: Seq<char>) -> bool {
    text.len() > 0 && forall|i: int| 0 <= i < text.len() ==> is_digit(#[trigger] text[i])
}

/// The number that the digits of `text` denote.
pub open spec fn decimal_value(text: Seq<char>) -> nat
    decreases text.len(),
{
    if text.len() == 0 {
        0
    } else {
        decimal_value(text.drop_last()) * 10 + digit_value(text.last())
    }
}

/// The integer that `text` denotes: digits, after a `+` or, where `signed`, a `-`
/// if there is one.  `None` for any other text.
pub open spec fn decimal_of(text: Seq<char>, signed: bool) -> Option<int> {
    if text.len() > 0 && text[0] == '-' {
        if signed && all_digits(text.drop_first()) {
            Some(-(decimal_value(text.drop_first()) as int))
        } else {
            None
        }
    } else if text.len() > 0 && text[0] == '+' {
        if all_digits(text.drop_first()) {
            Some(decimal_value(text.drop_first()) as int)
        } else {
            None
        }
    } else if all_digits(text) {
        Some(decimal_value(text) as int)
    } else {
        None
    }
}

/// The 16-bit immediate that `text` denotes, if it denotes one.
pub open spec fn immediate_of(text: Seq<char>) -> Option<i16> {
    match decimal_of(text, true) {
        Some(v) => if i16::MIN <= v <= i16::MAX {
            Some(v as i16)
        } else {
            None
        },
        None => None,
    }
}

/// The bytecode index that `text` denotes, if it denotes one.
pub open spec fn target_of(text: Seq<char>) -> Option<u32> {
    match decimal_of(text, false) {
        Some(v) => if v <= u32::MAX {
            Some(v as u32)
        } else {
            None
        },
        None => None,
    }
}

/// The decimal digits of `n`, without leading zeros.
pub open spec fn decimal_text(n: nat) -> Seq<char>
    decreases n,
{
    if n < 10 {
        seq![digit_char(n)]
    } else {
        decimal_text(n / 10).push(digit_char(n % 10))
    }
}

/// A number with more digits is no smaller.
proof fn lemma_decimal_value_grows(text: Seq<char>, k: int)
    requires
        0 <= k <= text.len(),
    ensures
        decimal_value(text.take(k)) <= decimal_value(text),
    decreases text.len() - k,
{
    if k < text.len() {
        lemma_decimal_value_grows(text, k + 1);
        assert(text.take(k + 1).drop_last() =~= text.take(k));
    } else {
        assert(text.take(k) =~= text);
    }
}

/// The number that the digits of `chars` from `from` on denote, if they are one or
/// more digits that denote a number up to `limit`.
fn read_digits(chars: &Vec<char>, from: usize, limit: u64) -> (r: Option<u64>)
    requires
        from <= chars@.len(),
        limit <= u32::MAX,
    ensures
        match r {
            Some(v) => v == decimal_value(chars@.skip(from as int)) && v <= limit,
            None => true,
        },
        r is Some <==> all_digits(chars@.skip(from as int)) && decimal_value(
            chars@.skip(from as int),
        ) <= limit,
{
    let ghost text = chars@.skip(from as int);
    if from == chars.len() {
        return None;
    }
    let mut value: u64 = 0;
    let mut i: usize = from;
    while i < chars.len()
        invariant
            from <= i <= chars@.len(),
            text == chars@.skip(from as int),
            limit <= u32::MAX,
            value <= limit,
            value == decimal_value(text.take(i - from)),
            forall|k: int| 0 <= k < i - from ==> is_digit(#[trigger] text[k]),
        decreases chars.len() - i,
    {
        let c = chars[i];
        assert(c == text[i - from]);
        if !(c >= '0' && c <= '9') {
            return None;
        }
        let digit: u64 = if c == '1' {
            1
        } else if c == '2' {
            2
        } else if c == '3' {
            3
        } else if c == '4' {
            4
        } else if c == '5' {
            5
        } else if c == '6' {
            6
        } else if c == '7' {
            7
        } else if c == '8' {
            8
        } else if c == '9' {
            9
        } else {
            0
        };
        proof {
            assert(text.take(i - from + 1).drop_last() =~= text.take(i - from));
            assert(text.take(i - from + 1).last() == c);
        }
        let next = value * 10 + digit;
        if next > limit {
            proof {
                lemma_decimal_value_grows(text, i - from + 1);
            }
            return None;
        }
        value = next;
        i += 1;
    }
    assert(text.take(i - from) =~= text);
    Some(value)
}

/// Reads a 16-bit signed immediate: decimal digits, after a sign if there is one.
pub fn parse_i16(text: &str) -> (r: Option<i16>)
    ensures
        r == immediate_of(text@),
{
    let chars = to_chars(text);
    if chars.len() > 0 && chars[0] == '-' {
        assert(chars@.skip(1) =~= text@.drop_first());
        match read_digits(&chars, 1, 32768) {
            Some(v) => {
                let wide: i64 = -(v as i64);
                Some(wide as i16)
            },
            None => None,
        }
    } else if chars.len() > 0 && chars[0] == '+' {
        assert(chars@.skip(1) =~= text@.drop_first());
        match read_digits(&chars, 1, 32767) {
            Some(v) => Some(v as i16),
            None => None,
        }
    } else {
        assert(chars@.skip(0) =~= text@);
        match read_digits(&chars, 0, 32767) {
            Some(v) => Some(v as i16),
            None => None,
        }
    }
}

/// Reads a bytecode index: decimal digits, after a `+` if there is one.
pub fn parse_u32(text: &str) -> (r: Option<u32>)
    ensures
        r == target_of(text@),
{
    let chars = to_chars(text);
    if chars.len() > 0 && chars[0] == '-' {
        None
    } else if chars.len() > 0 && chars[0] == '+' {
        assert(chars@.skip(1) =~= text@.drop_first());
        match read_digits(&chars, 1, 0xFFFF_FFFF) {
            Some(v) => Some(v as u32),
            None => None,
        }
    } else {
        assert(chars@.skip(0) =~= text@);
        match read_digits(&chars, 0, 0xFFFF_FFFF) {
            Some(v) => Some(v as u32),
            None => None,
        }
    }
}

/// The text of one decimal digit.
fn digit_text(d: usize) -> (r: &'static str)
    requires
        d < 10,
    ensures
        r@ == seq![digit_char(d as nat)],
{
    proof {
        reveal_strlit("0");
        reveal_strlit("1");
        reveal_strlit("2");
        reveal_strlit("3");
        reveal_strlit("4");
        reveal_strlit("5");
        reveal_strlit("6");
        reveal_strlit("7");
        reveal_strlit("8");
        reveal_strlit("9");
    }
    let r = if d == 0 {
        "0"
    } else if d == 1 {
        "1"
    } else if d == 2 {
        "2"
    } else if d == 3 {
        "3"
    } else if d == 4 {
        "4"
    } else if d == 5 {
        "5"
    } else if d == 6 {
        "6"
    } else if d == 7 {
        "7"
    } else if d == 8 {
        "8"
    } else {
        "9"
    };
    assert(r@ =~= seq![digit_char(d as nat)]);
    r
}

/// Writes `n` in decimal.
pub fn decimal_string(n: usize) -> (r: String)
    ensures
        r@ == decimal_text(n as nat),
    decreases n,
{
    if n < 10 {
        digit_text(n).to_owned()
    } else {
        let r = decimal_string(n / 10).concat(digit_text(n % 10));
        assert(r@ =~= decimal_text(n as nat));
        r
    }
}

} // verus!
