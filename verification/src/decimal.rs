use vstd::prelude::*;

verus! {

/// The ten decimal digits, `0` to `9`.
pub open spec fn is_digit_char(c: char) -> bool {
    '0' <= c && c <= '9'
}

/// What a digit counts for: `'7'` is 7.
pub open spec fn digit_value(c: char) -> int {
    c as int - '0' as int
}

/// The character that stands for `d`, for `d` from 0 to 9.
pub open spec fn digit_char(d: int) -> char {
    (d + '0' as int) as char
}

pub open spec fn all_digits(text: Seq<char>) -> bool {
    forall|i: int| 0 <= i < text.len() ==> is_digit_char(#[trigger] text[i])
}

/// The number that a run of digits denotes in base ten; leading zeros count for nothing.
pub open spec fn decimal_value(text: Seq<char>) -> int
    decreases text.len(),
{
    if text.len() == 0 {
        0
    } else {
        decimal_value(text.drop_last()) * 10 + digit_value(text.last())
    }
}

/// The value of an integer literal: its text is a non-empty run of digits, and what
/// the digits denote fits in 32 bits with a sign. Any other text has no value.
pub open spec fn integer_value(text: Seq<char>) -> Option<int> {
    if text.len() > 0 && all_digits(text) && decimal_value(text) <= i32::MAX {
        Some(decimal_value(text))
    } else {
        None
    }
}

/// The digits of `n` in base ten, most significant first, without leading zeros.
pub open spec fn decimal_digits(n: nat) -> Seq<char>
    decreases n,
{
    if n < 10 {
        seq![digit_char(n as int)]
    } else {
        decimal_digits(n / 10).push(digit_char((n % 10) as int))
    }
}

/// An integer written in base ten, with a leading `-` when it is negative.
pub open spec fn decimal(n: int) -> Seq<char> {
    if n < 0 {
        seq!['-'] + decimal_digits((-n) as nat)
    } else {
        decimal_digits(n as nat)
    }
}

/// A longer run of digits denotes at least what each of its prefixes denotes.
pub proof fn decimal_value_grows(text: Seq<char>, k: int)
    requires
        all_digits(text),
        0 <= k <= text.len(),
    ensures
        0 <= decimal_value(text.take(k)) <= decimal_value(text),
    decreases text.len() - k,
{
    if k == text.len() {
        assert(text.take(k) =~= text);
        decimal_value_is_natural(text);
    } else {
        decimal_value_grows(text, k + 1);
        let longer = text.take(k + 1);
        assert(longer.drop_last() =~= text.take(k));
        assert(is_digit_char(longer.last()));
        decimal_value_is_natural(text.take(k));
    }
}

/// A run of digits denotes a natural number.
pub proof fn decimal_value_is_natural(text: Seq<char>)
    requires
        all_digits(text),
    ensures
        0 <= decimal_value(text),
    decreases text.len(),
{
    if text.len() > 0 {
        decimal_value_is_natural(text.drop_last());
        assert(is_digit_char(text.last()));
    }
}

/// Writing a number in base ten and reading the digits back gives the number.
pub proof fn decimal_digits_round_trip(n: nat)
    ensures
        decimal_digits(n).len() > 0,
        all_digits(decimal_digits(n)),
        decimal_value(decimal_digits(n)) == n,
    decreases n,
{
    if n < 10 {
        let text = decimal_digits(n);
        assert(text.drop_last().len() == 0);
        assert(decimal_value(text.drop_last()) == 0);
    } else {
        decimal_digits_round_trip(n / 10);
        let text = decimal_digits(n);
        assert(text.drop_last() =~= decimal_digits(n / 10));
        assert(text.last() == digit_char((n % 10) as int));
    }
}

pub fn is_digit(c: char) -> (b: bool)
    ensures
        b == is_digit_char(c),
{
    c >= '0' && c <= '9'
}

/// Reads an integer literal: `Some` with its value, `None` where the text has none.
pub fn parse_integer(text: &String) -> (parsed: Option<i32>)
    ensures
        match parsed {
            Some(value) => integer_value(text@) == Some(value as int),
            None => integer_value(text@) is None,
        },
{
    let mut value: i64 = 0;
    let mut valid = true;
    let mut seen = false;
    for c in it: text.as_str().chars()
        invariant
            it.seq() == text@,
            seen == (it.index() > 0),
            valid ==> all_digits(text@.take(it.index() as int)),
            valid ==> value == decimal_value(text@.take(it.index() as int)),
            valid ==> 0 <= value <= i32::MAX,
            !valid ==> !(all_digits(text@) && decimal_value(text@) <= i32::MAX),
    {
        let ghost k = it.index() as int;
        proof {
            assert(text@.take(k + 1).drop_last() =~= text@.take(k));
            assert(text@.take(k + 1).last() == c);
        }
        seen = true;
        if valid {
            if is_digit(c) {
                let digit: i64 = (c as u32 - '0' as u32) as i64;
                let next: i64 = value * 10 + digit;
                proof {
                    assert(next == decimal_value(text@.take(k + 1)));
                    if all_digits(text@) {
                        decimal_value_grows(text@, k + 1);
                    }
                }
                if next > 2147483647 {
                    valid = false;
                } else {
                    value = next;
                }
            } else {
                valid = false;
            }
        }
    }
    proof {
        assert(text@.take(text@.len() as int) =~= text@);
    }
    if valid && seen {
        Some(value as i32)
    } else {
        None
    }
}

/// Appends the digits of `n` to `buf`.
fn push_digits(n: u32, buf: &mut String)
    ensures
        final(buf)@ == old(buf)@ + decimal_digits(n as nat),
    decreases n,
{
    if n >= 10 {
        push_digits(n / 10, buf);
    }
    let digit: u8 = (n % 10) as u8;
    buf.push((48u8 + digit) as char);
    proof {
        assert(((48u8 + digit) as char) == digit_char((n % 10) as int));
        if n >= 10 {
            assert(old(buf)@ + decimal_digits(n as nat) =~= (old(buf)@ + decimal_digits(
                (n / 10) as nat,
            )).push(digit_char((n % 10) as int)));
        } else {
            assert(old(buf)@ + decimal_digits(n as nat) =~= old(buf)@.push(
                digit_char((n % 10) as int),
            ));
        }
    }
}

/// Appends `value`, written in base ten, to `buf`.
pub fn push_decimal(value: i32, buf: &mut String)
    ensures
        final(buf)@ == old(buf)@ + decimal(value as int),
{
    if value < 0 {
        buf.push('-');
        let magnitude: u32 = (-(value as i64)) as u32;
        push_digits(magnitude, buf);
        proof {
            assert(old(buf)@ + decimal(value as int) =~= old(buf)@.push('-') + decimal_digits(
                magnitude as nat,
            ));
        }
    } else {
        push_digits(value as u32, buf);
    }
}

} // verus!
