//! Decimal text for the numeric fields of the emitted form.

use vstd::prelude::*;

verus! {

/// The decimal digit character for one digit value.
pub open spec fn digit_char(d: nat) -> char {
    if d == 0 {
        '0'
    } else if d == 1 {
        '1'
    } else if d == 2 {
        '2'
    } else if d == 3 {
        '3'
    } else if d == 4 {
        '4'
    } else if d == 5 {
        '5'
    } else if d == 6 {
        '6'
    } else if d == 7 {
        '7'
    } else if d == 8 {
        '8'
    } else {
        '9'
    }
}

/// The decimal digits of a number, most significant first, with no
/// leading zero except for the number 0 itself.
pub open spec fn dec_digits(n: nat) -> Seq<char>
    decreases n,
{
    if n < 10 {
        seq![digit_char(n)]
    } else {
        dec_digits(n / 10).push(digit_char(n % 10))
    }
}

/// The decimal digits of a number, zero-padded on the left to at
/// least two digits.
pub open spec fn two_digit(n: nat) -> Seq<char> {
    if n < 10 {
        seq!['0'].push(digit_char(n))
    } else {
        dec_digits(n)
    }
}

/// The text for a signed number of tenths: the whole part in decimal,
/// preceded by a minus sign when the number is negative, followed by
/// a point and the single fractional digit only when the number is
/// not whole.
pub open spec fn tenths_text(t: int) -> Seq<char> {
    let m = (if t < 0 {
        -t
    } else {
        t
    }) as nat;
    let sign = if t < 0 {
        seq!['-']
    } else {
        Seq::<char>::empty()
    };
    if m % 10 == 0 {
        sign + dec_digits(m / 10)
    } else {
        sign + dec_digits(m / 10).push('.').push(digit_char(m % 10))
    }
}

/// The zero-padded form of any value below 100 is exactly two
/// digits: a leading zero digit before a single-digit value, the two
/// decimal digits of a two-digit value.
pub proof fn lemma_two_digit_shape(n: nat)
    requires
        n < 100,
    ensures
        two_digit(n).len() == 2,
        n < 10 ==> two_digit(n) == seq!['0', digit_char(n)],
        n >= 10 ==> two_digit(n) == seq![digit_char(n / 10), digit_char(n % 10)],
{
    if n < 10 {
        assert(two_digit(n) =~= seq!['0', digit_char(n)]);
    } else {
        assert(dec_digits(n / 10) == seq![digit_char(n / 10)]);
        assert(two_digit(n) =~= seq![digit_char(n / 10), digit_char(n % 10)]);
    }
}

/// Append one decimal digit character.
fn push_digit(s: &mut String, d: u8)
    requires
        d < 10,
    ensures
        final(s)@ == old(s)@ + seq![digit_char(d as nat)],
{
    let part: &str = match d {
        0 => "0",
        1 => "1",
        2 => "2",
        3 => "3",
        4 => "4",
        5 => "5",
        6 => "6",
        7 => "7",
        8 => "8",
        _ => "9",
    };
    proof {
        reveal_strlit("0");
        reveal_strlit("1");
        reveal_strlit("2");
        reveal_strlit("3");
        reveal_strlit("4");
        reveal_strlit("5");
        reveal_strlit("6");
        reveal_strlit("7");
        reveal_strlit("8");
        reveal_strlit("9");
        assert(part@ =~= seq![digit_char(d as nat)]);
    }
    s.append(part);
}

/// Append the decimal digits of a number, most significant first.
pub fn push_dec(s: &mut String, n: u32)
    ensures
        final(s)@ == old(s)@ + dec_digits(n as nat),
    decreases n,
{
    if n >= 10 {
        push_dec(s, n / 10);
    }
    push_digit(s, (n % 10) as u8);
    proof {
        assert(final(s)@ =~= old(s)@ + dec_digits(n as nat));
    }
}

/// Format a byte value as decimal text zero-padded to two digits.
pub fn format_double_digit(value: u8) -> (r: String)
    ensures
        r@ == two_digit(value as nat),
{
    let mut s = String::new();
    if value < 10 {
        proof {
            reveal_strlit("0");
        }
        s.append("0");
        push_digit(&mut s, value);
        proof {
            assert(s@ =~= two_digit(value as nat));
        }
    } else {
        push_dec(&mut s, value as u32);
        proof {
            assert(s@ =~= two_digit(value as nat));
        }
    }
    s
}

/// Append the text for a signed number of tenths.
pub fn push_tenths(s: &mut String, t: i32)
    ensures
        final(s)@ == old(s)@ + tenths_text(t as int),
{
    let m: u32 = if t >= 0 {
        t as u32
    } else {
        proof {
            reveal_strlit("-");
            assert("-"@ =~= seq!['-']);
        }
        s.append("-");
        (-(t as i64)) as u32
    };
    if m % 10 == 0 {
        push_dec(s, m / 10);
    } else {
        push_dec(s, m / 10);
        proof {
            reveal_strlit(".");
            assert("."@ =~= seq!['.']);
        }
        s.append(".");
        push_digit(s, (m % 10) as u8);
    }
    proof {
        assert(final(s)@ =~= old(s)@ + tenths_text(t as int));
    }
}

} // verus!
