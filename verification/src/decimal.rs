//! Decimal text of integers, as `format!("{}", n)` writes it.

use vstd::prelude::*;

verus! {

/// The character of a decimal digit.
pub open spec fn digit_char(d: nat) -> char {
    if d == 0 {
        '0'
    } else if d == 1 {
        '1'
    } else if d == 2 {
        '2'
    } else if d == 3 {
        '3'
    } else if d == 4 {
        '4'
    } else if d == 5 {
        '5'
    } else if d == 6 {
        '6'
    } else if d == 7 {
        '7'
    } else if d == 8 {
        '8'
    } else {
        '9'
    }
}

/// The decimal digits of `n`, most significant first, without leading zeros.
pub open spec fn digits(n: nat) -> Seq<char>
    decreases n,
{
    if n < 10 {
        seq![digit_char(n)]
    } else {
        digits(n / 10) + seq![digit_char(n % 10)]
    }
}

/// The decimal text of `n`: a minus sign for a negative number, then the digits.
pub open spec fn decimal(n: int) -> Seq<char> {
    if n < 0 {
        seq!['-'] + digits((-n) as nat)
    } else {
        digits(n as nat)
    }
}

/// The text of one decimal digit.
fn digit_text(d: u32) -> (t: &'static str)
    requires
        d < 10,
    ensures
        t@ == seq![digit_char(d as nat)],
{
    proof {
        reveal_strlit("0");
        reveal_strlit("1");
        reveal_strlit("2");
        reveal_strlit("3");
        reveal_strlit("4");
        reveal_strlit("5");
        reveal_strlit("6");
        reveal_strlit("7");
        reveal_strlit("8");
        reveal_strlit("9");
    }
    if d == 0 {
        "0"
    } else if d == 1 {
        "1"
    } else if d == 2 {
        "2"
    } else if d == 3 {
        "3"
    } else if d == 4 {
        "4"
    } else if d == 5 {
        "5"
    } else if d == 6 {
        "6"
    } else if d == 7 {
        "7"
    } else if d == 8 {
        "8"
    } else {
        "9"
    }
}

/// Appends the digits of `n` to `out`.
fn push_digits(n: u32, out: &mut String)
    ensures
        final(out)@ == old(out)@ + digits(n as nat),
    decreases n,
{
    if n >= 10 {
        push_digits(n / 10, out);
    }
    out.append(digit_text(n % 10));
    proof {
        if n >= 10 {
            assert(old(out)@ + digits(n as nat) =~= old(out)@ + digits((n / 10) as nat) + seq![digit_char((n % 10) as nat)]);
        } else {
            assert(n % 10 == n);
        }
    }
}

/// The decimal text of `n`.
pub fn i32_decimal(n: i32) -> (t: String)
    ensures
        t@ == decimal(n as int),
{
    let mut t = String::new();
    if n < 0 {
        t.append("-");
        let magnitude: u32 = (0i64 - (n as i64)) as u32;
        push_digits(magnitude, &mut t);
        proof {
            reveal_strlit("-");
        }
    } else {
        push_digits(n as u32, &mut t);
    }
    t
}

/// A decimal digit character.
pub open spec fn is_digit(c: char) -> bool {
    '0' as int <= c as int <= '9' as int
}

proof fn lemma_digit_char(d: nat)
    requires
        d < 10,
    ensures
        is_digit(digit_char(d)),
        d == (digit_char(d) as int) - ('0' as int),
{
}

/// The digits of a number are one or more digit characters, a single one
/// exactly for the numbers below ten.
pub proof fn lemma_digits_shape(n: nat)
    ensures
        digits(n).len() >= 1,
        digits(n).len() == 1 <==> n < 10,
        forall|i: int| 0 <= i < digits(n).len() ==> is_digit(#[trigger] digits(n)[i]),
    decreases n,
{
    if n < 10 {
        lemma_digit_char(n);
    } else {
        lemma_digits_shape(n / 10);
        lemma_digit_char(n % 10);
        assert forall|i: int| 0 <= i < digits(n).len() implies is_digit(#[trigger] digits(n)[i]) by {
            if i < digits(n / 10).len() {
                assert(digits(n)[i] == digits(n / 10)[i]);
            }
        }
    }
}

/// Different numbers have different digits.
pub proof fn lemma_digits_injective(n: nat, m: nat)
    requires
        digits(n) == digits(m),
    ensures
        n == m,
    decreases n,
{
    lemma_digits_shape(n);
    lemma_digits_shape(m);
    let w = digits(n);
    if n < 10 {
        lemma_digit_char(n);
        lemma_digit_char(m);
        assert(w[0] == digit_char(n));
        assert(w[0] == digit_char(m));
    } else {
        lemma_digit_char(n % 10);
        lemma_digit_char(m % 10);
        assert(w.last() == digit_char(n % 10));
        assert(w.last() == digit_char(m % 10));
        assert(w.drop_last() =~= digits(n / 10));
        assert(w.drop_last() =~= digits(m / 10));
        lemma_digits_injective(n / 10, m / 10);
    }
}

/// The decimal text of a number is its digits, after a minus sign exactly
/// when it is negative.
pub proof fn lemma_decimal_shape(n: int)
    ensures
        decimal(n).len() >= 1,
        (decimal(n)[0] == '-') <==> n < 0,
        forall|i: int| (if n < 0 { 1int } else { 0int }) <= i < decimal(n).len() ==> is_digit(#[trigger] decimal(n)[i]),
{
    if n < 0 {
        lemma_digits_shape((-n) as nat);
        assert forall|i: int| 1 <= i < decimal(n).len() implies is_digit(#[trigger] decimal(n)[i]) by {
            assert(decimal(n)[i] == digits((-n) as nat)[i - 1]);
        }
    } else {
        lemma_digits_shape(n as nat);
        assert(is_digit(decimal(n)[0]));
    }
}

/// Different numbers have different decimal texts: the text reads back as
/// the number.
pub proof fn lemma_decimal_injective(n: int, m: int)
    requires
        decimal(n) == decimal(m),
    ensures
        n == m,
{
    lemma_decimal_shape(n);
    lemma_decimal_shape(m);
    if n < 0 {
        assert(decimal(n).drop_first() =~= digits((-n) as nat));
        assert(decimal(m).drop_first() =~= digits((-m) as nat));
        lemma_digits_injective((-n) as nat, (-m) as nat);
    } else {
        lemma_digits_injective(n as nat, m as nat);
    }
}

/// The number that a text of decimal digits stands for, most significant
/// digit first.
pub open spec fn digits_value(d: Seq<char>) -> int
    decreases d.len(),
{
    if d.len() == 0 {
        0
    } else {
        digits_value(d.drop_last()) * 10 + ((d.last() as int) - ('0' as int))
    }
}

/// The digits of a number read back as that number, and begin with `0` only
/// for zero itself.
pub proof fn lemma_digits_read_back(n: nat)
    ensures
        digits_value(digits(n)) == n,
        digits(n)[0] == '0' ==> n == 0,
    decreases n,
{
    lemma_digit_char(n % 10);
    let d = digits(n);
    if n < 10 {
        assert(d.drop_last() =~= Seq::<char>::empty());
        assert(d.last() == digit_char(n));
        assert(digits_value(d) == digits_value(d.drop_last()) * 10 + ((d.last() as int) - ('0' as int)));
    } else {
        lemma_digits_read_back(n / 10);
        lemma_digits_shape(n / 10);
        assert(d.drop_last() =~= digits(n / 10));
        assert(d.last() == digit_char(n % 10));
        assert(d[0] == digits(n / 10)[0]);
        assert(digits_value(d) == digits_value(d.drop_last()) * 10 + ((d.last() as int) - ('0' as int)));
        assert(n == (n / 10) * 10 + n % 10);
    }
}

} // verus!
