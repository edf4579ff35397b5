//! Decimal rendering of integers, as the status values show them.
use vstd::prelude::*;

verus! {

/// The character of a decimal digit.
pub open spec fn digit_char(d: nat) -> char {
    (48 + d) as char
}

/// Decimal digits of a natural number, most significant first, without
/// leading zeros ("0" for zero).
pub open spec fn decimal_of_nat(n: nat) -> Seq<char>
    decreases n,
{
    if n < 10 {
        seq![digit_char(n)]
    } else {
        decimal_of_nat(n / 10).push(digit_char(n % 10))
    }
}

/// Decimal rendering of an integer: a minus sign before the digits of its
/// magnitude when it is negative.
pub open spec fn decimal_of_int(i: int) -> Seq<char> {
    if i < 0 {
        seq!['-'] + decimal_of_nat((-i) as nat)
    } else {
        decimal_of_nat(i as nat)
    }
}

/// The number that a string of decimal digits stands for.
pub open spec fn decimal_value(s: Seq<char>) -> int
    decreases s.len(),
{
    if s.len() == 0 {
        0
    } else {
        decimal_value(s.drop_last()) * 10 + (s.last() as int - 48)
    }
}

/// Law: the decimal rendering of a natural number is a non-empty string of
/// the digits '0' to '9', without a leading zero unless the number is zero,
/// that stands for the number.
pub proof fn lemma_decimal_digits(n: nat)
    ensures
        decimal_of_nat(n).len() > 0,
        forall|i: int|
            0 <= i < decimal_of_nat(n).len() ==> '0' <= #[trigger] decimal_of_nat(n)[i] <= '9',
        decimal_of_nat(n)[0] == '0' ==> n == 0,
        decimal_value(decimal_of_nat(n)) == n,
    decreases n,
{
    assert(digit_char(n % 10) as int == 48 + n % 10);
    if n < 10 {
        assert(decimal_of_nat(n).drop_last() =~= Seq::<char>::empty());
    }
    if n >= 10 {
        lemma_decimal_digits(n / 10);
        let s = decimal_of_nat(n);
        let p = decimal_of_nat(n / 10);
        assert(s.drop_last() =~= p);
        assert(n == (n / 10) * 10 + n % 10) by (nonlinear_arith);
        assert forall|i: int| 0 <= i < s.len() implies '0' <= #[trigger] s[i] <= '9' by {
            if i < p.len() {
                assert(s[i] == p[i]);
            }
        }
        assert(s[0] == p[0]);
        assert(s.last() == digit_char(n % 10));
        assert(decimal_value(s) == decimal_value(p) * 10 + (s.last() as int - 48));
        assert(decimal_value(p) == n / 10);
    } else {
        let s = decimal_of_nat(n);
        assert(s.last() == digit_char(n));
        assert(decimal_value(s) == decimal_value(s.drop_last()) * 10 + (s.last() as int - 48));
    }
}

/// Law: the decimal rendering of a negative integer is a minus sign before
/// the rendering of its magnitude; that of any other is the rendering of
/// the number itself.
pub proof fn lemma_decimal_sign(i: int)
    ensures
        i < 0 ==> decimal_of_int(i)[0] == '-' && decimal_of_int(i).drop_first() == decimal_of_nat(
            (-i) as nat,
        ),
        i >= 0 ==> decimal_of_int(i) == decimal_of_nat(i as nat),
{
    if i < 0 {
        assert(decimal_of_int(i).drop_first() =~= decimal_of_nat((-i) as nat));
    }
}

fn digit_str(d: u64) -> (s: &'static str)
    requires
        d < 10,
    ensures
        s@ == seq![digit_char(d as nat)],
{
    if d == 0 {
        proof { reveal_strlit("0"); }
        "0"
    } else if d == 1 {
        proof { reveal_strlit("1"); }
        "1"
    } else if d == 2 {
        proof { reveal_strlit("2"); }
        "2"
    } else if d == 3 {
        proof { reveal_strlit("3"); }
        "3"
    } else if d == 4 {
        proof { reveal_strlit("4"); }
        "4"
    } else if d == 5 {
        proof { reveal_strlit("5"); }
        "5"
    } else if d == 6 {
        proof { reveal_strlit("6"); }
        "6"
    } else if d == 7 {
        proof { reveal_strlit("7"); }
        "7"
    } else if d == 8 {
        proof { reveal_strlit("8"); }
        "8"
    } else {
        proof { reveal_strlit("9"); }
        "9"
    }
}

fn append_decimal(out: &mut String, n: u64)
    ensures
        final(out)@ == old(out)@ + decimal_of_nat(n as nat),
    decreases n,
{
    if n >= 10 {
        append_decimal(out, n / 10);
    }
    out.append(digit_str(n % 10));
    proof {
        if n >= 10 {
            assert(decimal_of_nat(n as nat) == decimal_of_nat((n / 10) as nat).push(
                digit_char((n % 10) as nat),
            ));
        }
    }
}

/// Renders an unsigned integer in decimal.
pub fn u64_to_decimal(n: u64) -> (s: String)
    ensures
        s@ == decimal_of_nat(n as nat),
{
    let mut s = String::new();
    append_decimal(&mut s, n);
    s
}

/// Renders a signed integer in decimal.
pub fn i64_to_decimal(n: i64) -> (s: String)
    ensures
        s@ == decimal_of_int(n as int),
{
    let mut s = String::new();
    if n < 0 {
        proof { reveal_strlit("-"); }
        s.append("-");
        let magnitude: u64 = ((-(n + 1)) as u64) + 1;
        append_decimal(&mut s, magnitude);
    } else {
        append_decimal(&mut s, n as u64);
    }
    s
}

} // verus!
