//! How numbers are written and read.
use vstd::prelude::*;
use crate::number;

verus! {

/// The digits that numbers are written with.
pub proof fn law_digits()
    ensures
        number::decimal(0) == seq!['0'],
        number::decimal(1) == seq!['1'],
        number::decimal(2) == seq!['2'],
        number::decimal(3) == seq!['3'],
        number::decimal(4) == seq!['4'],
        number::decimal(5) == seq!['5'],
        number::decimal(6) == seq!['6'],
        number::decimal(7) == seq!['7'],
        number::decimal(8) == seq!['8'],
        number::decimal(9) == seq!['9'],
{
}

/// A digit behind a number writes ten times the number, and the digit.
pub proof fn law_decimal(n: nat, d: nat)
    requires
        n > 0,
        d < 10,
    ensures
        number::decimal(n * 10 + d) == number::decimal(n) + number::decimal(d),
{
    assert((n * 10 + d) / 10 == n && (n * 10 + d) % 10 == d);
    assert(number::decimal(n * 10 + d) =~= number::decimal(n) + number::decimal(d));
}

/// A number below zero is written behind a minus sign, any other without a sign.
pub proof fn law_signs(n: nat)
    ensures
        number::integer_text(n as int) == number::decimal(n),
        n > 0 ==> number::integer_text(-(n as int)) == seq!['-'] + number::decimal(n),
{
}

/// A number is read if it is within the limit; with a plus sign before it, too; and with zeros
/// before it.
pub proof fn law_numbers_are_read(n: nat, limit: nat, high: nat)
    ensures
        n <= limit ==> number::parse_unsigned(number::decimal(n), limit) == Some(n),
        n > limit ==> number::parse_unsigned(number::decimal(n), limit) is None,
        number::parse_unsigned(seq!['+'] + number::decimal(n), limit) == number::parse_unsigned(
            number::decimal(n),
            limit,
        ),
        number::parse_unsigned(seq!['0'] + number::decimal(n), limit) == number::parse_unsigned(
            number::decimal(n),
            limit,
        ),
        number::parse_unsigned(seq!['-'] + number::decimal(n), limit) is None,
        n <= high ==> number::parse_signed(number::decimal(n), limit, high) == Some(n as int),
        n > high ==> number::parse_signed(number::decimal(n), limit, high) is None,
        n <= limit ==> number::parse_signed(seq!['-'] + number::decimal(n), limit, high) == Some(
            -(n as int),
        ),
        n > limit ==> number::parse_signed(seq!['-'] + number::decimal(n), limit, high) is None,
{
    number::lemma_decimal(n);
    let d = number::decimal(n);
    let p = seq!['+'] + d;
    let z = seq!['0'] + d;
    let m = seq!['-'] + d;
    assert(p[0] == '+' && p.skip(1) =~= d);
    assert(m[0] == '-' && m.skip(1) =~= d);
    assert(number::is_digit(d[0]));
    assert(!number::is_digit(m[0]));
    assert(!number::is_digits(m));
    assert forall|i: int| 0 <= i < z.len() implies number::is_digit(#[trigger] z[i]) by {
        if i > 0 {
            assert(z[i] == d[i - 1]);
        }
    }
    lemma_leading_zero(d);
}

/// A zero before digits does not count.
proof fn lemma_leading_zero(d: Seq<char>)
    ensures
        number::digits_value(seq!['0'] + d) == number::digits_value(d),
    decreases d.len(),
{
    let z = seq!['0'] + d;
    if d.len() == 0 {
        assert(z.drop_last() =~= Seq::<char>::empty());
        assert(number::digits_value(z.drop_last()) == 0);
        assert(z.last() == '0');
    } else {
        lemma_leading_zero(d.drop_last());
        assert(z.drop_last() =~= seq!['0'] + d.drop_last());
        assert(z.last() == d.last());
    }
}

/// What is empty, or has a character behind the first that is no digit, is no number.
pub proof fn law_other_texts_are_no_numbers(s: Seq<char>, i: int, limit: nat, high: nat)
    requires
        s.len() == 0 || s == seq!['+'] || s == seq!['-'] || (0 <= i < s.len() && !('0' <= s[i] <= '9')
            && (i > 0 || (s[i] != '+' && s[i] != '-'))),
    ensures
        number::parse_unsigned(s, limit) is None,
        number::parse_signed(s, limit, high) is None,
{
    let rest = s.skip(1);
    if 0 <= i < s.len() && !('0' <= s[i] <= '9') {
        assert(!number::is_digit(s[i]));
        if i > 0 {
            assert(rest[i - 1] == s[i]);
            assert(!number::is_digit(rest[i - 1]));
        }
    }
    if s.len() > 0 && s.len() == 1 && (s[0] == '+' || s[0] == '-') {
        assert(rest.len() == 0);
        assert(!number::is_digit(s[0]));
    }
}

} // verus!
