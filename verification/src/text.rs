//! Strings: the few calls into the standard library that nothing else
//! specifies, and numbers in decimal.

use vstd::prelude::*;

verus! {

/// `String::push`: the string ends in one more character.
pub assume_specification[ String::push ](s: &mut String, c: char)
    ensures
        final(s)@ == old(s)@.push(c),
;

/// `str::strip_prefix` on a string pattern: what follows `prefix` in `s`, or
/// nothing where `s` does not start with it.
#[verifier::external_body]
pub(crate) fn strip_prefix<'a>(s: &'a str, prefix: &str) -> (rest: Option<&'a str>)
    ensures
        match rest {
            Some(rest) => s@ == prefix@ + rest@,
            None => !prefix@.is_prefix_of(s@),
        },
{
    s.strip_prefix(prefix)
}

/// `std::str::from_utf8`: the string that the bytes encode, or nothing where
/// they are not UTF-8.
#[verifier::external_body]
pub(crate) fn from_utf8<'a>(bytes: &'a [u8]) -> (text: Option<&'a str>)
    ensures
        match text {
            Some(text) => vstd::utf8::valid_utf8(bytes@) && text@ == vstd::utf8::decode_utf8(
                bytes@,
            ),
            None => !vstd::utf8::valid_utf8(bytes@),
        },
{
    std::str::from_utf8(bytes).ok()
}

/// The digit for a number below ten.
pub open spec fn digit(d: nat) -> char {
    (48 + d) as char
}

/// A natural number in decimal, without leading zeros.
pub open spec fn decimal(n: nat) -> Seq<char>
    decreases n,
{
    if n < 10 {
        seq![digit(n)]
    } else {
        decimal(n / 10).push(digit(n % 10))
    }
}

/// An integer in decimal, with a minus sign where it is negative.
pub open spec fn signed_decimal(n: int) -> Seq<char> {
    if n < 0 {
        seq!['-'] + decimal((-n) as nat)
    } else {
        decimal(n as nat)
    }
}

/// The number that a row of decimal digits stands for.
pub open spec fn digits_value(s: Seq<char>) -> int
    decreases s.len(),
{
    if s.len() == 0 {
        0
    } else {
        10 * digits_value(s.drop_last()) + (s.last() as int - 48)
    }
}

/// The number that a decimal numeral stands for.
pub open spec fn decimal_value(s: Seq<char>) -> int {
    if s.len() > 0 && s[0] == '-' {
        -digits_value(s.drop_first())
    } else {
        digits_value(s)
    }
}

proof fn lemma_digits_read_back(n: nat)
    ensures
        digits_value(decimal(n)) == n,
        decimal(n).len() > 0,
        decimal(n)[0] != '-',
    decreases n,
{
    if n < 10 {
        assert(decimal(n).drop_last() =~= Seq::empty());
        assert(digits_value(decimal(n).drop_last()) == 0);
    } else {
        lemma_digits_read_back(n / 10);
        assert(decimal(n).drop_last() =~= decimal(n / 10));
    }
}

/// A number written in decimal reads back as itself.
pub proof fn decimal_reads_back(n: int)
    ensures
        decimal_value(signed_decimal(n)) == n,
{
    if n < 0 {
        lemma_digits_read_back((-n) as nat);
        assert(signed_decimal(n).drop_first() =~= decimal((-n) as nat));
    } else {
        lemma_digits_read_back(n as nat);
    }
}

/// `n` in decimal.
pub(crate) fn write_unsigned(n: u128) -> (text: String)
    ensures
        text@ == decimal(n as nat),
    decreases n,
{
    let last: u8 = (n % 10) as u8;
    let mut text = if n < 10 {
        String::new()
    } else {
        write_unsigned(n / 10)
    };
    text.push((48 + last) as char);
    text
}

/// `n` in decimal, with a minus sign where it is negative.
pub(crate) fn write_signed(n: i64) -> (text: String)
    ensures
        text@ == signed_decimal(n as int),
{
    if n < 0 {
        let mut text = "-".to_owned();
        let magnitude = write_unsigned((-(n as i128)) as u128);
        text.append(magnitude.as_str());
        proof {
            reveal_strlit("-");
        }
        assert("-"@ =~= seq!['-']);
        text
    } else {
        write_unsigned(n as u128)
    }
}

/// A numeral is written digit by digit, the last one being the remainder by ten, and
/// starts with a minus sign just where the number is negative.
pub proof fn decimal_is_written_digit_by_digit(n: int, d: int)
    requires
        0 <= d < 10,
    ensures
        signed_decimal(d).len() == 1 && signed_decimal(d)[0] as int == '0' as int + d,
        0 < n ==> signed_decimal(10 * n + d) == signed_decimal(n).push(
            signed_decimal(d)[0],
        ),
        0 < n ==> signed_decimal(-n) == seq!['-'] + signed_decimal(n),
{
}

} // verus!
