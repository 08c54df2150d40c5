//! Decimal numerals in ASCII, as the header of a PPM stream writes its numbers.

use vstd::arithmetic::power::pow;
use vstd::prelude::*;

verus! {

/// The ASCII code of the character `0`.
pub const ASCII_ZERO: u8 = 0x30;

/// The ASCII code of the character `9`.
pub const ASCII_NINE: u8 = 0x39;

/// Whether a byte is one of the ASCII characters `0` to `9`.
pub open spec fn is_digit(b: u8) -> bool {
    ASCII_ZERO <= b <= ASCII_NINE
}

/// The ASCII character for a single digit.
pub open spec fn digit_char(d: nat) -> u8
    recommends
        d < 10,
{
    (ASCII_ZERO + d) as u8
}

/// The digit that an ASCII character stands for.
pub open spec fn digit_value(b: u8) -> nat
    recommends
        is_digit(b),
{
    (b - ASCII_ZERO) as nat
}

/// The decimal numeral of `n`: most significant digit first, one digit at
/// least, and no leading zero but for `n == 0`.
pub open spec fn decimal_digits(n: nat) -> Seq<u8>
    decreases n,
{
    if n < 10 {
        seq![digit_char(n)]
    } else {
        decimal_digits(n / 10).push(digit_char(n % 10))
    }
}

/// The number that a string of digits denotes, read most significant digit
/// first. The empty string denotes 0.
pub open spec fn decimal_value(s: Seq<u8>) -> nat
    decreases s.len(),
{
    if s.len() == 0 {
        0
    } else {
        10 * decimal_value(s.drop_last()) + digit_value(s.last())
    }
}

/// Whether `s` is a numeral as `decimal_digits` writes them: not empty, made
/// of digits only, and without a leading zero unless it is `0` itself.
pub open spec fn is_canonical_numeral(s: Seq<u8>) -> bool {
    &&& s.len() >= 1
    &&& forall|i: int| 0 <= i < s.len() ==> is_digit(#[trigger] s[i])
    &&& s.len() > 1 ==> s[0] != ASCII_ZERO
}

/// Appends the decimal numeral of `n` to `out`.
pub fn append_decimal(out: &mut Vec<u8>, n: usize)
    ensures
        final(out)@ == old(out)@ + decimal_digits(n as nat),
{
    let ghost before = out@;
    // The digits of `n`, least significant first.
    let mut reversed: Vec<u8> = Vec::new();
    let mut rest: usize = n;
    while rest >= 10
        invariant
            decimal_digits(n as nat) == decimal_digits(rest as nat) + reversed@.reverse(),
        decreases rest,
    {
        let d: u8 = (rest % 10) as u8;
        reversed.push(ASCII_ZERO + d);
        rest = rest / 10;
    }
    reversed.push(ASCII_ZERO + rest as u8);
    let mut i: usize = reversed.len();
    while i > 0
        invariant
            i <= reversed.len(),
            decimal_digits(n as nat) == reversed@.reverse(),
            out@ == before + reversed@.reverse().take(reversed.len() - i),
        decreases i,
    {
        i = i - 1;
        out.push(reversed[i]);
    }
}

/// What `decimal_digits` writes is a numeral in canonical form.
pub proof fn lemma_decimal_digits_canonical(n: nat)
    ensures
        is_canonical_numeral(decimal_digits(n)),
        decimal_digits(n)[0] == ASCII_ZERO <==> n == 0,
    decreases n,
{
    if n >= 10 {
        lemma_decimal_digits_canonical(n / 10);
    }
}

/// Reading a numeral that `decimal_digits` wrote gives the number back.
pub proof fn lemma_decimal_value_of_digits(n: nat)
    ensures
        decimal_value(decimal_digits(n)) == n,
    decreases n,
{
    let numeral = decimal_digits(n);
    if n < 10 {
        assert(numeral.drop_last() =~= Seq::<u8>::empty());
        assert(decimal_value(numeral.drop_last()) == 0);
    } else {
        lemma_decimal_value_of_digits(n / 10);
        assert(numeral.drop_last() =~= decimal_digits(n / 10));
    }
}

/// A number has one canonical numeral only: a string of digits without a
/// leading zero is the numeral that `decimal_digits` writes for its value.
pub proof fn lemma_canonical_numeral_is_unique(s: Seq<u8>)
    requires
        is_canonical_numeral(s),
    ensures
        decimal_digits(decimal_value(s)) == s,
    decreases s.len(),
{
    let last = digit_value(s.last());
    assert(is_digit(s.last()));
    if s.len() == 1 {
        assert(s.drop_last() =~= Seq::<u8>::empty());
        assert(decimal_value(s.drop_last()) == 0);
        assert(decimal_digits(last) =~= s);
    } else {
        let front = s.drop_last();
        assert(is_canonical_numeral(front)) by {
            assert forall|i: int| 0 <= i < front.len() implies is_digit(#[trigger] front[i]) by {
                assert(front[i] == s[i]);
            }
            assert(front[0] == s[0]);
        }
        lemma_canonical_numeral_is_unique(front);
        lemma_leading_digit_bounds_value(front);
        let v = decimal_value(front);
        assert(decimal_value(s) == 10 * v + last);
        assert((10 * v + last) / 10 == v && (10 * v + last) % 10 == last);
        assert(decimal_digits(decimal_value(s)) =~= s);
    }
}

/// A string of digits that starts with a digit other than zero denotes a
/// number other than zero.
proof fn lemma_leading_digit_bounds_value(s: Seq<u8>)
    requires
        s.len() >= 1,
        forall|i: int| 0 <= i < s.len() ==> is_digit(#[trigger] s[i]),
        s[0] != ASCII_ZERO,
    ensures
        decimal_value(s) >= 1,
    decreases s.len(),
{
    assert(is_digit(s[0]));
    if s.len() == 1 {
        assert(s.drop_last() =~= Seq::<u8>::empty());
    } else {
        let front = s.drop_last();
        assert forall|i: int| 0 <= i < front.len() implies is_digit(#[trigger] front[i]) by {
            assert(front[i] == s[i]);
        }
        assert(front[0] == s[0]);
        lemma_leading_digit_bounds_value(front);
        assert(is_digit(s.last()));
    }
}

/// The numeral of `n` has as many digits as `n` needs: with `k` digits, `n`
/// is below `10^k`, and not below `10^(k-1)` unless `n` is zero.
pub proof fn lemma_decimal_digits_len(n: nat)
    ensures
        decimal_digits(n).len() >= 1,
        n < pow(10, decimal_digits(n).len()),
        n > 0 ==> pow(10, (decimal_digits(n).len() - 1) as nat) <= n,
    decreases n,
{
    reveal_with_fuel(pow, 2);
    if n >= 10 {
        let k = decimal_digits(n / 10).len();
        lemma_decimal_digits_len(n / 10);
        assert(decimal_digits(n).len() == k + 1);
        assert(pow(10, k + 1) == 10 * pow(10, k));
        assert(pow(10, k) == 10 * pow(10, (k - 1) as nat));
    }
}

} // verus!
