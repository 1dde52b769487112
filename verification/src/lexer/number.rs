//! Decimal numerals: what a run of digits denotes, and how it is read.

use vstd::prelude::*;

verus! {

/// Whether `c` is one of the ten digits `0` to `9`.
pub open spec fn is_decimal_digit(c: char) -> bool {
    '0' <= c <= '9'
}

/// The number that a decimal digit stands for.
pub open spec fn digit_value(c: char) -> nat
    recommends
        is_decimal_digit(c),
{
    (c as int - '0' as int) as nat
}

/// Whether `digits` holds decimal digits only.
pub open spec fn all_decimal_digits(digits: Seq<char>) -> bool {
    forall|i: int| 0 <= i < digits.len() ==> is_decimal_digit(#[trigger] digits[i])
}

/// The number that `digits` denotes in base ten, most significant digit
/// first. Leading zeros do not count, and the empty numeral denotes zero.
pub open spec fn decimal_value(digits: Seq<char>) -> nat
    recommends
        all_decimal_digits(digits),
    decreases digits.len(),
{
    if digits.len() == 0 {
        0
    } else {
        10 * decimal_value(digits.drop_last()) + digit_value(digits.last())
    }
}

/// Whether `digits` is a numeral that a `u64` can hold: at least one
/// character, decimal digits only, and a value of at most `u64::MAX`.
pub open spec fn fits_u64(digits: Seq<char>) -> bool {
    &&& digits.len() > 0
    &&& all_decimal_digits(digits)
    &&& decimal_value(digits) <= u64::MAX
}

/// A numeral denotes at least as much as each of its prefixes.
pub proof fn lemma_decimal_value_grows(digits: Seq<char>, len: int)
    requires
        0 <= len <= digits.len(),
    ensures
        decimal_value(digits.take(len)) <= decimal_value(digits),
    decreases digits.len() - len,
{
    if len == digits.len() {
        assert(digits.take(len) =~= digits);
    } else {
        assert(digits.drop_last().take(len) =~= digits.take(len));
        lemma_decimal_value_grows(digits.drop_last(), len);
    }
}

/// A zero in front of a numeral does not change what it denotes.
pub proof fn lemma_leading_zero(digits: Seq<char>)
    ensures
        decimal_value(seq!['0'] + digits) == decimal_value(digits),
    decreases digits.len(),
{
    let longer = seq!['0'] + digits;
    if digits.len() == 0 {
        assert(longer.drop_last() =~= Seq::<char>::empty());
        assert(decimal_value(longer.drop_last()) == 0);
    } else {
        assert(longer.drop_last() =~= seq!['0'] + digits.drop_last());
        lemma_leading_zero(digits.drop_last());
    }
}

/// Reads `digits` as a decimal numeral. The answer is `None` exactly when
/// the numeral is empty, holds something other than a decimal digit, or
/// denotes more than a `u64` can hold.
pub fn parse_decimal(digits: &[char]) -> (parsed: Option<u64>)
    ensures
        parsed is Some <==> fits_u64(digits@),
        parsed matches Some(value) ==> value == decimal_value(digits@),
{
    let len = digits.len();
    if len == 0 {
        return None;
    }
    let mut value: u64 = 0;
    let mut i: usize = 0;
    while i < len
        invariant
            i <= len,
            len == digits@.len(),
            all_decimal_digits(digits@.take(i as int)),
            value == decimal_value(digits@.take(i as int)),
        decreases len - i,
    {
        let c = digits[i];
        let ghost read = digits@.take(i as int);
        let ghost more = digits@.take(i + 1);
        assert(more.drop_last() =~= read);
        assert(more.last() == c);
        if !('0' <= c && c <= '9') {
            assert(!is_decimal_digit(digits@[i as int]));
            return None;
        }
        let digit = (c as u32 - '0' as u32) as u64;
        assert(digit == digit_value(c));
        proof {
            lemma_decimal_value_grows(digits@, i + 1);
        }
        let shifted = match value.checked_mul(10) {
            Some(shifted) => shifted,
            None => {
                return None;
            },
        };
        value = match shifted.checked_add(digit) {
            Some(sum) => sum,
            None => {
                return None;
            },
        };
        assert forall|j: int| 0 <= j < more.len() implies is_decimal_digit(#[trigger] more[j]) by {
            if j < i {
                assert(more[j] == read[j]);
            }
        }
        i += 1;
    }
    assert(digits@.take(len as int) =~= digits@);
    Some(value)
}

} // verus!
