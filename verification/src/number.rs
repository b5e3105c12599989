//! Decimal rendering of integers.

use vstd::prelude::*;

use crate::text::{join2, push_char};

verus! {

/// The decimal digit for a number below ten.
pub open spec fn digit(value: int) -> char {
    (('0' as u32) + value) as char
}

/// The decimal form of a natural number, without leading zeros.
pub open spec fn decimal_nat(value: nat) -> Seq<char>
    decreases value,
{
    if value < 10 {
        seq![digit(value as int)]
    } else {
        decimal_nat(value / 10).push(digit((value % 10) as int))
    }
}

/// The decimal form of an integer.
pub open spec fn decimal(value: int) -> Seq<char> {
    if value < 0 {
        "-"@ + decimal_nat((-value) as nat)
    } else {
        decimal_nat(value as nat)
    }
}

proof fn lemma_decimals_differ(left: nat, right: nat)
    requires
        decimal_nat(left) == decimal_nat(right),
    ensures
        left == right,
    decreases left,
{
    lemma_decimal_is_digits(left);
    lemma_decimal_is_digits(right);
    let first = decimal_nat(left);
    let second = decimal_nat(right);
    assert(first.last() == second.last());
    if left >= 10 && right >= 10 {
        assert(first.drop_last() =~= decimal_nat(left / 10));
        assert(second.drop_last() =~= decimal_nat(right / 10));
        lemma_decimals_differ(left / 10, right / 10);
    }
}

proof fn lemma_decimal_is_digits(value: nat)
    ensures
        decimal_nat(value).len() > 0,
        value >= 10 ==> decimal_nat(value).len() > 1,
        decimal_nat(value).last() == digit((value % 10) as int),
        decimal_nat(value)[0] != '-',
    decreases value,
{
    if value >= 10 {
        lemma_decimal_is_digits(value / 10);
        assert(decimal_nat(value)[0] == decimal_nat(value / 10)[0]);
    }
}

/// Two numbers that are written alike in decimal are the same number.
pub proof fn law_decimals_differ(left: int, right: int)
    requires
        decimal(left) == decimal(right),
    ensures
        left == right,
{
    reveal_strlit("-");
    let first = if left < 0 {
        (-left) as nat
    } else {
        left as nat
    };
    let second = if right < 0 {
        (-right) as nat
    } else {
        right as nat
    };
    lemma_decimal_is_digits(first);
    lemma_decimal_is_digits(second);
    assert(left < 0 ==> decimal(left)[0] == '-');
    assert(right < 0 ==> decimal(right)[0] == '-');
    if left < 0 {
        assert(decimal(left).drop_first() =~= decimal_nat(first));
        assert(decimal(right).drop_first() =~= decimal_nat(second));
    }
    lemma_decimals_differ(first, second);
}

fn digit_char(value: u8) -> (result: char)
    requires
        value < 10,
    ensures
        result == digit(value as int),
{
    let code: u8 = 48 + value;
    code as char
}

/// Renders an unsigned number in decimal.
pub fn decimal_u64(value: u64) -> (result: String)
    ensures
        result@ == decimal(value as int),
    decreases value,
{
    if value < 10 {
        let mut result = String::new();
        push_char(&mut result, digit_char(value as u8));
        assert(result@ =~= seq![digit(value as int)]);
        result
    } else {
        let mut result = decimal_u64(value / 10);
        push_char(&mut result, digit_char((value % 10) as u8));
        result
    }
}

/// Renders a length in decimal.
pub fn decimal_usize(value: usize) -> (result: String)
    ensures
        result@ == decimal(value as int),
{
    decimal_u64(value as u64)
}

/// Renders a signed number in decimal.
pub fn decimal_i64(value: i64) -> (result: String)
    ensures
        result@ == decimal(value as int),
{
    if value < 0 {
        let magnitude: u64 = if value == i64::MIN {
            0x8000_0000_0000_0000u64
        } else {
            (-value) as u64
        };
        let digits = decimal_u64(magnitude);
        join2("-", digits.as_str())
    } else {
        decimal_u64(value as u64)
    }
}

/// A number is written digit by digit, the highest first: one digit for a number
/// below ten, and otherwise the number without its last digit and then that
/// digit. A negative one has a minus sign before it.
pub proof fn law_a_number_is_written_digit_by_digit(value: nat)
    ensures
        value < 10 ==> decimal(value as int) == seq!["0123456789"@[value as int]],
        value >= 10 ==> decimal(value as int) == decimal((value / 10) as int) + decimal(
            (value % 10) as int,
        ),
        value > 0 ==> decimal(-value) == "-"@ + decimal(value as int),
{
    reveal_strlit("0123456789");
    if value < 10 {
        assert(decimal(value as int) =~= seq!["0123456789"@[value as int]]);
    } else {
        assert(decimal(value as int) =~= decimal((value / 10) as int) + decimal(
            (value % 10) as int,
        ));
    }
}

} // verus!
