//! Sizes scaled to a unit and written out in decimal.
//!
//! A byte count is shown in the largest unit that it fills at least once, as
//! the exact quotient of the count by the unit's divisor: every divisor is a
//! power of two, so the quotient has a finite decimal expansion.

use vstd::prelude::*;
use vstd::arithmetic::div_mod::{
    lemma_fundamental_div_mod, lemma_mod_multiples_basic, lemma_multiply_divide_lt,
};

verus! {

/// The unit in which a size is shown.
#[derive(Debug, Clone, Copy, PartialEq, Eq, Structural)]
pub enum SizeUnit {
    Bytes,
    Kilobytes,
    Megabytes,
    Gigabytes,
    Terabytes,
}

/// The factor between two adjacent units.
pub const UNIT_STEP: u64 = 1024;

/// The number of bytes in one kilobyte.
pub const KILOBYTE: u64 = 1024;

/// The number of bytes in one megabyte.
pub const MEGABYTE: u64 = 1_048_576;

/// The number of bytes in one gigabyte.
pub const GIGABYTE: u64 = 1_073_741_824;

/// The number of bytes in one terabyte.
pub const TERABYTE: u64 = 1_099_511_627_776;

/// The number of bytes that make one of the unit.
pub open spec fn unit_factor(unit: SizeUnit) -> nat {
    match unit {
        SizeUnit::Bytes => 1,
        SizeUnit::Kilobytes => KILOBYTE as nat,
        SizeUnit::Megabytes => MEGABYTE as nat,
        SizeUnit::Gigabytes => GIGABYTE as nat,
        SizeUnit::Terabytes => TERABYTE as nat,
    }
}

/// What a byte count is divided by when it is shown in the unit. A count
/// below one kilobyte is shown as a fraction of a kilobyte under the name of
/// bytes, so the lowest unit divides as the next one does.
pub open spec fn unit_divisor(unit: SizeUnit) -> nat {
    match unit {
        SizeUnit::Bytes => KILOBYTE as nat,
        _ => unit_factor(unit),
    }
}

/// The binary logarithm of the unit's divisor, which bounds the number of
/// decimal places of a quotient by it.
pub open spec fn unit_places(unit: SizeUnit) -> nat {
    match unit {
        SizeUnit::Bytes => 10,
        SizeUnit::Kilobytes => 10,
        SizeUnit::Megabytes => 20,
        SizeUnit::Gigabytes => 30,
        SizeUnit::Terabytes => 40,
    }
}

/// The name of the unit as it follows the value.
pub open spec fn unit_suffix(unit: SizeUnit) -> Seq<char> {
    match unit {
        SizeUnit::Bytes => "bytes"@,
        SizeUnit::Kilobytes => "KB"@,
        SizeUnit::Megabytes => "MB"@,
        SizeUnit::Gigabytes => "GB"@,
        SizeUnit::Terabytes => "TB"@,
    }
}

/// The unit in which a count of `bytes` is shown: the largest one that the
/// count reaches.
pub open spec fn spec_unit(bytes: nat) -> SizeUnit {
    if bytes < KILOBYTE {
        SizeUnit::Bytes
    } else if bytes < MEGABYTE {
        SizeUnit::Kilobytes
    } else if bytes < GIGABYTE {
        SizeUnit::Megabytes
    } else if bytes < TERABYTE {
        SizeUnit::Gigabytes
    } else {
        SizeUnit::Terabytes
    }
}

/// The character of a decimal digit.
pub open spec fn digit_char(digit: nat) -> char {
    if digit == 0 {
        '0'
    } else if digit == 1 {
        '1'
    } else if digit == 2 {
        '2'
    } else if digit == 3 {
        '3'
    } else if digit == 4 {
        '4'
    } else if digit == 5 {
        '5'
    } else if digit == 6 {
        '6'
    } else if digit == 7 {
        '7'
    } else if digit == 8 {
        '8'
    } else {
        '9'
    }
}

/// The decimal digits of `n`, most significant first, without leading zeros.
pub open spec fn decimal(n: nat) -> Seq<char>
    decreases n,
{
    if n < 10 {
        seq![digit_char(n)]
    } else {
        decimal(n / 10).push(digit_char(n % 10))
    }
}

/// The decimal places of `remainder / divisor`, at most `places` of them, by
/// long division; the expansion stops where nothing is left to divide.
pub open spec fn fraction(remainder: nat, divisor: nat, places: nat) -> Seq<char>
    decreases places,
{
    if places == 0 || remainder == 0 {
        Seq::empty()
    } else {
        seq![digit_char(remainder * 10 / divisor)] + fraction(
            remainder * 10 % divisor,
            divisor,
            (places - 1) as nat,
        )
    }
}

/// The value of a size in its unit: the whole part, and the decimal places
/// behind a point where the division leaves a remainder.
pub open spec fn scaled_value(bytes: nat, unit: SizeUnit) -> Seq<char> {
    let divisor = unit_divisor(unit);
    let whole = decimal(bytes / divisor);
    if bytes % divisor == 0 {
        whole
    } else {
        whole + seq!['.'] + fraction(bytes % divisor, divisor, unit_places(unit))
    }
}

/// The text of a size: its value, a space and its unit.
pub open spec fn size_text(bytes: nat) -> Seq<char> {
    let unit = spec_unit(bytes);
    scaled_value(bytes, unit) + seq![' '] + unit_suffix(unit)
}

impl SizeUnit {
    /// Selects the unit for a byte count.
    pub fn of(bytes: u64) -> (unit: SizeUnit)
        ensures
            unit == spec_unit(bytes as nat),
    {
        if bytes < KILOBYTE {
            SizeUnit::Bytes
        } else if bytes < MEGABYTE {
            SizeUnit::Kilobytes
        } else if bytes < GIGABYTE {
            SizeUnit::Megabytes
        } else if bytes < TERABYTE {
            SizeUnit::Gigabytes
        } else {
            SizeUnit::Terabytes
        }
    }

    /// What a byte count is divided by when it is shown in this unit.
    pub fn divisor(&self) -> (divisor: u64)
        ensures
            divisor == unit_divisor(*self),
            0 < divisor <= TERABYTE,
    {
        match self {
            SizeUnit::Bytes => KILOBYTE,
            SizeUnit::Kilobytes => KILOBYTE,
            SizeUnit::Megabytes => MEGABYTE,
            SizeUnit::Gigabytes => GIGABYTE,
            SizeUnit::Terabytes => TERABYTE,
        }
    }

    /// The largest number of decimal places of a value in this unit.
    pub fn places(&self) -> (places: u32)
        ensures
            places == unit_places(*self),
    {
        match self {
            SizeUnit::Bytes => 10,
            SizeUnit::Kilobytes => 10,
            SizeUnit::Megabytes => 20,
            SizeUnit::Gigabytes => 30,
            SizeUnit::Terabytes => 40,
        }
    }

    /// The name of the unit.
    pub fn suffix(&self) -> (suffix: &'static str)
        ensures
            suffix@ == unit_suffix(*self),
    {
        match self {
            SizeUnit::Bytes => "bytes",
            SizeUnit::Kilobytes => "KB",
            SizeUnit::Megabytes => "MB",
            SizeUnit::Gigabytes => "GB",
            SizeUnit::Terabytes => "TB",
        }
    }
}

/// The character of the decimal digit `value`.
fn digit(value: u8) -> (c: char)
    requires
        value < 10,
    ensures
        c == digit_char(value as nat),
{
    match value {
        0 => '0',
        1 => '1',
        2 => '2',
        3 => '3',
        4 => '4',
        5 => '5',
        6 => '6',
        7 => '7',
        8 => '8',
        _ => '9',
    }
}

/// Appends the decimal digits of `n` to `out`.
pub fn push_decimal(out: &mut String, n: u64)
    ensures
        final(out)@ == old(out)@ + decimal(n as nat),
    decreases n,
{
    if n >= 10 {
        push_decimal(out, n / 10);
    }
    out.push(digit((n % 10) as u8));
    assert(out@ =~= old(out)@ + decimal(n as nat));
}

/// Appends the decimal places of `remainder / divisor` to `out`, at most
/// `places` of them. The remainder is below the divisor, and ten times the
/// divisor fits the machine's integers.
pub fn push_fraction(out: &mut String, remainder: u64, divisor: u64, places: u32)
    requires
        remainder < divisor <= u64::MAX / 10,
    ensures
        final(out)@ == old(out)@ + fraction(remainder as nat, divisor as nat, places as nat),
{
    let mut rest: u64 = remainder;
    let mut left: u32 = places;
    while rest != 0 && left > 0
        invariant
            rest < divisor <= u64::MAX / 10,
            out@ + fraction(rest as nat, divisor as nat, left as nat) == old(out)@ + fraction(
                remainder as nat,
                divisor as nat,
                places as nat,
            ),
        decreases left,
    {
        let scaled: u64 = rest * 10;
        proof {
            lemma_multiply_divide_lt(scaled as int, divisor as int, 10);
        }
        let ghost before = out@;
        out.push(digit((scaled / divisor) as u8));
        assert(before + fraction(rest as nat, divisor as nat, left as nat) =~= out@ + fraction(
            (scaled % divisor) as nat,
            divisor as nat,
            (left - 1) as nat,
        ));
        rest = scaled % divisor;
        left -= 1;
    }
    assert(out@ + Seq::<char>::empty() =~= out@);
}

/// Whether a character is a decimal digit.
pub open spec fn is_digit(c: char) -> bool {
    exists|d: nat| d < 10 && c == #[trigger] digit_char(d)
}

/// The digit that a character stands for; zero where it is no digit.
pub open spec fn digit_value(c: char) -> nat {
    if c == '1' {
        1
    } else if c == '2' {
        2
    } else if c == '3' {
        3
    } else if c == '4' {
        4
    } else if c == '5' {
        5
    } else if c == '6' {
        6
    } else if c == '7' {
        7
    } else if c == '8' {
        8
    } else if c == '9' {
        9
    } else {
        0
    }
}

/// The number that a run of decimal digits denotes, most significant first.
pub open spec fn digits_value(digits: Seq<char>) -> nat
    decreases digits.len(),
{
    if digits.len() == 0 {
        0
    } else {
        digits_value(digits.drop_last()) * 10 + digit_value(digits.last())
    }
}

/// Ten to the power of `e`.
pub open spec fn power_of_ten(e: nat) -> nat
    decreases e,
{
    if e == 0 {
        1
    } else {
        10 * power_of_ten((e - 1) as nat)
    }
}

/// Two to the power of `e`.
pub open spec fn power_of_two(e: nat) -> nat
    decreases e,
{
    if e == 0 {
        1
    } else {
        2 * power_of_two((e - 1) as nat)
    }
}

/// The unit of a count is the one whose range holds it: the count reaches the
/// unit's factor and stays below the factor of the next unit, so that in every
/// unit but the largest the count divided by the factor is below 1024.
pub proof fn lemma_unit_bounds(bytes: nat)
    ensures
        unit_factor(spec_unit(bytes)) <= bytes || spec_unit(bytes) == SizeUnit::Bytes,
        spec_unit(bytes) != SizeUnit::Terabytes ==> bytes < UNIT_STEP * unit_factor(
            spec_unit(bytes),
        ),
        spec_unit(bytes) != SizeUnit::Terabytes ==> bytes / unit_factor(spec_unit(bytes))
            < UNIT_STEP,
        spec_unit(bytes) == SizeUnit::Terabytes <==> bytes >= TERABYTE,
{
    match spec_unit(bytes) {
        SizeUnit::Bytes => {},
        SizeUnit::Kilobytes => {
            assert(bytes / 1024 < 1024);
        },
        SizeUnit::Megabytes => {
            assert(bytes / 1_048_576 < 1024);
        },
        SizeUnit::Gigabytes => {
            assert(bytes / 1_073_741_824 < 1024);
        },
        SizeUnit::Terabytes => {},
    }
}

/// No unit larger than the chosen one is reached by the count.
pub proof fn lemma_unit_is_largest(bytes: nat, other: SizeUnit)
    requires
        unit_factor(other) <= bytes,
    ensures
        unit_factor(other) <= unit_factor(spec_unit(bytes)),
{
}

/// Each unit's divisor is two to the power of its number of places.
pub proof fn lemma_unit_divisor_power(unit: SizeUnit)
    ensures
        unit_divisor(unit) == power_of_two(unit_places(unit)),
{
    lemma_power_of_two_adds(10, 10);
    lemma_power_of_two_adds(20, 10);
    lemma_power_of_two_adds(30, 10);
    assert(power_of_two(10) == 1024) by {
        reveal_with_fuel(power_of_two, 11);
    }
}

/// Powers of two multiply by adding their exponents.
pub proof fn lemma_power_of_two_adds(a: nat, b: nat)
    ensures
        power_of_two(a + b) == power_of_two(a) * power_of_two(b),
    decreases a,
{
    let left = power_of_two(a);
    let right = power_of_two(b);
    if a == 0 {
        assert(left * right == right) by (nonlinear_arith)
            requires
                left == 1,
        ;
    } else {
        let below = power_of_two((a - 1) as nat);
        lemma_power_of_two_adds((a - 1) as nat, b);
        assert(power_of_two(a + b) == 2 * power_of_two((a - 1) as nat + b));
        assert(2 * (below * right) == left * right) by (nonlinear_arith)
            requires
                left == 2 * below,
        ;
    }
}

/// A digit in front of a run of digits counts for as many tens as the run is long.
pub proof fn lemma_digits_value_prepend(c: char, digits: Seq<char>)
    ensures
        digits_value(seq![c] + digits) == digit_value(c) * power_of_ten(digits.len())
            + digits_value(digits),
    decreases digits.len(),
{
    let all = seq![c] + digits;
    if digits.len() == 0 {
        assert(all.drop_last() =~= Seq::<char>::empty());
        assert(digits_value(all.drop_last()) == 0);
    } else {
        assert(all.drop_last() =~= seq![c] + digits.drop_last());
        assert(all.last() == digits.last());
        lemma_digits_value_prepend(c, digits.drop_last());
        let head = digit_value(c);
        let ten: nat = power_of_ten((digits.len() - 1) as nat);
        assert((head * ten + digits_value(digits.drop_last())) * 10 == head * (10 * ten)
            + digits_value(digits.drop_last()) * 10) by (nonlinear_arith);
    }
}

/// The decimal digits of a number denote it, are digits throughout, and begin
/// with a zero only where the number is zero.
pub proof fn lemma_decimal_denotes(n: nat)
    ensures
        digits_value(decimal(n)) == n,
        decimal(n).len() >= 1,
        forall|i: int| 0 <= i < decimal(n).len() ==> is_digit(#[trigger] decimal(n)[i]),
        decimal(n)[0] == '0' <==> n == 0,
        n == 0 ==> decimal(n) == seq!['0'],
    decreases n,
{
    if n < 10 {
        assert(decimal(n).drop_last() =~= Seq::<char>::empty());
        assert(digits_value(decimal(n).drop_last()) == 0);
        assert(is_digit(digit_char(n)));
    } else {
        lemma_decimal_denotes(n / 10);
        let digits = decimal(n);
        assert(digits.drop_last() =~= decimal(n / 10));
        assert(is_digit(digit_char(n % 10)));
    }
}

/// The decimal places that long division writes denote the quotient exactly:
/// where the divisor divides the remainder times two to the number of places,
/// nothing is left over, so the places, read as a number, stand to ten to their
/// count as the remainder stands to the divisor. They are digits throughout and
/// never end with a zero.
pub proof fn lemma_fraction_denotes(remainder: nat, divisor: nat, places: nat)
    requires
        remainder < divisor,
        (remainder * power_of_two(places)) % divisor == 0,
    ensures
        fraction(remainder, divisor, places).len() <= places,
        remainder > 0 <==> fraction(remainder, divisor, places).len() > 0,
        remainder > 0 ==> fraction(remainder, divisor, places).last() != '0',
        forall|i: int|
            0 <= i < fraction(remainder, divisor, places).len() ==> is_digit(
                #[trigger] fraction(remainder, divisor, places)[i],
            ),
        digits_value(fraction(remainder, divisor, places)) * divisor == remainder * power_of_ten(
            fraction(remainder, divisor, places).len(),
        ),
    decreases places,
{
    let all = fraction(remainder, divisor, places);
    if places == 0 {
        assert(remainder == 0) by {
            let one = power_of_two(0);
            assert(remainder * one == remainder) by (nonlinear_arith)
                requires
                    one == 1,
            ;
            vstd::arithmetic::div_mod::lemma_small_mod(remainder, divisor);
        }
        assert(digits_value(all) == 0);
        assert(digits_value(all) * divisor == remainder * power_of_ten(all.len()))
            by (nonlinear_arith)
            requires
                digits_value(all) == 0,
                remainder == 0,
        ;
    } else if remainder == 0 {
        assert(digits_value(all) == 0);
        assert(digits_value(all) * divisor == remainder * power_of_ten(all.len()))
            by (nonlinear_arith)
            requires
                digits_value(all) == 0,
                remainder == 0,
        ;
    } else {
        let scaled = remainder * 10;
        let quotient = scaled / divisor;
        let rest = scaled % divisor;
        let fewer = (places - 1) as nat;
        let tail = fraction(rest, divisor, fewer);
        assert(all == seq![digit_char(quotient)] + tail);
        lemma_fundamental_div_mod(scaled as int, divisor as int);
        lemma_multiply_divide_lt(scaled as int, divisor as int, 10);
        assert(0 <= quotient < 10) by {
            vstd::arithmetic::div_mod::lemma_div_pos_is_pos(scaled as int, divisor as int);
        }
        assert(scaled == divisor * quotient + rest);
        // What is left still divides out within the places that remain.
        assert((rest * power_of_two(fewer)) % divisor == 0) by {
            let whole = remainder * power_of_two(places);
            let cofactor = whole / divisor;
            lemma_fundamental_div_mod(whole as int, divisor as int);
            assert(whole == divisor * cofactor);
            assert(power_of_two(places) == 2 * power_of_two(fewer));
            let multiple = 5 * cofactor - quotient * power_of_two(fewer);
            assert(rest * power_of_two(fewer) == multiple * divisor) by (nonlinear_arith)
                requires
                    remainder * 10 == divisor * quotient + rest,
                    remainder * (2 * power_of_two(fewer)) == divisor * cofactor,
                    multiple == 5 * cofactor - quotient * power_of_two(fewer),
            ;
            lemma_mod_multiples_basic(multiple, divisor as int);
        }
        lemma_fraction_denotes(rest, divisor, fewer);
        lemma_digits_value_prepend(digit_char(quotient), tail);
        assert(digit_value(digit_char(quotient)) == quotient);
        assert(is_digit(digit_char(quotient)));
        assert(digits_value(all) * divisor == remainder * power_of_ten(all.len()))
            by (nonlinear_arith)
            requires
                digits_value(all) == quotient * power_of_ten(tail.len()) + digits_value(tail),
                digits_value(tail) * divisor == rest * power_of_ten(tail.len()),
                remainder * 10 == divisor * quotient + rest,
                power_of_ten(all.len()) == 10 * power_of_ten(tail.len()),
        ;
        if rest == 0 {
            assert(quotient != 0) by (nonlinear_arith)
                requires
                    remainder * 10 == divisor * quotient + rest,
                    rest == 0,
                    remainder > 0,
            ;
        } else {
            assert(all.last() == tail.last());
        }
        assert forall|i: int| 0 <= i < all.len() implies is_digit(#[trigger] all[i]) by {
            if i > 0 {
                assert(all[i] == tail[i - 1]);
            }
        }
    }
}

/// The value shown for a size is the exact quotient of the byte count by the
/// unit's divisor: with the decimal places moved in front of the point, the
/// digits shown, times the divisor, are the count times the matching power of ten.
pub proof fn lemma_scaled_value_exact(bytes: nat)
    ensures
        ({
            let unit = spec_unit(bytes);
            let divisor = unit_divisor(unit);
            let whole = decimal(bytes / divisor);
            let places = fraction(bytes % divisor, divisor, unit_places(unit));
            &&& scaled_value(bytes, unit) == if places.len() == 0 {
                whole
            } else {
                whole + seq!['.'] + places
            }
            &&& (digits_value(whole) * power_of_ten(places.len()) + digits_value(places)) * divisor
                == bytes * power_of_ten(places.len())
        }),
{
    let unit = spec_unit(bytes);
    let divisor = unit_divisor(unit);
    let rest = bytes % divisor;
    let whole = decimal(bytes / divisor);
    let places = fraction(rest, divisor, unit_places(unit));
    lemma_unit_divisor_power(unit);
    lemma_mod_multiples_basic(rest as int, divisor as int);
    lemma_fraction_denotes(rest, divisor, unit_places(unit));
    lemma_decimal_denotes(bytes / divisor);
    lemma_fundamental_div_mod(bytes as int, divisor as int);
    let ten = power_of_ten(places.len());
    assert((digits_value(whole) * ten + digits_value(places)) * divisor == bytes * ten)
        by (nonlinear_arith)
        requires
            digits_value(whole) == bytes / divisor,
            digits_value(places) * divisor == rest * ten,
            bytes == divisor * (bytes / divisor) + rest,
    ;
}

} // verus!
