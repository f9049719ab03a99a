//! Numbers and identifiers as display text.

use lexical_core::Number;
use vstd::prelude::*;
use vstd::string::*;

verus! {

/// The number of nano-AVAX in one AVAX.
pub const NANO_PER_AVAX: u64 = 1_000_000_000;

/// The digit `d` as a character.
pub open spec fn digit(d: nat) -> u8
    recommends
        d < 10,
{
    (48 + d) as u8
}

/// `n` in decimal: no sign, no leading zero, `0` for zero.
pub open spec fn decimal_digits(n: nat) -> Seq<u8>
    decreases n,
{
    if n < 10 {
        seq![digit(n)]
    } else {
        decimal_digits(n / 10).push(digit(n % 10))
    }
}

/// The `places` lowest decimal digits of `n`, highest first, zeros included.
pub open spec fn low_digits(n: nat, places: nat) -> Seq<u8>
    decreases places,
{
    if places == 0 {
        Seq::empty()
    } else {
        low_digits(n / 10, (places - 1) as nat).push(digit(n % 10))
    }
}

/// `s` without its trailing zero characters, of which one is kept when the
/// text would otherwise end in nothing.
pub open spec fn trim_zeros(s: Seq<u8>) -> Seq<u8>
    decreases s.len(),
{
    if s.len() > 1 && s.last() == 48 {
        trim_zeros(s.drop_last())
    } else {
        s
    }
}

/// An amount of nano-AVAX in AVAX: the whole part, a point, and the nine
/// fraction digits without trailing zeros (`2000.0`, `0.5`, `0.000000001`).
pub open spec fn fixed_point(value: u64) -> Seq<u8> {
    decimal_digits((value / NANO_PER_AVAX) as nat) + seq![46u8] + trim_zeros(
        low_digits((value % NANO_PER_AVAX) as nat, 9),
    )
}

/// The seconds of a day.
pub const SECONDS_PER_DAY: u64 = 86_400;

/// The year, month and day of the proleptic Gregorian calendar that lie
/// `days` days behind the first of January 1970. Years are counted from the
/// first of March, in eras of 400 years, so that a leap day ends its year.
pub open spec fn civil_from_days(days: int) -> (int, int, int) {
    let shifted = days + 719_468;
    let era = shifted / 146_097;
    let day_of_era = shifted % 146_097;
    let year_of_era = (day_of_era - day_of_era / 1_460 + day_of_era / 36_524 - day_of_era
        / 146_096) / 365;
    let day_of_year = day_of_era - (365 * year_of_era + year_of_era / 4 - year_of_era / 100);
    let shifted_month = (5 * day_of_year + 2) / 153;
    let day = day_of_year - (153 * shifted_month + 2) / 5 + 1;
    let month = if shifted_month < 10 {
        shifted_month + 3
    } else {
        shifted_month - 9
    };
    let year = year_of_era + era * 400 + if month <= 2 {
        1int
    } else {
        0int
    };
    (year, month, day)
}

/// A point in time, given in seconds since the Unix epoch, as date and time
/// of day: `2021-05-31 21:28:00 UTC`.
pub open spec fn time_text(seconds: u64) -> Seq<u8> {
    let (year, month, day) = civil_from_days((seconds / SECONDS_PER_DAY) as int);
    let time = (seconds % SECONDS_PER_DAY) as nat;
    decimal_digits(year as nat) + seq![45u8] + low_digits(month as nat, 2) + seq![45u8]
        + low_digits(day as nat, 2) + seq![32u8] + low_digits(time / 3600, 2) + seq![58u8]
        + low_digits(time % 3600 / 60, 2) + seq![58u8] + low_digits(time % 60, 2)
        + " UTC".spec_bytes()
}

/// The character of a value below sixteen, in lower-case hexadecimal.
pub open spec fn hex_digit(v: u8) -> u8
    recommends
        v < 16,
{
    if v < 10 {
        (48 + v) as u8
    } else {
        (87 + v) as u8
    }
}

/// Two lower-case hexadecimal characters for each byte, high half first.
pub open spec fn hex_text(bytes: Seq<u8>) -> Seq<u8> {
    Seq::new(
        2 * bytes.len(),
        |i: int|
            hex_digit(
                if i % 2 == 0 {
                    bytes[i / 2] / 16
                } else {
                    bytes[i / 2] % 16
                },
            ),
    )
}

/// `lexical_core::write` for a `u64`, on a buffer of the size the crate asks
/// for: the number in decimal, without sign or padding.
#[verifier::external_body]
fn write_u64(value: u64) -> (r: Vec<u8>)
    ensures
        r@ == decimal_digits(value as nat),
{
    let mut buffer = [0u8; u64::FORMATTED_SIZE_DECIMAL];
    lexical_core::write(value, &mut buffer).to_vec()
}

/// Appends the two lowest decimal digits of `value`.
fn push_two_digits(text: &mut Vec<u8>, value: u64)
    ensures
        final(text)@ == old(text)@ + low_digits(value as nat, 2),
{
    text.push(48 + (value / 10 % 10) as u8);
    text.push(48 + (value % 10) as u8);
    assert(low_digits(value as nat, 2) =~= seq![digit((value / 10 % 10) as nat), digit((value % 10) as nat)]) by {
        reveal_with_fuel(low_digits, 3);
    }
    assert(text@ =~= old(text)@ + low_digits(value as nat, 2));
}

/// The calendar date of a day.
fn date_of_day(days: u64) -> (r: (u64, u64, u64))
    requires
        days <= u64::MAX / SECONDS_PER_DAY,
    ensures
        (r.0 as int, r.1 as int, r.2 as int) == civil_from_days(days as int),
{
    let shifted: u64 = days + 719_468;
    let era: u64 = shifted / 146_097;
    let day_of_era: u64 = shifted % 146_097;
    let year_of_era: u64 = (day_of_era - day_of_era / 1_460 + day_of_era / 36_524 - day_of_era
        / 146_096) / 365;
    assert(year_of_era <= 399);
    assert(365 * year_of_era + year_of_era / 4 - year_of_era / 100 <= day_of_era);
    let day_of_year: u64 = day_of_era - (365 * year_of_era + year_of_era / 4 - year_of_era / 100);
    assert(day_of_year <= 365);
    let shifted_month: u64 = (5 * day_of_year + 2) / 153;
    let day: u64 = day_of_year - (153 * shifted_month + 2) / 5 + 1;
    let month: u64 = if shifted_month < 10 {
        shifted_month + 3
    } else {
        shifted_month - 9
    };
    let year: u64 = year_of_era + era * 400 + if month <= 2 {
        1
    } else {
        0
    };
    (year, month, day)
}

/// A point in time as display text.
pub fn timestamp_to_str(seconds: u64) -> (r: Vec<u8>)
    ensures
        r@ == time_text(seconds),
{
    let (year, month, day) = date_of_day(seconds / SECONDS_PER_DAY);
    let time: u64 = seconds % SECONDS_PER_DAY;
    let mut text = write_u64(year);
    text.push(45u8);
    push_two_digits(&mut text, month);
    text.push(45u8);
    push_two_digits(&mut text, day);
    text.push(32u8);
    push_two_digits(&mut text, time / 3600);
    text.push(58u8);
    push_two_digits(&mut text, time % 3600 / 60);
    text.push(58u8);
    push_two_digits(&mut text, time % 60);
    append(&mut text, " UTC".as_bytes());
    assert(text@ =~= time_text(seconds));
    text
}

/// Appends the bytes of `tail` to `text`.
pub fn append(text: &mut Vec<u8>, tail: &[u8])
    ensures
        final(text)@ == old(text)@ + tail@,
{
    let mut i: usize = 0;
    while i < tail.len()
        invariant
            i <= tail@.len(),
            text@ == old(text)@ + tail@.take(i as int),
        decreases tail@.len() - i,
    {
        text.push(tail[i]);
        i += 1;
        assert(tail@.take(i as int) =~= tail@.take(i - 1).push(tail@[i - 1]));
        assert(text@ =~= old(text)@ + tail@.take(i as int));
    }
    assert(tail@.take(tail@.len() as int) =~= tail@);
}

/// An amount of nano-AVAX as AVAX in fixed-point decimal.
pub fn nano_avax_to_fp_str(value: u64) -> (r: Vec<u8>)
    ensures
        r@ == fixed_point(value),
{
    let mut text = write_u64(value / NANO_PER_AVAX);
    text.push(46u8);
    let fraction: u64 = value % NANO_PER_AVAX;
    let mut digits = [48u8; 9];
    let mut left: u64 = fraction;
    let mut k: usize = 9;
    while k > 0
        invariant
            k <= 9,
            low_digits(fraction as nat, 9) == low_digits(left as nat, k as nat) + digits@.skip(
                k as int,
            ),
        decreases k,
    {
        let ghost before = digits@;
        k -= 1;
        digits[k] = 48 + (left % 10) as u8;
        assert(low_digits(left as nat, (k + 1) as nat) + before.skip(k + 1) =~= low_digits(
            (left / 10) as nat,
            k as nat,
        ) + digits@.skip(k as int));
        left = left / 10;
    }
    assert(digits@ =~= low_digits(fraction as nat, 9));
    let mut end: usize = 9;
    while end > 1 && digits[end - 1] == 48
        invariant
            1 <= end <= 9,
            trim_zeros(digits@) == trim_zeros(digits@.take(end as int)),
        decreases end,
    {
        assert(digits@.take(end as int).drop_last() =~= digits@.take(end - 1));
        end -= 1;
    }
    let kept = vstd::slice::slice_subrange(digits.as_slice(), 0, end);
    append(&mut text, kept);
    text
}

/// One hexadecimal character.
fn hex_char(v: u8) -> (r: u8)
    requires
        v < 16,
    ensures
        r == hex_digit(v),
{
    if v < 10 {
        48 + v
    } else {
        87 + v
    }
}

/// Bytes in lower-case hexadecimal.
pub fn hex_encode(bytes: &[u8]) -> (r: Vec<u8>)
    ensures
        r@ == hex_text(bytes@),
{
    let mut text: Vec<u8> = Vec::new();
    let mut i: usize = 0;
    while i < bytes.len()
        invariant
            i <= bytes@.len(),
            text@ == hex_text(bytes@.take(i as int)),
        decreases bytes@.len() - i,
    {
        text.push(hex_char(bytes[i] / 16));
        text.push(hex_char(bytes[i] % 16));
        i += 1;
        assert(text@ =~= hex_text(bytes@.take(i as int)));
    }
    assert(bytes@.take(bytes@.len() as int) =~= bytes@);
    text
}

} // verus!
