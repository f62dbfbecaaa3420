use vstd::prelude::*;
use vstd::string::StringSliceAdditionalSpecFns;
use crate::decimal::{all_digits, decimal_value, is_digit, is_digit_run, read_decimal,
    lemma_decimal_grows, lemma_decimal_same_digits, lemma_decimal_below_power, power_of_ten};
use crate::error::DecodeError;

verus! {

/// Whether `letter` names a hemisphere whose coordinates are written negative:
/// `S` and `E`. Every other byte, `N` and `W` among them, leaves the sign alone.
pub open spec fn flips_sign(letter: u8) -> bool {
    letter == 0x53 || letter == 0x45
}

/// The angle that the digits of a coordinate field write, in thousandths of an
/// arc-minute, of which a degree has 60000: the first `width` digits are whole
/// degrees, the next five are minutes and thousandths of a minute, read as one
/// number with no separator.
pub open spec fn coordinate_magnitude(width: int, field: Seq<u8>) -> int {
    60000 * decimal_value(field, 0, width) + decimal_value(field, width, width + 5)
}

/// What a coordinate field decodes to. The field is `width` digits of degrees,
/// five digits of minutes and a hemisphere letter; bytes after the letter are
/// not looked at.
pub open spec fn coordinate_of(width: int, field: Seq<u8>) -> Result<i32, DecodeError> {
    if field.len() < width + 6 {
        Err(DecodeError::TooShort)
    } else if width <= 0 || !all_digits(field, 0, width + 5) {
        Err(DecodeError::NotNumeric)
    } else if coordinate_magnitude(width, field) > i32::MAX {
        Err(DecodeError::OutOfRange)
    } else if flips_sign(field[width + 5]) {
        Ok((-coordinate_magnitude(width, field)) as i32)
    } else {
        Ok(coordinate_magnitude(width, field) as i32)
    }
}

/// Whether `byte` is a sign that may stand before the digits of an altitude.
pub open spec fn is_sign(byte: u8) -> bool {
    byte == 0x2b || byte == 0x2d
}

/// What an altitude field decodes to: an optional `+` or `-`, then at least one
/// digit and nothing else, read as a decimal number of metres.
pub open spec fn altitude_of(field: Seq<u8>) -> Result<i32, DecodeError> {
    let start: int = if field.len() > 0 && is_sign(field[0]) { 1 } else { 0 };
    let magnitude = decimal_value(field, start, field.len() as int);
    let value = if start == 1 && field[0] == 0x2d { -magnitude } else { magnitude };
    if field.len() <= start || !all_digits(field, start, field.len() as int) {
        Err(DecodeError::NotNumeric)
    } else if value < i32::MIN || value > i32::MAX {
        Err(DecodeError::OutOfRange)
    } else {
        Ok(value as i32)
    }
}

/// Decodes the coordinate field that `field` begins with.
pub(crate) fn coordinate_in(width: usize, field: &[u8]) -> (r: Result<i32, DecodeError>)
    ensures
        r == coordinate_of(width as int, field@),
{
    let n: usize = field.len();
    if n < 6 || width > n - 6 {
        return Err(DecodeError::TooShort);
    }
    let letter_at: usize = width + 5;
    if width == 0 || !is_digit_run(field, 0, letter_at) {
        return Err(DecodeError::NotNumeric);
    }
    proof {
        lemma_decimal_grows(field@, 0, 0, width as int);
        lemma_decimal_grows(field@, width as int, width as int, letter_at as int);
    }
    let degrees: u32 = match read_decimal(field, 0, width) {
        Some(v) => v,
        None => {
            return Err(DecodeError::OutOfRange);
        },
    };
    let minutes: u32 = match read_decimal(field, width, letter_at) {
        Some(v) => v,
        None => {
            return Err(DecodeError::OutOfRange);
        },
    };
    let magnitude: u64 = degrees as u64 * 60000 + minutes as u64;
    if magnitude > 0x7fff_ffff {
        return Err(DecodeError::OutOfRange);
    }
    let letter: u8 = field[letter_at];
    if letter == 0x53 || letter == 0x45 {
        Ok(-(magnitude as i32))
    } else {
        Ok(magnitude as i32)
    }
}

/// Decodes a coordinate field: `hpart` digits of whole degrees (2 for a
/// latitude, 3 for a longitude), five digits of minutes and thousandths, and a
/// hemisphere letter. The result counts thousandths of an arc-minute, negative
/// for `S` and for `E`.
pub fn parse_coordinate(hpart: usize, s: &str) -> (r: Result<i32, DecodeError>)
    ensures
        r == coordinate_of(hpart as int, s.spec_bytes()),
{
    coordinate_in(hpart, s.as_bytes())
}

/// Decodes the altitude that the whole of `field` writes.
pub(crate) fn altitude_in(field: &[u8]) -> (r: Result<i32, DecodeError>)
    ensures
        r == altitude_of(field@),
{
    let n: usize = field.len();
    let signed: bool = n > 0 && (field[0] == 0x2b || field[0] == 0x2d);
    let start: usize = if signed { 1 } else { 0 };
    if n <= start || !is_digit_run(field, start, n) {
        return Err(DecodeError::NotNumeric);
    }
    let negative: bool = signed && field[0] == 0x2d;
    match read_decimal(field, start, n) {
        None => Err(DecodeError::OutOfRange),
        Some(magnitude) => {
            if negative {
                if magnitude > 0x8000_0000 {
                    Err(DecodeError::OutOfRange)
                } else {
                    Ok((0 - magnitude as i64) as i32)
                }
            } else if magnitude > 0x7fff_ffff {
                Err(DecodeError::OutOfRange)
            } else {
                Ok(magnitude as i32)
            }
        },
    }
}

/// Decodes an altitude field: metres as a decimal number, with leading zeros
/// and an optional sign.
pub fn parse_altitude(field: &str) -> (r: Result<i32, DecodeError>)
    ensures
        r == altitude_of(field.spec_bytes()),
{
    altitude_in(field.as_bytes())
}

/// The hemisphere letter decides the sign and nothing else. Of two fields with
/// the same digits, one with a letter that leaves the sign alone and one with
/// `S` or `E`, the first decodes to a number that is not negative and the
/// second to its negation; where the digits are refused, both are refused alike.
pub proof fn lemma_hemisphere_sign(width: int, plain: Seq<u8>, flipped: Seq<u8>)
    requires
        plain.len() >= width + 6,
        flipped.len() >= width + 6,
        forall|i: int| 0 <= i < width + 5 ==> plain[i] == flipped[i],
        !flips_sign(plain[width + 5]),
        flips_sign(flipped[width + 5]),
    ensures
        match coordinate_of(width, plain) {
            Ok(v) => v >= 0 && coordinate_of(width, flipped) == Ok::<i32, DecodeError>((-v) as i32),
            Err(e) => coordinate_of(width, flipped) == Err::<i32, DecodeError>(e),
        },
{
    if width > 0 {
        lemma_decimal_same_digits(plain, flipped, 0, width);
        lemma_decimal_same_digits(plain, flipped, width, width + 5);
        assert(all_digits(plain, 0, width + 5) == all_digits(flipped, 0, width + 5)) by {
            if all_digits(plain, 0, width + 5) {
                assert forall|i: int| 0 <= i < width + 5 implies is_digit(#[trigger] flipped[i]) by {
                    assert(is_digit(plain[i]));
                }
            }
            if all_digits(flipped, 0, width + 5) {
                assert forall|i: int| 0 <= i < width + 5 implies is_digit(#[trigger] plain[i]) by {
                    assert(is_digit(flipped[i]));
                }
            }
        }
        if all_digits(plain, 0, width + 5) {
            lemma_decimal_grows(plain, 0, 0, width);
            lemma_decimal_grows(plain, width, width, width + 5);
        }
    }
}

/// With at most four digits of degrees the angle always fits: such a field is
/// never refused as out of range. The minutes block is not held below sixty
/// minutes, so the angle may pass the last whole degree that the digits can
/// write by up to `99999` thousandths of a minute.
pub proof fn lemma_coordinate_fits(width: int, field: Seq<u8>)
    requires
        1 <= width <= 4,
    ensures
        coordinate_of(width, field) != Err::<i32, DecodeError>(DecodeError::OutOfRange),
        coordinate_of(width, field) matches Ok(v) ==> -(60000 * power_of_ten(width as nat) + 40000)
            < v < 60000 * power_of_ten(width as nat) + 40000,
{
    if field.len() >= width + 6 && all_digits(field, 0, width + 5) {
        lemma_decimal_grows(field, 0, 0, width);
        lemma_decimal_grows(field, width, width, width + 5);
        lemma_decimal_below_power(field, 0, width);
        lemma_decimal_below_power(field, width, width + 5);
        reveal_with_fuel(power_of_ten, 6);
    }
}

/// An altitude field of at most nine bytes is never refused as out of range,
/// and what it decodes to has no more digits than the field has room for.
pub proof fn lemma_altitude_fits(field: Seq<u8>)
    requires
        field.len() <= 9,
    ensures
        altitude_of(field) != Err::<i32, DecodeError>(DecodeError::OutOfRange),
        altitude_of(field) matches Ok(v) ==> -power_of_ten((field.len() - 1) as nat) < v
            < power_of_ten(field.len()),
{
    let n = field.len() as int;
    let start: int = if n > 0 && is_sign(field[0]) { 1 } else { 0 };
    if n > start && all_digits(field, start, n) {
        lemma_decimal_grows(field, start, start, n);
        lemma_decimal_below_power(field, start, n);
        reveal_with_fuel(power_of_ten, 10);
    }
}

} // verus!
