//! Hexadecimal digits of bytes, as used by percent-encoding.
use vstd::prelude::*;

verus! {

/// `'0'`
pub const ASCII_0: u8 = 0x30;
/// `'9'`
pub const ASCII_9: u8 = 0x39;
/// `'a'`
pub const ASCII_LOWER_A: u8 = 0x61;
/// `'f'`
pub const ASCII_LOWER_F: u8 = 0x66;
/// `'A'`
pub const ASCII_UPPER_A: u8 = 0x41;
/// `'F'`
pub const ASCII_UPPER_F: u8 = 0x46;

/// The upper-case ASCII hex digit for a value below 16.
pub open spec fn hex_digit(n: u8) -> u8
    recommends
        n < 16,
{
    if n < 10 {
        (ASCII_0 + n) as u8
    } else {
        (ASCII_UPPER_A + (n - 10)) as u8
    }
}

/// The value of an ASCII hex digit (`0-9`, `a-f`, `A-F`), or `None` for any other byte.
pub open spec fn hex_value(d: u8) -> Option<u8> {
    if ASCII_0 <= d <= ASCII_9 {
        Some((d - ASCII_0) as u8)
    } else if ASCII_LOWER_A <= d <= ASCII_LOWER_F {
        Some((d - ASCII_LOWER_A + 10) as u8)
    } else if ASCII_UPPER_A <= d <= ASCII_UPPER_F {
        Some((d - ASCII_UPPER_A + 10) as u8)
    } else {
        None
    }
}

/// Whether a byte is an ASCII hex digit.
pub open spec fn is_hex_digit(d: u8) -> bool {
    ||| ASCII_0 <= d <= ASCII_9
    ||| ASCII_LOWER_A <= d <= ASCII_LOWER_F
    ||| ASCII_UPPER_A <= d <= ASCII_UPPER_F
}

/// The byte that two hex digits stand for, high digit first.
pub open spec fn hex_pair_value(hi: u8, lo: u8) -> Option<u8> {
    match (hex_value(hi), hex_value(lo)) {
        (Some(h), Some(l)) => Some((h * 16 + l) as u8),
        _ => None,
    }
}

/// Converts a byte to (hi, lo) hex digits.
pub fn to_hex(byte: u8) -> (r: (u8, u8))
    ensures
        r == (hex_digit(byte / 16), hex_digit(byte % 16)),
{
    assert(byte >> 4 == byte / 16 && byte & 0x0F == byte % 16) by (bit_vector);
    (digit_of(byte >> 4), digit_of(byte & 0x0F))
}

/// The upper-case hex digit of a value below 16.
fn digit_of(n: u8) -> (r: u8)
    requires
        n < 16,
    ensures
        r == hex_digit(n),
{
    if n < 10 {
        ASCII_0 + n
    } else {
        ASCII_UPPER_A + (n - 10)
    }
}

/// Converts a hi and lo hex digit to a byte.
pub fn from_hex(hi: u8, lo: u8) -> (r: Option<u8>)
    ensures
        r == hex_pair_value(hi, lo),
        r is Some <==> (is_hex_digit(hi) && is_hex_digit(lo)),
{
    let h = match from_hex_digit(hi) {
        Some(h) => h,
        None => return None,
    };
    let l = match from_hex_digit(lo) {
        Some(l) => l,
        None => return None,
    };
    assert(h < 16 && l < 16 ==> (h << 4) | l == h * 16 + l) by (bit_vector);
    Some((h << 4) | l)
}

/// Converts a hex digit into the corresponding value.
///
/// Letters are folded to lower case by setting bit 5, which only maps `A-F` into `a-f`.
fn from_hex_digit(digit: u8) -> (r: Option<u8>)
    ensures
        r == hex_value(digit),
        r matches Some(v) ==> v < 16,
{
    if ASCII_0 <= digit && digit <= ASCII_9 {
        assert(ASCII_0 <= digit <= ASCII_9 ==> digit & 0x0F == digit - ASCII_0) by (bit_vector);
        return Some(digit & 0x0F);
    }
    let folded = digit | 0x20;
    assert(!(ASCII_0 <= digit <= ASCII_9) ==> (
        (ASCII_LOWER_A <= (digit | 0x20) <= ASCII_LOWER_F) <==> (ASCII_LOWER_A <= digit <= ASCII_LOWER_F || ASCII_UPPER_A <= digit <= ASCII_UPPER_F)
    )) by (bit_vector);
    if ASCII_LOWER_A <= folded && folded <= ASCII_LOWER_F {
        assert(ASCII_LOWER_A <= (digit | 0x20) <= ASCII_LOWER_F && ASCII_LOWER_A <= digit <= ASCII_LOWER_F
            ==> 9 + ((digit | 0x20) & 0x0F) == digit - ASCII_LOWER_A + 10) by (bit_vector);
        assert(ASCII_LOWER_A <= (digit | 0x20) <= ASCII_LOWER_F && ASCII_UPPER_A <= digit <= ASCII_UPPER_F
            ==> 9 + ((digit | 0x20) & 0x0F) == digit - ASCII_UPPER_A + 10) by (bit_vector);
        return Some(9 + (folded & 0x0F));
    }
    None
}

/// Reading back the two hex digits of a byte gives the byte again.
pub proof fn lemma_hex_roundtrip(b: u8)
    ensures
        hex_pair_value(hex_digit(b / 16), hex_digit(b % 16)) == Some(b),
        is_hex_digit(hex_digit(b / 16)),
        is_hex_digit(hex_digit(b % 16)),
{
}

/// The digit of a value below 16 is `0`-`9` or an upper-case `A`-`F`, and reads back as the
/// value; a digit of either case reads as the value it stands for.
pub proof fn lemma_hex_digits(n: u8, k: u8)
    requires
        n < 16,
        k < 6,
    ensures
        hex_value(hex_digit(n)) == Some(n),
        n < 10 ==> hex_digit(n) == ASCII_0 + n,
        n >= 10 ==> hex_digit(n) == ASCII_UPPER_A + (n - 10),
        k < 10 ==> hex_value((ASCII_0 + k) as u8) == Some(k),
        hex_value((ASCII_LOWER_A + k) as u8) == Some((10 + k) as u8),
        hex_value((ASCII_UPPER_A + k) as u8) == Some((10 + k) as u8),
{
}

} // verus!
