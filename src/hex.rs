//! Hexadecimal digits: their characters, their values, and the two-digit
//! form of a byte.
use vstd::prelude::*;

verus! {

/// The upper-case hexadecimal digits, in order of value.
pub open spec fn hex_digits() -> Seq<char> {
    seq!['0', '1', '2', '3', '4', '5', '6', '7', '8', '9', 'A', 'B', 'C', 'D', 'E', 'F']
}

/// The upper-case digit for a value below sixteen.
pub open spec fn hex_char(d: int) -> char
    recommends
        0 <= d < 16,
{
    hex_digits()[d]
}

/// Whether `c` is a hexadecimal digit, in either case.
pub open spec fn is_hex_digit(c: char) -> bool {
    ('0' <= c && c <= '9') || ('A' <= c && c <= 'F') || ('a' <= c && c <= 'f')
}

/// The value of a hexadecimal digit.
pub open spec fn hex_value(c: char) -> int {
    if '0' <= c && c <= '9' {
        c as int - '0' as int
    } else if 'A' <= c && c <= 'F' {
        c as int - 'A' as int + 10
    } else {
        c as int - 'a' as int + 10
    }
}

/// A byte as two upper-case digits, most significant first.
pub open spec fn hex2(b: u8) -> Seq<char> {
    seq![hex_char(b as int / 16), hex_char(b as int % 16)]
}

/// The byte that two hexadecimal digits stand for, if they are two digits.
pub open spec fn parse_hex2(s: Seq<char>) -> Option<u8> {
    if s.len() == 2 && is_hex_digit(s[0]) && is_hex_digit(s[1]) {
        Some((16 * hex_value(s[0]) + hex_value(s[1])) as u8)
    } else {
        None
    }
}

/// The characters of a string, in order.
pub fn chars_of(s: &str) -> (r: Vec<char>)
    ensures
        r@ == s@,
{
    let mut r: Vec<char> = Vec::new();
    for c in it: s.chars()
        invariant
            it.seq() == s@,
            r@ == it.seq().take(it.index() as int),
    {
        r.push(c);
    }
    r
}

/// The value of one digit character, or `None` where `c` is no hexadecimal digit.
fn digit_value(c: char) -> (r: Option<u8>)
    ensures
        r matches Some(v) ==> is_hex_digit(c) && v as int == hex_value(c) && v < 16,
        r is None ==> !is_hex_digit(c),
{
    if '0' <= c && c <= '9' {
        Some(((c as u32) - 48) as u8)
    } else if 'A' <= c && c <= 'F' {
        Some(((c as u32) - 55) as u8)
    } else if 'a' <= c && c <= 'f' {
        Some(((c as u32) - 87) as u8)
    } else {
        None
    }
}

/// Reads the two characters `cs[lo..hi]` as one byte.
pub fn parse_hex_byte(cs: &Vec<char>, lo: usize, hi: usize) -> (r: Option<u8>)
    requires
        lo <= hi <= cs@.len(),
    ensures
        r == parse_hex2(cs@.subrange(lo as int, hi as int)),
{
    if hi - lo != 2 {
        return None;
    }
    let hi_digit = digit_value(cs[lo]);
    let lo_digit = digit_value(cs[lo + 1]);
    match (hi_digit, lo_digit) {
        (Some(h), Some(l)) => Some(h * 16 + l),
        _ => None,
    }
}

/// Appends the digit for `d` to `w`.
pub(crate) fn write_hex_digit(w: &mut String, d: u8)
    requires
        d < 16,
    ensures
        final(w)@ == old(w)@.push(hex_char(d as int)),
{
    let digits = "0123456789ABCDEF";
    proof {
        reveal_strlit("0123456789ABCDEF");
        assert(digits@ =~= hex_digits());
    }
    let one = digits.substring_char(d as usize, d as usize + 1);
    assert(one@ =~= seq![hex_char(d as int)]);
    w.append(one);
    assert(final(w)@ =~= old(w)@.push(hex_char(d as int)));
}

/// Appends `byte` to `w` as two upper-case digits.
pub fn write_hex_byte(w: &mut String, byte: u8)
    ensures
        final(w)@ == old(w)@ + hex2(byte),
{
    assert((byte >> 4u8) & 0x0Fu8 == byte / 16 && byte & 0x0Fu8 == byte % 16) by (bit_vector);
    let high = (byte >> 4u8) & 0x0Fu8;
    let low = byte & 0x0Fu8;
    write_hex_digit(w, high);
    write_hex_digit(w, low);
    assert(final(w)@ =~= old(w)@ + hex2(byte));
}

} // verus!
