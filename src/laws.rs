//! Facts that relate the encoder, the parser and the address form.
use vstd::prelude::*;

use crate::address::{address_result, parse_address, Address};
use crate::command::{stx, Command};
use crate::error::RolandError;
use crate::hex::{hex2, hex_char, hex_digits, hex_value, is_hex_digit, parse_hex2};
use crate::response::{message_body, parse_message, strip_stx, ResponseView, has_keyword};
use crate::text::{is_white_space, trim, trim_end, trim_start};

verus! {

/// Whether `c` is one of the upper-case digits `0`-`9`, `A`-`F`.
pub open spec fn is_upper_hex_digit(c: char) -> bool {
    ('0' <= c && c <= '9') || ('A' <= c && c <= 'F')
}

proof fn lemma_upper_digit_round_trip(c: char)
    requires
        is_upper_hex_digit(c),
    ensures
        is_hex_digit(c),
        0 <= hex_value(c) < 16,
        hex_char(hex_value(c)) == c,
{
    let d = hex_value(c);
    assert(hex_digits()[d] == c);
}

proof fn lemma_pair_round_trip(s: Seq<char>)
    requires
        s.len() == 2,
        is_upper_hex_digit(s[0]),
        is_upper_hex_digit(s[1]),
    ensures
        parse_hex2(s) matches Some(b) && hex2(b) == s,
{
    lemma_upper_digit_round_trip(s[0]);
    lemma_upper_digit_round_trip(s[1]);
    let h = hex_value(s[0]);
    let l = hex_value(s[1]);
    let b = (16 * h + l) as u8;
    assert(b as int == 16 * h + l);
    assert(b as int / 16 == h && b as int % 16 == l);
    assert(hex2(b) =~= s);
}

/// Six upper-case hexadecimal digits read as an address and written back
/// give the same six digits.
pub proof fn lemma_address_hex_round_trip(s: Seq<char>)
    requires
        s.len() == 6,
        forall|i: int| 0 <= i < 6 ==> is_upper_hex_digit(#[trigger] s[i]),
    ensures
        address_result(s) matches Ok(a) && a.spec_hex() == s,
{
    let p0 = s.subrange(0, 2);
    let p1 = s.subrange(2, 4);
    let p2 = s.subrange(4, 6);
    assert(is_upper_hex_digit(s[0]) && is_upper_hex_digit(s[1]));
    assert(is_upper_hex_digit(s[2]) && is_upper_hex_digit(s[3]));
    assert(is_upper_hex_digit(s[4]) && is_upper_hex_digit(s[5]));
    lemma_pair_round_trip(p0);
    lemma_pair_round_trip(p1);
    lemma_pair_round_trip(p2);
    let a = parse_address(s)->0;
    assert(a.spec_hex() =~= s);
}

/// A write command reads `DTH:`, the address in hexadecimal, a comma, the
/// value as two digits and `;`.
pub proof fn lemma_write_encoding(address: Address, value: u8)
    ensures
        (Command::WriteParameter { address, value }).spec_encode() == seq!['D', 'T', 'H', ':']
            + address.spec_hex() + seq![','] + hex2(value) + seq![';'],
{
}

/// A text whose body opens with `DTH:`, `VER:` or `ERR:` and does not end in
/// `;` is refused as an invalid response.
pub proof fn lemma_unterminated_refused(s: Seq<char>)
    requires
        has_keyword(message_body(s), seq!['D', 'T', 'H', ':']) || has_keyword(
            message_body(s),
            seq!['V', 'E', 'R', ':'],
        ) || has_keyword(message_body(s), seq!['E', 'R', 'R', ':']),
        message_body(s).last() != ';',
    ensures
        parse_message(s) == Err::<ResponseView, RolandError>(RolandError::InvalidResponse),
{
    let b = message_body(s);
    assert(b.len() >= 4);
    if b.len() > 4 {
        assert(b.skip(4).last() == b.last());
    }
    assert(b.take(4)[0] == b[0]);
}

/// A text that begins and ends with characters that are not white space is
/// its own trimmed form.
proof fn lemma_trim_of_solid(s: Seq<char>)
    requires
        s.len() > 0,
        !is_white_space(s[0]),
        !is_white_space(s.last()),
    ensures
        trim(s) == s,
{
    assert(trim_start(s) == s);
    assert(trim_end(s) == s);
}

/// A body that is no signal and opens with no keyword is refused.
proof fn lemma_unknown_body_refused(s: Seq<char>)
    requires
        message_body(s).len() > 4,
        message_body(s)[0] != 'D' && message_body(s)[0] != 'V' && message_body(s)[0] != 'E',
    ensures
        parse_message(s) is Err,
{
    let b = message_body(s);
    assert(b.take(4)[0] == b[0]);
}

/// The body of a framed request is the request itself.
proof fn lemma_framed_body(c: Command, with_stx: bool)
    ensures
        message_body(c.spec_encode_framed(with_stx)) == c.spec_encode(),
{
    let e = c.spec_encode();
    assert(e.len() > 0 && e[0] != stx());
    assert(strip_stx(seq![stx()] + e) =~= e);
    assert(strip_stx(e) == e);
    assert(e.last() == ';');
    lemma_trim_of_solid(e);
}

/// A read or version command, sent with or without STX, does not read as a
/// response: the parser refuses it.
pub proof fn lemma_request_not_response(c: Command, with_stx: bool)
    requires
        !(c is WriteParameter),
    ensures
        parse_message(c.spec_encode_framed(with_stx)) is Err,
{
    lemma_framed_body(c, with_stx);
    let s = c.spec_encode_framed(with_stx);
    let e = c.spec_encode();
    if c is GetVersion {
        assert(e.take(4)[3] == ';');
        assert(e.take(4)[0] == 'V');
        assert(parse_message(s) is Err);
    } else {
        assert(e.len() > 4);
        assert(e[0] == 'R');
        lemma_unknown_body_refused(s);
    }
}

} // verus!
