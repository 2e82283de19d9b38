//! Incoming responses and the parser that reads them.
use vstd::prelude::*;

use crate::address::{parse_address, parse_address_range, Address};
use crate::command::stx;
use crate::error::RolandError;
use crate::hex::{chars_of, parse_hex2, parse_hex_byte};
use crate::text::{parse_decimal_range, parse_decimal_u8, split_two_fields, trim, trim_range, two_fields};

verus! {

/// What a response holds, with its text fields as character sequences.
pub enum ResponseView {
    /// The device accepted a write.
    Acknowledge,
    /// The value at an address.
    Data { address: Address, value: u8 },
    /// The product name and its version.
    Version { product: Seq<char>, version: Seq<char> },
    /// The device refused a request.
    Error(RolandError),
}

/// Response types from VR-6HD
#[derive(Debug, Clone, PartialEq, Eq)]
pub enum Response {
    /// Acknowledge (ack)
    Acknowledge,
    /// Data response (DTH)
    Data {
        /// SysEx address
        address: Address,
        /// Parameter value
        value: u8,
    },
    /// Version information (VER)
    Version {
        /// Product name
        product: String,
        /// Version string
        version: String,
    },
    /// Error response (ERR)
    Error(RolandError),
}

impl View for Response {
    type V = ResponseView;

    open spec fn view(&self) -> ResponseView {
        match self {
            Response::Acknowledge => ResponseView::Acknowledge,
            Response::Data { address, value } => ResponseView::Data {
                address: *address,
                value: *value,
            },
            Response::Version { product, version } => ResponseView::Version {
                product: product@,
                version: version@,
            },
            Response::Error(e) => ResponseView::Error(*e),
        }
    }
}

/// The ACK byte.
pub open spec fn ack() -> char {
    '\x06'
}

/// The XON byte.
pub open spec fn xon() -> char {
    '\x11'
}

/// The XOFF byte.
pub open spec fn xoff() -> char {
    '\x13'
}

/// `s` without one leading STX byte, where it has one.
pub open spec fn strip_stx(s: Seq<char>) -> Seq<char> {
    if s.len() > 0 && s[0] == stx() {
        s.drop_first()
    } else {
        s
    }
}

/// What a parser dispatches on: the text without a leading STX byte and
/// without surrounding white space.
pub open spec fn message_body(s: Seq<char>) -> Seq<char> {
    trim(strip_stx(s))
}

/// Whether `b` reads as an acknowledgement.
pub open spec fn is_ack_signal(b: Seq<char>) -> bool {
    b == seq![ack()] || b == seq!['a', 'c', 'k']
}

/// Whether `b` reads as a flow-control signal.
pub open spec fn is_flow_signal(b: Seq<char>) -> bool {
    b == seq![xon()] || b == seq!['x', 'o', 'n'] || b == seq![xoff()] || b == seq![
        'x',
        'o',
        'f',
        'f',
    ]
}

/// Whether `b` opens with the four characters `k`.
pub open spec fn has_keyword(b: Seq<char>, k: Seq<char>) -> bool {
    b.len() >= 4 && b.take(4) == k
}

/// The fields of a message body after its keyword: the text before the
/// closing `;`, where there is one.
pub open spec fn terminated(c: Seq<char>) -> Option<Seq<char>> {
    if c.len() > 0 && c.last() == ';' {
        Some(c.drop_last())
    } else {
        None
    }
}

/// What follows `DTH:` in a data response.
pub open spec fn parse_data_fields(c: Seq<char>) -> Result<ResponseView, RolandError> {
    match terminated(c) {
        None => Err(RolandError::InvalidResponse),
        Some(f) => match two_fields(f) {
            None => Err(RolandError::InvalidResponse),
            Some((a, v)) => match parse_address(a) {
                None => Err(RolandError::InvalidAddress),
                Some(address) => match parse_hex2(v) {
                    None => Err(RolandError::InvalidAddress),
                    Some(value) => Ok(ResponseView::Data { address, value }),
                },
            },
        },
    }
}

/// What follows `VER:` in a version response.
pub open spec fn parse_version_fields(c: Seq<char>) -> Result<ResponseView, RolandError> {
    match terminated(c) {
        None => Err(RolandError::InvalidResponse),
        Some(f) => match two_fields(f) {
            None => Err(RolandError::InvalidResponse),
            Some((product, version)) => Ok(ResponseView::Version { product, version }),
        },
    }
}

/// The error that a device error code names.
pub open spec fn error_for_code(code: u8) -> RolandError {
    if code == 0 {
        RolandError::SyntaxError
    } else if code == 4 {
        RolandError::Invalid
    } else if code == 5 {
        RolandError::OutOfRange
    } else if code == 6 {
        RolandError::NoStx
    } else {
        RolandError::UnknownError(code)
    }
}

/// What follows `ERR:` in an error response.
pub open spec fn parse_error_fields(c: Seq<char>) -> Result<ResponseView, RolandError> {
    match terminated(c) {
        None => Err(RolandError::InvalidResponse),
        Some(f) => match parse_decimal_u8(f) {
            None => Err(RolandError::InvalidResponse),
            Some(code) => Ok(ResponseView::Error(error_for_code(code))),
        },
    }
}

/// What the text `s` reads as: a response, or the reason it is none.
pub open spec fn parse_message(s: Seq<char>) -> Result<ResponseView, RolandError> {
    let b = message_body(s);
    if is_ack_signal(b) {
        Ok(ResponseView::Acknowledge)
    } else if is_flow_signal(b) {
        Err(RolandError::InvalidResponse)
    } else if has_keyword(b, seq!['D', 'T', 'H', ':']) {
        parse_data_fields(b.skip(4))
    } else if has_keyword(b, seq!['V', 'E', 'R', ':']) {
        parse_version_fields(b.skip(4))
    } else if has_keyword(b, seq!['E', 'R', 'R', ':']) {
        parse_error_fields(b.skip(4))
    } else {
        Err(RolandError::InvalidResponse)
    }
}

/// The error that a device error code names.
fn error_from_code(code: u8) -> (r: RolandError)
    ensures
        r == error_for_code(code),
{
    match code {
        0 => RolandError::SyntaxError,
        4 => RolandError::Invalid,
        5 => RolandError::OutOfRange,
        6 => RolandError::NoStx,
        _ => RolandError::UnknownError(code),
    }
}

/// Whether `cs[lo..hi]` is the one character `a`.
pub(crate) fn is_one(cs: &Vec<char>, lo: usize, hi: usize, a: char) -> (r: bool)
    requires
        lo <= hi <= cs@.len(),
    ensures
        r == (cs@.subrange(lo as int, hi as int) == seq![a]),
{
    let r = hi - lo == 1 && cs[lo] == a;
    proof {
        let s = cs@.subrange(lo as int, hi as int);
        let t = seq![a];
        if r {
            assert(s =~= t);
        } else if s.len() == t.len() {
            assert(s[0] != t[0]);
        } else {
            assert(s.len() != t.len());
        }
    }
    r
}

/// Whether `cs[lo..hi]` is the three characters `a`, `b`, `c`.
pub(crate) fn is_three(cs: &Vec<char>, lo: usize, hi: usize, a: char, b: char, c: char) -> (r: bool)
    requires
        lo <= hi <= cs@.len(),
    ensures
        r == (cs@.subrange(lo as int, hi as int) == seq![a, b, c]),
{
    let r = hi - lo == 3 && cs[lo] == a && cs[lo + 1] == b && cs[lo + 2] == c;
    proof {
        let s = cs@.subrange(lo as int, hi as int);
        let t = seq![a, b, c];
        if r {
            assert(s =~= t);
        } else if s.len() == t.len() {
            assert(s[0] != t[0] || s[1] != t[1] || s[2] != t[2]);
        } else {
            assert(s.len() != t.len());
        }
    }
    r
}

/// Whether `cs[lo..hi]` is the four characters `a`, `b`, `c`, `d`.
pub(crate) fn is_four(cs: &Vec<char>, lo: usize, hi: usize, a: char, b: char, c: char, d: char) -> (r:
    bool)
    requires
        lo <= hi <= cs@.len(),
    ensures
        r == (cs@.subrange(lo as int, hi as int) == seq![a, b, c, d]),
{
    let r = hi - lo == 4 && cs[lo] == a && cs[lo + 1] == b && cs[lo + 2] == c && cs[lo + 3] == d;
    proof {
        let s = cs@.subrange(lo as int, hi as int);
        let t = seq![a, b, c, d];
        if r {
            assert(s =~= t);
        } else if s.len() == t.len() {
            assert(s[0] != t[0] || s[1] != t[1] || s[2] != t[2] || s[3] != t[3]);
        } else {
            assert(s.len() != t.len());
        }
    }
    r
}

/// Whether `cs[lo..hi]` opens with the four characters `a`, `b`, `c`, `d`.
fn opens_with(cs: &Vec<char>, lo: usize, hi: usize, a: char, b: char, c: char, d: char) -> (r:
    bool)
    requires
        lo <= hi <= cs@.len(),
    ensures
        r == has_keyword(cs@.subrange(lo as int, hi as int), seq![a, b, c, d]),
{
    if hi - lo < 4 {
        return false;
    }
    let r = is_four(cs, lo, lo + 4, a, b, c, d);
    assert(cs@.subrange(lo as int, hi as int).take(4) =~= cs@.subrange(lo as int, lo + 4));
    r
}

/// The closing `;` of `cs[lo..hi]`: where it is there, the end of the fields
/// before it.
fn fields_end(cs: &Vec<char>, lo: usize, hi: usize) -> (r: Option<usize>)
    requires
        lo <= hi <= cs@.len(),
    ensures
        match terminated(cs@.subrange(lo as int, hi as int)) {
            Some(f) => r == Some((hi - 1) as usize) && hi > lo && f == cs@.subrange(
                lo as int,
                hi - 1,
            ),
            None => r is None,
        },
{
    if hi > lo && cs[hi - 1] == ';' {
        assert(cs@.subrange(lo as int, hi as int).drop_last() =~= cs@.subrange(
            lo as int,
            hi - 1,
        ));
        Some(hi - 1)
    } else {
        None
    }
}

impl Response {
    /// Parse response from string slice
    ///
    /// Handles both Telnet (no STX) and RS-232 (with STX) formats.
    pub fn parse(response: &str) -> (r: Result<Self, RolandError>)
        ensures
            match r {
                Ok(resp) => parse_message(response@) == Ok::<ResponseView, RolandError>(resp@),
                Err(e) => parse_message(response@) == Err::<ResponseView, RolandError>(e),
            },
    {
        let cs = chars_of(response);
        let ghost s = response@;
        let n = cs.len();
        let start: usize = if n > 0 && cs[0] == '\x02' {
            1
        } else {
            0
        };
        assert(cs@.subrange(start as int, n as int) =~= strip_stx(s));
        let (lo, hi) = trim_range(&cs, start, n);
        let ghost b = message_body(s);
        assert(cs@.subrange(lo as int, hi as int) == b);
        if is_one(&cs, lo, hi, '\x06') || is_three(&cs, lo, hi, 'a', 'c', 'k') {
            return Ok(Response::Acknowledge);
        }
        if is_one(&cs, lo, hi, '\x11') || is_three(&cs, lo, hi, 'x', 'o', 'n') || is_one(
            &cs,
            lo,
            hi,
            '\x13',
        ) || is_four(&cs, lo, hi, 'x', 'o', 'f', 'f') {
            return Err(RolandError::InvalidResponse);
        }
        let is_data = opens_with(&cs, lo, hi, 'D', 'T', 'H', ':');
        let is_version = opens_with(&cs, lo, hi, 'V', 'E', 'R', ':');
        let is_error = opens_with(&cs, lo, hi, 'E', 'R', 'R', ':');
        if !(is_data || is_version || is_error) {
            return Err(RolandError::InvalidResponse);
        }
        assert(b.skip(4) =~= cs@.subrange(lo + 4, hi as int));
        let end = match fields_end(&cs, lo + 4, hi) {
            Some(end) => end,
            None => {
                return Err(RolandError::InvalidResponse);
            },
        };
        if is_error {
            return match parse_decimal_range(&cs, lo + 4, end) {
                Some(code) => Ok(Response::Error(error_from_code(code))),
                None => Err(RolandError::InvalidResponse),
            };
        }
        let comma = match split_two_fields(&cs, lo + 4, end) {
            Some(k) => k,
            None => {
                return Err(RolandError::InvalidResponse);
            },
        };
        if is_data {
            let address = match parse_address_range(&cs, lo + 4, comma) {
                Some(a) => a,
                None => {
                    return Err(RolandError::InvalidAddress);
                },
            };
            let value = match parse_hex_byte(&cs, comma + 1, end) {
                Some(v) => v,
                None => {
                    return Err(RolandError::InvalidAddress);
                },
            };
            Ok(Response::Data { address, value })
        } else {
            let product = String::from_str(response.substring_char(lo + 4, comma));
            let version = String::from_str(response.substring_char(comma + 1, end));
            Ok(Response::Version { product, version })
        }
    }
}

} // verus!
