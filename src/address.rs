//! Three-byte parameter addresses and their six-digit textual form.
use vstd::prelude::*;

use crate::error::RolandError;
use crate::hex::{chars_of, hex2, parse_hex2, parse_hex_byte, write_hex_byte};

verus! {

/// Relies on core::fmt::Error only as the error type of a text sink's result.
#[verifier::external_type_specification]
#[verifier::external_body]
pub struct ExFmtError(core::fmt::Error);

/// A 24-bit parameter address, held as three bytes.
#[derive(Debug, Clone, Copy, PartialEq, Eq, Hash, Structural)]
pub struct Address {
    /// High byte
    pub high: u8,
    /// Mid byte
    pub mid: u8,
    /// Low byte
    pub low: u8,
}

/// The address that six hexadecimal digits stand for, if `s` is six digits.
pub open spec fn parse_address(s: Seq<char>) -> Option<Address> {
    if s.len() == 6 {
        match (
            parse_hex2(s.subrange(0, 2)),
            parse_hex2(s.subrange(2, 4)),
            parse_hex2(s.subrange(4, 6)),
        ) {
            (Some(high), Some(mid), Some(low)) => Some(Address { high, mid, low }),
            _ => None,
        }
    } else {
        None
    }
}

/// What reading `s` as an address gives: the address, or `InvalidAddress`.
pub open spec fn address_result(s: Seq<char>) -> Result<Address, RolandError> {
    match parse_address(s) {
        Some(a) => Ok(a),
        None => Err(RolandError::InvalidAddress),
    }
}

impl Address {
    /// The six upper-case digits of the address, high byte first.
    pub open spec fn spec_hex(self) -> Seq<char> {
        hex2(self.high) + hex2(self.mid) + hex2(self.low)
    }

    /// Create a new address from three bytes
    pub fn new(high: u8, mid: u8, low: u8) -> (r: Self)
        ensures
            r == (Address { high, mid, low }),
    {
        Self { high, mid, low }
    }

    /// Reads an address from six hexadecimal digits of either case.
    pub fn from_hex(hex: &str) -> (r: Result<Self, RolandError>)
        ensures
            r == address_result(hex@),
    {
        let cs = chars_of(hex);
        proof {
            assert(cs@.subrange(0, cs@.len() as int) =~= hex@);
        }
        match parse_address_range(&cs, 0, cs.len()) {
            Some(a) => Ok(a),
            None => Err(RolandError::InvalidAddress),
        }
    }

    /// The address as six upper-case hexadecimal digits.
    pub fn to_hex(&self) -> (r: String)
        ensures
            r@ == self.spec_hex(),
    {
        let mut s = String::new();
        let _ = self.write_hex(&mut s);
        assert(s@ =~= self.spec_hex());
        s
    }

    /// Appends the six upper-case digits of the address to `w`.
    pub fn write_hex(&self, w: &mut String) -> (r: core::fmt::Result)
        ensures
            r is Ok,
            final(w)@ == old(w)@ + self.spec_hex(),
    {
        write_hex_byte(w, self.high);
        write_hex_byte(w, self.mid);
        write_hex_byte(w, self.low);
        assert(final(w)@ =~= old(w)@ + self.spec_hex());
        Ok(())
    }
}

/// Reads the characters `cs[lo..hi]` as an address.
pub fn parse_address_range(cs: &Vec<char>, lo: usize, hi: usize) -> (r: Option<Address>)
    requires
        lo <= hi <= cs@.len(),
    ensures
        r == parse_address(cs@.subrange(lo as int, hi as int)),
{
    let ghost s = cs@.subrange(lo as int, hi as int);
    if hi - lo != 6 {
        return None;
    }
    assert(s.subrange(0, 2) =~= cs@.subrange(lo as int, lo + 2));
    assert(s.subrange(2, 4) =~= cs@.subrange(lo + 2, lo + 4));
    assert(s.subrange(4, 6) =~= cs@.subrange(lo + 4, lo + 6));
    let high = parse_hex_byte(cs, lo, lo + 2);
    let mid = parse_hex_byte(cs, lo + 2, lo + 4);
    let low = parse_hex_byte(cs, lo + 4, lo + 6);
    match (high, mid, low) {
        (Some(high), Some(mid), Some(low)) => Some(Address { high, mid, low }),
        _ => None,
    }
}

} // verus!
