//! Outgoing commands and their wire form.
use vstd::prelude::*;

use crate::address::Address;
use crate::hex::{hex2, write_hex_byte};

verus! {

/// The low 24 bits of `v` as six upper-case digits, most significant first.
pub open spec fn hex6(v: u32) -> Seq<char> {
    hex2(((v as int / 65536) % 256) as u8) + hex2(((v as int / 256) % 256) as u8) + hex2(
        (v as int % 256) as u8,
    )
}

/// The STX byte that opens every command on the serial link.
pub open spec fn stx() -> char {
    '\x02'
}

/// Command types for VR-6HD
#[derive(Debug, Clone, Copy, PartialEq, Eq, Structural)]
pub enum Command {
    /// Write parameter (DTH)
    WriteParameter {
        /// SysEx address
        address: Address,
        /// Value to write (0-255)
        value: u8,
    },
    /// Read parameter (RQH)
    ReadParameter {
        /// SysEx address
        address: Address,
        /// Number of bytes to read; sent as 24 bits
        size: u32,
    },
    /// Get version information (VER)
    GetVersion,
}

impl Command {
    /// The text of the command: `DTH:AAAAAA,VV;`, `RQH:AAAAAA,SSSSSS;` or `VER;`.
    pub open spec fn spec_encode(self) -> Seq<char> {
        match self {
            Command::WriteParameter { address, value } => seq!['D', 'T', 'H', ':']
                + address.spec_hex() + seq![','] + hex2(value) + seq![';'],
            Command::ReadParameter { address, size } => seq!['R', 'Q', 'H', ':']
                + address.spec_hex() + seq![','] + hex6(size) + seq![';'],
            Command::GetVersion => seq!['V', 'E', 'R', ';'],
        }
    }

    /// The text of the command, with or without a leading STX byte.
    pub open spec fn spec_encode_framed(self, with_stx: bool) -> Seq<char> {
        if with_stx {
            seq![stx()] + self.spec_encode()
        } else {
            self.spec_encode()
        }
    }

    /// Encodes the command for the network link, which takes no STX byte.
    pub fn encode(&self) -> (r: String)
        ensures
            r@ == self.spec_encode(),
    {
        let mut s = String::new();
        let _ = self.write(&mut s);
        assert(s@ =~= self.spec_encode());
        s
    }

    /// Encodes the command for the serial link: STX, then the command.
    pub fn encode_with_stx(&self) -> (r: String)
        ensures
            r@ == seq![stx()] + self.spec_encode(),
    {
        let mut s = String::new();
        let _ = self.write_with_stx(&mut s);
        assert(s@ =~= seq![stx()] + self.spec_encode());
        s
    }

    /// Appends the text of the command to `w`.
    pub fn write(&self, w: &mut String) -> (r: core::fmt::Result)
        ensures
            r is Ok,
            final(w)@ == old(w)@ + self.spec_encode(),
    {
        proof {
            reveal_strlit("DTH:");
            reveal_strlit("RQH:");
            reveal_strlit(",");
            reveal_strlit(";");
            reveal_strlit("VER;");
        }
        match self {
            Command::WriteParameter { address, value } => {
                w.append("DTH:");
                let _ = address.write_hex(w);
                w.append(",");
                write_hex_byte(w, *value);
                w.append(";");
            },
            Command::ReadParameter { address, size } => {
                w.append("RQH:");
                let _ = address.write_hex(w);
                w.append(",");
                write_hex_u24(w, *size);
                w.append(";");
            },
            Command::GetVersion => {
                w.append("VER;");
            },
        }
        assert(final(w)@ =~= old(w)@ + self.spec_encode());
        Ok(())
    }

    /// Appends STX and then the text of the command to `w`.
    pub fn write_with_stx(&self, w: &mut String) -> (r: core::fmt::Result)
        ensures
            r is Ok,
            final(w)@ == old(w)@ + seq![stx()] + self.spec_encode(),
    {
        proof {
            reveal_strlit("\x02");
        }
        w.append("\x02");
        let _ = self.write(w);
        assert(final(w)@ =~= old(w)@ + seq![stx()] + self.spec_encode());
        Ok(())
    }
}

/// Appends the low 24 bits of `value` to `w` as six upper-case digits.
fn write_hex_u24(w: &mut String, value: u32)
    ensures
        final(w)@ == old(w)@ + hex6(value),
{
    assert(((value >> 16u32) & 0xFFu32) == (value / 65536) % 256 && ((value >> 8u32) & 0xFFu32)
        == (value / 256) % 256 && (value & 0xFFu32) == value % 256) by (bit_vector);
    write_hex_byte(w, ((value >> 16u32) & 0xFFu32) as u8);
    write_hex_byte(w, ((value >> 8u32) & 0xFFu32) as u8);
    write_hex_byte(w, (value & 0xFFu32) as u8);
    assert(final(w)@ =~= old(w)@ + hex6(value));
}

} // verus!
