//! The decisions of a client that talks to the device over a stream: when a
//! received text is complete, and what a response means for each request.
//! The stream itself belongs to the caller.
use vstd::prelude::*;
use vstd::string::to_string_from_display_ensures;

use crate::address::{address_result, Address};
use crate::command::Command;
use crate::error::RolandError;
use crate::response::{is_ack_signal, is_flow_signal, is_four, is_one, is_three, Response};

verus! {

/// Relies on std::io::Error only as a value carried inside `TelnetError`.
#[verifier::external_type_specification]
#[verifier::external_body]
pub struct ExIoError(std::io::Error);

/// Error type for Telnet client
#[derive(Debug)]
pub enum TelnetError {
    /// Protocol-level error
    Protocol(RolandError),
    /// I/O error
    Io(std::io::Error),
    /// Connection closed
    ConnectionClosed,
}

impl From<RolandError> for TelnetError {
    fn from(e: RolandError) -> (r: TelnetError)
        ensures
            r matches TelnetError::Protocol(p) && p == e,
    {
        TelnetError::Protocol(e)
    }
}

impl vstd::std_specs::convert::FromSpecImpl<RolandError> for TelnetError {
    open spec fn obeys_from_spec() -> bool {
        true
    }

    open spec fn from_spec(e: RolandError) -> TelnetError {
        TelnetError::Protocol(e)
    }
}

impl From<std::io::Error> for TelnetError {
    fn from(e: std::io::Error) -> (r: TelnetError)
        ensures
            r matches TelnetError::Io(x) && x == e,
    {
        TelnetError::Io(e)
    }
}

impl vstd::std_specs::convert::FromSpecImpl<std::io::Error> for TelnetError {
    open spec fn obeys_from_spec() -> bool {
        true
    }

    open spec fn from_spec(e: std::io::Error) -> TelnetError {
        TelnetError::Io(e)
    }
}

impl TelnetError {
    /// A sentence that describes the error; for an I/O error, the text that
    /// the error displays follows the prefix.
    pub fn message(&self) -> (r: String)
        ensures
            match self {
                TelnetError::Protocol(e) => r@ == "Protocol error: "@ + e.spec_message(),
                TelnetError::Io(e) => exists|t: String|
                    to_string_from_display_ensures::<std::io::Error>(e, t) && r@ == "I/O error: "@
                        + t@,
                TelnetError::ConnectionClosed => r@ == "Connection closed"@,
            },
    {
        match self {
            TelnetError::Protocol(e) => {
                let mut s = String::from_str("Protocol error: ");
                let m = e.message();
                s.append(m.as_str());
                s
            },
            TelnetError::Io(e) => {
                let t = e.to_string();
                let mut s = String::from_str("I/O error: ");
                s.append(t.as_str());
                s
            },
            TelnetError::ConnectionClosed => String::from_str("Connection closed"),
        }
    }
}

/// Whether received text `s` holds a whole response: it ends with `;`, or
/// it is one of the signals ACK, XON or XOFF, as a byte or as text.
pub open spec fn is_complete(s: Seq<char>) -> bool {
    (s.len() > 0 && s.last() == ';') || is_ack_signal(s) || is_flow_signal(s)
}

/// Whether the text received so far holds a whole response, so that it can
/// be parsed; otherwise more must be read.
pub fn response_complete(received: &str) -> (r: bool)
    ensures
        r == is_complete(received@),
{
    let cs = crate::hex::chars_of(received);
    let n = cs.len();
    if n > 0 && cs[n - 1] == ';' {
        return true;
    }
    assert(cs@.subrange(0, n as int) =~= received@);
    is_one(&cs, 0, n, '\x06') || is_three(&cs, 0, n, 'a', 'c', 'k') || is_one(&cs, 0, n, '\x11')
        || is_three(&cs, 0, n, 'x', 'o', 'n') || is_one(&cs, 0, n, '\x13') || is_four(
        &cs,
        0,
        n,
        'x',
        'o',
        'f',
        'f',
    )
}

/// The request that writes `value` at the address given in hexadecimal.
pub fn write_request(address: &str, value: u8) -> (r: Result<Command, RolandError>)
    ensures
        match address_result(address@) {
            Ok(a) => r == Ok::<Command, RolandError>(
                Command::WriteParameter { address: a, value },
            ),
            Err(e) => r == Err::<Command, RolandError>(e),
        },
{
    let address = Address::from_hex(address)?;
    Ok(Command::WriteParameter { address, value })
}

/// The request that reads `size` bytes at the address given in hexadecimal.
pub fn read_request(address: &str, size: u32) -> (r: Result<Command, RolandError>)
    ensures
        match address_result(address@) {
            Ok(a) => r == Ok::<Command, RolandError>(Command::ReadParameter { address: a, size }),
            Err(e) => r == Err::<Command, RolandError>(e),
        },
{
    let address = Address::from_hex(address)?;
    Ok(Command::ReadParameter { address, size })
}

/// What the response to a write means: success on an acknowledgement, the
/// device's error on an error response, an invalid response otherwise.
pub fn write_outcome(response: Response) -> (r: Result<(), RolandError>)
    ensures
        match response {
            Response::Acknowledge => r is Ok,
            Response::Error(e) => r == Err::<(), RolandError>(e),
            _ => r == Err::<(), RolandError>(RolandError::InvalidResponse),
        },
{
    match response {
        Response::Acknowledge => Ok(()),
        Response::Error(e) => Err(e),
        _ => Err(RolandError::InvalidResponse),
    }
}

/// What the response to a read means: the value of a data response, the
/// device's error on an error response, an invalid response otherwise.
pub fn read_outcome(response: Response) -> (r: Result<u8, RolandError>)
    ensures
        match response {
            Response::Data { value, .. } => r == Ok::<u8, RolandError>(value),
            Response::Error(e) => r == Err::<u8, RolandError>(e),
            _ => r == Err::<u8, RolandError>(RolandError::InvalidResponse),
        },
{
    match response {
        Response::Data { value, .. } => Ok(value),
        Response::Error(e) => Err(e),
        _ => Err(RolandError::InvalidResponse),
    }
}

/// What the response to a version request means: the product and version
/// of a version response, the device's error on an error response, an
/// invalid response otherwise.
pub fn version_outcome(response: Response) -> (r: Result<(String, String), RolandError>)
    ensures
        match response {
            Response::Version { product, version } => r matches Ok((p, v)) && p@ == product@
                && v@ == version@,
            Response::Error(e) => r matches Err(x) && x == e,
            _ => r matches Err(x) && x == RolandError::InvalidResponse,
        },
{
    match response {
        Response::Version { product, version } => Ok((product, version)),
        Response::Error(e) => Err(e),
        _ => Err(RolandError::InvalidResponse),
    }
}

} // verus!
