//! Codec for the text protocol of a remote-controlled AV mixer: commands are
//! encoded to the device's ASCII lines, responses are parsed from them, and
//! parameter addresses move between three bytes and six hexadecimal digits.

pub mod error;
pub mod hex;
pub mod address;
pub mod command;
pub mod text;
pub mod response;
pub mod laws;
pub mod client;

pub use address::Address;
pub use client::TelnetError;
pub use command::Command;
pub use error::RolandError;
pub use response::Response;
