//! Error taxonomy for hub descriptor decoding and port operations.

use vstd::prelude::*;

verus! {

/// Failure reported by the transport capability: a device that could not
/// be opened, or a transfer that did not complete.  Kept distinct from
/// [`Error`] so that a guard rejection (`Error::InvalidPort`) can never be
/// confused with a fault the transport handed back.
#[derive(Clone, Copy, Debug, PartialEq, Eq, Structural)]
pub struct TransportError;

/// USB hub control error
#[derive(Clone, Copy, Debug, PartialEq, Eq, Structural)]
pub enum Error {
    /// The transport failed to open a device or to complete a transfer
    Transport,
    /// Device with invalid device class was provided
    InvalidDeviceClass,
    /// Transfer responded with invalid data
    InvalidRespone,
    /// Invalid port provided, or per-port power control is unsupported
    InvalidPort,
}

impl Error {
    /// Short description of the error
    pub fn describe(&self) -> (r: &'static str)
        ensures
            r@ == match *self {
                Error::Transport => "transport failure"@,
                Error::InvalidDeviceClass => "Invalid class"@,
                Error::InvalidRespone => "Invalid response"@,
                Error::InvalidPort => "Invalid port"@,
            },
    {
        match self {
            Error::Transport => "transport failure",
            Error::InvalidDeviceClass => "Invalid class",
            Error::InvalidRespone => "Invalid response",
            Error::InvalidPort => "Invalid port",
        }
    }
}

} // verus!
