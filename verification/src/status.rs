//! Interpretation of the 16-bit USB hub port-status word.
//!
//! The power bit moves with the hub generation: bit 8 reports power on
//! USB 2.0 hubs, bit 9 on SuperSpeed hubs.  The decoder therefore carries
//! the hub's SuperSpeed flag inside the word (bit 15, a non-standard
//! extension that real status words never use for anything else), so that
//! `powered` can consult the right bit.

use vstd::prelude::*;

use crate::error::Error;

verus! {

/// USB port status
#[derive(Clone, Copy, Debug, PartialEq, Eq, Structural)]
pub struct PortStatus(pub u16);

/// The 16-bit value two little-endian bytes denote.
pub open spec fn le16(lo: u8, hi: u8) -> u16 {
    (lo + 256 * hi) as u16
}

/// The raw status word that `PortStatus::from_field` stores for a given
/// wire value and SuperSpeed flag: the wire value, with bit 15 set when
/// the hub is a SuperSpeed hub.
pub open spec fn status_field(value: u16, super_speed: bool) -> u16 {
    if super_speed {
        value | 0x8000u16
    } else {
        value
    }
}

/// Whether `powered` holds of a stored status word: bit 9 decides on a
/// SuperSpeed word (bit 15 set), bit 8 on any other word.
pub open spec fn powered_field(field: u16) -> bool {
    if field & 0x8000 == 0x8000 {
        field & 0x0200 == 0x0200
    } else {
        field & 0x0100 == 0x0100
    }
}

impl PortStatus {
    /// Create port status from field value
    pub fn from_field(value: u16, super_speed: bool) -> (r: Self)
        ensures
            r.0 == status_field(value, super_speed),
    {
        if super_speed {
            PortStatus(value | 0x8000)
        } else {
            PortStatus(value)
        }
    }

    /// This field reflects whether or not a device is currently connected to this port.
    pub fn connection(&self) -> (r: bool)
        ensures
            r == (self.0 & 0x0001 == 0x0001),
    {
        self.0 & 0x0001 == 0x0001
    }

    /// This field indicates whether the port is enabled.
    pub fn enabled(&self) -> (r: bool)
        ensures
            r == (self.0 & 0x0002 == 0x0002),
    {
        self.0 & 0x0002 == 0x0002
    }

    /// This field indicates whether or not the device on this port is suspended.
    pub fn suspended(&self) -> (r: bool)
        ensures
            r == (self.0 & 0x0004 == 0x0004),
    {
        self.0 & 0x0004 == 0x0004
    }

    /// If the hub reports over-current conditions on a per-port basis,
    /// this field indicates that the current drain on the port exceeds the
    /// specified maximum.
    pub fn overcurrent(&self) -> (r: bool)
        ensures
            r == (self.0 & 0x0008 == 0x0008),
    {
        self.0 & 0x0008 == 0x0008
    }

    /// This field is set when the host wishes to reset the attached device.
    /// It remains set until the reset signaling is turned off by the hub.
    pub fn reset(&self) -> (r: bool)
        ensures
            r == (self.0 & 0x0010 == 0x0010),
    {
        self.0 & 0x0010 == 0x0010
    }

    /// This field reflects a ports logical, power control state.
    /// On a SuperSpeed hub the power state lives in bit 9 of the status
    /// word; on every other hub it lives in bit 8.  The bit consulted is
    /// chosen by the SuperSpeed flag that `from_field` recorded, never by
    /// the wrong generation's bit.
    pub fn powered(&self) -> (r: bool)
        ensures
            r == powered_field(self.0),
    {
        if self.super_speed() {
            self.0 & 0x0200 == 0x0200
        } else {
            self.0 & 0x0100 == 0x0100
        }
    }

    fn super_speed(&self) -> (r: bool)
        ensures
            r == (self.0 & 0x8000 == 0x8000),
    {
        self.0 & 0x8000 == 0x8000
    }
}

/// Decode a GET_STATUS reply into a port status.
///
/// The reply must be exactly 4 bytes: the little-endian status word in
/// bytes 0-1 and the change word in bytes 2-3, which is read but not
/// interpreted.  Any other length is a transport fault; no status is ever
/// fabricated from a short or long reply.
pub fn decode_status_reply(reply: &[u8], super_speed: bool) -> (r: Result<PortStatus, Error>)
    ensures
        match r {
            Ok(s) => reply@.len() == 4 && s.0 == status_field(
                le16(reply@[0], reply@[1]),
                super_speed,
            ),
            Err(e) => e == Error::Transport && reply@.len() != 4,
        },
{
    if reply.len() != 4 {
        return Err(Error::Transport);
    }
    let word: u16 = (reply[0] as u16) + 256 * (reply[1] as u16);
    Ok(PortStatus::from_field(word, super_speed))
}

} // verus!
