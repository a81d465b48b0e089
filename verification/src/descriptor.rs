//! Decoders for the USB hub class descriptor and the Binary Object Store
//! (BOS) descriptor.
//!
//! Both decoders are exact functions of the raw bytes handed to them; their
//! contracts state the accepted byte shapes and the decoded values in full.

use vstd::prelude::*;

use crate::error::Error;

verus! {

/// Length of a USB 2.0 hub class descriptor
pub const HUB_DESCRIPTOR_LEN: usize = 9;

/// Length of a SuperSpeed hub class descriptor
pub const SUPERSPEED_HUB_DESCRIPTOR_LEN: usize = 12;

/// Logical Power Switching Mode
#[derive(Clone, Copy, Debug, PartialEq, Eq, Structural)]
pub enum LogicalPowerSwitchingMode {
    /// Unsupported or unknown power switching
    Unsupported,
    /// Ganged power switching (all ports power at once)
    Common,
    /// Individual port power switching
    IndividualPort,
}

/// The power-switching mode encoded in the low two bits of the hub
/// characteristics word: `0b00` is ganged, `0b01` is per-port, any other
/// value is unsupported (not an error).
pub open spec fn power_switching_mode(characteristics: u16) -> LogicalPowerSwitchingMode {
    if characteristics & 0x0003 == 0x0000 {
        LogicalPowerSwitchingMode::Common
    } else if characteristics & 0x0003 == 0x0001 {
        LogicalPowerSwitchingMode::IndividualPort
    } else {
        LogicalPowerSwitchingMode::Unsupported
    }
}

/// The port count a hub descriptor yields for raw byte 2: values above 15
/// are clamped to 0 as a defence against corrupt hardware.
pub open spec fn clamped_port_count(raw: u8) -> u8 {
    if raw <= 15 {
        raw
    } else {
        0
    }
}

/// USB hub descriptor
#[derive(Clone, Copy, Debug, PartialEq, Eq, Structural)]
pub struct HubDescriptor {
    port_count: u8,
    characteristics: u16,
}

impl HubDescriptor {
    /// The decoded downstream port count, always at most 15.
    pub closed spec fn spec_port_count(&self) -> u8 {
        self.port_count
    }

    /// The raw 16-bit characteristics word.
    pub closed spec fn spec_characteristics(&self) -> u16 {
        self.characteristics
    }

    /// A decoded descriptor never carries more than 15 ports.
    pub open spec fn wf(&self) -> bool {
        self.spec_port_count() <= 15
    }

    /// Decode a hub class descriptor from the raw transfer response.
    ///
    /// The response must be exactly as long as the descriptor requested for
    /// the hub's generation (9 bytes for USB 2.0, 12 for SuperSpeed);
    /// anything else is a protocol mismatch, never silently truncated or
    /// padded.  Byte 2 is the downstream port count (clamped to 0 above
    /// 15), bytes 3-4 the little-endian characteristics word.
    pub fn from_data(data: &[u8], super_speed: bool) -> (r: Result<Self, Error>)
        ensures
            match r {
                Ok(d) => {
                    &&& data@.len() == (if super_speed { 12int } else { 9int })
                    &&& d.spec_port_count() == clamped_port_count(data@[2])
                    &&& d.spec_characteristics() == data@[3] + 256 * data@[4]
                    &&& d.wf()
                },
                Err(e) => {
                    &&& e == Error::InvalidRespone
                    &&& data@.len() != (if super_speed { 12int } else { 9int })
                },
            },
    {
        let expected: usize = if super_speed {
            SUPERSPEED_HUB_DESCRIPTOR_LEN
        } else {
            HUB_DESCRIPTOR_LEN
        };
        if data.len() != expected {
            return Err(Error::InvalidRespone);
        }
        let raw_count = data[2];
        let port_count = if raw_count <= 15 {
            raw_count
        } else {
            0
        };
        let characteristics = (data[3] as u16) + 256 * (data[4] as u16);
        Ok(HubDescriptor { port_count, characteristics })
    }

    /// Number of USB hub ports
    pub fn port_count(&self) -> (r: u8)
        ensures
            r == self.spec_port_count(),
    {
        self.port_count
    }

    /// Logical Power Switching Mode supported by the hub
    pub fn logical_power_switching_mode(&self) -> (r: LogicalPowerSwitchingMode)
        ensures
            r == power_switching_mode(self.spec_characteristics()),
    {
        if self.characteristics & 0x0003 == 0x0000 {
            LogicalPowerSwitchingMode::Common
        } else if self.characteristics & 0x0003 == 0x0001 {
            LogicalPowerSwitchingMode::IndividualPort
        } else {
            LogicalPowerSwitchingMode::Unsupported
        }
    }
}

/// The power-switching mode depends on nothing but the low two bits of the
/// characteristics word: two words that agree there decode alike.
pub proof fn lemma_power_switching_mode_low_bits(c1: u16, c2: u16)
    requires
        c1 & 0x0003 == c2 & 0x0003,
    ensures
        power_switching_mode(c1) == power_switching_mode(c2),
{
}

} // verus!
