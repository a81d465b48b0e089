//! The USB transport capability the hub model consumes.
//!
//! Enumeration, opening devices, and blocking control transfers are outside
//! work; the library only decides what to request and how to interpret what
//! comes back.  The capability's methods promise nothing, so everything the
//! library proves holds for every implementation, whatever the hardware
//! answers.

use vstd::prelude::*;

use crate::error::TransportError;
use crate::record::DeviceRecord;

verus! {

/// Whether a control request is a standard or a class request.
#[derive(Clone, Copy, Debug, PartialEq, Eq, Structural)]
pub enum ControlKind {
    /// Standard request
    Standard,
    /// Class request
    Class,
}

/// The recipient of a control request.
#[derive(Clone, Copy, Debug, PartialEq, Eq, Structural)]
pub enum RecipientKind {
    /// The device itself
    Device,
    /// Another recipient, addressed by the index field (here: a port)
    Other,
}

/// The setup fields of a control transfer.
#[derive(Clone, Copy, Debug, PartialEq, Eq, Structural)]
pub struct ControlRequest {
    /// Standard or class request
    pub control_type: ControlKind,
    /// Recipient of the request
    pub recipient: RecipientKind,
    /// Request code
    pub request: u8,
    /// Value field
    pub value: u16,
    /// Index field
    pub index: u16,
}

/// Blocking access to USB devices: enumeration, opening, and control
/// transfers with a per-operation timeout.  Implementations sit outside
/// the library; the hub model is verified against every possible answer.
pub trait UsbTransport {
    /// Enumerate the currently attached devices.
    fn list_devices(&mut self) -> Result<Vec<DeviceRecord>, TransportError>;

    /// Open a device and hand back a handle for transfers on it.
    fn open(&mut self, record: &DeviceRecord) -> Result<usize, TransportError>;

    /// The USB version (bcdUSB) from the open device's device descriptor.
    fn usb_version(&mut self, handle: usize) -> u16;

    /// Issue a control-IN transfer of at most `length` bytes.
    fn control_in(
        &mut self,
        handle: usize,
        request: &ControlRequest,
        length: usize,
        timeout_ms: u64,
    ) -> Result<Vec<u8>, TransportError>;

    /// Issue a control-OUT transfer carrying `data`.
    fn control_out(
        &mut self,
        handle: usize,
        request: &ControlRequest,
        data: &[u8],
        timeout_ms: u64,
    ) -> Result<(), TransportError>;

    /// Close an open handle.
    fn close(&mut self, handle: usize);
}

} // verus!
