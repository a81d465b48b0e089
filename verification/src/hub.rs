//! The live hub model: a device opened through the transport capability,
//! with its decoded hub descriptor, SuperSpeed flag and optional Container
//! ID, exposing port-status queries and per-port power control.
//!
//! The transport promises nothing, so no contract here can pin what the
//! hardware answers.  Instead every fixed part of the protocol is a
//! contracted function of its own: the request builders say exactly which
//! setup packet each operation sends, `super_speed_of` says how the
//! generation is chosen, and the reply decoders (`decode_status_reply`,
//! `container_id_of_reply`, `HubDescriptor::from_data`) say exactly what
//! every possible reply yields.  The methods here guard their inputs,
//! build the request, make the call, and hand the reply to a decoder;
//! their own contracts fix the guards, and that a transport fault is
//! surfaced as `Error::Transport` or `Error::InvalidRespone` — never as a
//! guard error.

use vstd::prelude::*;

use crate::USB_VERSION_3_0;
use crate::bos::ContainerId;
use crate::bos::container_id_of_reply;
use crate::descriptor::HUB_DESCRIPTOR_LEN;
use crate::descriptor::HubDescriptor;
use crate::descriptor::LogicalPowerSwitchingMode;
use crate::descriptor::SUPERSPEED_HUB_DESCRIPTOR_LEN;
use crate::descriptor::power_switching_mode;
use crate::error::Error;
use crate::record::DeviceRecord;
use crate::record::DeviceRecordView;
use crate::status::PortStatus;
use crate::status::decode_status_reply;
use crate::status::status_field;
use crate::transport::ControlKind;
use crate::transport::ControlRequest;
use crate::transport::RecipientKind;
use crate::transport::UsbTransport;

verus! {

/// USB device class code of a hub
pub const DEVICE_CLASS_HUB: u8 = 0x09;

/// GET_DESCRIPTOR request code
pub const STANDARD_REQUEST_GET_DESCRIPTOR: u8 = 0x06;

/// GET_STATUS request code
pub const STANDARD_REQUEST_GET_STATUS: u8 = 0x00;

/// CLEAR_FEATURE request code
pub const STANDARD_REQUEST_CLEAR_FEATURE: u8 = 0x01;

/// SET_FEATURE request code
pub const STANDARD_REQUEST_SET_FEATURE: u8 = 0x03;

/// PORT_POWER feature selector
pub const USB_PORT_FEATURE_POWER: u16 = 0x0008;

/// Fixed timeout of every blocking transfer
const TRANSFER_TIMEOUT_MS: u64 = 5000;

/// Whether a reported USB version (bcdUSB) makes the device a SuperSpeed
/// hub: strictly above 3.0.
pub fn super_speed_of(usb_version: u16) -> (r: bool)
    ensures
        r == (usb_version > USB_VERSION_3_0),
{
    usb_version > USB_VERSION_3_0
}

/// The class GET_DESCRIPTOR request for the hub descriptor, and the size
/// of the expected reply: descriptor type 0x2a and 12 bytes for a
/// SuperSpeed hub, 0x29 and 9 bytes otherwise, the type in the high byte
/// of the value field.
pub fn hub_descriptor_request(super_speed: bool) -> (r: (ControlRequest, usize))
    ensures
        r.0 == (ControlRequest {
            control_type: ControlKind::Class,
            recipient: RecipientKind::Device,
            request: STANDARD_REQUEST_GET_DESCRIPTOR,
            value: if super_speed {
                0x2a00u16
            } else {
                0x2900u16
            },
            index: 0,
        }),
        r.1 == (if super_speed {
            SUPERSPEED_HUB_DESCRIPTOR_LEN as int
        } else {
            HUB_DESCRIPTOR_LEN as int
        }),
{
    if super_speed {
        (
            ControlRequest {
                control_type: ControlKind::Class,
                recipient: RecipientKind::Device,
                request: STANDARD_REQUEST_GET_DESCRIPTOR,
                value: 0x2a00,
                index: 0,
            },
            SUPERSPEED_HUB_DESCRIPTOR_LEN,
        )
    } else {
        (
            ControlRequest {
                control_type: ControlKind::Class,
                recipient: RecipientKind::Device,
                request: STANDARD_REQUEST_GET_DESCRIPTOR,
                value: 0x2900,
                index: 0,
            },
            HUB_DESCRIPTOR_LEN,
        )
    }
}

/// The standard GET_DESCRIPTOR request for the BOS descriptor: type 0x0f
/// in the high byte of the value field.
pub fn bos_request() -> (r: ControlRequest)
    ensures
        r == (ControlRequest {
            control_type: ControlKind::Standard,
            recipient: RecipientKind::Device,
            request: STANDARD_REQUEST_GET_DESCRIPTOR,
            value: 0x0f00,
            index: 0,
        }),
{
    ControlRequest {
        control_type: ControlKind::Standard,
        recipient: RecipientKind::Device,
        request: STANDARD_REQUEST_GET_DESCRIPTOR,
        value: 0x0f00,
        index: 0,
    }
}

/// The class GET_STATUS request for one port: recipient Other, the port
/// number in the index field.
pub fn status_request(port: u8) -> (r: ControlRequest)
    ensures
        r == (ControlRequest {
            control_type: ControlKind::Class,
            recipient: RecipientKind::Other,
            request: STANDARD_REQUEST_GET_STATUS,
            value: 0,
            index: port as u16,
        }),
{
    ControlRequest {
        control_type: ControlKind::Class,
        recipient: RecipientKind::Other,
        request: STANDARD_REQUEST_GET_STATUS,
        value: 0,
        index: port as u16,
    }
}

/// The class request switching one port's power: SET_FEATURE to turn on,
/// CLEAR_FEATURE to turn off, the PORT_POWER feature selector in the
/// value field and the port number in the index field.
pub fn power_request(port: u8, on: bool) -> (r: ControlRequest)
    ensures
        r == (ControlRequest {
            control_type: ControlKind::Class,
            recipient: RecipientKind::Other,
            request: if on {
                STANDARD_REQUEST_SET_FEATURE
            } else {
                STANDARD_REQUEST_CLEAR_FEATURE
            },
            value: USB_PORT_FEATURE_POWER,
            index: port as u16,
        }),
{
    let request_code: u8 = if on {
        STANDARD_REQUEST_SET_FEATURE
    } else {
        STANDARD_REQUEST_CLEAR_FEATURE
    };
    ControlRequest {
        control_type: ControlKind::Class,
        recipient: RecipientKind::Other,
        request: request_code,
        value: USB_PORT_FEATURE_POWER,
        index: port as u16,
    }
}

/// USB hub: an open device handle bound to its decoded hub descriptor,
/// SuperSpeed flag and optional Container ID.
pub struct Hub {
    record: DeviceRecord,
    handle: usize,
    hub_descriptor: HubDescriptor,
    super_speed: bool,
    container_id: Option<ContainerId>,
}

impl Hub {
    /// The record of the device this hub was opened from.
    pub closed spec fn spec_record(&self) -> DeviceRecordView {
        self.record@
    }

    /// The decoded hub descriptor.
    pub closed spec fn spec_descriptor(&self) -> HubDescriptor {
        self.hub_descriptor
    }

    /// Whether the hub reported a USB version above 3.0.
    pub closed spec fn spec_super_speed(&self) -> bool {
        self.super_speed
    }

    /// The Container ID found in the BOS descriptor, if any.
    pub closed spec fn spec_container_id(&self) -> Option<ContainerId> {
        self.container_id
    }

    /// A hub's decoded descriptor is well formed.
    pub open spec fn wf(&self) -> bool {
        self.spec_descriptor().wf()
    }

    /// Create a Hub from a device record.
    ///
    /// Only a record of hub class may be opened: anything else is exactly
    /// `InvalidDeviceClass`, before the transport is touched.  On a
    /// hub-class record the device is opened, its generation decided by
    /// `super_speed_of` on the reported USB version, the hub descriptor
    /// requested per `hub_descriptor_request` and decoded by
    /// `HubDescriptor::from_data` (a reply of the wrong length is
    /// `InvalidRespone`), and the optional Container ID taken from the
    /// BOS reply by `container_id_of_reply` — a failed BOS read or decode
    /// yields no Container ID, never an error.  So on a hub-class record
    /// the only failures are the transport's own and a malformed
    /// descriptor reply, never a guard error.
    pub fn from_device_info<T: UsbTransport>(transport: &mut T, info: &DeviceRecord) -> (r:
        Result<Hub, Error>)
        ensures
            info@.device_class != DEVICE_CLASS_HUB <==> r == Err::<Hub, Error>(
                Error::InvalidDeviceClass,
            ),
            r matches Ok(h) ==> {
                &&& info@.device_class == DEVICE_CLASS_HUB
                &&& h.wf()
                &&& h.spec_record() == info@
            },
            info@.device_class == DEVICE_CLASS_HUB && r is Err ==> (r == Err::<Hub, Error>(
                Error::Transport,
            ) || r == Err::<Hub, Error>(Error::InvalidRespone)),
    {
        if info.device_class != DEVICE_CLASS_HUB {
            return Err(Error::InvalidDeviceClass);
        }
        let handle = match transport.open(info) {
            Ok(h) => h,
            Err(_) => { return Err(Error::Transport) },
        };
        let usb_version = transport.usb_version(handle);
        let super_speed = super_speed_of(usb_version);
        let (request, request_size) = hub_descriptor_request(super_speed);
        let buf = match transport.control_in(handle, &request, request_size, TRANSFER_TIMEOUT_MS) {
            Ok(b) => b,
            Err(_) => {
                transport.close(handle);
                return Err(Error::Transport);
            },
        };
        if buf.len() != request_size {
            transport.close(handle);
            return Err(Error::InvalidRespone);
        }
        let hub_descriptor = match HubDescriptor::from_data(buf.as_slice(), super_speed) {
            Ok(d) => d,
            Err(e) => {
                transport.close(handle);
                return Err(e);
            },
        };
        let bos_req = bos_request();
        let container_id = match transport.control_in(handle, &bos_req, 4096, TRANSFER_TIMEOUT_MS) {
            Ok(bos_buf) => container_id_of_reply(bos_buf.as_slice()),
            Err(_) => None,
        };
        Ok(Hub { record: info.clone(), handle, hub_descriptor, super_speed, container_id })
    }

    /// Get the record for this hub.
    pub fn info(&self) -> (r: DeviceRecord)
        ensures
            r@ == self.spec_record(),
    {
        self.record.clone()
    }

    /// Get Hub port count
    pub fn port_count(&self) -> (r: u8)
        ensures
            r == self.spec_descriptor().spec_port_count(),
    {
        self.hub_descriptor.port_count()
    }

    /// Get Hub container id
    pub fn container_id(&self) -> (r: Option<ContainerId>)
        ensures
            r == self.spec_container_id(),
    {
        self.container_id
    }

    /// Get Hub port status.
    ///
    /// A port outside `1..=port_count` is exactly `InvalidPort`, before
    /// the transport is touched; that error arises nowhere else.  On a
    /// valid port the request of `status_request` is issued and the reply
    /// decoded by `decode_status_reply`: exactly 4 bytes make a status
    /// carrying this hub's SuperSpeed flag, anything else is a transport
    /// fault.
    pub fn port_status<T: UsbTransport>(&self, transport: &mut T, port: u8) -> (r: Result<
        PortStatus,
        Error,
    >)
        ensures
            port < 1 || port > self.spec_descriptor().spec_port_count() <==> r == Err::<
                PortStatus,
                Error,
            >(Error::InvalidPort),
            1 <= port <= self.spec_descriptor().spec_port_count() && r is Err ==> r == Err::<
                PortStatus,
                Error,
            >(Error::Transport),
            r matches Ok(s) ==> {
                &&& 1 <= port <= self.spec_descriptor().spec_port_count()
                &&& exists|w: u16| s.0 == status_field(w, self.spec_super_speed())
                &&& (self.spec_super_speed() ==> s.0 & 0x8000 == 0x8000)
            },
    {
        if port < 1 || port > self.hub_descriptor.port_count() {
            return Err(Error::InvalidPort);
        }
        let request = status_request(port);
        let buf = match transport.control_in(self.handle, &request, 4, TRANSFER_TIMEOUT_MS) {
            Ok(b) => b,
            Err(_) => { return Err(Error::Transport) },
        };
        let status = match decode_status_reply(buf.as_slice(), self.super_speed) {
            Ok(s) => s,
            Err(e) => { return Err(e) },
        };
        proof {
            if self.spec_super_speed() {
                let w = crate::status::le16(buf@[0], buf@[1]);
                assert((w | 0x8000u16) & 0x8000u16 == 0x8000u16) by (bit_vector);
            }
        }
        Ok(status)
    }

    /// Set port power.
    ///
    /// Per-port power control is legal only on a hub whose characteristics
    /// encode individual port switching: a ganged or unsupported hub, or a
    /// port outside `1..=port_count`, is exactly `InvalidPort`, before the
    /// transport is touched, and that error arises nowhere else.  When the
    /// guards pass the single request of `power_request` is issued —
    /// SET_FEATURE to turn on, CLEAR_FEATURE to turn off, the PORT_POWER
    /// selector, a zero-length payload — and its only failure is the
    /// transport's.
    pub fn set_port_power<T: UsbTransport>(&self, transport: &mut T, port: u8, on: bool) -> (r:
        Result<(), Error>)
        ensures
            power_switching_mode(self.spec_descriptor().spec_characteristics())
                != LogicalPowerSwitchingMode::IndividualPort || port < 1 || port
                > self.spec_descriptor().spec_port_count() <==> r == Err::<(), Error>(
                Error::InvalidPort,
            ),
            r is Err ==> (r == Err::<(), Error>(Error::InvalidPort) || r == Err::<(), Error>(
                Error::Transport,
            )),
            r matches Ok(u) ==> {
                &&& power_switching_mode(self.spec_descriptor().spec_characteristics())
                    == LogicalPowerSwitchingMode::IndividualPort
                &&& 1 <= port <= self.spec_descriptor().spec_port_count()
            },
    {
        let mode = self.hub_descriptor.logical_power_switching_mode();
        if !(mode == LogicalPowerSwitchingMode::IndividualPort) {
            return Err(Error::InvalidPort);
        }
        if port < 1 || port > self.hub_descriptor.port_count() {
            return Err(Error::InvalidPort);
        }
        let request = power_request(port, on);
        let payload: Vec<u8> = Vec::new();
        match transport.control_out(self.handle, &request, payload.as_slice(), TRANSFER_TIMEOUT_MS) {
            Ok(u) => Ok(u),
            Err(_) => Err(Error::Transport),
        }
    }

    /// Release the hub's open handle.
    pub fn close<T: UsbTransport>(self, transport: &mut T) {
        transport.close(self.handle);
    }
}

} // verus!
