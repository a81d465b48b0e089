//! Immutable snapshot of one enumerated USB device.

use vstd::prelude::*;

verus! {

/// Mathematical image of a `DeviceRecord`: the same fields over sequences.
pub struct DeviceRecordView {
    /// Bus number
    pub bus_number: u8,
    /// Device address on the bus
    pub device_address: u8,
    /// Vendor ID
    pub vendor_id: u16,
    /// Product ID
    pub product_id: u16,
    /// Device class code
    pub device_class: u8,
    /// Device subclass code
    pub device_subclass: u8,
    /// Device protocol code
    pub device_protocol: u8,
    /// Device release number (bcdDevice)
    pub device_version: u16,
    /// Manufacturer string, if reported
    pub manufacturer: Option<Seq<char>>,
    /// Product string, if reported
    pub product: Option<Seq<char>>,
    /// Serial number string, if reported
    pub serial: Option<Seq<char>>,
    /// Chain of hub port numbers from the bus root to the device
    pub port_chain: Seq<u8>,
}

/// The key a record is stored under: the bus number followed by the full
/// port chain.
pub open spec fn key_of(r: DeviceRecordView) -> Seq<u8> {
    seq![r.bus_number] + r.port_chain
}

/// Immutable snapshot of one enumerated USB device: identity, class codes,
/// descriptive strings, and the port chain locating it on its bus.
pub struct DeviceRecord {
    /// Bus number
    pub bus_number: u8,
    /// Device address on the bus
    pub device_address: u8,
    /// Vendor ID
    pub vendor_id: u16,
    /// Product ID
    pub product_id: u16,
    /// Device class code
    pub device_class: u8,
    /// Device subclass code
    pub device_subclass: u8,
    /// Device protocol code
    pub device_protocol: u8,
    /// Device release number (bcdDevice)
    pub device_version: u16,
    /// Manufacturer string, if reported
    pub manufacturer: Option<String>,
    /// Product string, if reported
    pub product: Option<String>,
    /// Serial number string, if reported
    pub serial: Option<String>,
    /// Chain of hub port numbers from the bus root to the device
    pub port_chain: Vec<u8>,
}

impl View for DeviceRecord {
    type V = DeviceRecordView;

    open spec fn view(&self) -> DeviceRecordView {
        DeviceRecordView {
            bus_number: self.bus_number,
            device_address: self.device_address,
            vendor_id: self.vendor_id,
            product_id: self.product_id,
            device_class: self.device_class,
            device_subclass: self.device_subclass,
            device_protocol: self.device_protocol,
            device_version: self.device_version,
            manufacturer: match self.manufacturer {
                Some(s) => Some(s@),
                None => None,
            },
            product: match self.product {
                Some(s) => Some(s@),
                None => None,
            },
            serial: match self.serial {
                Some(s) => Some(s@),
                None => None,
            },
            port_chain: self.port_chain@,
        }
    }
}

fn clone_string_option(s: &Option<String>) -> (r: Option<String>)
    ensures
        match (s, &r) {
            (Some(a), Some(b)) => a@ == b@,
            (None, None) => true,
            _ => false,
        },
{
    match s {
        Some(v) => Some(v.clone()),
        None => None,
    }
}

impl DeviceRecord {
    /// The key this record is stored and looked up under.
    pub fn device_key(&self) -> (k: Vec<u8>)
        ensures
            k@ == key_of(self@),
    {
        let mut k: Vec<u8> = Vec::new();
        k.push(self.bus_number);
        let mut i: usize = 0;
        while i < self.port_chain.len()
            invariant
                i <= self.port_chain@.len(),
                k@.len() == 1 + i,
                k@[0] == self.bus_number,
                forall|j: int| 0 <= j < i ==> k@[1 + j] == self.port_chain@[j],
            decreases self.port_chain@.len() - i,
        {
            k.push(self.port_chain[i]);
            i = i + 1;
        }
        proof {
            assert(k@ =~= key_of(self@));
        }
        k
    }
}

impl Clone for DeviceRecord {
    /// A cloned record carries the same view.
    fn clone(&self) -> (r: Self)
        ensures
            r@ == self@,
    {
        DeviceRecord {
            bus_number: self.bus_number,
            device_address: self.device_address,
            vendor_id: self.vendor_id,
            product_id: self.product_id,
            device_class: self.device_class,
            device_subclass: self.device_subclass,
            device_protocol: self.device_protocol,
            device_version: self.device_version,
            manufacturer: clone_string_option(&self.manufacturer),
            product: clone_string_option(&self.product),
            serial: clone_string_option(&self.serial),
            port_chain: vstd::slice::slice_to_vec(self.port_chain.as_slice()),
        }
    }
}

} // verus!
