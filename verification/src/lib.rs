//! Verified USB hub descriptor decoding, port-status interpretation, and
//! bus topology modelling.
//!
//! The library decodes the USB hub class descriptor and the Binary Object
//! Store descriptor, interprets the 16-bit port-status word with its
//! generation-dependent power bit, models the bus topology as an ordered
//! map keyed by bus number and port chain, walks it from each root hub,
//! and parses human-readable location strings into the same keys.  All
//! device access goes through the `UsbTransport` capability, whose
//! implementations live outside the library.

use vstd::prelude::*;

mod bos;
mod descriptor;
mod error;
mod hub;
mod keys;
mod location;
mod record;
mod status;
mod topology;
mod transport;
mod tree;

pub use bos::BinaryObjectStoreDescriptor;
pub use bos::ContainerId;
pub use bos::bos_header_ok;
pub use bos::capability_scan;
pub use bos::container_id_bos_bytes;
pub use bos::encode_container_id_capability;
pub use bos::lemma_container_id_round_trip;
pub use descriptor::HUB_DESCRIPTOR_LEN;
pub use descriptor::HubDescriptor;
pub use descriptor::LogicalPowerSwitchingMode;
pub use descriptor::SUPERSPEED_HUB_DESCRIPTOR_LEN;
pub use descriptor::clamped_port_count;
pub use descriptor::lemma_power_switching_mode_low_bits;
pub use descriptor::power_switching_mode;
pub use bos::bos_reply_container_id;
pub use bos::container_id_of_reply;
pub use error::Error;
pub use error::TransportError;
pub use hub::DEVICE_CLASS_HUB;
pub use hub::Hub;
pub use hub::bos_request;
pub use hub::hub_descriptor_request;
pub use hub::power_request;
pub use hub::status_request;
pub use hub::super_speed_of;
pub use status::decode_status_reply;
pub use status::le16;
pub use keys::key_lt;
pub use keys::lemma_lex_asymmetric;
pub use keys::lemma_lex_prefix_lt;
pub use keys::lemma_lex_total;
pub use keys::lemma_lex_transitive;
pub use keys::lex_lt;
pub use location::all_digits;
pub use location::chain_key;
pub use location::digits_value;
pub use location::find_byte;
pub use location::is_digit;
pub use location::lemma_find_byte;
pub use location::loc_key;
pub use location::parse_location;
pub use location::seg_ok;
pub use record::DeviceRecord;
pub use record::DeviceRecordView;
pub use record::key_of;
pub use status::PortStatus;
pub use status::powered_field;
pub use status::status_field;
pub use topology::Attached;
pub use topology::Diagnostic;
pub use topology::RenderLine;
pub use topology::attached_matches_lookup;
pub use topology::has_diagnostic;
pub use topology::is_hub_child_line;
pub use topology::port_line_consistent;
pub use topology::port_line_port;
pub use topology::port_line_status_missing;
pub use topology::root_hub_entries;
pub use topology::top_hub_lines;
pub use topology::count_hub_lines_at;
pub use topology::count_port_lines_at;
pub use topology::count_port_lines_for;
pub use topology::is_port_line_for;
pub use topology::count_root_hubs;
pub use topology::describe_hub;
pub use topology::hub_line_port_count;
pub use topology::is_hub_line_at;
pub use topology::is_hub_line_for;
pub use topology::is_port_line_at;
pub use topology::line_depth;
pub use topology::render_tree;
pub use transport::ControlKind;
pub use transport::ControlRequest;
pub use transport::RecipientKind;
pub use transport::UsbTransport;
pub use tree::DeviceTree;
pub use tree::TreeEntry;
pub use tree::lemma_get_len_le_max;
pub use tree::lemma_get_present;
pub use tree::lemma_key_len_le_max;
pub use tree::lemma_parent_before_descendant;
pub use tree::lemma_sorted_unique;
pub use tree::max_key_len;
pub use tree::records_map;
pub use tree::spec_get;
pub use tree::tree_has_key;
pub use tree::tree_sorted;

verus! {

/// USB version 3.0 code (bcdUSB)
pub const USB_VERSION_3_0: u16 = 0x0300;

} // verus!

