use usb_hub_control::DeviceRecord;
use usb_hub_control::DeviceTree;
use usb_hub_control::Error;
use usb_hub_control::PortStatus;
use usb_hub_control::ContainerId;
use usb_hub_control::bos_request;
use usb_hub_control::container_id_of_reply;
use usb_hub_control::decode_status_reply;
use usb_hub_control::encode_container_id_capability;
use usb_hub_control::hub_descriptor_request;
use usb_hub_control::key_lt;
use usb_hub_control::parse_location;
use usb_hub_control::power_request;
use usb_hub_control::status_request;
use usb_hub_control::super_speed_of;

fn record_at(bus: u8, chain: &[u8], class: u8) -> DeviceRecord {
    DeviceRecord {
        bus_number: bus,
        device_address: 1,
        vendor_id: 0x1234,
        product_id: 0x5678,
        device_class: class,
        device_subclass: 0,
        device_protocol: 0,
        device_version: 0x0100,
        manufacturer: None,
        product: None,
        serial: None,
        port_chain: chain.to_vec(),
    }
}

#[test]
fn powered_consults_bit_nine_on_superspeed() {
    // same raw word, different hub generation, different answer
    let ss = PortStatus::from_field(0x0201, true);
    assert!(ss.powered());
    let hs = PortStatus::from_field(0x0201, false);
    assert!(!hs.powered());
}

#[test]
fn powered_consults_bit_eight_otherwise() {
    let hs = PortStatus::from_field(0x0100, false);
    assert!(hs.powered());
    let ss = PortStatus::from_field(0x0100, true);
    assert!(!ss.powered());
}

#[test]
fn status_bits_decode_individually() {
    let st = PortStatus::from_field(0x0001, false);
    assert!(st.connection());
    assert!(!st.enabled());
    let st2 = PortStatus::from_field(0x0002, false);
    assert!(st2.enabled());
    let st3 = PortStatus::from_field(0x0004, false);
    assert!(st3.suspended());
    let st4 = PortStatus::from_field(0x0008, false);
    assert!(st4.overcurrent());
    let st5 = PortStatus::from_field(0x0010, false);
    assert!(st5.reset());
}

#[test]
fn device_keys_order_lexicographically() {
    let a = vec![1u8, 2];
    let b = vec![1u8, 2, 1];
    let c = vec![1u8, 3];
    assert!(key_lt(&a, &b));
    assert!(key_lt(&b, &c));
    assert!(key_lt(&a, &c));
    assert!(!key_lt(&b, &a));
    assert!(!key_lt(&c, &b));
    assert!(!key_lt(&a, &a));
}

#[test]
fn tree_iterates_parent_before_descendants() {
    let records = vec![
        record_at(1, &[1, 2], 3),
        record_at(1, &[1], 9),
        record_at(1, &[3], 3),
        record_at(1, &[1, 2, 1], 3),
    ];
    let tree = DeviceTree::from_records(records);
    assert_eq!(tree.len(), 4);
    assert_eq!(tree.key_at(0).as_slice(), &[1, 1]);
    assert_eq!(tree.key_at(1).as_slice(), &[1, 1, 2]);
    assert_eq!(tree.key_at(2).as_slice(), &[1, 1, 2, 1]);
    assert_eq!(tree.key_at(3).as_slice(), &[1, 3]);
}

#[test]
fn tree_lookup_finds_stored_records() {
    let records = vec![record_at(2, &[1], 9), record_at(2, &[1, 3], 3)];
    let tree = DeviceTree::from_records(records);
    let hub = tree.get(&vec![2u8, 1]).unwrap();
    assert_eq!(hub.device_class, 9);
    let dev = tree.get(&vec![2u8, 1, 3]).unwrap();
    assert_eq!(dev.device_class, 3);
    assert!(tree.get(&vec![2u8, 2]).is_none());
}

#[test]
fn tree_insert_replaces_same_key() {
    let mut tree = DeviceTree::new();
    let mut first = record_at(1, &[4], 3);
    first.device_address = 10;
    tree.insert(first);
    let mut second = record_at(1, &[4], 3);
    second.device_address = 20;
    tree.insert(second);
    assert_eq!(tree.len(), 1);
    assert_eq!(tree.get(&vec![1u8, 4]).unwrap().device_address, 20);
}

#[test]
fn location_string_parses_to_key() {
    assert_eq!(parse_location("2-1.3"), Some(vec![2u8, 1, 3]));
    assert_eq!(parse_location("10-1.2.3"), Some(vec![10u8, 1, 2, 3]));
    assert_eq!(parse_location("1-15"), Some(vec![1u8, 15]));
    assert_eq!(parse_location("007-1"), Some(vec![7u8, 1]));
}

#[test]
fn malformed_locations_yield_no_match() {
    assert_eq!(parse_location("2-"), None);
    assert_eq!(parse_location("x-1"), None);
    assert_eq!(parse_location("2-1..3"), None);
    assert_eq!(parse_location(""), None);
    assert_eq!(parse_location("2"), None);
    assert_eq!(parse_location("-1"), None);
    assert_eq!(parse_location("2-1."), None);
    assert_eq!(parse_location("2-1.x"), None);
}

#[test]
fn errors_describe_themselves() {
    assert_eq!(Error::Transport.describe(), "transport failure");
    assert_eq!(Error::InvalidDeviceClass.describe(), "Invalid class");
    assert_eq!(Error::InvalidRespone.describe(), "Invalid response");
    assert_eq!(Error::InvalidPort.describe(), "Invalid port");
}

#[test]
fn oversized_location_numbers_yield_no_match() {
    assert_eq!(parse_location("300-1"), None);
    assert_eq!(parse_location("2-256"), None);
    assert_eq!(parse_location("2-1.999"), None);
    assert_eq!(parse_location("2-255"), Some(vec![2u8, 255]));
}

#[test]
fn superspeed_threshold_is_strict() {
    assert!(!super_speed_of(0x0300));
    assert!(super_speed_of(0x0301));
    assert!(!super_speed_of(0x0210));
}

#[test]
fn status_reply_decodes_little_endian_word() {
    let st = decode_status_reply(&[0x03, 0x01, 0xff, 0xff], false).unwrap();
    assert_eq!(st.0, 0x0103);
    assert!(st.connection());
    assert!(st.powered());
    assert_eq!(
        decode_status_reply(&[0x03, 0x01], false).unwrap_err(),
        Error::Transport
    );
    assert_eq!(
        decode_status_reply(&[0, 0, 0, 0, 0], false).unwrap_err(),
        Error::Transport
    );
}

#[test]
fn request_builders_fix_the_setup_fields() {
    let power_on = power_request(3, true);
    assert_eq!(power_on.request, 0x03);
    assert_eq!(power_on.value, 0x0008);
    assert_eq!(power_on.index, 3);
    let power_off = power_request(3, false);
    assert_eq!(power_off.request, 0x01);
    let status = status_request(2);
    assert_eq!(status.request, 0x00);
    assert_eq!(status.value, 0);
    assert_eq!(status.index, 2);
    let (hub_req, size) = hub_descriptor_request(false);
    assert_eq!(hub_req.value, 0x2900);
    assert_eq!(size, 9);
    let (ss_req, ss_size) = hub_descriptor_request(true);
    assert_eq!(ss_req.value, 0x2a00);
    assert_eq!(ss_size, 12);
    assert_eq!(bos_request().value, 0x0f00);
}

#[test]
fn bos_reply_extraction_tolerates_garbage() {
    let id = ContainerId([9u8; 16]);
    let good = encode_container_id_capability(&id);
    assert_eq!(container_id_of_reply(&good), Some(id));
    assert_eq!(container_id_of_reply(&[1, 2, 3]), None);
    // valid header, malformed record: tolerated as no Container ID
    assert_eq!(
        container_id_of_reply(&[5, 0x0f, 12, 0, 1, 7, 0x0b, 0x03, 0, 0, 0, 0]),
        None
    );
}
