use usb_hub_control::BinaryObjectStoreDescriptor;
use usb_hub_control::ContainerId;
use usb_hub_control::Error;
use usb_hub_control::HubDescriptor;
use usb_hub_control::LogicalPowerSwitchingMode;
use usb_hub_control::encode_container_id_capability;

#[test]
fn hub_descriptor_decodes_port_count_and_characteristics() {
    let data = [9u8, 0x29, 4, 0x01, 0x00, 0x32, 0x64, 0x00, 0xff];
    let d = HubDescriptor::from_data(&data, false).unwrap();
    assert_eq!(d.port_count(), 4);
    assert_eq!(
        d.logical_power_switching_mode(),
        LogicalPowerSwitchingMode::IndividualPort
    );
}

#[test]
fn hub_descriptor_clamps_port_count_above_fifteen() {
    let data = [9u8, 0x29, 16, 0x00, 0x00, 0x32, 0x64, 0x00, 0xff];
    let d = HubDescriptor::from_data(&data, false).unwrap();
    assert_eq!(d.port_count(), 0);
    let data15 = [9u8, 0x29, 15, 0x00, 0x00, 0x32, 0x64, 0x00, 0xff];
    let d15 = HubDescriptor::from_data(&data15, false).unwrap();
    assert_eq!(d15.port_count(), 15);
}

#[test]
fn hub_descriptor_rejects_wrong_length() {
    let short = [9u8, 0x29, 4, 0x01, 0x00];
    assert_eq!(
        HubDescriptor::from_data(&short, false).unwrap_err(),
        Error::InvalidRespone
    );
    let nine = [9u8, 0x29, 4, 0x01, 0x00, 0x32, 0x64, 0x00, 0xff];
    assert_eq!(
        HubDescriptor::from_data(&nine, true).unwrap_err(),
        Error::InvalidRespone
    );
}

#[test]
fn hub_descriptor_superspeed_takes_twelve_bytes() {
    let data = [12u8, 0x2a, 6, 0x01, 0x00, 0, 0, 0, 0, 0, 0, 0];
    let d = HubDescriptor::from_data(&data, true).unwrap();
    assert_eq!(d.port_count(), 6);
    assert_eq!(
        d.logical_power_switching_mode(),
        LogicalPowerSwitchingMode::IndividualPort
    );
}

#[test]
fn hub_descriptor_characteristics_are_little_endian() {
    let data = [9u8, 0x29, 2, 0x02, 0x01, 0, 0, 0, 0];
    let d = HubDescriptor::from_data(&data, false).unwrap();
    // characteristics = 0x0102, low two bits 0b10: unsupported switching
    assert_eq!(
        d.logical_power_switching_mode(),
        LogicalPowerSwitchingMode::Unsupported
    );
}

#[test]
fn power_switching_mode_depends_only_on_low_bits() {
    let common = [9u8, 0x29, 2, 0x00, 0xab, 0, 0, 0, 0];
    let d = HubDescriptor::from_data(&common, false).unwrap();
    assert_eq!(
        d.logical_power_switching_mode(),
        LogicalPowerSwitchingMode::Common
    );
    let individual = [9u8, 0x29, 2, 0x05, 0xab, 0, 0, 0, 0];
    let d2 = HubDescriptor::from_data(&individual, false).unwrap();
    assert_eq!(
        d2.logical_power_switching_mode(),
        LogicalPowerSwitchingMode::IndividualPort
    );
}

#[test]
fn bos_rejects_short_buffer() {
    let data = [5u8, 0x0f, 4, 0];
    assert_eq!(
        BinaryObjectStoreDescriptor::from_data(&data).unwrap_err(),
        Error::InvalidRespone
    );
}

#[test]
fn bos_rejects_bad_header_bytes() {
    let bad_len = [4u8, 0x0f, 5, 0, 0];
    assert_eq!(
        BinaryObjectStoreDescriptor::from_data(&bad_len).unwrap_err(),
        Error::InvalidRespone
    );
    let bad_type = [5u8, 0x0e, 5, 0, 0];
    assert_eq!(
        BinaryObjectStoreDescriptor::from_data(&bad_type).unwrap_err(),
        Error::InvalidRespone
    );
}

#[test]
fn bos_rejects_total_length_mismatch() {
    // total_length says 6 but the buffer holds 5 bytes
    let data = [5u8, 0x0f, 6, 0, 0];
    assert_eq!(
        BinaryObjectStoreDescriptor::from_data(&data).unwrap_err(),
        Error::InvalidRespone
    );
    // and a longer buffer whose field understates the length
    let long = [5u8, 0x0f, 5, 0, 0, 0, 0];
    assert_eq!(
        BinaryObjectStoreDescriptor::from_data(&long).unwrap_err(),
        Error::InvalidRespone
    );
}

#[test]
fn bos_without_capabilities_has_no_container_id() {
    let data = [5u8, 0x0f, 5, 0, 0];
    let bos = BinaryObjectStoreDescriptor::from_data(&data).unwrap();
    assert_eq!(bos.container_id().unwrap(), None);
}

#[test]
fn bos_skips_non_container_capabilities() {
    // one SuperSpeed capability record, no Container ID
    let data = [5u8, 0x0f, 12, 0, 1, 7, 0x10, 0x03, 0, 0, 0, 0];
    let bos = BinaryObjectStoreDescriptor::from_data(&data).unwrap();
    assert_eq!(bos.container_id().unwrap(), None);
}

#[test]
fn bos_rejects_malformed_record_type() {
    // record descriptor type is not 0x10: a hard decode failure
    let data = [5u8, 0x0f, 12, 0, 1, 7, 0x0b, 0x03, 0, 0, 0, 0];
    let bos = BinaryObjectStoreDescriptor::from_data(&data).unwrap();
    assert_eq!(bos.container_id().unwrap_err(), Error::InvalidRespone);
}

#[test]
fn bos_rejects_record_past_buffer_end() {
    // the record announces 20 bytes but the buffer ends after 5 of them
    let data = [5u8, 0x0f, 10, 0, 1, 20, 0x10, 0x04, 1, 2];
    let bos = BinaryObjectStoreDescriptor::from_data(&data).unwrap();
    assert_eq!(bos.container_id().unwrap_err(), Error::InvalidRespone);
}

#[test]
fn bos_rejects_count_exceeding_records() {
    // two records announced, one present
    let data = [5u8, 0x0f, 12, 0, 2, 7, 0x10, 0x03, 0, 0, 0, 0];
    let bos = BinaryObjectStoreDescriptor::from_data(&data).unwrap();
    assert_eq!(bos.container_id().unwrap_err(), Error::InvalidRespone);
}

#[test]
fn container_id_round_trips_through_encoding() {
    let id = ContainerId([
        0x00, 0x11, 0x22, 0x33, 0x44, 0x55, 0x66, 0x77, 0x88, 0x99, 0xaa, 0xbb, 0xcc, 0xdd,
        0xee, 0xff,
    ]);
    let buf = encode_container_id_capability(&id);
    assert_eq!(buf.len(), 25);
    let bos = BinaryObjectStoreDescriptor::from_data(&buf).unwrap();
    let decoded = bos.container_id().unwrap().unwrap();
    assert_eq!(decoded.0, id.0);
}

#[test]
fn container_id_found_after_other_capability() {
    let id = [7u8; 16];
    let mut data = vec![5u8, 0x0f, 0, 0, 2];
    data.extend_from_slice(&[7, 0x10, 0x03, 0, 0, 0, 0]);
    data.extend_from_slice(&[20, 0x10, 0x04]);
    data.extend_from_slice(&id);
    data.push(0);
    let total = data.len() as u16;
    data[2] = (total & 0xff) as u8;
    data[3] = (total >> 8) as u8;
    let bos = BinaryObjectStoreDescriptor::from_data(&data).unwrap();
    assert_eq!(bos.container_id().unwrap().unwrap().0, id);
}
