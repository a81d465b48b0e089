use usb_hub_control::Attached;
use usb_hub_control::ContainerId;
use usb_hub_control::ControlKind;
use usb_hub_control::ControlRequest;
use usb_hub_control::DeviceRecord;
use usb_hub_control::DeviceTree;
use usb_hub_control::Error;
use usb_hub_control::Hub;
use usb_hub_control::RenderLine;
use usb_hub_control::TransportError;
use usb_hub_control::UsbTransport;
use usb_hub_control::encode_container_id_capability;
use usb_hub_control::render_tree;

struct FakeHub {
    chain: Vec<u8>,
    descriptor: Vec<u8>,
    bos: Option<Vec<u8>>,
    statuses: Vec<Result<u16, ()>>,
    status_reply_len: usize,
}

struct FakeTransport {
    usb_version: u16,
    hubs: Vec<FakeHub>,
    open_chains: Vec<Vec<u8>>,
    power_ops: Vec<(u8, u16, u16)>,
    closed: usize,
    fail_open: bool,
}

impl FakeTransport {
    fn single(descriptor: Vec<u8>, statuses: Vec<Result<u16, ()>>) -> FakeTransport {
        FakeTransport {
            usb_version: 0x0210,
            hubs: vec![FakeHub {
                chain: vec![1],
                descriptor,
                bos: None,
                statuses,
                status_reply_len: 4,
            }],
            open_chains: Vec::new(),
            power_ops: Vec::new(),
            closed: 0,
            fail_open: false,
        }
    }

    fn hub_index(&self, handle: usize) -> usize {
        let chain = &self.open_chains[handle];
        self.hubs
            .iter()
            .position(|h| &h.chain == chain)
            .expect("opened a chain the fake does not serve")
    }
}

impl UsbTransport for FakeTransport {
    fn list_devices(&mut self) -> Result<Vec<DeviceRecord>, TransportError> {
        Ok(Vec::new())
    }

    fn open(&mut self, record: &DeviceRecord) -> Result<usize, TransportError> {
        if self.fail_open {
            return Err(TransportError);
        }
        self.open_chains.push(record.port_chain.clone());
        Ok(self.open_chains.len() - 1)
    }

    fn usb_version(&mut self, _handle: usize) -> u16 {
        self.usb_version
    }

    fn control_in(
        &mut self,
        handle: usize,
        request: &ControlRequest,
        _length: usize,
        _timeout_ms: u64,
    ) -> Result<Vec<u8>, TransportError> {
        let hub = &self.hubs[self.hub_index(handle)];
        if request.request == 0x06 {
            match request.control_type {
                ControlKind::Class => Ok(hub.descriptor.clone()),
                ControlKind::Standard => match &hub.bos {
                    Some(b) => Ok(b.clone()),
                    None => Err(TransportError),
                },
            }
        } else if request.request == 0x00 {
            let port = request.index as usize;
            match hub.statuses[port - 1] {
                Ok(word) => {
                    let mut v = vec![(word & 0xff) as u8, (word >> 8) as u8, 0, 0];
                    v.truncate(hub.status_reply_len);
                    Ok(v)
                }
                Err(()) => Err(TransportError),
            }
        } else {
            Err(TransportError)
        }
    }

    fn control_out(
        &mut self,
        _handle: usize,
        request: &ControlRequest,
        data: &[u8],
        _timeout_ms: u64,
    ) -> Result<(), TransportError> {
        assert!(data.is_empty());
        self.power_ops.push((request.request, request.value, request.index));
        Ok(())
    }

    fn close(&mut self, _handle: usize) {
        self.closed += 1;
    }
}

fn record_at(bus: u8, chain: &[u8], class: u8) -> DeviceRecord {
    DeviceRecord {
        bus_number: bus,
        device_address: 1,
        vendor_id: 0x1234,
        product_id: 0x5678,
        device_class: class,
        device_subclass: 0,
        device_protocol: 0,
        device_version: 0x0100,
        manufacturer: Some(String::from("maker")),
        product: Some(String::from("widget")),
        serial: None,
        port_chain: chain.to_vec(),
    }
}

fn four_port_descriptor(characteristics: u16) -> Vec<u8> {
    vec![
        9,
        0x29,
        4,
        (characteristics & 0xff) as u8,
        (characteristics >> 8) as u8,
        0x32,
        0x64,
        0x00,
        0xff,
    ]
}

#[test]
fn non_hub_class_is_rejected() {
    let mut t = FakeTransport::single(four_port_descriptor(0x0001), Vec::new());
    let rec = record_at(1, &[1], 3);
    match Hub::from_device_info(&mut t, &rec) {
        Err(Error::InvalidDeviceClass) => {}
        _ => panic!("a non-hub record must be rejected"),
    }
}

#[test]
fn hub_opens_and_reports_port_count() {
    let mut t = FakeTransport::single(four_port_descriptor(0x0001), Vec::new());
    let rec = record_at(1, &[1], 9);
    let hub = Hub::from_device_info(&mut t, &rec).unwrap();
    assert_eq!(hub.port_count(), 4);
    assert_eq!(hub.container_id(), None);
    assert_eq!(hub.info().bus_number, 1);
}

#[test]
fn hub_reads_container_id_from_bos() {
    let id = ContainerId([3u8; 16]);
    let mut t = FakeTransport::single(four_port_descriptor(0x0001), Vec::new());
    t.hubs[0].bos = Some(encode_container_id_capability(&id));
    let rec = record_at(1, &[1], 9);
    let hub = Hub::from_device_info(&mut t, &rec).unwrap();
    assert_eq!(hub.container_id(), Some(id));
}

#[test]
fn bos_failure_is_tolerated() {
    // the fake answers the BOS request with a transport error
    let mut t = FakeTransport::single(four_port_descriptor(0x0001), Vec::new());
    let rec = record_at(1, &[1], 9);
    let hub = Hub::from_device_info(&mut t, &rec).unwrap();
    assert_eq!(hub.container_id(), None);
}

#[test]
fn port_status_rejects_out_of_range_ports() {
    let mut t = FakeTransport::single(
        four_port_descriptor(0x0001),
        vec![Ok(0x0100), Ok(0x0100), Ok(0x0100), Ok(0x0100)],
    );
    let rec = record_at(1, &[1], 9);
    let hub = Hub::from_device_info(&mut t, &rec).unwrap();
    match hub.port_status(&mut t, 0) {
        Err(Error::InvalidPort) => {}
        _ => panic!("port 0 must be rejected"),
    }
    match hub.port_status(&mut t, 5) {
        Err(Error::InvalidPort) => {}
        _ => panic!("port 5 of a 4-port hub must be rejected"),
    }
    assert!(hub.port_status(&mut t, 4).is_ok());
}

#[test]
fn port_status_decodes_the_status_word() {
    let mut t = FakeTransport::single(
        four_port_descriptor(0x0001),
        vec![Ok(0x0103), Ok(0x0100), Ok(0x0100), Ok(0x0100)],
    );
    let rec = record_at(1, &[1], 9);
    let hub = Hub::from_device_info(&mut t, &rec).unwrap();
    let st = hub.port_status(&mut t, 1).unwrap();
    assert!(st.connection());
    assert!(st.enabled());
    assert!(st.powered());
    let st2 = hub.port_status(&mut t, 2).unwrap();
    assert!(!st2.connection());
    assert!(st2.powered());
}

#[test]
fn short_status_reply_is_a_transport_fault() {
    let mut t = FakeTransport::single(four_port_descriptor(0x0001), vec![Ok(0x0100)]);
    t.hubs[0].descriptor[2] = 1;
    t.hubs[0].status_reply_len = 2;
    let rec = record_at(1, &[1], 9);
    let hub = Hub::from_device_info(&mut t, &rec).unwrap();
    match hub.port_status(&mut t, 1) {
        Err(Error::Transport) => {}
        _ => panic!("a reply of other than 4 bytes must be a transport fault"),
    }
}

#[test]
fn ganged_hub_rejects_port_power_regardless_of_port() {
    // characteristics 0x0000: Common (ganged) switching
    let mut t = FakeTransport::single(four_port_descriptor(0x0000), Vec::new());
    let rec = record_at(1, &[1], 9);
    let hub = Hub::from_device_info(&mut t, &rec).unwrap();
    match hub.set_port_power(&mut t, 2, true) {
        Err(Error::InvalidPort) => {}
        _ => panic!("a ganged hub must reject per-port power control"),
    }
    match hub.set_port_power(&mut t, 99, true) {
        Err(Error::InvalidPort) => {}
        _ => panic!("an invalid port changes nothing about the rejection"),
    }
    assert!(t.power_ops.is_empty());
}

#[test]
fn unsupported_switching_rejects_port_power() {
    let mut t = FakeTransport::single(four_port_descriptor(0x0002), Vec::new());
    let rec = record_at(1, &[1], 9);
    let hub = Hub::from_device_info(&mut t, &rec).unwrap();
    match hub.set_port_power(&mut t, 1, true) {
        Err(Error::InvalidPort) => {}
        _ => panic!("unsupported switching must reject per-port power control"),
    }
}

#[test]
fn individual_hub_issues_set_and_clear_feature() {
    let mut t = FakeTransport::single(four_port_descriptor(0x0001), Vec::new());
    let rec = record_at(1, &[1], 9);
    let hub = Hub::from_device_info(&mut t, &rec).unwrap();
    hub.set_port_power(&mut t, 3, true).unwrap();
    hub.set_port_power(&mut t, 3, false).unwrap();
    // SET_FEATURE then CLEAR_FEATURE, PORT_POWER selector, port in index
    assert_eq!(t.power_ops, vec![(0x03, 0x0008, 3), (0x01, 0x0008, 3)]);
    match hub.set_port_power(&mut t, 0, true) {
        Err(Error::InvalidPort) => {}
        _ => panic!("port 0 must be rejected"),
    }
    match hub.set_port_power(&mut t, 5, true) {
        Err(Error::InvalidPort) => {}
        _ => panic!("port 5 of a 4-port hub must be rejected"),
    }
}

#[test]
fn render_tree_describes_one_root_hub() {
    // one root hub: bus 1, 4 ports, individual switching, port 2 connected
    // to a non-hub device, the other ports disconnected
    let mut t = FakeTransport::single(
        four_port_descriptor(0x0001),
        vec![Ok(0x0100), Ok(0x0103), Ok(0x0100), Ok(0x0100)],
    );
    let records = vec![record_at(1, &[1], 9), record_at(1, &[1, 2], 3)];
    let tree = DeviceTree::from_records(records);
    let (lines, diags) = render_tree(&mut t, &tree).unwrap();
    assert!(diags.is_empty());
    assert_eq!(lines.len(), 5);
    match &lines[0] {
        RenderLine::Hub { depth, key, record, port_count, container_id } => {
            assert_eq!(*depth, 0);
            assert_eq!(key.as_slice(), &[1, 1]);
            assert_eq!(record.device_class, 9);
            assert_eq!(*port_count, 4);
            assert!(container_id.is_none());
        }
        _ => panic!("the first line must describe the root hub"),
    }
    for (offset, line) in lines[1..].iter().enumerate() {
        match line {
            RenderLine::Port { depth, port, status, attached } => {
                assert_eq!(*depth, 0);
                assert_eq!(*port as usize, offset + 1);
                assert!(status.is_some());
                match (*port, attached) {
                    (2, Attached::Device(rec)) => {
                        assert_eq!(rec.device_class, 3);
                        assert_eq!(rec.product.as_deref(), Some("widget"));
                    }
                    (2, _) => panic!("port 2 must continue to a device description"),
                    (_, Attached::NotConnected) => {}
                    _ => panic!("a disconnected port ends blank"),
                }
            }
            _ => panic!("exactly one hub line is emitted"),
        }
    }
    assert_eq!(t.closed, 1);
}

#[test]
fn render_tree_recurses_into_child_hubs() {
    let mut t = FakeTransport::single(
        vec![9, 0x29, 2, 0x01, 0x00, 0x32, 0x64, 0x00, 0xff],
        vec![Ok(0x0103), Ok(0x0100)],
    );
    t.hubs.push(FakeHub {
        chain: vec![1, 1],
        descriptor: vec![9, 0x29, 1, 0x00, 0x00, 0x32, 0x64, 0x00, 0xff],
        bos: None,
        statuses: vec![Ok(0x0100)],
        status_reply_len: 4,
    });
    let records = vec![record_at(1, &[1], 9), record_at(1, &[1, 1], 9)];
    let tree = DeviceTree::from_records(records);
    let (lines, diags) = render_tree(&mut t, &tree).unwrap();
    assert!(diags.is_empty());
    // root hub line, its port 1 (hub child), nested hub line, nested port,
    // then the root's port 2
    assert_eq!(lines.len(), 5);
    match &lines[1] {
        RenderLine::Port { depth, port, attached, .. } => {
            assert_eq!(*depth, 0);
            assert_eq!(*port, 1);
            assert!(matches!(attached, Attached::HubChild));
        }
        _ => panic!("the root's first port line comes before the nested hub"),
    }
    match &lines[2] {
        RenderLine::Hub { depth, key, port_count, .. } => {
            assert_eq!(*depth, 1);
            assert_eq!(key.as_slice(), &[1, 1, 1]);
            assert_eq!(*port_count, 1);
        }
        _ => panic!("the nested hub follows its port line"),
    }
    match &lines[3] {
        RenderLine::Port { depth, port, .. } => {
            assert_eq!(*depth, 1);
            assert_eq!(*port, 1);
        }
        _ => panic!("the nested hub's port follows"),
    }
    match &lines[4] {
        RenderLine::Port { depth, port, attached, .. } => {
            assert_eq!(*depth, 0);
            assert_eq!(*port, 2);
            assert!(matches!(attached, Attached::NotConnected));
        }
        _ => panic!("the root's second port closes the walk"),
    }
    assert_eq!(t.closed, 2);
}

#[test]
fn render_tree_aborts_when_a_hub_cannot_be_opened() {
    let mut t = FakeTransport::single(four_port_descriptor(0x0001), Vec::new());
    t.fail_open = true;
    let records = vec![record_at(1, &[1], 9)];
    let tree = DeviceTree::from_records(records);
    match render_tree(&mut t, &tree) {
        Err(Error::Transport) => {}
        _ => panic!("an unopenable root hub aborts the walk"),
    }
}

#[test]
fn failed_port_query_degrades_to_a_diagnostic() {
    let mut t = FakeTransport::single(
        four_port_descriptor(0x0001),
        vec![Err(()), Ok(0x0100), Ok(0x0100), Ok(0x0100)],
    );
    let records = vec![record_at(1, &[1], 9)];
    let tree = DeviceTree::from_records(records);
    let (lines, diags) = render_tree(&mut t, &tree).unwrap();
    assert_eq!(lines.len(), 5);
    assert_eq!(diags.len(), 1);
    assert_eq!(diags[0].port, 1);
    assert_eq!(diags[0].key.as_slice(), &[1, 1]);
    assert_eq!(diags[0].error, Error::Transport);
    // the failed port is treated as connected; nothing resolves below it
    match &lines[1] {
        RenderLine::Port { port, status, attached, .. } => {
            assert_eq!(*port, 1);
            assert!(status.is_none());
            assert!(matches!(attached, Attached::Unresolved));
        }
        _ => panic!("the failed port still gets its line"),
    }
}
