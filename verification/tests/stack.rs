use usbkbd::device::{UsbKbd, Istr, EPAddr, DeviceRequest, ControlState};
use usbkbd::cursor::ReadCursor;
use usbkbd::epreg::EPType;
use usbkbd::pma::{Pma, copy_to_pm, copy_from_pm};
use usbkbd::descr::build_string_descr;

fn setup_bytes(bm: u8, breq: u8, w_value: u16, w_index: u16, w_length: u16) -> [u8; 8] {
    [
        bm,
        breq,
        (w_value & 0xFF) as u8,
        (w_value >> 8) as u8,
        (w_index & 0xFF) as u8,
        (w_index >> 8) as u8,
        (w_length & 0xFF) as u8,
        (w_length >> 8) as u8,
    ]
}

fn host_setup(kbd: &mut UsbKbd, pkt: [u8; 8]) {
    // the packet lands in EP0's RX buffer at byte offset 128
    for k in 0..4 {
        let cell = (pkt[2 * k] as u16) | ((pkt[2 * k + 1] as u16) << 8);
        kbd.pma.write_cell(64 + k, cell);
    }
    // hardware: received count, SETUP flag, CTR_RX, both stats to NAK
    let count = kbd.pma.read_cell(3) & 0xFC00;
    kbd.pma.write_cell(3, count | 8);
    kbd.epr[0].setup = true;
    kbd.epr[0].ctr_rx = true;
    kbd.epr[0].stat_rx = 2;
    kbd.epr[0].stat_tx = 2;
    kbd.istr = Istr { reset: false, ctr: true, dir: true, ep_id: 0 };
    kbd.usb_poll();
}

fn host_take_in(kbd: &mut UsbKbd) -> Vec<u8> {
    assert_eq!(kbd.epr[0].stat_tx, 3, "IN packet must be armed");
    let count = kbd.pma.read_cell(1) as usize;
    let addr = kbd.pma.read_cell(0) as usize;
    let mut out = Vec::new();
    for i in 0..count {
        let cell = kbd.pma.read_cell((addr + i) / 2);
        out.push(if i % 2 == 0 { (cell & 0xFF) as u8 } else { (cell >> 8) as u8 });
    }
    // hardware completes the IN transaction
    kbd.epr[0].stat_tx = 2;
    kbd.epr[0].ctr_tx = true;
    kbd.istr = Istr { reset: false, ctr: true, dir: false, ep_id: 0 };
    kbd.usb_poll();
    out
}

fn host_status_out(kbd: &mut UsbKbd) {
    assert_eq!(kbd.epr[0].stat_rx, 3, "status stage must be armed");
    kbd.epr[0].stat_rx = 2;
    kbd.epr[0].ctr_rx = true;
    kbd.istr = Istr { reset: false, ctr: true, dir: true, ep_id: 0 };
    kbd.usb_poll();
}

fn fresh() -> UsbKbd {
    let mut kbd = UsbKbd::new();
    kbd.setup();
    kbd
}

fn get_descriptor(kbd: &mut UsbKbd, w_value: u16, w_length: u16) -> Vec<u8> {
    host_setup(kbd, setup_bytes(0x80, 0x06, w_value, 0, w_length));
    let mut data = Vec::new();
    loop {
        let pkt = host_take_in(kbd);
        let n = pkt.len();
        data.extend_from_slice(&pkt);
        if n < 64 {
            break;
        }
        if matches!(kbd.ctrl_state, ControlState::StatusOut { .. }) {
            break;
        }
    }
    host_status_out(kbd);
    data
}

#[test]
fn enumeration() {
    let mut kbd = fresh();
    // GET_DESCRIPTOR(Device, wLength=64) -> the 18-byte device descriptor
    let d = get_descriptor(&mut kbd, 0x0100, 64);
    assert_eq!(d.len(), 18);
    assert_eq!(d[0], 18);
    assert_eq!(d[1], 1);
    assert_eq!(&d[8..10], &[0x83, 0x04]); // VID 0x0483 little-endian
    assert_eq!(&d[10..12], &[0x10, 0x57]); // PID 0x5710
    // SET_ADDRESS(7): committed only after StatusIn completes
    host_setup(&mut kbd, setup_bytes(0x00, 0x05, 7, 0, 0));
    assert_eq!(kbd.daddr, 0, "address must not change before StatusIn");
    let zlp = host_take_in(&mut kbd);
    assert_eq!(zlp.len(), 0);
    assert_eq!(kbd.daddr, 7);
    // config header only
    let h = get_descriptor(&mut kbd, 0x0200, 9);
    assert_eq!(h.len(), 9);
    assert_eq!(&h[2..4], &[34, 0]); // wTotalLength = 34
    // full composite block
    let c = get_descriptor(&mut kbd, 0x0200, 34);
    assert_eq!(c.len(), 34);
    assert_eq!(c[9 + 5], 3); // interface class HID
}

#[test]
fn string_fetch() {
    let mut kbd = fresh();
    let s = get_descriptor(&mut kbd, 0x0302, 255);
    let expected: Vec<u8> = vec![
        0x16, 0x03, b'K', 0, b'B', 0, b'7', 0, b'8', 0, b'9', 0, b' ', 0, b'M', 0, b'K', 0,
        b'-', 0, b'C', 0,
    ];
    assert_eq!(s, expected);
}

#[test]
fn string_zero_langid() {
    let mut kbd = fresh();
    let s = get_descriptor(&mut kbd, 0x0300, 255);
    assert_eq!(s, vec![0x04, 0x03, 0x09, 0x04]);
}

#[test]
fn hid_report_descriptor() {
    let mut kbd = fresh();
    let r = get_descriptor(&mut kbd, 0x2200, 63);
    assert_eq!(r.len(), 63);
    assert_eq!(r[0], 0x05);
    assert_eq!(r[1], 0x01);
    assert_eq!(r[62], 0xC0);
}

#[test]
fn descriptor_truncation() {
    let mut kbd = fresh();
    // wLength below the descriptor length truncates byte-for-byte
    let full = get_descriptor(&mut kbd, 0x0100, 64);
    let part = get_descriptor(&mut kbd, 0x0100, 10);
    assert_eq!(part.len(), 10);
    assert_eq!(&full[..10], &part[..]);
}

#[test]
fn set_configuration_then_report() {
    let mut kbd = fresh();
    host_setup(&mut kbd, setup_bytes(0x00, 0x09, 1, 0, 0));
    let zlp = host_take_in(&mut kbd);
    assert_eq!(zlp.len(), 0);
    // endpoint 0x81 armed as interrupt
    assert_eq!(kbd.epr[1].ep_type, 3);
    assert_eq!(kbd.epr[1].stat_tx, 2); // NAK until a report is loaded
    let keys = [0u8, 0, 0x04, 0, 0, 0, 0, 0];
    assert!(kbd.hid_send_keys(&keys).is_some());
    assert_eq!(kbd.epr[1].stat_tx, 3); // VALID: next IN returns the report
    let addr = kbd.pma.read_cell(4) as usize;
    assert_eq!(kbd.pma.read_cell(5), 8); // count
    let mut got = Vec::new();
    for i in 0..8 {
        let cell = kbd.pma.read_cell((addr + i) / 2);
        got.push(if i % 2 == 0 { (cell & 0xFF) as u8 } else { (cell >> 8) as u8 });
    }
    assert_eq!(&got[..], &keys[..]);
    // busy: a second report before the host picks up the first is dropped
    assert!(kbd.hid_send_keys(&keys).is_none());
}

#[test]
fn unsupported_request_stalls_then_recovers() {
    let mut kbd = fresh();
    // CLEAR_FEATURE(Endpoint, 0) is not supported -> EP0 stalls
    host_setup(&mut kbd, setup_bytes(0x02, 0x01, 0, 0, 0));
    assert_eq!(kbd.epr[0].stat_tx, 1);
    assert_eq!(kbd.epr[0].stat_rx, 1);
    assert!(matches!(kbd.ctrl_state, ControlState::Stalled { .. }));
    // the next SETUP clears the stall and is handled normally
    let d = get_descriptor(&mut kbd, 0x0100, 18);
    assert_eq!(d.len(), 18);
}

#[test]
fn reset_mid_transfer() {
    let mut kbd = fresh();
    host_setup(&mut kbd, setup_bytes(0x80, 0x06, 0x0200, 0, 34));
    // in the data stage now; a bus reset arrives
    kbd.istr = Istr { reset: true, ctr: false, dir: false, ep_id: 0 };
    kbd.usb_poll();
    assert_eq!(kbd.daddr, 0);
    assert_eq!(kbd.pm_top, 192);
    assert_eq!(kbd.epr[0].ep_type, 1); // control
    assert_eq!(kbd.pma.read_cell(0), 64); // EP0 TX buffer
    assert_eq!(kbd.pma.read_cell(2), 128); // EP0 RX buffer
    assert_eq!(kbd.epr[0].stat_rx, 3); // armed for the next SETUP
}

#[test]
fn pma_copy_roundtrip() {
    for n in 0..16usize {
        let mut pma = Pma::new();
        let src: Vec<u8> = (0..n as u8).map(|i| i.wrapping_mul(37).wrapping_add(5)).collect();
        copy_to_pm(&mut pma, 200, &src);
        let mut dst = vec![0u8; n];
        copy_from_pm(&mut dst, &pma, 200);
        assert_eq!(src, dst);
    }
}

#[test]
fn string_descr_builder() {
    let mut buf = vec![0u8; 64];
    let len = build_string_descr(&mut buf, "AB\u{1F600}").unwrap();
    // 'A', 'B' and one surrogate pair: 4 units, 8 bytes + header
    assert_eq!(len, 10);
    assert_eq!(buf[0], 10);
    assert_eq!(buf[1], 0x03);
    assert_eq!(&buf[2..6], &[b'A', 0, b'B', 0]);
    assert_eq!(&buf[6..10], &[0x3D, 0xD8, 0x00, 0xDE]); // UTF-16LE surrogates
    let mut empty_buf = vec![0u8; 64];
    assert!(build_string_descr(&mut empty_buf, "").is_none());
}

#[test]
fn toggle_write_semantics() {
    // a second application of the same toggle write restores STAT_TX
    let mut kbd = fresh();
    let before = kbd.epr[0].stat_tx;
    // a write packet toggles stat_tx to VALID through the XOR discipline
    assert!(kbd.ep_write_packet(EPAddr::new(0), &[1, 2, 3]).is_some());
    assert_eq!(kbd.epr[0].stat_tx, 3);
    assert_ne!(before, 3);
    // while VALID, another write reports busy
    assert!(kbd.ep_write_packet(EPAddr::new(0), &[4]).is_none());
}

#[test]
fn ep_setup_allocation() {
    let mut kbd = fresh();
    assert_eq!(kbd.pm_top, 192);
    kbd.ep_setup(EPAddr::new(0x81), EPType::Interrupt, 8);
    assert_eq!(kbd.pm_top, 200);
    assert_eq!(kbd.pma.read_cell(4), 192);
    assert!(kbd.pm_top <= 512);
}

#[test]
fn request_parse() {
    let b = setup_bytes(0x80, 0x06, 0x0100, 0, 64);
    let req = DeviceRequest::from_bytes(&b);
    assert_eq!(req.bRequest, 6);
    assert_eq!(req.wValue, 0x0100);
    assert_eq!(req.wLength, 64);
}

fn tx_packet(kbd: &UsbKbd) -> Vec<u8> {
    let count = kbd.pma.read_cell(1) as usize;
    let addr = kbd.pma.read_cell(0) as usize;
    let mut out = Vec::new();
    for i in 0..count {
        let cell = kbd.pma.read_cell((addr + i) / 2);
        out.push(if i % 2 == 0 { (cell & 0xFF) as u8 } else { (cell >> 8) as u8 });
    }
    out
}

fn host_in_completion(kbd: &mut UsbKbd) {
    kbd.epr[0].stat_tx = 2;
    kbd.epr[0].ctr_tx = true;
    kbd.istr = Istr { reset: false, ctr: true, dir: false, ep_id: 0 };
    kbd.usb_poll();
}

#[test]
fn data_stage_chunking() {
    // a 100-byte stage goes out as 64 + 36, ending on the short packet
    let mut kbd = fresh();
    let mut buf = vec![0u8; 128];
    for (i, b) in buf.iter_mut().enumerate().take(100) {
        *b = i as u8;
    }
    let req = DeviceRequest::from_bytes(&setup_bytes(0x80, 0x06, 0x0100, 0, 100));
    let cur = ReadCursor::with_len(buf, 100);
    let st = kbd.ctrl_send_chunk(cur, req);
    kbd.ctrl_state = st;
    assert!(matches!(kbd.ctrl_state, ControlState::DataIn { .. }));
    let first = tx_packet(&kbd);
    assert_eq!(first.len(), 64);
    host_in_completion(&mut kbd);
    assert!(matches!(kbd.ctrl_state, ControlState::LastDataIn { .. }));
    let second = tx_packet(&kbd);
    assert_eq!(second.len(), 36);
    let mut whole = first.clone();
    whole.extend_from_slice(&second);
    let expect: Vec<u8> = (0..100u8).collect();
    assert_eq!(whole, expect);
}

#[test]
fn data_stage_zero_length_terminator() {
    // a stage of exactly two full packets ends on an empty packet
    let mut kbd = fresh();
    let buf = vec![0xA5u8; 128];
    let req = DeviceRequest::from_bytes(&setup_bytes(0x80, 0x06, 0x0100, 0, 128));
    let cur = ReadCursor::with_len(buf, 128);
    let st = kbd.ctrl_send_chunk(cur, req);
    kbd.ctrl_state = st;
    assert_eq!(tx_packet(&kbd).len(), 64);
    host_in_completion(&mut kbd);
    assert!(matches!(kbd.ctrl_state, ControlState::DataIn { .. }));
    assert_eq!(tx_packet(&kbd).len(), 64);
    host_in_completion(&mut kbd);
    assert!(matches!(kbd.ctrl_state, ControlState::LastDataIn { .. }));
    assert_eq!(tx_packet(&kbd).len(), 0);
}
