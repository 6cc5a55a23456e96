use tm20::Error;
use tm20::error::{IoErrorKind, UsbError};
use tm20::usb::{
    BulkEndpoint, Claim, InterfaceSetting, PortStatus, UsbDeviceInfo, choose_interface, read_step, take_unread,
};

/// Read through `unread`, fetching the next packet whenever it runs dry.
fn read_packets(
    unread: &mut Vec<u8>,
    buf: &mut [u8],
    mut next: impl FnMut() -> Result<Vec<u8>, Error>,
) -> Result<usize, Error> {
    loop {
        if let Some(n) = read_step(unread, buf) {
            return Ok(n);
        }
        *unread = next()?;
    }
}

#[test]
fn zero_length_packets_are_not_eof() {
    let mut packets = [vec![], vec![], b"abc".to_vec()].into_iter();
    let mut unread = Vec::new();
    let mut buf = [0; 2];
    assert_eq!(
        read_packets(&mut unread, &mut buf, || Ok(packets.next().unwrap())).unwrap(),
        2
    );
    assert_eq!(&buf, b"ab");
    assert_eq!(unread, b"c");
    assert_eq!(
        read_packets(&mut unread, &mut buf, || panic!("tail already buffered")).unwrap(),
        1
    );
    assert_eq!(buf[0], b'c');
}

#[test]
fn empty_read_does_not_request_packet() {
    assert_eq!(
        read_packets(&mut Vec::new(), &mut [], || panic!("empty read")).unwrap(),
        0
    );
}

#[test]
fn transfer_error_after_zero_length_packet_propagates() {
    let mut calls = 0;
    let result = read_packets(&mut Vec::new(), &mut [0], || {
        calls += 1;
        if calls == 1 {
            Ok(Vec::new())
        } else {
            Err(Error::Usb(UsbError::Transfer(IoErrorKind::TimedOut)))
        }
    });
    assert!(result.is_err());
    assert_eq!(calls, 2);
}

#[test]
fn packet_tail_survives_small_reads() {
    let mut unread = b"abcdef".to_vec();
    let mut first = [0u8; 2];
    assert_eq!(take_unread(&mut unread, &mut first), 2);
    assert_eq!(&first, b"ab");
    let mut second = [0u8; 3];
    assert_eq!(take_unread(&mut unread, &mut second), 3);
    assert_eq!(&second, b"cde");
    let mut third = [0u8; 8];
    assert_eq!(take_unread(&mut unread, &mut third), 1);
    assert_eq!(third[0], b'f');
    assert!(unread.is_empty());
}

#[test]
fn port_status_reads_bits_three_to_five() {
    let s = PortStatus::from_byte(0b0011_1000);
    assert!(s.not_error && s.selected && s.paper_empty);
    let s = PortStatus::from_byte(0b0000_1000);
    assert!(s.not_error && !s.selected && !s.paper_empty);
    assert_eq!(s.byte, 0b0000_1000);
}

#[test]
fn only_04b8_0e28_is_the_printer() {
    let mut info = UsbDeviceInfo {
        vid: 0x04b8,
        pid: 0x0e28,
        bus_id: "1".into(),
        address: 2,
        manufacturer: None,
        product: None,
        serial: None,
    };
    assert!(info.is_tm20());
    info.pid = 0x0e27;
    assert!(!info.is_tm20());
}

fn setting(interface: u8, alternate: u8, class: u8, bulk: &[(u8, bool)]) -> InterfaceSetting {
    InterfaceSetting {
        interface,
        alternate,
        class,
        bulk: bulk.iter().map(|&(address, inbound)| BulkEndpoint { address, inbound }).collect(),
    }
}

#[test]
fn printer_class_interface_is_preferred() {
    let settings = vec![
        setting(0, 0, 0xff, &[(0x02, false), (0x81, true)]),
        setting(1, 0, 7, &[(0x03, false), (0x82, true)]),
    ];
    assert_eq!(
        choose_interface(&settings),
        Some(Claim { interface: 1, out: 0x03, inp: Some(0x82) })
    );
}

#[test]
fn interface_without_bulk_out_is_skipped() {
    let settings = vec![
        setting(0, 0, 7, &[(0x81, true)]),
        setting(1, 0, 0xff, &[(0x02, false)]),
    ];
    assert_eq!(choose_interface(&settings), Some(Claim { interface: 1, out: 0x02, inp: None }));
}

#[test]
fn alternate_settings_are_not_claimed() {
    let settings = vec![setting(0, 1, 7, &[(0x02, false), (0x81, true)])];
    assert_eq!(choose_interface(&settings), None);
}

#[test]
fn device_match_needs_the_ids_and_any_wanted_serial() {
    let (vid, pid) = (tm20::VID, tm20::PID);
    assert!(tm20::usb::device_matches(vid, pid, None, None));
    assert!(tm20::usb::device_matches(vid, pid, Some("X1"), None));
    assert!(tm20::usb::device_matches(vid, pid, Some("X1"), Some("X1")));
    assert!(!tm20::usb::device_matches(vid, pid, Some("X2"), Some("X1")));
    assert!(!tm20::usb::device_matches(vid, pid, None, Some("X1")));
    assert!(!tm20::usb::device_matches(vid, pid + 1, Some("X1"), Some("X1")));
    assert!(!tm20::usb::device_matches(vid + 1, pid, None, None));
}
