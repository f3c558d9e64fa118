use acnh_hax::transport::{Action, Event, LengthPolicy, Stage, Switch, TransportError};
use acnh_hax::usb::{find_endpoint, Direction, Endpoint, EndpointDescriptor, TransferType};

fn read_ep() -> Endpoint {
    Endpoint { config: 1, iface: 0, setting: 0, address: 0x81 }
}

fn write_ep() -> Endpoint {
    Endpoint { config: 1, iface: 0, setting: 0, address: 0x01 }
}

fn session(policy: LengthPolicy) -> Switch {
    Switch::new(read_ep(), write_ep(), policy)
}

fn expect_write(a: Action) -> (u8, Vec<u8>, u64) {
    match a {
        Action::Write { out_endpoint, data, write_timeout_secs } => (out_endpoint, data, write_timeout_secs),
        other => panic!("expected a write, got {:?}", other),
    }
}

fn expect_read(a: Action) -> (u8, usize, u64) {
    match a {
        Action::Read { in_endpoint, length, read_timeout_secs } => (in_endpoint, length, read_timeout_secs),
        other => panic!("expected a read, got {:?}", other),
    }
}

/// Drives a read of `length` bytes up to the first read of the response header.
fn start_read(s: &mut Switch, length: u32) {
    let a = s.read_bytes(0xAFB1E6E0, length);
    assert!(matches!(a, Action::Configure { config: 1, iface: 0, setting: 0 }));
    let (_, header, _) = expect_write(s.step(Event::Configured));
    assert_eq!(header, vec![28, 0, 0, 0]);
    let (_, payload, _) = expect_write(s.step(Event::Sent));
    assert_eq!(payload, format!("peek 0xafb1e6e0 0x{:08x}\r\n", length).into_bytes());
    let a = s.step(Event::Sent);
    assert!(matches!(a, Action::Configure { config: 1, iface: 0, setting: 0 }));
    let (ep, len, timeout) = expect_read(s.step(Event::Configured));
    assert_eq!((ep, len, timeout), (0x81, 4, 30));
}

#[test]
fn write_word_exchange() {
    let mut s = session(LengthPolicy::Permissive);
    assert_eq!(s.stage(), Stage::Idle);
    let a = s.write_dword(0xAFB1E6E0, 0x000009c9);
    assert!(matches!(a, Action::Configure { config: 1, iface: 0, setting: 0 }));
    let (ep, header, timeout) = expect_write(s.step(Event::Configured));
    assert_eq!((ep, timeout), (0x01, 5));
    assert_eq!(header, vec![28, 0, 0, 0]);
    let (ep, payload, timeout) = expect_write(s.step(Event::Sent));
    assert_eq!((ep, timeout), (0x01, 5));
    assert_eq!(payload, b"poke 0xafb1e6e0 0xc9090000\r\n".to_vec());
    match s.step(Event::Sent) {
        Action::Finished(bytes) => assert!(bytes.is_empty()),
        other => panic!("unexpected {:?}", other),
    }
    assert_eq!(s.stage(), Stage::Idle);
    assert_eq!(s.claimed(), Some(write_ep()));
}

#[test]
fn receive_returns_payload_unchanged() {
    let mut s = session(LengthPolicy::Permissive);
    start_read(&mut s, 8);
    let (_, len, timeout) = expect_read(s.step(Event::Received(vec![8, 0, 0, 0])));
    assert_eq!((len, timeout), (8, 30));
    let data = vec![0xa2, 0x16, 0, 0, 0x34, 0x12, 0, 0];
    match s.step(Event::Received(data.clone())) {
        Action::Finished(bytes) => assert_eq!(bytes, data),
        other => panic!("unexpected {:?}", other),
    }
    assert_eq!(s.mismatch(), None);
    assert_eq!(s.claimed(), Some(read_ep()));
}

#[test]
fn permissive_mismatch_reads_expected_length() {
    let mut s = session(LengthPolicy::Permissive);
    start_read(&mut s, 8);
    let (_, len, _) = expect_read(s.step(Event::Received(vec![4, 0, 0, 0])));
    assert_eq!(len, 8);
    assert_eq!(s.mismatch(), Some(4));
    let data = vec![1, 2, 3, 4, 5, 6, 7, 8];
    match s.step(Event::Received(data.clone())) {
        Action::Finished(bytes) => assert_eq!(bytes, data),
        other => panic!("unexpected {:?}", other),
    }
}

#[test]
fn strict_mismatch_fails_fast() {
    let mut s = session(LengthPolicy::Strict);
    start_read(&mut s, 8);
    match s.step(Event::Received(vec![4, 0, 0, 0])) {
        Action::Failed(e) => {
            assert_eq!(e, TransportError::FrameLengthMismatch { advertised: 4, expected: 8 })
        },
        other => panic!("unexpected {:?}", other),
    }
    assert_eq!(s.stage(), Stage::Idle);
}

#[test]
fn short_reads_are_completed() {
    let mut s = session(LengthPolicy::Strict);
    start_read(&mut s, 8);
    let (_, len, _) = expect_read(s.step(Event::Received(vec![8, 0])));
    assert_eq!(len, 2);
    let (_, len, _) = expect_read(s.step(Event::Received(vec![0, 0])));
    assert_eq!(len, 8);
    let (_, len, _) = expect_read(s.step(Event::Received(vec![1, 2, 3])));
    assert_eq!(len, 5);
    match s.step(Event::Received(vec![4, 5, 6, 7, 8, 9, 10])) {
        Action::Finished(bytes) => assert_eq!(bytes, vec![1, 2, 3, 4, 5, 6, 7, 8]),
        other => panic!("unexpected {:?}", other),
    }
}

#[test]
fn empty_read_fails() {
    let mut s = session(LengthPolicy::Permissive);
    start_read(&mut s, 8);
    assert!(matches!(s.step(Event::Received(vec![])), Action::Failed(TransportError::TransferFailed)));
}

#[test]
fn send_timeout_keeps_claimed_interface() {
    let mut s = session(LengthPolicy::Permissive);
    s.write_dword(0x100, 1);
    let _ = s.step(Event::Configured);
    assert_eq!(s.claimed(), Some(write_ep()));
    match s.step(Event::TimedOut) {
        Action::Failed(e) => assert_eq!(e, TransportError::TransferTimeout),
        other => panic!("unexpected {:?}", other),
    }
    assert_eq!(s.claimed(), Some(write_ep()));
    assert_eq!(s.stage(), Stage::Idle);
    let a = s.write_dword(0x100, 1);
    assert!(matches!(a, Action::Configure { .. }));
    let (_, header, _) = expect_write(s.step(Event::Configured));
    assert_eq!(header, vec![28, 0, 0, 0]);
}

#[test]
fn payload_timeout_surfaces_timeout() {
    let mut s = session(LengthPolicy::Permissive);
    s.write_dword(0x100, 1);
    let _ = s.step(Event::Configured);
    let _ = s.step(Event::Sent);
    assert!(matches!(s.step(Event::TimedOut), Action::Failed(TransportError::TransferTimeout)));
    assert_eq!(s.claimed(), Some(write_ep()));
}

#[test]
fn configure_twice_same_state() {
    let mut s = session(LengthPolicy::Permissive);
    s.write_dword(0, 0);
    let _ = s.step(Event::Configured);
    let once = s.claimed();
    s.write_dword(0, 0);
    let _ = s.step(Event::Configured);
    assert_eq!(s.claimed(), once);
    assert_eq!(once, Some(write_ep()));
}

#[test]
fn configuration_failure_is_reported() {
    let mut s = session(LengthPolicy::Permissive);
    s.read_bytes(0, 8);
    assert!(matches!(s.step(Event::Error), Action::Failed(TransportError::ConfigurationFailure)));
    assert_eq!(s.claimed(), None);
}

#[test]
fn transfer_failure_is_reported() {
    let mut s = session(LengthPolicy::Permissive);
    s.read_bytes(0, 8);
    let _ = s.step(Event::Configured);
    assert!(matches!(s.step(Event::Error), Action::Failed(TransportError::TransferFailed)));
}

#[test]
fn event_without_exchange_is_unexpected() {
    let mut s = session(LengthPolicy::Permissive);
    assert!(matches!(s.step(Event::Sent), Action::Failed(TransportError::UnexpectedEvent)));
}

#[test]
fn zero_length_read_finishes_after_header() {
    let mut s = session(LengthPolicy::Strict);
    s.read_bytes(0, 0);
    let _ = s.step(Event::Configured);
    let (_, payload, _) = expect_write(s.step(Event::Sent));
    assert_eq!(payload, b"peek 0x00000000 0x00000000\r\n".to_vec());
    let _ = s.step(Event::Sent);
    let _ = s.step(Event::Configured);
    match s.step(Event::Received(vec![0, 0, 0, 0])) {
        Action::Finished(bytes) => assert!(bytes.is_empty()),
        other => panic!("unexpected {:?}", other),
    }
}

fn desc(config: u8, iface: u8, address: u8, transfer_type: TransferType) -> EndpointDescriptor {
    EndpointDescriptor { config, iface, setting: 0, address, transfer_type }
}

#[test]
fn endpoint_first_bulk_of_direction() {
    let ds = vec![
        desc(1, 0, 0x83, TransferType::Interrupt),
        desc(1, 0, 0x02, TransferType::Bulk),
        desc(1, 1, 0x81, TransferType::Bulk),
        desc(2, 0, 0x82, TransferType::Bulk),
    ];
    assert_eq!(
        find_endpoint(&ds, Direction::In),
        Some(Endpoint { config: 1, iface: 1, setting: 0, address: 0x81 })
    );
    assert_eq!(
        find_endpoint(&ds, Direction::Out),
        Some(Endpoint { config: 1, iface: 0, setting: 0, address: 0x02 })
    );
}

#[test]
fn endpoint_not_found() {
    let ds = vec![desc(1, 0, 0x81, TransferType::Bulk)];
    assert_eq!(find_endpoint(&ds, Direction::Out), None);
    assert_eq!(find_endpoint(&vec![], Direction::In), None);
}

#[test]
fn endpoint_direction_from_address() {
    assert_eq!(desc(1, 0, 0x81, TransferType::Bulk).direction(), Direction::In);
    assert_eq!(desc(1, 0, 0x01, TransferType::Bulk).direction(), Direction::Out);
    assert_eq!(desc(1, 0, 0xff, TransferType::Bulk).direction(), Direction::In);
}
