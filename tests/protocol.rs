use acnh_hax::protocol::{
    byte_swap, frame_header_bytes, frame_payload_bytes, peek_command_bytes, poke_command_bytes,
    u32_from_le_bytes, u32_to_le_bytes,
};

#[test]
fn poke_command_for_inventory_word() {
    let cmd = poke_command_bytes(0xAFB1E6E0, 0x000009c9);
    assert_eq!(cmd, b"poke 0xafb1e6e0 0xc9090000".to_vec());
}

#[test]
fn peek_command_for_inventory_record() {
    let cmd = peek_command_bytes(0xAFB1E6E0, 8);
    assert_eq!(cmd, b"peek 0xafb1e6e0 0x00000008".to_vec());
}

#[test]
fn poke_command_extremes() {
    assert_eq!(poke_command_bytes(0, 0xffffffff), b"poke 0x00000000 0xffffffff".to_vec());
    assert_eq!(poke_command_bytes(0xffffffff, 0), b"poke 0xffffffff 0x00000000".to_vec());
    assert_eq!(poke_command_bytes(0x10, 0x12345678), b"poke 0x00000010 0x78563412".to_vec());
}

#[test]
fn byte_swap_reverses_bytes() {
    assert_eq!(byte_swap(0x12345678), 0x78563412);
    assert_eq!(byte_swap(0x000009c9), 0xc9090000);
    assert_eq!(byte_swap(0), 0);
}

#[test]
fn byte_swap_twice_is_identity() {
    for v in [0u32, 1, 0x9c9, 0xdeadbeef, u32::MAX, 0x00ff00ff] {
        assert_eq!(byte_swap(byte_swap(v)), v);
        assert_eq!(byte_swap(v), u32::from_le_bytes(v.to_be_bytes()));
    }
}

#[test]
fn poke_value_is_hex_of_little_endian_bytes() {
    let value: u32 = 0x0a0b0c0d;
    let cmd = poke_command_bytes(0, value);
    let expected: String = value.to_le_bytes().iter().map(|b| format!("{:02x}", b)).collect();
    assert_eq!(&cmd[18..], expected.as_bytes());
}

#[test]
fn frame_header_counts_crlf() {
    let cmd = b"peek 0xafb1e6e0 0x00000008".to_vec();
    assert_eq!(frame_header_bytes(&cmd), vec![28, 0, 0, 0]);
    let one = b"x".to_vec();
    assert_eq!(frame_header_bytes(&one), vec![3, 0, 0, 0]);
    let long = vec![b'a'; 300];
    assert_eq!(frame_header_bytes(&long), vec![0x2e, 0x01, 0, 0]);
}

#[test]
fn frame_payload_appends_crlf() {
    let cmd = b"poke 0x00000000 0x00000000".to_vec();
    let mut expected = cmd.clone();
    expected.extend_from_slice(b"\r\n");
    assert_eq!(frame_payload_bytes(&cmd), expected);
}

#[test]
fn le_bytes_round_trip() {
    assert_eq!(u32_to_le_bytes(0x01020304), vec![4, 3, 2, 1]);
    assert_eq!(u32_from_le_bytes(&[4, 3, 2, 1]), 0x01020304);
    assert_eq!(u32_from_le_bytes(&u32_to_le_bytes(0xcafe0001)), 0xcafe0001);
}
