use slotkeeper::codec::{read_lp_bytes, read_varint, write_lp_bytes, write_u16_be, write_varint};
use slotkeeper::packets::{handshake_body, login_start_body, status_request_body,
    NEXT_STATE_LOGIN, NEXT_STATE_STATUS, PROTOCOL_VERSION};

fn varint(n: u32) -> Vec<u8> {
    let mut out = Vec::new();
    write_varint(&mut out, n);
    out
}

#[test]
fn varint_encodings_are_exact() {
    assert_eq!(varint(0), vec![0x00]);
    assert_eq!(varint(1), vec![0x01]);
    assert_eq!(varint(127), vec![0x7f]);
    assert_eq!(varint(128), vec![0x80, 0x01]);
    assert_eq!(varint(300), vec![0xac, 0x02]);
    assert_eq!(varint(763), vec![0xfb, 0x05]);
    assert_eq!(varint(u32::MAX), vec![0xff, 0xff, 0xff, 0xff, 0x0f]);
}

#[test]
fn varint_read_undoes_write() {
    for n in [0u32, 1, 127, 128, 300, 763, 25565, 2097151, u32::MAX] {
        let buf = varint(n);
        let (value, width) = read_varint(&buf, 0).expect("a written varint must read back");
        assert_eq!(value, n);
        assert_eq!(width, buf.len());
    }
}

#[test]
fn varint_read_rejects_truncation_and_overflow() {
    assert!(read_varint(&vec![], 0).is_none());
    assert!(read_varint(&vec![0x80], 0).is_none());
    // six continuation groups encode a value beyond 32 bits
    assert!(read_varint(&vec![0xff, 0xff, 0xff, 0xff, 0xff, 0x01], 0).is_none());
}

#[test]
fn length_prefixed_strings_round_trip() {
    let payload = b"hello".to_vec();
    let mut buf = Vec::new();
    write_lp_bytes(&mut buf, &payload);
    assert_eq!(buf, vec![0x05, b'h', b'e', b'l', b'l', b'o']);
    let (read, width) = read_lp_bytes(&buf, 0).expect("a written string must read back");
    assert_eq!(read, payload);
    assert_eq!(width, 6);
    // a declared length longer than the remaining bytes is refused
    assert!(read_lp_bytes(&vec![0x06, b'h', b'i'], 0).is_none());
}

#[test]
fn big_endian_short_is_exact() {
    let mut out = Vec::new();
    write_u16_be(&mut out, 25565);
    assert_eq!(out, vec![0x63, 0xdd]);
}

#[test]
fn handshake_body_is_exact() {
    let body = handshake_body(PROTOCOL_VERSION, &b"mc.example".to_vec(), 25565, NEXT_STATE_STATUS);
    let mut expected = vec![0xfb, 0x05];
    expected.push(10);
    expected.extend_from_slice(b"mc.example");
    expected.extend_from_slice(&[0x63, 0xdd]);
    expected.push(NEXT_STATE_STATUS);
    assert_eq!(body, expected);
    let login = handshake_body(PROTOCOL_VERSION, &b"mc.example".to_vec(), 25565, NEXT_STATE_LOGIN);
    assert_eq!(*login.last().unwrap(), 2);
}

#[test]
fn status_request_body_is_empty() {
    assert!(status_request_body().is_empty());
}

#[test]
fn login_start_body_is_name_then_uuid() {
    let uuid: Vec<u8> = (0u8..16).collect();
    let body = login_start_body(&b"Notch".to_vec(), &uuid);
    let mut expected = vec![0x05];
    expected.extend_from_slice(b"Notch");
    expected.extend_from_slice(&uuid);
    assert_eq!(body, expected);
}
