use btmgmt::hci::{CodecError, HciMessage, HciMessageHeader, VersionReply, parse_version_reply};

fn msg(op_code: u16, index: u16, len: u16, data: Vec<u8>) -> HciMessage {
    HciMessage { header: HciMessageHeader { op_code, index, len }, data }
}

/// Deterministic pseudo-random bytes for round-trip tests.
fn pseudo_random_bytes(n: usize, seed: u64) -> Vec<u8> {
    let mut state = seed;
    let mut out = Vec::with_capacity(n);
    for _ in 0..n {
        state = state.wrapping_mul(6364136223846793005).wrapping_add(1442695040888963407);
        out.push((state >> 56) as u8);
    }
    out
}

#[test]
fn encode_version_request() {
    let request = msg(0x0001, 0xffff, 0, Vec::new());
    assert_eq!(request.as_bytes(), vec![0x01, 0x00, 0xff, 0xff, 0x00, 0x00]);
}

#[test]
fn encode_with_payload() {
    let m = msg(0x1234, 0x0001, 3, vec![0xaa, 0xbb, 0xcc]);
    assert_eq!(m.as_bytes(), vec![0x34, 0x12, 0x01, 0x00, 0x03, 0x00, 0xaa, 0xbb, 0xcc]);
}

#[test]
fn decode_version_reply() {
    let buffer = [0x01, 0x00, 0xff, 0xff, 0x06, 0x00, 0x01, 0x00, 0x00, 0x01, 0x0f, 0x00];
    let m = HciMessage::from_bytes(&buffer).unwrap();
    assert_eq!(m.header, HciMessageHeader { op_code: 0x0001, index: 0xffff, len: 6 });
    assert_eq!(m.data, vec![0x01, 0x00, 0x00, 0x01, 0x0f, 0x00]);
    let v = parse_version_reply(&m.data).unwrap();
    assert_eq!(
        v,
        VersionReply { opcode: 0x01, status: 0x0000, version: 0x01, revision: 0x000f }
    );
}

#[test]
fn decode_rejects_short_buffer() {
    let buffer = [0x01, 0x00, 0xff, 0xff, 0x00];
    assert_eq!(HciMessage::from_bytes(&buffer), Err(CodecError::TruncatedFrame));
}

#[test]
fn decode_rejects_empty_buffer() {
    assert_eq!(HciMessage::from_bytes(&[]), Err(CodecError::TruncatedFrame));
}

#[test]
fn decode_rejects_truncated_payload() {
    let buffer = [0x01, 0x00, 0xff, 0xff, 0x10, 0x00, 0x00];
    assert_eq!(HciMessage::from_bytes(&buffer), Err(CodecError::TruncatedFrame));
}

#[test]
fn decode_zero_length_payload() {
    let buffer = [0x02, 0x00, 0x00, 0x00, 0x00, 0x00];
    let m = HciMessage::from_bytes(&buffer).unwrap();
    assert_eq!(m.header, HciMessageHeader { op_code: 0x0002, index: 0x0000, len: 0 });
    assert_eq!(m.data, Vec::<u8>::new());
}

#[test]
fn decode_ignores_trailing_bytes() {
    // Declared length 2: the two payload bytes are taken, the rest left.
    let buffer = [0x01, 0x00, 0xff, 0xff, 0x02, 0x00, 0x10, 0x20, 0x30, 0x40];
    let m = HciMessage::from_bytes(&buffer).unwrap();
    assert_eq!(m.header.len, 2);
    assert_eq!(m.data, vec![0x10, 0x20]);
}

#[test]
fn round_trip_messages() {
    for (i, &len) in [0usize, 1, 255, 1024, 65535].iter().enumerate() {
        let payload = pseudo_random_bytes(len, 0x9e3779b97f4a7c15 ^ i as u64);
        let m = msg(0x0c0a, 0x0002, len as u16, payload);
        let encoded = m.as_bytes();
        assert_eq!(encoded.len(), 6 + len);
        let decoded = HciMessage::from_bytes(&encoded).unwrap();
        assert_eq!(decoded, m);
    }
}

#[test]
fn round_trip_buffer() {
    // Re-encoding a decoded frame reproduces the buffer up to its
    // declared length.
    let buffer = vec![0x05, 0x00, 0x01, 0x00, 0x03, 0x00, 0x09, 0x08, 0x07, 0xff, 0xff];
    let m = HciMessage::from_bytes(&buffer).unwrap();
    assert_eq!(m.as_bytes(), buffer[..9].to_vec());
}

#[test]
fn checked_encode_accepts_consistent_message() {
    let m = msg(0x0001, 0xffff, 2, vec![0x01, 0x02]);
    assert_eq!(m.encode().unwrap(), m.as_bytes());
}

#[test]
fn checked_encode_rejects_length_mismatch() {
    let m = msg(0x0001, 0xffff, 3, vec![0x01, 0x02]);
    assert_eq!(m.encode(), Err(CodecError::EncodingError));
}

#[test]
fn parse_version_reply_rejects_short_payload() {
    let payload = [0x01, 0x00, 0x00, 0x01, 0x0f];
    assert_eq!(parse_version_reply(&payload), Err(CodecError::TruncatedFrame));
}

#[test]
fn parse_version_reply_reads_little_endian_fields() {
    let payload = [0x42, 0x34, 0x12, 0x07, 0xcd, 0xab, 0x99];
    let v = parse_version_reply(&payload).unwrap();
    assert_eq!(
        v,
        VersionReply { opcode: 0x42, status: 0x1234, version: 0x07, revision: 0xabcd }
    );
}
