use knowls::packet::TcpPacket;

#[test]
fn header_is_little_endian_length() {
    assert_eq!(TcpPacket::header(0), [0, 0, 0, 0]);
    assert_eq!(TcpPacket::header(5), [5, 0, 0, 0]);
    assert_eq!(TcpPacket::header(0x01020304), [4, 3, 2, 1]);
    assert_eq!(TcpPacket::HEADER_SIZE, 4);
}

#[test]
fn payload_size_reads_the_header() {
    assert_eq!(TcpPacket::payload_size(&[4, 3, 2, 1]), 0x01020304);
    assert_eq!(TcpPacket::payload_size(&[0xff, 0, 0, 0]), 255);
    assert_eq!(TcpPacket::payload_size(&TcpPacket::header(300)), 300);
}

#[test]
fn serialize_frames_the_payload() {
    let payload = b"{\"a\":1}".to_vec();
    let framed = TcpPacket::serialize(&payload);
    assert_eq!(&framed[..4], &[7, 0, 0, 0]);
    assert_eq!(&framed[4..], &payload[..]);
}

#[test]
fn deserialize_undoes_serialize() {
    let payload = b"hello relay".to_vec();
    let mut framed = TcpPacket::serialize(&payload);
    assert_eq!(TcpPacket::deserialize(&framed), Some(payload.clone()));
    framed.extend_from_slice(b"next packet");
    assert_eq!(TcpPacket::deserialize(&framed), Some(payload));
    let empty = TcpPacket::serialize(&vec![]);
    assert_eq!(TcpPacket::deserialize(&empty), Some(vec![]));
}

#[test]
fn deserialize_rejects_short_buffers() {
    assert_eq!(TcpPacket::deserialize(&vec![1, 0]), None);
    assert_eq!(TcpPacket::deserialize(&vec![5, 0, 0, 0, b'a', b'b']), None);
}
