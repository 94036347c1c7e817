use udp_bench::common::{
    bytes_to_u32, get_millis, get_millis_as_i64, millis_to_i64, millis_to_u32, parse_header, Data,
    PacketHeader,
};

#[test]
fn bytes_to_u32_reads_little_endian() {
    assert_eq!(bytes_to_u32(&[0x78, 0x56, 0x34, 0x12]), Ok(0x1234_5678));
    assert_eq!(bytes_to_u32(&[1, 0, 0, 0, 0xff, 0xff]), Ok(1));
    assert_eq!(bytes_to_u32(&[0xff, 0xff, 0xff, 0xff]), Ok(u32::MAX));
    assert_eq!(bytes_to_u32(&[0, 0, 0, 0]), Ok(0));
}

#[test]
fn bytes_to_u32_inverts_to_le_bytes() {
    for x in [0u32, 1, 255, 256, 65535, 0xdead_beef, u32::MAX] {
        assert_eq!(bytes_to_u32(&x.to_le_bytes()), Ok(x));
    }
}

#[test]
fn encode_gives_the_wire_layout() {
    let d = Data { seq: 1, ts: 0x0102_0304, data: vec![9, 8] };
    let b = d.encode();
    assert_eq!(b, vec![1, 0, 0, 0, 4, 3, 2, 1, 2, 0, 0, 0, 0, 0, 0, 0, 9, 8]);
}

#[test]
fn encode_empty_payload() {
    let d = Data { seq: u32::MAX, ts: 0, data: vec![] };
    let b = d.encode();
    assert_eq!(b, vec![0xff, 0xff, 0xff, 0xff, 0, 0, 0, 0, 0, 0, 0, 0, 0, 0, 0, 0]);
}

#[test]
fn header_roundtrip_through_encode() {
    let d = Data { seq: 4242, ts: 3_820_570_846, data: vec![0; 1024] };
    let b = d.encode();
    assert_eq!(b.len(), 16 + 1024);
    assert_eq!(parse_header(&b), PacketHeader { seq: 4242, ts: 3_820_570_846 });
}

#[test]
fn parse_header_reads_first_eight_bytes() {
    let h = parse_header(&[5, 0, 0, 0, 0x10, 0x27, 0, 0]);
    assert_eq!(h.seq, 5);
    assert_eq!(h.ts, 10000);
}

#[test]
fn millis_conversions_truncate() {
    assert_eq!(millis_to_i64(1_700_000_000_000), 1_700_000_000_000i64);
    assert_eq!(millis_to_i64(u128::from(u64::MAX)), -1);
    assert_eq!(millis_to_u32(0x1_0000_0005), 5);
    assert_eq!(millis_to_u32(-1), u32::MAX);
}

#[test]
fn clock_reads_after_epoch() {
    let a = get_millis().unwrap();
    let b = get_millis_as_i64().unwrap();
    assert!(a > 1_500_000_000_000);
    assert!(b >= a as i64);
}
