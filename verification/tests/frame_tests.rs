use lanwatch::CapError;
use lanwatch::parse;

fn header_bytes() -> Vec<u8> {
    vec![
        0x00, 0x11, 0x22, 0x33, 0x44, 0x55, // destination
        0xaa, 0xbb, 0xcc, 0xdd, 0xee, 0xff, // source
        0x08, 0x00, // type, big-endian
    ]
}

#[test]
fn parse_extracts_fields_at_exact_offsets() {
    let buf = header_bytes();
    let f = parse(&buf).unwrap();
    assert_eq!(f.eth_dst, [0x00, 0x11, 0x22, 0x33, 0x44, 0x55]);
    assert_eq!(f.eth_src, [0xaa, 0xbb, 0xcc, 0xdd, 0xee, 0xff]);
    assert_eq!(f.eth_type, 0x0800);
}

#[test]
fn parse_ignores_payload_beyond_header() {
    let mut buf = header_bytes();
    buf.extend_from_slice(&[0xde, 0xad, 0xbe, 0xef]);
    let f = parse(&buf).unwrap();
    assert_eq!(f.eth_dst, [0x00, 0x11, 0x22, 0x33, 0x44, 0x55]);
    assert_eq!(f.eth_src, [0xaa, 0xbb, 0xcc, 0xdd, 0xee, 0xff]);
    assert_eq!(f.eth_type, 0x0800);
}

#[test]
fn parse_reads_type_big_endian() {
    let mut buf = header_bytes();
    buf[12] = 0x86;
    buf[13] = 0xdd;
    let f = parse(&buf).unwrap();
    assert_eq!(f.eth_type, 0x86dd);
}

#[test]
fn parse_rejects_every_short_buffer() {
    for n in 0..14usize {
        let buf: Vec<u8> = vec![0xff; n];
        match parse(&buf) {
            Err(CapError::TruncatedInput) => {}
            other => panic!("expected TruncatedInput for {} bytes, got {:?}", n, other.is_ok()),
        }
    }
}

#[test]
fn parse_accepts_exactly_fourteen_bytes() {
    let buf: Vec<u8> = vec![0u8; 14];
    let f = parse(&buf).unwrap();
    assert_eq!(f.eth_dst, [0u8; 6]);
    assert_eq!(f.eth_src, [0u8; 6]);
    assert_eq!(f.eth_type, 0);
}
