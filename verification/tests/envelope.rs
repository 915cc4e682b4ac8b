use io_engine::checksum::fnv1a_64;
use io_engine::envelope::{
    open_envelope, parse_envelope, Buffer, Header, HEADER_MAGIC, HEADER_SIZE, HEADER_VERSION,
};
use io_engine::metadata::{Child, Error, Metadata, Nexus, State, Timestamp};

fn record(children: usize) -> Metadata {
    Metadata::V1(Nexus {
        timestamp: Timestamp { secs: 1_700_000_000, nanos: 5 },
        state: State::Open,
        name: "nexus0".to_string(),
        nexus_uuid: "cdc2a7db-3ac3-403a-af80-7fadc1581c47".to_string(),
        bdev_uuid: "65acdaac-14c4-41d8-a55e-d03bfd7185a4".to_string(),
        requested_size: 1 << 30,
        children: (0..children)
            .map(|i| Child {
                timestamp: Timestamp { secs: 1_700_000_000, nanos: 5 },
                state: if i == 0 { State::Faulted } else { State::Open },
                name: format!("c{i}"),
                device_name: Some(format!("dev{i}")),
                device_uuid: None,
            })
            .collect(),
    })
}

fn header(payload: &[u8]) -> Header {
    Header {
        magic: HEADER_MAGIC,
        version: HEADER_VERSION,
        length: (64 + payload.len()) as u32,
        md_offset: 32,
        md_length: payload.len() as u32,
        md_checksum: fnv1a_64(payload),
    }
}

/// An envelope made by hand.
fn seal(h: &Header, payload: &[u8], copy: &Header) -> Vec<u8> {
    let mut bytes = h.to_vec();
    bytes.extend_from_slice(payload);
    bytes.extend_from_slice(&copy.to_vec());
    bytes
}

#[test]
fn format_constants() {
    assert_eq!(&HEADER_MAGIC, b"NEXUSMD0");
    assert_eq!(HEADER_VERSION, 1000);
    assert_eq!(HEADER_SIZE, 32);
}

#[test]
fn bytes_of_a_header() {
    let h = Header {
        magic: HEADER_MAGIC,
        version: HEADER_VERSION,
        length: 0x0102_0304,
        md_offset: 32,
        md_length: 0x0a0b_0c0d,
        md_checksum: 0x1122_3344_5566_7788,
    };
    let expected: Vec<u8> = vec![
        b'N', b'E', b'X', b'U', b'S', b'M', b'D', b'0', // magic
        0xe8, 0x03, 0x00, 0x00, // version
        0x04, 0x03, 0x02, 0x01, // length
        0x20, 0x00, 0x00, 0x00, // md_offset
        0x0d, 0x0c, 0x0b, 0x0a, // md_length
        0x88, 0x77, 0x66, 0x55, 0x44, 0x33, 0x22, 0x11, // md_checksum
    ];
    assert_eq!(h.to_vec(), expected);
    assert_eq!(Header::from_slice(&expected), Ok(h));
}

#[test]
fn header_round_trip() {
    for (length, md_offset, md_length, md_checksum) in
        [(0u32, 0u32, 0u32, 0u64), (64, 32, 0, 1), (u32::MAX, u32::MAX, u32::MAX, u64::MAX), (1000, 32, 936, 0xdead_beef)]
    {
        let h = Header { magic: HEADER_MAGIC, version: HEADER_VERSION, length, md_offset, md_length, md_checksum };
        let bytes = h.to_vec();
        assert_eq!(bytes.len(), HEADER_SIZE);
        assert_eq!(Header::from_slice(&bytes), Ok(h));
    }
}

#[test]
fn header_of_the_wrong_length() {
    let bytes = header(b"").to_vec();
    assert_eq!(Header::from_slice(&bytes[..31]), Err(Error::InvalidHeader));
    assert_eq!(Header::from_slice(&[]), Err(Error::InvalidHeader));
    let mut longer = bytes.clone();
    longer.push(0);
    assert_eq!(Header::from_slice(&longer), Err(Error::InvalidHeader));
}

#[test]
fn header_with_the_wrong_magic_or_version() {
    let good = header(b"").to_vec();
    for at in 0..12 {
        let mut bytes = good.clone();
        bytes[at] ^= 0x01;
        assert_eq!(Header::from_slice(&bytes), Err(Error::InvalidHeader));
    }
    let mut h = header(b"");
    h.version = 1001;
    assert_eq!(Header::from_slice(&h.to_vec()), Err(Error::InvalidHeader));
    assert_eq!(Header::from_slice(&[0u8; 32]), Err(Error::InvalidHeader));
}

#[test]
fn envelope_of_no_metadata() {
    let buffer = Buffer::from_meta(&Metadata::Absent).unwrap();
    let expected: Vec<u8> = vec![
        b'N', b'E', b'X', b'U', b'S', b'M', b'D', b'0', // magic
        0xe8, 0x03, 0x00, 0x00, // version
        67, 0, 0, 0, // length
        32, 0, 0, 0, // md_offset
        3, 0, 0, 0, // md_length
        253, 217, 94, 56, 27, 120, 245, 201, // md_checksum
        0x92, 0x00, 0xc0, // payload
        b'N', b'E', b'X', b'U', b'S', b'M', b'D', b'0', // the header again
        0xe8, 0x03, 0x00, 0x00, 67, 0, 0, 0, 32, 0, 0, 0, 3, 0, 0, 0, 253, 217, 94, 56, 27, 120,
        245, 201,
    ];
    assert_eq!(buffer.as_slice(), &expected[..]);
    assert_eq!(buffer.len(), 67);
    assert_eq!(parse_envelope(&expected), Ok(Metadata::Absent));
}

#[test]
fn envelope_of_a_record() {
    let md = record(3);
    let payload = md.encode().unwrap();
    let buffer = Buffer::from_meta(&md).unwrap();
    let bytes = buffer.as_slice();
    assert_eq!(bytes.len(), 2 * HEADER_SIZE + payload.len());
    assert_eq!(buffer.len(), bytes.len());
    let h = Header::from_slice(&bytes[..HEADER_SIZE]).unwrap();
    assert_eq!(h, header(&payload));
    assert_eq!(h.length as usize, bytes.len());
    assert_eq!(h.md_offset as usize, HEADER_SIZE);
    assert_eq!(h.md_length as usize, payload.len());
    assert_eq!(h.md_checksum, Buffer::checksum(&payload));
    assert_eq!(&bytes[HEADER_SIZE..HEADER_SIZE + payload.len()], &payload[..]);
    assert_eq!(&bytes[bytes.len() - HEADER_SIZE..], &bytes[..HEADER_SIZE]);
}

#[test]
fn envelope_of_a_payload() {
    let buffer = Buffer::from_payload(b"payload").unwrap();
    assert_eq!(buffer.as_slice(), &seal(&header(b"payload"), b"payload", &header(b"payload"))[..]);
    assert_eq!(open_envelope(buffer.as_slice()), Ok(&b"payload"[..]));
    let buffer = Buffer::from_payload(b"").unwrap();
    assert_eq!(buffer.len(), 64);
    assert_eq!(open_envelope(buffer.as_slice()), Ok(&b""[..]));
    // The payload is no record.
    assert_eq!(parse_envelope(buffer.as_slice()), Err(Error::DecodeFailed));
}

#[test]
fn envelope_round_trip() {
    for children in [0usize, 1, 8] {
        let md = record(children);
        let buffer = Buffer::from_meta(&md).unwrap();
        assert_eq!(parse_envelope(buffer.as_slice()), Ok(md));
    }
}

#[test]
fn envelope_followed_by_other_bytes() {
    let md = record(2);
    let mut bytes = Buffer::from_meta(&md).unwrap().as_slice().to_vec();
    bytes.extend_from_slice(&[0xff; 100]);
    assert_eq!(parse_envelope(&bytes), Ok(md));
}

#[test]
fn changed_payload_byte_is_a_checksum_mismatch() {
    let md = record(2);
    let good = Buffer::from_meta(&md).unwrap().as_slice().to_vec();
    let payload_len = good.len() - 2 * HEADER_SIZE;
    for at in HEADER_SIZE..HEADER_SIZE + payload_len {
        for flip in [0x01u8, 0x80, 0xff] {
            let mut bytes = good.clone();
            bytes[at] ^= flip;
            assert_eq!(parse_envelope(&bytes), Err(Error::ChecksumMismatch));
            assert_eq!(open_envelope(&bytes), Err(Error::ChecksumMismatch));
        }
    }
}

#[test]
fn changed_header_byte_is_an_invalid_header() {
    let md = record(2);
    let good = Buffer::from_meta(&md).unwrap().as_slice().to_vec();
    let n = good.len();
    for at in (0..HEADER_SIZE).chain(n - HEADER_SIZE..n) {
        for flip in [0x01u8, 0x10, 0x80, 0xff] {
            let mut bytes = good.clone();
            bytes[at] ^= flip;
            assert_eq!(parse_envelope(&bytes), Err(Error::InvalidHeader));
        }
    }
}

#[test]
fn envelope_that_is_too_short() {
    let good = Buffer::from_meta(&record(1)).unwrap().as_slice().to_vec();
    assert_eq!(parse_envelope(&[]), Err(Error::InvalidHeader));
    assert_eq!(parse_envelope(&good[..31]), Err(Error::InvalidHeader));
    assert_eq!(parse_envelope(&good[..32]), Err(Error::InvalidHeader));
    assert_eq!(parse_envelope(&good[..good.len() - 1]), Err(Error::InvalidHeader));
}

#[test]
fn envelope_that_is_no_envelope() {
    assert_eq!(parse_envelope(&[0u8; 4096]), Err(Error::InvalidHeader));
    assert_eq!(parse_envelope(&[0xffu8; 64]), Err(Error::InvalidHeader));
}

#[test]
fn envelope_with_a_length_below_two_headers() {
    let mut h = header(b"");
    h.length = 63;
    h.md_length = 0;
    let mut bytes = seal(&h, b"", &h);
    bytes.extend_from_slice(&[0; 64]);
    assert_eq!(parse_envelope(&bytes), Err(Error::InvalidHeader));
    h.length = 0;
    assert_eq!(parse_envelope(&seal(&h, b"", &h)), Err(Error::InvalidHeader));
}

#[test]
fn envelope_with_headers_that_differ() {
    let payload = Metadata::Absent.encode().unwrap();
    let h = header(&payload);
    let mut other = h;
    other.md_checksum ^= 1;
    assert_eq!(parse_envelope(&seal(&h, &payload, &other)), Err(Error::InvalidHeader));
    // The other way round the checksum of the first header is wrong too, but
    // the headers are compared first.
    assert_eq!(parse_envelope(&seal(&other, &payload, &h)), Err(Error::InvalidHeader));
}

#[test]
fn envelope_with_a_wrong_checksum_in_both_headers() {
    let payload = Metadata::Absent.encode().unwrap();
    let mut h = header(&payload);
    h.md_checksum = 0;
    assert_eq!(parse_envelope(&seal(&h, &payload, &h)), Err(Error::ChecksumMismatch));
}

#[test]
fn envelope_with_a_payload_outside_of_it() {
    let payload = Metadata::Absent.encode().unwrap();
    // The payload is said to start inside the first header.
    let mut h = header(&payload);
    h.md_offset = 31;
    assert_eq!(parse_envelope(&seal(&h, &payload, &h)), Err(Error::InvalidHeader));
    // The payload is said to reach into the header at the end.
    let mut h = header(&payload);
    h.md_length += 1;
    assert_eq!(parse_envelope(&seal(&h, &payload, &h)), Err(Error::InvalidHeader));
    let mut h = header(&payload);
    h.md_offset = u32::MAX;
    h.md_length = u32::MAX;
    assert_eq!(parse_envelope(&seal(&h, &payload, &h)), Err(Error::InvalidHeader));
}

#[test]
fn envelope_with_a_payload_that_fills_only_part_of_it() {
    // Three bytes of payload, preceded by one byte and followed by two.
    let payload = Metadata::Absent.encode().unwrap();
    let mut h = header(&payload);
    h.length = 64 + 6;
    h.md_offset = 33;
    let mut body = vec![0xaa];
    body.extend_from_slice(&payload);
    body.extend_from_slice(&[0xbb, 0xcc]);
    assert_eq!(parse_envelope(&seal(&h, &body, &h)), Ok(Metadata::Absent));
}

#[test]
fn envelope_with_a_payload_that_is_no_record() {
    let payload = [0x92u8, 0x07, 0xc0];
    let h = header(&payload);
    assert_eq!(parse_envelope(&seal(&h, &payload, &h)), Err(Error::DecodeFailed));
    assert_eq!(open_envelope(&seal(&h, &payload, &h)), Ok(&payload[..]));
}
