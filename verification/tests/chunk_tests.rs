use png_embed::chunk::{
    chunk_checksum, create_chunk, create_data_chunk, create_iend_chunk, create_ihdr_chunk,
    parse_chunk, verify_chunk_checksum,
};

// Conformance of the chunk checksum: over the canonical check string
// "123456789" the reflected 0xEDB88320 CRC-32 yields 0xCBF43926, and
// appending that checksum little-endian to the message drives the register
// to the variant's canonical residue, whose pre-XOR form is 0xDEBB20E3.
#[test]
fn checksum_conformance_vector() {
    let crc = chunk_checksum(b"1234", b"56789");
    assert_eq!(crc, 0xCBF4_3926);

    let mut extended = b"56789".to_vec();
    extended.extend_from_slice(&crc.to_le_bytes());
    let crc2 = chunk_checksum(b"1234", &extended);
    assert_eq!(crc2 ^ 0xFFFF_FFFF, 0xDEBB_20E3);

    let chunk = create_chunk(b"1234", b"56789");
    assert_eq!(chunk.len(), 4 + 4 + 5 + 4);
    assert_eq!(&chunk[chunk.len() - 4..], &[0xCB, 0xF4, 0x39, 0x26]);
}

#[test]
fn data_chunk_wraps_opaque_bytes() {
    let chunk = create_data_chunk(&[1, 2, 3]);
    let (length, chunk_type, data, crc) = parse_chunk(&chunk, 0).unwrap();
    assert_eq!(length, 3);
    assert_eq!(chunk_type, b"IDAT".to_vec());
    assert_eq!(data, vec![1, 2, 3]);
    assert!(verify_chunk_checksum(&chunk_type, &data, crc));
}

#[test]
fn chunk_layout_fields() {
    let chunk = create_chunk(b"1234", b"56789");
    assert_eq!(&chunk[0..4], &[0, 0, 0, 5]);
    assert_eq!(&chunk[4..8], b"1234");
    assert_eq!(&chunk[8..13], b"56789");
}

#[test]
fn chunk_parse_round_trip() {
    let chunk = create_chunk(b"QRST", b"some data bytes");
    let parsed = parse_chunk(&chunk, 0).expect("a freshly built chunk must parse");
    let (length, chunk_type, data, crc) = parsed;
    assert_eq!(length, 15);
    assert_eq!(chunk_type, b"QRST".to_vec());
    assert_eq!(data, b"some data bytes".to_vec());
    assert!(verify_chunk_checksum(&chunk_type, &data, crc));
}

#[test]
fn tampered_checksum_is_rejected() {
    let chunk = create_chunk(b"QRST", b"some data bytes");
    let (_, chunk_type, data, crc) = parse_chunk(&chunk, 0).unwrap();
    assert!(!verify_chunk_checksum(&chunk_type, &data, crc ^ 1));
    let mut bad_data = data.clone();
    bad_data[0] ^= 0xFF;
    assert!(!verify_chunk_checksum(&chunk_type, &bad_data, crc));
}

#[test]
fn parse_rejects_truncated_chunks() {
    let chunk = create_chunk(b"QRST", b"payload");
    assert!(parse_chunk(&chunk[..chunk.len() - 1], 0).is_none());
    assert!(parse_chunk(&chunk, 1).is_none());
    assert!(parse_chunk(&[], 0).is_none());
}

#[test]
fn ihdr_chunk_bytes() {
    let chunk = create_ihdr_chunk(10, 10);
    assert_eq!(chunk.len(), 25);
    let (length, chunk_type, data, crc) = parse_chunk(&chunk, 0).unwrap();
    assert_eq!(length, 13);
    assert_eq!(chunk_type, b"IHDR".to_vec());
    assert_eq!(data, vec![0, 0, 0, 0x0A, 0, 0, 0, 0x0A, 8, 2, 0, 0, 0]);
    assert!(verify_chunk_checksum(&chunk_type, &data, crc));
}

#[test]
fn ihdr_chunk_large_dimensions() {
    let chunk = create_ihdr_chunk(0xDEAD_BEEF, 1);
    let (_, _, data, _) = parse_chunk(&chunk, 0).unwrap();
    assert_eq!(&data[0..4], &[0xDE, 0xAD, 0xBE, 0xEF]);
    assert_eq!(&data[4..8], &[0, 0, 0, 1]);
}

#[test]
fn ihdr_chunk_degenerate_zero_dimensions() {
    let chunk = create_ihdr_chunk(0, 0);
    let (length, chunk_type, data, _) = parse_chunk(&chunk, 0).unwrap();
    assert_eq!(length, 13);
    assert_eq!(chunk_type, b"IHDR".to_vec());
    assert_eq!(data, vec![0, 0, 0, 0, 0, 0, 0, 0, 8, 2, 0, 0, 0]);
}

#[test]
fn iend_chunk_is_fixed_and_empty() {
    let chunk = create_iend_chunk();
    assert_eq!(chunk.len(), 12);
    let (length, chunk_type, data, crc) = parse_chunk(&chunk, 0).unwrap();
    assert_eq!(length, 0);
    assert_eq!(chunk_type, b"IEND".to_vec());
    assert!(data.is_empty());
    assert!(verify_chunk_checksum(&chunk_type, &data, crc));
}
