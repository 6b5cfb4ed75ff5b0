use png_embed::bytes::contains_subslice;
use png_embed::chunk::{create_ihdr_chunk, parse_chunk, verify_chunk_checksum};
use png_embed::png::{assemble_png, build_png_with, initialize_png};
use png_embed::policy::should_continue;

const SIGNATURE: [u8; 8] = [0x89, 0x50, 0x4E, 0x47, 0x0D, 0x0A, 0x1A, 0x0A];

#[test]
fn prologue_is_signature_then_header() {
    let prologue = initialize_png(66, 60);
    assert_eq!(&prologue[0..8], &SIGNATURE);
    assert_eq!(&prologue[8..], &create_ihdr_chunk(66, 60)[..]);
    assert_eq!(prologue.len(), 33);
}

#[test]
fn assemble_orders_chunks_fixed() {
    let data_chunk = vec![0, 0, 0, 1, b'I', b'D', b'A', b'T', 9, 1, 2, 3, 4];
    let image = assemble_png(3, 4, &data_chunk);
    assert_eq!(&image[0..8], &SIGNATURE);
    assert_eq!(&image[8..33], &create_ihdr_chunk(3, 4)[..]);
    assert_eq!(&image[33..33 + data_chunk.len()], &data_chunk[..]);
    let (length, chunk_type, data, _) = parse_chunk(&image, 33 + data_chunk.len()).unwrap();
    assert_eq!(length, 0);
    assert_eq!(chunk_type, b"IEND".to_vec());
    assert!(data.is_empty());
    assert_eq!(image.len(), 33 + data_chunk.len() + 12);
}

// Declining continuation after the initial budget of 5 attempts leaves the
// truncated container: signature and header chunk, nothing else.
#[test]
fn declined_build_yields_signature_and_header_only() {
    let payload = vec![0u8; 300];
    let (image, completed) = build_png_with(&payload, 66, 60, &[false]);
    assert!(!completed);
    assert_eq!(image, initialize_png(66, 60));
    assert_eq!(image.len(), 33);
}

#[test]
fn exhausted_decisions_abandon_the_build() {
    let payload = vec![0u8; 300];
    let (image, completed) = build_png_with(&payload, 1, 1, &[]);
    assert!(!completed);
    assert_eq!(image, initialize_png(1, 1));
}

// A decline midway through a longer decision list: the budgets before it
// are searched in full, then the build stops at the first false entry.
#[test]
fn decline_after_one_continuation() {
    let payload = vec![0u8; 300];
    let (image, completed) = build_png_with(&payload, 66, 60, &[true, false, true, true, true]);
    assert!(!completed);
    assert_eq!(image, initialize_png(66, 60));
}

// End to end: a 7-byte payload at 10x10 yields signature, a header chunk
// with the exact 13-byte data field, one data chunk embedding the payload,
// and a terminator chunk, in that order, all checksums verifying.
#[test]
fn end_to_end_seven_byte_payload() {
    let payload = b"ABCDEFG";
    let (image, completed) = build_png_with(payload, 10, 10, &[true, true, true]);
    assert!(completed, "a 7-byte payload must embed within the escalated budgets");

    assert_eq!(&image[0..8], &SIGNATURE);

    let (h_len, h_type, h_data, h_crc) = parse_chunk(&image, 8).unwrap();
    assert_eq!(h_type, b"IHDR".to_vec());
    assert_eq!(h_len, 13);
    assert_eq!(h_data, vec![0, 0, 0, 0x0A, 0, 0, 0, 0x0A, 8, 2, 0, 0, 0]);
    assert!(verify_chunk_checksum(&h_type, &h_data, h_crc));

    let idat_at = 8 + 12 + h_data.len();
    let (d_len, d_type, d_data, d_crc) = parse_chunk(&image, idat_at).unwrap();
    assert_eq!(d_type, b"IDAT".to_vec());
    assert_eq!(d_len as usize, d_data.len());
    assert!(contains_subslice(&d_data, payload));
    assert!(verify_chunk_checksum(&d_type, &d_data, d_crc));

    let iend_at = idat_at + 12 + d_data.len();
    let (e_len, e_type, e_data, e_crc) = parse_chunk(&image, iend_at).unwrap();
    assert_eq!(e_type, b"IEND".to_vec());
    assert_eq!(e_len, 0);
    assert!(e_data.is_empty());
    assert!(verify_chunk_checksum(&e_type, &e_data, e_crc));

    assert_eq!(image.len(), iend_at + 12);
}

#[test]
fn operator_decision_parsing() {
    assert!(!should_continue("n"));
    assert!(!should_continue("N"));
    assert!(!should_continue("  n \n"));
    assert!(!should_continue("\tN\r\n"));
    assert!(should_continue(""));
    assert!(should_continue(" \n"));
    assert!(should_continue("y"));
    assert!(should_continue("no"));
    assert!(should_continue("nn"));
    assert!(should_continue("x n"));
}

// The whitespace ignored around the response is the same set `str::trim`
// ignores, Unicode whitespace included.
#[test]
fn operator_decision_unicode_whitespace() {
    assert!(!should_continue("\u{00A0}n\n"));
    assert!(!should_continue("\u{2003}N\u{3000}"));
    assert!(should_continue("\u{00A0}\n"));
    assert_eq!(should_continue("\u{00A0}n\n"), !"\u{00A0}n\n".trim().eq_ignore_ascii_case("n"));
    assert_eq!(should_continue("\u{2028}y"), !"\u{2028}y".trim().eq_ignore_ascii_case("n"));
}
