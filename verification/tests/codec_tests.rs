use dune2_rc::error::Error;
use dune2_rc::lcw::lcw_decode;
use dune2_rc::rle::rle_zero_expand;

#[test]
fn lcw_short_literal_copy() {
    // relative mode implied by a leading zero byte
    let data = [0x00u8, 0x83, 0x01, 0x02, 0x03, 0x80];
    let (out, end) = lcw_decode(&data, 0).unwrap();
    assert_eq!(out, vec![1, 2, 3]);
    assert_eq!(end, 6);
}

#[test]
fn lcw_short_literal_copy_absolute_mode() {
    // a non-zero leading byte is itself the first command
    let data = [0x83u8, 0x01, 0x02, 0x03, 0x80];
    let (out, _) = lcw_decode(&data, 0).unwrap();
    assert_eq!(out, vec![1, 2, 3]);
}

#[test]
fn lcw_run_command() {
    let data = [0xFEu8, 0x04, 0x00, 0x09, 0x80];
    let (out, _) = lcw_decode(&data, 0).unwrap();
    assert_eq!(out, vec![9, 9, 9, 9]);
}

#[test]
fn lcw_short_backref_repeats_last_byte() {
    // literal 0xAA, then a short back-reference with position 1 and
    // count 5: the degenerate run-length case
    let data = [0x00u8, 0x81, 0xAA, 0x20, 0x01, 0x80];
    let (out, _) = lcw_decode(&data, 0).unwrap();
    assert_eq!(out, vec![0xAA; 6]);
}

#[test]
fn lcw_overlapping_backref_copies_new_bytes() {
    // literal [1, 2], then a medium back-reference of 6 bytes at
    // relative position 2: must read bytes written by the copy itself
    let data = [0x00u8, 0x82, 1, 2, 0xC3, 0x02, 0x00, 0x80];
    let (out, _) = lcw_decode(&data, 0).unwrap();
    assert_eq!(out, vec![1, 2, 1, 2, 1, 2, 1, 2]);
}

#[test]
fn lcw_long_backref_absolute_mode() {
    // absolute mode: first byte is a literal-copy command; the long
    // back-reference then counts from the start of the output
    let data = [0x83u8, 7, 8, 9, 0xFF, 0x03, 0x00, 0x00, 0x00, 0x80];
    let (out, _) = lcw_decode(&data, 0).unwrap();
    assert_eq!(out, vec![7, 8, 9, 7, 8, 9]);
}

#[test]
fn lcw_backref_before_start_fails() {
    // relative back-reference into an empty output
    let data = [0x00u8, 0xC3, 0x05, 0x00, 0x80];
    assert_eq!(lcw_decode(&data, 0).unwrap_err(), Error::LcwOutOfBounds);
}

#[test]
fn lcw_truncated_stream_fails() {
    let data = [0x00u8, 0x83, 0x01];
    assert_eq!(lcw_decode(&data, 0).unwrap_err(), Error::UnexpectedEndOfInput);
}

#[test]
fn lcw_missing_terminator_fails() {
    let data = [0x00u8, 0x81, 0x07];
    assert_eq!(lcw_decode(&data, 0).unwrap_err(), Error::UnexpectedEndOfInput);
}

#[test]
fn rle_zero_run_expansion() {
    let out = rle_zero_expand(&[0, 5, 7]).unwrap();
    assert_eq!(out, vec![0, 0, 0, 0, 0, 7]);
}

#[test]
fn rle_zero_run_expansion_trailing_run() {
    let out = rle_zero_expand(&[3, 0, 2]).unwrap();
    assert_eq!(out, vec![3, 0, 0]);
}

#[test]
fn rle_nonzero_bytes_pass_through() {
    let out = rle_zero_expand(&[1, 2, 3]).unwrap();
    assert_eq!(out, vec![1, 2, 3]);
}

#[test]
fn rle_zero_without_count_fails() {
    assert_eq!(rle_zero_expand(&[7, 0]).unwrap_err(), Error::RleMissingCount);
}

#[test]
fn rle_empty_input() {
    let out = rle_zero_expand(&[]).unwrap();
    assert!(out.is_empty());
}
