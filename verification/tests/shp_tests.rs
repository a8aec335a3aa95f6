use dune2_rc::error::Error;
use dune2_rc::geometry::Size;
use dune2_rc::shp::read_tiles_from_bytes;

/// A legacy-scheme file with one stored (uncompressed) 2x2 frame.
fn build_shp_raw() -> Vec<u8> {
    let mut v = Vec::new();
    v.extend_from_slice(&[1, 0]); // frame count
    v.extend_from_slice(&[6, 0]); // offset of frame 0
    v.extend_from_slice(&[20, 0]); // end offset (frame size 14)
    // frame header
    v.extend_from_slice(&[2, 0]); // flags: stored raw, no remap
    v.push(2); // slices
    v.extend_from_slice(&[2, 0]); // width
    v.push(2); // height
    v.extend_from_slice(&[14, 0]); // declared frame size
    v.extend_from_slice(&[4, 0]); // stored data size
    v.extend_from_slice(&[1, 2, 3, 4]); // pixel data
    v
}

/// A legacy-scheme file with one LCW-compressed 2x2 frame.
fn build_shp_lcw() -> Vec<u8> {
    let mut v = Vec::new();
    v.extend_from_slice(&[1, 0]);
    v.extend_from_slice(&[6, 0]);
    v.extend_from_slice(&[23, 0]); // frame size 17
    v.extend_from_slice(&[0, 0]); // flags: LCW-compressed
    v.push(2);
    v.extend_from_slice(&[2, 0]);
    v.push(2);
    v.extend_from_slice(&[17, 0]);
    v.extend_from_slice(&[4, 0]);
    // LCW block: relative mode, literal copy of 4 bytes, terminator
    v.extend_from_slice(&[0x00, 0x84, 9, 8, 7, 6, 0x80]);
    v
}

/// A frame whose zero-run stage matters: LCW yields [0,3,5], which
/// expands to [0,0,0,5] = 2x2.
fn build_shp_zero_run() -> Vec<u8> {
    let mut v = Vec::new();
    v.extend_from_slice(&[1, 0]);
    v.extend_from_slice(&[6, 0]);
    v.extend_from_slice(&[22, 0]); // frame size 16
    v.extend_from_slice(&[0, 0]);
    v.push(2);
    v.extend_from_slice(&[2, 0]);
    v.push(2);
    v.extend_from_slice(&[16, 0]);
    v.extend_from_slice(&[3, 0]);
    v.extend_from_slice(&[0x00, 0x83, 0, 3, 5, 0x80]);
    v
}

/// A stored frame with a 16-entry remap table.
fn build_shp_remap() -> Vec<u8> {
    let mut v = Vec::new();
    v.extend_from_slice(&[1, 0]);
    v.extend_from_slice(&[6, 0]);
    v.extend_from_slice(&[36, 0]); // frame size 30: header 10 + table 16 + data 4
    v.extend_from_slice(&[3, 0]); // flags: remap table present, stored raw
    v.push(2);
    v.extend_from_slice(&[2, 0]);
    v.push(2);
    v.extend_from_slice(&[30, 0]);
    v.extend_from_slice(&[4, 0]);
    for i in 0..16u8 {
        v.push(100 + i); // remap entry i -> 100 + i
    }
    v.extend_from_slice(&[1, 2, 3, 4]);
    v
}

#[test]
fn shp_decodes_stored_frame() {
    let tiles = read_tiles_from_bytes(&build_shp_raw()).unwrap();
    assert_eq!(tiles.len(), 1);
    assert_eq!(tiles[0].size(), Size { width: 2, height: 2 });
    assert_eq!(tiles[0].data().as_slice(), &[1, 2, 3, 4]);
}

#[test]
fn shp_decodes_lcw_frame() {
    let tiles = read_tiles_from_bytes(&build_shp_lcw()).unwrap();
    assert_eq!(tiles[0].data().as_slice(), &[9, 8, 7, 6]);
}

#[test]
fn shp_expands_zero_runs() {
    let tiles = read_tiles_from_bytes(&build_shp_zero_run()).unwrap();
    assert_eq!(tiles[0].data().as_slice(), &[0, 0, 0, 5]);
}

#[test]
fn shp_applies_remap_table() {
    let tiles = read_tiles_from_bytes(&build_shp_remap()).unwrap();
    assert_eq!(tiles[0].data().as_slice(), &[101, 102, 103, 104]);
}

#[test]
fn shp_slice_mismatch_fails() {
    let mut v = build_shp_raw();
    v[8] = 3; // slices no longer equal the height
    assert_eq!(read_tiles_from_bytes(&v).unwrap_err(), Error::ShpSliceMismatch);
}

#[test]
fn shp_frame_size_mismatch_fails() {
    let mut v = build_shp_raw();
    v[12] = 99; // declared size disagrees with the offset table
    assert_eq!(read_tiles_from_bytes(&v).unwrap_err(), Error::ShpFrameSizeMismatch);
}

#[test]
fn shp_backwards_offsets_fail() {
    let mut v = build_shp_raw();
    v[4] = 2; // end offset now lies before the start offset
    assert_eq!(read_tiles_from_bytes(&v).unwrap_err(), Error::ShpBadOffsets);
}

#[test]
fn shp_truncated_fails() {
    let v = vec![1u8, 0, 6];
    assert_eq!(read_tiles_from_bytes(&v).unwrap_err(), Error::UnexpectedEndOfInput);
}

#[test]
fn shp_wrong_pixel_count_fails() {
    let mut v = build_shp_raw();
    // declare a 3x2 frame but still provide four pixel bytes
    v[9] = 3;
    assert_eq!(read_tiles_from_bytes(&v).unwrap_err(), Error::ShpBadFrameData);
}

#[test]
fn shp_remap_entry_out_of_range_fails() {
    // a custom-size remap table of two entries; a decoded pixel then
    // selects entry 3
    let mut v = Vec::new();
    v.extend_from_slice(&[1, 0]);
    v.extend_from_slice(&[6, 0]);
    v.extend_from_slice(&[23, 0]); // frame size 17: header 10 + count 1 + table 2 + data 4
    v.extend_from_slice(&[7, 0]); // flags: remap, stored raw, custom size
    v.push(2);
    v.extend_from_slice(&[2, 0]);
    v.push(2);
    v.extend_from_slice(&[17, 0]);
    v.extend_from_slice(&[4, 0]);
    v.push(2); // remap table size
    v.extend_from_slice(&[50, 60]); // the table
    v.extend_from_slice(&[1, 1, 3, 1]); // pixel 3 has no remap entry
    assert_eq!(read_tiles_from_bytes(&v).unwrap_err(), Error::ShpBadRemap);
}

#[test]
fn shp_decodes_newer_offset_scheme() {
    // 32-bit offsets with the fixed adjustment of two; the version is
    // detected from the zero word at offset four
    let mut v = Vec::new();
    v.extend_from_slice(&[1, 0]); // frame count
    v.extend_from_slice(&[8, 0, 0, 0]); // frame 0 starts at 8 + 2 = 10
    v.extend_from_slice(&[22, 0, 0, 0]); // frame 0 ends at 22 + 2 = 24
    v.extend_from_slice(&[2, 0]); // flags: stored raw
    v.push(2);
    v.extend_from_slice(&[2, 0]);
    v.push(2);
    v.extend_from_slice(&[14, 0]);
    v.extend_from_slice(&[4, 0]);
    v.extend_from_slice(&[4, 3, 2, 1]);
    let tiles = read_tiles_from_bytes(&v).unwrap();
    assert_eq!(tiles.len(), 1);
    assert_eq!(tiles[0].data().as_slice(), &[4, 3, 2, 1]);
}
