use dune2_rc::error::Error;
use dune2_rc::geometry::Size;
use dune2_rc::icn::read_tiles_from_bytes;

fn build_icn() -> Vec<u8> {
    let mut v = Vec::new();
    v.extend_from_slice(b"FORM");
    v.extend_from_slice(&[0, 0, 0, 0]); // container size, skipped
    v.extend_from_slice(b"ICON");
    // info chunk: 2x2 tiles, no shift, 4 bits per pixel
    v.extend_from_slice(b"SINF");
    v.extend_from_slice(&[0, 0, 0, 4]);
    v.extend_from_slice(&[2, 2, 0, 4]);
    // tile data: two packed tiles of two bytes each
    v.extend_from_slice(b"SSET");
    v.extend_from_slice(&[0, 0, 0, 8]);
    v.extend_from_slice(&[0; 8]); // skipped
    v.extend_from_slice(&[0x12, 0x34]); // tile 0: fields 1,2,3,4
    v.extend_from_slice(&[0xFF, 0x00]); // tile 1: fields 15,15,0,0
    // one local palette row of 16 entries, mapping f to f + 16
    v.extend_from_slice(b"RPAL");
    v.extend_from_slice(&[0, 0, 0, 16]);
    for f in 0..16u8 {
        v.push(f + 16);
    }
    // one row-selector byte per tile
    v.extend_from_slice(b"RTBL");
    v.extend_from_slice(&[0, 0, 0, 2]);
    v.extend_from_slice(&[0, 0]);
    v
}

#[test]
fn icn_unpacks_tiles_through_local_palette() {
    let data = build_icn();
    let (size, tiles) = read_tiles_from_bytes(&data).unwrap();
    assert_eq!(size, Size { width: 2, height: 2 });
    assert_eq!(tiles.len(), 2);
    assert_eq!(tiles[0].data().as_slice(), &[17, 18, 19, 20]);
    assert_eq!(tiles[1].data().as_slice(), &[31, 31, 16, 16]);
}

#[test]
fn icn_bad_chunk_tag_fails() {
    let mut data = build_icn();
    data[24] = b'X'; // corrupt the tile-data chunk tag
    assert_eq!(read_tiles_from_bytes(&data).unwrap_err(), Error::IcnBadChunkId);
}

#[test]
fn icn_bad_info_size_fails() {
    let mut data = build_icn();
    data[19] = 5; // SINF chunk size must be 4
    assert_eq!(read_tiles_from_bytes(&data).unwrap_err(), Error::IcnBadChunkSize);
}

#[test]
fn icn_tile_count_mismatch_fails() {
    let mut data = build_icn();
    let n = data.len();
    data[n - 3] = 1; // row table declares one tile, tile data holds two
    data.pop();
    assert_eq!(read_tiles_from_bytes(&data).unwrap_err(), Error::IcnCountMismatch);
}

#[test]
fn icn_bad_palette_row_fails() {
    let mut data = build_icn();
    let n = data.len();
    data[n - 1] = 5; // only one local palette row exists
    assert_eq!(read_tiles_from_bytes(&data).unwrap_err(), Error::IcnBadPaletteRow);
}

#[test]
fn icn_truncated_fails() {
    let data = b"FORM".to_vec();
    assert_eq!(read_tiles_from_bytes(&data).unwrap_err(), Error::UnexpectedEndOfInput);
}
