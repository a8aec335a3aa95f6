use dune2_rc::bitmap::BitmapPutPixel;
use dune2_rc::bmp::{ppi2ppm, try_write_bmp_with_palette, write_bmp_with_palette};
use dune2_rc::color::{Color, Palette};
use dune2_rc::error::Error;
use dune2_rc::geometry::{Point, Size};
use dune2_rc::surface::Surface;

fn le16(v: &[u8], i: usize) -> u32 {
    v[i] as u32 + 256 * v[i + 1] as u32
}

fn le32(v: &[u8], i: usize) -> u32 {
    v[i] as u32 + (v[i + 1] as u32) * 0x100 + (v[i + 2] as u32) * 0x1_0000 + (v[i + 3] as u32)
        * 0x100_0000
}

#[test]
fn bmp_header_exactness_for_two_by_two_indexed() {
    let c = Color::new(10, 20, 30);
    let surface = Surface::with_background(Size { width: 2, height: 2 }, c);
    let mut palette = Palette::new();
    palette.push(&c);
    let v = write_bmp_with_palette(&surface, &palette).unwrap();

    // magic
    assert_eq!(&v[0..2], b"BM");
    // one palette quad, rows of 2 pixels padded to 4 bytes
    let pixel_offset = 54 + 4;
    let row_size = 4;
    let total = pixel_offset + row_size * 2;
    assert_eq!(v.len(), total);
    assert_eq!(le32(&v, 2), total as u32);
    assert_eq!(le32(&v, 10), pixel_offset as u32);
    // DIB header: size, dimensions, planes, bit depth
    assert_eq!(le32(&v, 14), 40);
    assert_eq!(le32(&v, 18), 2);
    assert_eq!(le32(&v, 22), 2);
    assert_eq!(le16(&v, 26), 1);
    assert_eq!(le16(&v, 28), 8);
    // no compression, 300 DPI, one palette color
    assert_eq!(le32(&v, 30), 0);
    assert_eq!(le32(&v, 38), ppi2ppm(300));
    assert_eq!(le32(&v, 42), ppi2ppm(300));
    assert_eq!(le32(&v, 46), 1);
    // the palette quad is blue, green, red, zero
    assert_eq!(&v[54..58], &[30, 20, 10, 0]);
    // each row: two index bytes then two zero pad bytes
    assert_eq!(&v[58..62], &[0, 0, 0, 0]);
    assert_eq!(&v[62..66], &[0, 0, 0, 0]);
}

#[test]
fn bmp_rows_are_bottom_up() {
    let top = Color::new(1, 1, 1);
    let bottom = Color::new(2, 2, 2);
    let mut surface = Surface::new(Size { width: 1, height: 2 });
    surface.put_pixel(Point { x: 0, y: 0 }, Some(top));
    surface.put_pixel(Point { x: 0, y: 1 }, Some(bottom));
    let mut palette = Palette::new();
    palette.push(&top);
    palette.push(&bottom);
    let v = write_bmp_with_palette(&surface, &palette).unwrap();
    let pixel_offset = 54 + 8;
    // the stored first row is the bottom source row (palette index 1)
    assert_eq!(v[pixel_offset], 1);
    assert_eq!(v[pixel_offset + 4], 0);
}

#[test]
fn bmp_missing_color_fails() {
    let surface = Surface::with_background(
        Size { width: 1, height: 1 },
        Color::new(200, 200, 200),
    );
    let mut palette = Palette::new();
    palette.push(&Color::new(1, 2, 3));
    assert_eq!(write_bmp_with_palette(&surface, &palette).unwrap_err(), Error::ColorNotInPalette);
}

#[test]
fn bmp_large_palette_switches_to_direct_color() {
    let c = Color::new(7, 8, 9);
    let surface = Surface::with_background(Size { width: 1, height: 1 }, c);
    let mut palette = Palette::new();
    for i in 0..257u32 {
        palette.push(&Color::new((i % 256) as u8, (i / 256) as u8, 0));
    }
    let v = write_bmp_with_palette(&surface, &palette).unwrap();
    assert_eq!(le16(&v, 28), 24);
    let pixel_offset = 54 + 4 * 257;
    assert_eq!(le32(&v, 10), pixel_offset as u32);
    // blue, green, red, then one pad byte to the 4-byte boundary
    assert_eq!(&v[pixel_offset..pixel_offset + 4], &[9, 8, 7, 0]);
}

#[test]
fn ppm_from_300_dpi() {
    assert_eq!(ppi2ppm(300), 1181);
}

#[test]
fn bmp_checked_variant_matches_unchecked() {
    let c = Color::new(10, 20, 30);
    let surface = Surface::with_background(Size { width: 2, height: 2 }, c);
    let mut palette = Palette::new();
    palette.push(&c);
    let checked = try_write_bmp_with_palette(&surface, &palette).unwrap();
    let plain = write_bmp_with_palette(&surface, &palette).unwrap();
    assert_eq!(checked, plain);
}

#[test]
fn bmp_rejects_width_beyond_header_field() {
    // a zero-height surface may be arbitrarily wide, but the header
    // stores the width in a signed 32-bit field
    let surface = Surface::new(Size { width: 0x8000_0000, height: 0 });
    let mut palette = Palette::new();
    palette.push(&Color::new(0, 0, 0));
    assert_eq!(
        try_write_bmp_with_palette(&surface, &palette).unwrap_err(),
        Error::BmpTooLarge
    );
}
