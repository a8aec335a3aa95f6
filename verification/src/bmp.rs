//! The indexed BMP serializer: a palette-aware bottom-up row writer
//! with 4-byte row padding and exact header offsets.

use vstd::prelude::*;

verus! {

use crate::bitmap::{Bitmap, BitmapGetPixel, BitmapPutPixel};
use crate::bytes::{spec_le16, spec_le32};
use crate::color::{Color, Palette, spec_contains_color};
use crate::error::Error;
use crate::geometry::Point;
use crate::surface::Surface;

/// Pixels per meter for a pixels-per-inch figure, rounded down.
pub open spec fn spec_ppi2ppm(ppi: int) -> int {
    ppi * 1000 / 254
}

/// Converts pixels per inch to the pixels-per-meter figure BMP
/// headers carry.
pub fn ppi2ppm(ppi: u32) -> (r: u32)
    requires
        ppi <= 1000,
    ensures
        r == spec_ppi2ppm(ppi as int),
{
    ppi * 1000 / 254
}

/// The bit depth chosen for a palette: 8-bit indexed when the palette
/// fits 256 colors, 24-bit direct color otherwise.
pub open spec fn spec_bmp_bits(palette_len: int) -> int {
    if palette_len <= 256 {
        8
    } else {
        24
    }
}

/// The byte length of one stored pixel row, padded to a 4-byte
/// boundary.
pub open spec fn spec_bmp_row_size(bits: int, width: int) -> int {
    (bits * width + 31) / 32 * 4
}

/// The file offset of the pixel array: the two headers plus one
/// four-byte quad per palette entry.
pub open spec fn spec_bmp_pixel_offset(palette_len: int) -> int {
    54 + 4 * palette_len
}

/// The total file size.
pub open spec fn spec_bmp_total(width: int, height: int, palette_len: int) -> int {
    spec_bmp_pixel_offset(palette_len) + spec_bmp_row_size(spec_bmp_bits(palette_len), width)
        * height
}

/// The fixed 54 bytes: the file header and the 40-byte info header,
/// every field exact.
pub open spec fn spec_bmp_file_header_ok(v: Seq<u8>, width: int, height: int, palette_len: int)
    -> bool {
    &&& v[0] == 0x42 && v[1] == 0x4d
    &&& spec_le32(v, 2) == spec_bmp_total(width, height, palette_len)
    &&& spec_le32(v, 6) == 0
    &&& spec_le32(v, 10) == spec_bmp_pixel_offset(palette_len)
    &&& spec_le32(v, 14) == 40
    &&& spec_le32(v, 18) == width
    &&& spec_le32(v, 22) == height
    &&& spec_le16(v, 26) == 1
    &&& spec_le16(v, 28) == spec_bmp_bits(palette_len)
    &&& spec_le32(v, 30) == 0
    &&& spec_le32(v, 34) == 0
    &&& spec_le32(v, 38) == spec_ppi2ppm(300)
    &&& spec_le32(v, 42) == spec_ppi2ppm(300)
    &&& spec_le32(v, 46) == palette_len
    &&& spec_le32(v, 50) == 0
}

/// Palette entry `i` is stored as a blue, green, red, zero quad.
pub open spec fn spec_bmp_quad_ok(v: Seq<u8>, palette: Seq<Color>, i: int) -> bool {
    &&& 54 + 4 * i + 3 < v.len()
    &&& v[54 + 4 * i] == palette[i].blue
    &&& v[54 + 4 * i + 1] == palette[i].green
    &&& v[54 + 4 * i + 2] == palette[i].red
    &&& v[54 + 4 * i + 3] == 0
}

/// The stored bytes of the surface pixel `(x, y)`.  Rows are written
/// bottom to top; an indexed file stores the palette index of the
/// pixel's color, a direct-color file stores blue, green, red.
pub open spec fn spec_bmp_pixel_ok(v: Seq<u8>, s: Surface, palette: Palette, x: int, y: int)
    -> bool {
    let w = s.spec_size().width as int;
    let h = s.spec_size().height as int;
    let plen = palette@.len() as int;
    let bits = spec_bmp_bits(plen);
    let row = spec_bmp_pixel_offset(plen) + (h - 1 - y) * spec_bmp_row_size(bits, w);
    let c = s.spec_at(x, y);
    if bits == 8 {
        &&& row + x < v.len()
        &&& palette.spec_color_index(c) matches Some(i) && v[row + x] == i as u8
    } else {
        &&& row + 3 * x + 2 < v.len()
        &&& v[row + 3 * x] == c.blue
        &&& v[row + 3 * x + 1] == c.green
        &&& v[row + 3 * x + 2] == c.red
    }
}

/// Byte `k` of the padding of the stored row `yy` (counted from the
/// bottom) is zero.
pub open spec fn spec_bmp_pad_ok(v: Seq<u8>, s: Surface, palette_len: int, yy: int, k: int)
    -> bool {
    let w = s.spec_size().width as int;
    let bits = spec_bmp_bits(palette_len);
    let row = spec_bmp_pixel_offset(palette_len) + yy * spec_bmp_row_size(bits, w);
    &&& row + (bits / 8) * w + k < v.len()
    &&& v[row + (bits / 8) * w + k] == 0
}

/// A complete, correct BMP file for the surface and palette: exact
/// total length, every header field, the palette quads, every pixel
/// byte with rows bottom-up, and zeroed padding; in indexed form
/// every surface color is contained in the palette.
pub open spec fn spec_bmp_file_ok(v: Seq<u8>, s: Surface, palette: Palette) -> bool {
    let w = s.spec_size().width as int;
    let h = s.spec_size().height as int;
    let plen = palette@.len() as int;
    &&& v.len() == spec_bmp_total(w, h, plen)
    &&& spec_bmp_file_header_ok(v, w, h, plen)
    &&& forall|i: int| 0 <= i < plen ==> #[trigger] spec_bmp_quad_ok(v, palette@, i)
    &&& forall|x: int, y: int|
        0 <= x < w && 0 <= y < h ==> #[trigger] spec_bmp_pixel_ok(v, s, palette, x, y)
    &&& forall|yy: int, k: int|
        0 <= yy < h && 0 <= k < spec_bmp_row_size(spec_bmp_bits(plen), w) - (spec_bmp_bits(plen)
            / 8) * w ==> #[trigger] spec_bmp_pad_ok(v, s, plen, yy, k)
    &&& spec_bmp_bits(plen) == 8 ==> forall|x: int, y: int|
        0 <= x < w && 0 <= y < h ==> spec_contains_color(palette@, #[trigger] s.spec_at(x, y))
}

/// Serialization fails exactly when the file would be indexed and
/// some surface color is missing from the palette.
pub open spec fn spec_bmp_missing_color(s: Surface, palette: Palette) -> bool {
    &&& spec_bmp_bits(palette@.len() as int) == 8
    &&& exists|x: int, y: int|
        0 <= x < s.spec_size().width && 0 <= y < s.spec_size().height && !spec_contains_color(
            palette@,
            #[trigger] s.spec_at(x, y),
        )
}

/// The format's own limits: the header stores the dimensions in
/// signed 32-bit fields and the file size in an unsigned 32-bit
/// field.
pub open spec fn spec_bmp_in_bounds(s: Surface, palette_len: int) -> bool {
    &&& s.spec_size().width <= 0x7fff_ffff
    &&& s.spec_size().height <= 0x7fff_ffff
    &&& palette_len <= 0x7fff_ffff
    &&& spec_bmp_total(s.spec_size().width as int, s.spec_size().height as int, palette_len)
        <= u32::MAX
}

fn push_le16(v: &mut Vec<u8>, x: u16)
    ensures
        final(v)@.len() == old(v)@.len() + 2,
        forall|i: int| 0 <= i < old(v)@.len() ==> #[trigger] final(v)@[i] == old(v)@[i],
        spec_le16(final(v)@, old(v)@.len() as int) == x,
{
    let b0 = (x % 256) as u8;
    let b1 = (x / 256) as u8;
    v.push(b0);
    v.push(b1);
}

fn push_le32(v: &mut Vec<u8>, x: u32)
    ensures
        final(v)@.len() == old(v)@.len() + 4,
        forall|i: int| 0 <= i < old(v)@.len() ==> #[trigger] final(v)@[i] == old(v)@[i],
        spec_le32(final(v)@, old(v)@.len() as int) == x,
{
    let b0 = (x % 256) as u8;
    let b1 = ((x / 256) % 256) as u8;
    let b2 = ((x / 0x1_0000) % 256) as u8;
    let b3 = (x / 0x100_0000) as u8;
    v.push(b0);
    v.push(b1);
    v.push(b2);
    v.push(b3);
}

fn write_file_header(width: u32, height: u32, palette_len: usize, total: u64, bits: u16) -> (v: Vec<
    u8,
>)
    requires
        total == spec_bmp_total(width as int, height as int, palette_len as int),
        total <= u32::MAX,
        bits == spec_bmp_bits(palette_len as int),
    ensures
        v@.len() == 54,
        spec_bmp_file_header_ok(v@, width as int, height as int, palette_len as int),
        palette_len <= u32::MAX,
{
    let mut v: Vec<u8> = Vec::new();
    v.push(0x42);
    v.push(0x4d);
    push_le32(&mut v, total as u32);
    push_le32(&mut v, 0);
    proof {
        assert(palette_len * 4 >= 0) by (nonlinear_arith);
    }
    let pixel_offset: u64 = 54 + 4 * (palette_len as u64);
    push_le32(&mut v, pixel_offset as u32);
    push_le32(&mut v, 40);
    push_le32(&mut v, width);
    push_le32(&mut v, height);
    push_le16(&mut v, 1);
    push_le16(&mut v, bits);
    push_le32(&mut v, 0);
    push_le32(&mut v, 0);
    let ppm = ppi2ppm(300);
    push_le32(&mut v, ppm);
    push_le32(&mut v, ppm);
    push_le32(&mut v, palette_len as u32);
    push_le32(&mut v, 0);
    v
}

/// Appends one stored pixel row for source row `y`, padding
/// included, at the row's own file offset.
#[verifier::rlimit(100)]
fn write_bmp_row(v: &mut Vec<u8>, bitmap: &Surface, palette: &Palette, y: u32, bits: u16, pad: u64)
    -> (res: Result<(), Error>)
    requires
        palette.wf(),
        bits == spec_bmp_bits(palette@.len() as int),
        y < bitmap.spec_size().height,
        bitmap.spec_size().width <= 0x7fff_ffff,
        bitmap.spec_size().height <= 0x7fff_ffff,
        pad == spec_bmp_row_size(bits as int, bitmap.spec_size().width as int) - (bits as int / 8)
            * bitmap.spec_size().width,
        old(v)@.len() == spec_bmp_pixel_offset(palette@.len() as int) + (bitmap.spec_size().height
            - 1 - y) * spec_bmp_row_size(bits as int, bitmap.spec_size().width as int),
    ensures
        match res {
            Ok(()) => {
                let w = bitmap.spec_size().width as int;
                let plen = palette@.len() as int;
                &&& final(v)@.len() == old(v)@.len() + spec_bmp_row_size(bits as int, w)
                &&& forall|i: int| 0 <= i < old(v)@.len() ==> #[trigger] final(v)@[i] == old(v)@[i]
                &&& forall|x: int|
                    0 <= x < w ==> #[trigger] spec_bmp_pixel_ok(
                        final(v)@,
                        *bitmap,
                        *palette,
                        x,
                        y as int,
                    )
                &&& forall|k: int|
                    0 <= k < pad ==> #[trigger] spec_bmp_pad_ok(
                        final(v)@,
                        *bitmap,
                        plen,
                        bitmap.spec_size().height - 1 - y,
                        k,
                    )
                &&& bits == 8 ==> forall|x: int|
                    0 <= x < w ==> spec_contains_color(
                        palette@,
                        #[trigger] bitmap.spec_at(x, y as int),
                    )
            },
            Err(e) => {
                &&& e == Error::ColorNotInPalette
                &&& bits == 8
                &&& exists|x: int, yy: int|
                    0 <= x < bitmap.spec_size().width && 0 <= yy < bitmap.spec_size().height
                        && !spec_contains_color(palette@, #[trigger] bitmap.spec_at(x, yy))
            },
        },
{
    let w = bitmap.width();
    let h = bitmap.height();
    proof {
        crate::surface::lemma_surface_pixel(*bitmap, 0, 0);
    }
    let bytes_per_pixel: u64 = (bits / 8) as u64;
    let ghost plen = palette@.len() as int;
    let ghost row_start = v@.len() as int;
    let ghost rs = spec_bmp_row_size(bits as int, w as int);
    let ghost v_init = v@;
    let mut x: u32 = 0;
    while x < w
        invariant
            palette.wf(),
            plen == palette@.len() as int,
            bits == spec_bmp_bits(plen),
            bytes_per_pixel == bits / 8,
            w == bitmap.spec_size().width <= 0x7fff_ffff,
            h == bitmap.spec_size().height <= 0x7fff_ffff,
            y < h,
            rs == spec_bmp_row_size(bits as int, w as int),
            row_start == spec_bmp_pixel_offset(plen) + (h - 1 - y) * rs,
            row_start == v_init.len(),
            x <= w,
            v@.len() == row_start + bytes_per_pixel * x,
            forall|i: int| 0 <= i < v_init.len() ==> #[trigger] v@[i] == v_init[i],
            forall|xx: int|
                0 <= xx < x ==> #[trigger] spec_bmp_pixel_ok(v@, *bitmap, *palette, xx, y as int),
            bits == 8 ==> forall|xx: int|
                0 <= xx < x ==> spec_contains_color(
                    palette@,
                    #[trigger] bitmap.spec_at(xx, y as int),
                ),
        decreases w - x,
    {
        let ghost v0 = v@;
        let c_opt = bitmap.get_pixel(Point { x: x as i32, y: y as i32 });
        proof {
            crate::surface::lemma_surface_pixel(*bitmap, x as int, y as int);
        }
        let c = match c_opt {
            Some(c) => c,
            None => {
                proof {
                    assert(false);
                }
                Color { red: 0, green: 0, blue: 0 }
            },
        };
        if bits == 8 {
            match palette.color_index(&c) {
                Some(idx) => {
                    v.push(idx as u8);
                },
                None => {
                    return Err(Error::ColorNotInPalette);
                },
            }
        } else {
            v.push(c.blue);
            v.push(c.green);
            v.push(c.red);
        }
        proof {
            assert(forall|i: int| 0 <= i < v0.len() ==> #[trigger] v@[i] == v0[i]);
            assert(spec_bmp_pixel_ok(v@, *bitmap, *palette, x as int, y as int));
            assert forall|xx: int| 0 <= xx < x + 1 implies #[trigger] spec_bmp_pixel_ok(
                v@,
                *bitmap,
                *palette,
                xx,
                y as int,
            ) by {
                if xx < x {
                    assert(spec_bmp_pixel_ok(v0, *bitmap, *palette, xx, y as int));
                }
            }
        }
        x = x + 1;
    }
    // padding to the 4-byte boundary
    let ghost v_row = v@;
    let mut k: u64 = 0;
    while k < pad
        invariant
            plen == palette@.len() as int,
            bits == spec_bmp_bits(plen),
            bytes_per_pixel == bits / 8,
            w == bitmap.spec_size().width,
            h == bitmap.spec_size().height,
            y < h,
            rs == spec_bmp_row_size(bits as int, w as int),
            pad == rs - bytes_per_pixel * (w as int),
            row_start == spec_bmp_pixel_offset(plen) + (h - 1 - y) * rs,
            k <= pad,
            v@.len() == row_start + bytes_per_pixel * (w as int) + k,
            v_row.len() == row_start + bytes_per_pixel * (w as int),
            forall|i: int| 0 <= i < v_row.len() ==> #[trigger] v@[i] == v_row[i],
            forall|kk: int|
                0 <= kk < k ==> #[trigger] spec_bmp_pad_ok(v@, *bitmap, plen, h - 1 - y, kk),
        decreases pad - k,
    {
        let ghost v0 = v@;
        v.push(0);
        proof {
            assert(forall|i: int| 0 <= i < v0.len() ==> #[trigger] v@[i] == v0[i]);
            assert(spec_bmp_pad_ok(v@, *bitmap, plen, h - 1 - y, k as int));
            assert forall|kk: int| 0 <= kk < k + 1 implies #[trigger] spec_bmp_pad_ok(
                v@,
                *bitmap,
                plen,
                h - 1 - y,
                kk,
            ) by {
                if kk < k {
                    assert(spec_bmp_pad_ok(v0, *bitmap, plen, h - 1 - y, kk));
                }
            }
        }
        k = k + 1;
    }
    proof {
        assert forall|xx: int| 0 <= xx < w implies #[trigger] spec_bmp_pixel_ok(
            v@,
            *bitmap,
            *palette,
            xx,
            y as int,
        ) by {
            assert(spec_bmp_pixel_ok(v_row, *bitmap, *palette, xx, y as int));
        }
    }
    Ok(())
}

/// Appends the palette as blue, green, red, zero quads in insertion
/// order.
#[verifier::rlimit(100)]
fn write_palette_quads(v: &mut Vec<u8>, palette: &Palette)
    requires
        old(v)@.len() == 54,
    ensures
        final(v)@.len() == 54 + 4 * palette@.len(),
        forall|i: int| 0 <= i < 54 ==> #[trigger] final(v)@[i] == old(v)@[i],
        forall|j: int| 0 <= j < palette@.len() ==> #[trigger] spec_bmp_quad_ok(
            final(v)@,
            palette@,
            j,
        ),
{
    let palette_len = palette.len();
    let colors = palette.iter();
    let mut i: usize = 0;
    while i < palette_len
        invariant
            palette_len == palette@.len(),
            colors@ =~= palette@,
            i <= palette_len,
            v@.len() == 54 + 4 * i,
            forall|k: int| 0 <= k < 54 ==> #[trigger] v@[k] == old(v)@[k],
            forall|j: int| 0 <= j < i ==> #[trigger] spec_bmp_quad_ok(v@, palette@, j),
        decreases palette_len - i,
    {
        let ghost v0 = v@;
        let c = colors[i];
        v.push(c.blue);
        v.push(c.green);
        v.push(c.red);
        v.push(0);
        proof {
            assert(forall|idx: int| 0 <= idx < v0.len() ==> #[trigger] v@[idx] == v0[idx]);
            assert(spec_bmp_quad_ok(v@, palette@, i as int));
            assert forall|j: int| 0 <= j < i + 1 implies #[trigger] spec_bmp_quad_ok(
                v@,
                palette@,
                j,
            ) by {
                if j < i {
                    assert(spec_bmp_quad_ok(v0, palette@, j));
                }
            }
        }
        i = i + 1;
    }
}

/// Serializes a surface as a BMP file against a palette.  The bit
/// depth is 8-bit indexed when the palette holds at most 256 colors
/// and 24-bit direct color otherwise; rows are stored bottom to top,
/// each padded with zeros to a 4-byte boundary.  In indexed form a
/// pixel whose color is missing from the palette fails serialization.
#[verifier::rlimit(100)]
pub fn write_bmp_with_palette(bitmap: &Surface, palette: &Palette) -> (res: Result<Vec<u8>, Error>)
    requires
        palette.wf(),
        spec_bmp_in_bounds(*bitmap, palette@.len() as int),
    ensures
        match res {
            Ok(v) => spec_bmp_file_ok(v@, *bitmap, *palette),
            Err(e) => e == Error::ColorNotInPalette && spec_bmp_missing_color(*bitmap, *palette),
        },
{
    let w = bitmap.width();
    let h = bitmap.height();
    proof {
        crate::surface::lemma_surface_pixel(*bitmap, 0, 0);
    }
    let palette_len = palette.len();
    let bits: u16 = if palette_len <= 256 {
        8
    } else {
        24
    };
    let bytes_per_pixel: u64 = (bits / 8) as u64;
    proof {
        let wi = w as int;
        if bits == 8 {
            assert(((8 * wi + 31) / 32) * 4 >= 1 * wi && ((8 * wi + 31) / 32) * 4 >= 0)
                by (nonlinear_arith)
                requires
                    wi >= 0,
            ;
        } else {
            assert(((24 * wi + 31) / 32) * 4 >= 3 * wi && ((24 * wi + 31) / 32) * 4 >= 0)
                by (nonlinear_arith)
                requires
                    wi >= 0,
            ;
        }
    }
    let row_size: u64 = (((bits as u64) * (w as u64) + 31) / 32) * 4;
    proof {
        let rs = spec_bmp_row_size(bits as int, w as int);
        assert(rs * (h as int) >= 0 && (h > 0 ==> rs <= rs * (h as int))) by (nonlinear_arith)
            requires
                rs >= 0,
                h >= 0,
        ;
        assert((h as int) * (rs as int) == (rs as int) * (h as int)) by (nonlinear_arith);
    }
    let total: u64 = 54 + 4 * (palette_len as u64) + row_size * (h as u64);
    let mut v = write_file_header(w, h, palette_len, total, bits);
    let ghost header = v@;
    write_palette_quads(&mut v, palette);
    proof {
        assert(spec_bmp_file_header_ok(v@, w as int, h as int, palette_len as int));
    }

    // pixel rows, bottom to top
    let pad: u64 = row_size - bytes_per_pixel * (w as u64);
    let ghost plen = palette@.len() as int;
    let ghost offset = spec_bmp_pixel_offset(plen);
    let ghost rs = spec_bmp_row_size(bits as int, w as int);
    let mut yy: u32 = 0;
    while yy < h
        invariant
            palette.wf(),
            palette_len == palette@.len(),
            plen == palette@.len() as int,
            offset == spec_bmp_pixel_offset(plen),
            w == bitmap.spec_size().width <= 0x7fff_ffff,
            h == bitmap.spec_size().height <= 0x7fff_ffff,
            bits == spec_bmp_bits(plen),
            bytes_per_pixel == bits / 8,
            rs == spec_bmp_row_size(bits as int, w as int),
            row_size == rs,
            pad == rs - bytes_per_pixel * (w as int),
            yy <= h,
            v@.len() == offset + yy * rs,
            spec_bmp_file_header_ok(v@, w as int, h as int, plen),
            forall|j: int| 0 <= j < plen ==> #[trigger] spec_bmp_quad_ok(v@, palette@, j),
            forall|x: int, y: int|
                0 <= x < w && h - yy <= y < h ==> #[trigger] spec_bmp_pixel_ok(
                    v@,
                    *bitmap,
                    *palette,
                    x,
                    y,
                ),
            forall|yyy: int, k: int|
                0 <= yyy < yy && 0 <= k < pad ==> #[trigger] spec_bmp_pad_ok(
                    v@,
                    *bitmap,
                    plen,
                    yyy,
                    k,
                ),
            bits == 8 ==> forall|x: int, y: int|
                0 <= x < w && h - yy <= y < h ==> spec_contains_color(
                    palette@,
                    #[trigger] bitmap.spec_at(x, y),
                ),
        decreases h - yy,
    {
        proof {
            assert((yy as int) * rs + rs == ((yy as int) + 1) * rs) by (nonlinear_arith);
        }
        let ghost v0 = v@;
        let y: u32 = h - 1 - yy;
        let row_res = write_bmp_row(&mut v, bitmap, palette, y, bits, pad);
        match row_res {
            Ok(()) => {},
            Err(e) => {
                return Err(e);
            },
        }
        proof {
            assert forall|j: int| 0 <= j < plen implies #[trigger] spec_bmp_quad_ok(
                v@,
                palette@,
                j,
            ) by {
                assert(spec_bmp_quad_ok(v0, palette@, j));
            }
            assert forall|x: int, yv: int|
                0 <= x < w && h - (yy + 1) <= yv < h implies #[trigger] spec_bmp_pixel_ok(
                v@,
                *bitmap,
                *palette,
                x,
                yv,
            ) by {
                if yv != y {
                    assert(spec_bmp_pixel_ok(v0, *bitmap, *palette, x, yv));
                }
            }
            assert forall|yyy: int, k: int|
                0 <= yyy < yy + 1 && 0 <= k < pad implies #[trigger] spec_bmp_pad_ok(
                v@,
                *bitmap,
                plen,
                yyy,
                k,
            ) by {
                if yyy < yy {
                    assert(spec_bmp_pad_ok(v0, *bitmap, plen, yyy, k));
                } else {
                    assert(spec_bmp_pad_ok(v@, *bitmap, plen, h - 1 - y, k));
                }
            }
        }
        yy = yy + 1;
    }
    Ok(v)
}

/// Serializes a surface as a BMP file against a palette, first
/// checking the format's own limits: dimensions must fit the
/// header's signed 32-bit fields and the total size its unsigned
/// 32-bit field.  An image beyond them is rejected; within them the
/// result is exactly that of `write_bmp_with_palette`.
pub fn try_write_bmp_with_palette(bitmap: &Surface, palette: &Palette) -> (res: Result<
    Vec<u8>,
    Error,
>)
    requires
        palette.wf(),
    ensures
        if spec_bmp_in_bounds(*bitmap, palette@.len() as int) {
            match res {
                Ok(v) => spec_bmp_file_ok(v@, *bitmap, *palette),
                Err(e) => e == Error::ColorNotInPalette && spec_bmp_missing_color(
                    *bitmap,
                    *palette,
                ),
            }
        } else {
            res matches Err(e) && e == Error::BmpTooLarge
        },
{
    let w = bitmap.width();
    let h = bitmap.height();
    proof {
        crate::surface::lemma_surface_pixel(*bitmap, 0, 0);
    }
    let palette_len = palette.len();
    if w > 0x7fff_ffff || h > 0x7fff_ffff || palette_len > 0x7fff_ffff {
        return Err(Error::BmpTooLarge);
    }
    let bits: u64 = if palette_len <= 256 {
        8
    } else {
        24
    };
    let row_size: u64 = ((bits * (w as u64) + 31) / 32) * 4;
    proof {
        assert((row_size as int) * (h as int) <= 0x10_0000_0000 * 0x8000_0000)
            by (nonlinear_arith)
            requires
                0 <= row_size <= 0x10_0000_0000,
                0 <= h <= 0x8000_0000,
        ;
    }
    let total: u128 = 54 + 4 * (palette_len as u128) + (row_size as u128) * (h as u128);
    if total > u32::MAX as u128 {
        return Err(Error::BmpTooLarge);
    }
    write_bmp_with_palette(bitmap, palette)
}

} // verus!
