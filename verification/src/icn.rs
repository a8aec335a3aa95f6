//! The chunked tile-container decoder: four identified chunks (info,
//! packed tile data, local palettes, palette-row table) yielding raw
//! indexed tiles.

use vstd::prelude::*;

verus! {

use crate::bytes::{spec_be32, be32_at};
use crate::error::Error;
use crate::geometry::{Size, lemma_index_bounds};
use crate::tile::Tile;

/// The tile-data chunk: `N` packed tiles of a fixed byte size.
pub struct ICNSSet;

/// The local-palette chunk: rows of palette indices, one entry per
/// possible packed field value.
pub struct ICNRPal;

/// Every offset and count of a valid container, as computed from the
/// info chunk and the declared chunk sizes.
pub struct IcnLayout {
    pub width: int,
    pub height: int,
    pub bpp: int,
    pub tile_size: int,
    pub tile_count: int,
    pub sset_off: int,
    pub pal_size: int,
    pub pal_count: int,
    pub rpal_off: int,
    pub rtbl_off: int,
}

/// Tile `t`'s palette-row selector names an existing local palette
/// row.
pub open spec fn spec_icn_row_ok(s: Seq<u8>, rtbl_off: int, pal_count: int, t: int) -> bool {
    s[rtbl_off + t] < pal_count
}

/// Whether the four bytes at `i` spell the given tag.
pub open spec fn spec_tag_at(s: Seq<u8>, i: int, a: u8, b: u8, c: u8, d: u8) -> bool {
    s[i] == a && s[i + 1] == b && s[i + 2] == c && s[i + 3] == d
}

/// The number of palette entries a field of `bpp` bits can select.
pub open spec fn spec_icn_pal_size(bpp: int) -> int {
    if bpp == 1 {
        2
    } else if bpp == 2 {
        4
    } else if bpp == 4 {
        16
    } else {
        256
    }
}

/// Parses the container structure: checks each chunk tag and declared
/// size and computes every offset and count.  The data chunks are:
/// "FORM" with the "ICON" form tag; "SINF" with tile width, height, a
/// left-shift factor and bits per pixel; "SSET" with the packed
/// tiles; "RPAL" with the local palette rows; "RTBL" with one
/// palette-row selector byte per tile.
pub open spec fn spec_icn_layout(s: Seq<u8>) -> Result<IcnLayout, Error> {
    if s.len() < 24 {
        Err(Error::UnexpectedEndOfInput)
    } else if !spec_tag_at(s, 0, 0x46, 0x4f, 0x52, 0x4d) {  // "FORM"
        Err(Error::IcnBadChunkId)
    } else if !spec_tag_at(s, 8, 0x49, 0x43, 0x4f, 0x4e) {  // "ICON"
        Err(Error::IcnBadChunkId)
    } else if !spec_tag_at(s, 12, 0x53, 0x49, 0x4e, 0x46) {  // "SINF"
        Err(Error::IcnBadChunkId)
    } else if spec_be32(s, 16) != 4 {
        Err(Error::IcnBadChunkSize)
    } else {
        let shift = s[22];
        let bpp = s[23] as int;
        if !(bpp == 1 || bpp == 2 || bpp == 4 || bpp == 8) {
            Err(Error::IcnBadChunkSize)
        } else if shift > 7 {
            Err(Error::IcnBadChunkSize)
        } else {
            let width = ((s[20] as u32) << (shift as u32)) as int;
            let height = ((s[21] as u32) << (shift as u32)) as int;
            let tile_bits = width * height * bpp;
            if tile_bits == 0 || tile_bits % 8 != 0 {
                Err(Error::IcnBadChunkSize)
            } else {
                let tile_size = tile_bits / 8;
                if s.len() < 40 {
                    Err(Error::UnexpectedEndOfInput)
                } else if !spec_tag_at(s, 24, 0x53, 0x53, 0x45, 0x54) {  // "SSET"
                    Err(Error::IcnBadChunkId)
                } else {
                    let sset_size = spec_be32(s, 28);
                    if sset_size < 4 {
                        Err(Error::IcnBadChunkSize)
                    } else {
                        let tile_count = (sset_size - 4) / tile_size;
                        let rpal_tag = 40 + tile_count * tile_size;
                        if s.len() < rpal_tag + 8 {
                            Err(Error::UnexpectedEndOfInput)
                        } else if !spec_tag_at(s, rpal_tag, 0x52, 0x50, 0x41, 0x4c) {  // "RPAL"
                            Err(Error::IcnBadChunkId)
                        } else {
                            let rpal_size = spec_be32(s, rpal_tag + 4);
                            let pal_size = spec_icn_pal_size(bpp);
                            let pal_count = rpal_size / pal_size;
                            let rpal_off = rpal_tag + 8;
                            let rtbl_tag = rpal_off + pal_count * pal_size;
                            if s.len() < rtbl_tag + 8 {
                                Err(Error::UnexpectedEndOfInput)
                            } else if !spec_tag_at(s, rtbl_tag, 0x52, 0x54, 0x42, 0x4c) {  // "RTBL"
                                Err(Error::IcnBadChunkId)
                            } else {
                                let rtbl_size = spec_be32(s, rtbl_tag + 4);
                                let rtbl_off = rtbl_tag + 8;
                                if s.len() < rtbl_off + rtbl_size {
                                    Err(Error::UnexpectedEndOfInput)
                                } else if tile_count != rtbl_size {
                                    Err(Error::IcnCountMismatch)
                                } else if !(forall|t: int|
                                    0 <= t < tile_count ==> #[trigger] spec_icn_row_ok(
                                        s,
                                        rtbl_off,
                                        pal_count,
                                        t,
                                    )) {
                                    Err(Error::IcnBadPaletteRow)
                                } else {
                                    Ok(
                                        IcnLayout {
                                            width,
                                            height,
                                            bpp,
                                            tile_size,
                                            tile_count,
                                            sset_off: 40,
                                            pal_size,
                                            pal_count,
                                            rpal_off,
                                            rtbl_off,
                                        },
                                    )
                                }
                            }
                        }
                    }
                }
            }
        }
    }
}

/// The global palette index of pixel `j` of tile `t`: the packed
/// field is extracted most-significant-bit first and mapped through
/// the tile's selected local palette row.
pub open spec fn spec_icn_tile_pixel(s: Seq<u8>, lay: IcnLayout, t: int, j: int) -> u8 {
    let f = 8int / lay.bpp;
    let byte = s[lay.sset_off + t * lay.tile_size + j / f];
    let k = j % f;
    let sh = ((f - 1 - k) * lay.bpp) as u8;
    let mask = 0xffu8 >> ((8 - lay.bpp) as u8);
    let field = (byte >> sh) & mask;
    let row = s[lay.rtbl_off + t] as int;
    s[lay.rpal_off + row * lay.pal_size + field]
}

impl ICNSSet {
    /// Checks the "SSET" tag and declared size and returns the tile
    /// count the chunk holds for the given per-tile byte size.
    fn locate(s: &[u8], tile_size: u64) -> (res: Result<u64, Error>)
        requires
            s@.len() >= 40,
            tile_size >= 1,
        ensures
            match res {
                Ok(c) => spec_tag_at(s@, 24, 0x53, 0x53, 0x45, 0x54) && spec_be32(s@, 28) >= 4 && c
                    == (spec_be32(s@, 28) - 4) / (tile_size as int),
                Err(e) => {
                    ||| (e == Error::IcnBadChunkId && !spec_tag_at(s@, 24, 0x53, 0x53, 0x45, 0x54))
                    ||| (e == Error::IcnBadChunkSize && spec_tag_at(s@, 24, 0x53, 0x53, 0x45, 0x54)
                        && spec_be32(s@, 28) < 4)
                },
            },
    {
        if !(s[24] == 0x53 && s[25] == 0x53 && s[26] == 0x45 && s[27] == 0x54) {
            return Err(Error::IcnBadChunkId);
        }
        let sset_size = be32_at(s, 28);
        if sset_size < 4 {
            return Err(Error::IcnBadChunkSize);
        }
        Ok(((sset_size - 4) as u64) / tile_size)
    }
}

impl ICNRPal {
    /// Checks the "RPAL" tag at the chunk's offset and returns the
    /// number of palette rows the chunk holds.
    fn locate(s: &[u8], tag_off: usize, pal_size: u64) -> (res: Result<u64, Error>)
        requires
            tag_off + 8 <= s@.len(),
            pal_size >= 1,
        ensures
            match res {
                Ok(c) => spec_tag_at(s@, tag_off as int, 0x52, 0x50, 0x41, 0x4c) && c == spec_be32(
                    s@,
                    tag_off + 4,
                ) / (pal_size as int),
                Err(e) => e == Error::IcnBadChunkId && !spec_tag_at(
                    s@,
                    tag_off as int,
                    0x52,
                    0x50,
                    0x41,
                    0x4c,
                ),
            },
    {
        if !(s[tag_off] == 0x52 && s[tag_off + 1] == 0x50 && s[tag_off + 2] == 0x41 && s[tag_off
            + 3] == 0x4c) {
            return Err(Error::IcnBadChunkId);
        }
        let rpal_size = be32_at(s, tag_off + 4);
        Ok((rpal_size as u64) / pal_size)
    }
}

/// Decodes a tile container.  On success returns the tile extent and
/// the unpacked tiles, each tile's bytes being global palette indices
/// obtained by mapping every packed field through the tile's selected
/// local palette row.
#[verifier::rlimit(100)]
pub fn read_tiles_from_bytes(s: &[u8]) -> (res: Result<(Size, Vec<Tile>), Error>)
    ensures
        match res {
            Ok((size, tiles)) => {
                &&& spec_icn_layout(s@) matches Ok(lay)
                &&& {
                    let lay = spec_icn_layout(s@)->Ok_0;
                    &&& size.width == lay.width && size.height == lay.height
                    &&& tiles@.len() == lay.tile_count
                    &&& forall|t: int|
                        0 <= t < lay.tile_count ==> (#[trigger] tiles@[t]).wf()
                            && tiles@[t].spec_size() == size && forall|j: int|
                            0 <= j < lay.width * lay.height ==> tiles@[t].spec_data()[j]
                                == spec_icn_tile_pixel(s@, lay, t, j)
                }
            },
            Err(e) => spec_icn_layout(s@) == Err::<IcnLayout, Error>(e),
        },
{
    let n = s.len();
    if n < 24 {
        return Err(Error::UnexpectedEndOfInput);
    }
    if !(s[0] == 0x46 && s[1] == 0x4f && s[2] == 0x52 && s[3] == 0x4d) {
        return Err(Error::IcnBadChunkId);
    }
    if !(s[8] == 0x49 && s[9] == 0x43 && s[10] == 0x4f && s[11] == 0x4e) {
        return Err(Error::IcnBadChunkId);
    }
    if !(s[12] == 0x53 && s[13] == 0x49 && s[14] == 0x4e && s[15] == 0x46) {
        return Err(Error::IcnBadChunkId);
    }
    if be32_at(s, 16) != 4 {
        return Err(Error::IcnBadChunkSize);
    }
    let shift = s[22];
    let bpp = s[23];
    if !(bpp == 1 || bpp == 2 || bpp == 4 || bpp == 8) {
        return Err(Error::IcnBadChunkSize);
    }
    if shift > 7 {
        return Err(Error::IcnBadChunkSize);
    }
    let width: u32 = (s[20] as u32) << (shift as u32);
    let height: u32 = (s[21] as u32) << (shift as u32);
    proof {
        let w0 = s@[20];
        let h0 = s@[21];
        assert((w0 as u32) << (shift as u32) <= 0x8000 && (h0 as u32) << (shift as u32) <= 0x8000)
            by (bit_vector)
            requires
                shift <= 7,
        ;
    }
    proof {
        assert((width as int) * (height as int) <= 0x4000_0000) by (nonlinear_arith)
            requires
                0 <= width <= 0x8000,
                0 <= height <= 0x8000,
        ;
        assert((width as int) * (height as int) * (bpp as int) <= 0x4000_0000 * 8)
            by (nonlinear_arith)
            requires
                0 <= (width as int) * (height as int) <= 0x4000_0000,
                0 <= bpp <= 8,
        ;
    }
    let tile_bits: u64 = (width as u64) * (height as u64) * (bpp as u64);
    if tile_bits == 0 || tile_bits % 8 != 0 {
        return Err(Error::IcnBadChunkSize);
    }
    let tile_size: u64 = tile_bits / 8;
    if n < 40 {
        return Err(Error::UnexpectedEndOfInput);
    }
    let tile_count: u64 = match ICNSSet::locate(s, tile_size) {
        Ok(c) => c,
        Err(e) => {
            return Err(e);
        },
    };
    proof {
        vstd::arithmetic::div_mod::lemma_remainder_lower(
            spec_be32(s@, 28) - 4,
            tile_size as int,
        );
        assert(tile_count * tile_size <= spec_be32(s@, 28) - 4);
    }
    let rpal_tag: u64 = 40 + tile_count * tile_size;
    if (n as u64) < rpal_tag + 8 {
        return Err(Error::UnexpectedEndOfInput);
    }
    let pal_size: u64 = if bpp == 1 {
        2
    } else if bpp == 2 {
        4
    } else if bpp == 4 {
        16
    } else {
        256
    };
    let pal_count: u64 = match ICNRPal::locate(s, rpal_tag as usize, pal_size) {
        Ok(c) => c,
        Err(e) => {
            return Err(e);
        },
    };
    proof {
        vstd::arithmetic::div_mod::lemma_remainder_lower(
            spec_be32(s@, rpal_tag + 4),
            pal_size as int,
        );
        assert(pal_count * pal_size <= spec_be32(s@, rpal_tag + 4));
    }
    let rpal_off: u64 = rpal_tag + 8;
    let rtbl_tag: u64 = rpal_off + pal_count * pal_size;
    if (n as u64) < rtbl_tag + 8 {
        return Err(Error::UnexpectedEndOfInput);
    }
    let rtbl_tag_us = rtbl_tag as usize;
    if !(s[rtbl_tag_us] == 0x52 && s[rtbl_tag_us + 1] == 0x54 && s[rtbl_tag_us + 2] == 0x42
        && s[rtbl_tag_us + 3] == 0x4c) {
        return Err(Error::IcnBadChunkId);
    }
    let rtbl_size = be32_at(s, rtbl_tag_us + 4);
    let rtbl_off: u64 = rtbl_tag + 8;
    if (n as u64) < rtbl_off + rtbl_size as u64 {
        return Err(Error::UnexpectedEndOfInput);
    }
    if tile_count != rtbl_size as u64 {
        return Err(Error::IcnCountMismatch);
    }
    // every palette-row selector must name an existing row
    let mut t: u64 = 0;
    while t < tile_count
        invariant
            t <= tile_count,
            rtbl_off + tile_count <= s@.len() <= usize::MAX,
            pal_count <= 0xffff_ffff,
            !(forall|tt: int|
                0 <= tt < tile_count ==> #[trigger] spec_icn_row_ok(
                    s@,
                    rtbl_off as int,
                    pal_count as int,
                    tt,
                )) ==> spec_icn_layout(s@) == Err::<IcnLayout, Error>(Error::IcnBadPaletteRow),
            forall|tt: int|
                0 <= tt < t ==> #[trigger] spec_icn_row_ok(
                    s@,
                    rtbl_off as int,
                    pal_count as int,
                    tt,
                ),
        decreases tile_count - t,
    {
        if (s[(rtbl_off + t) as usize] as u64) >= pal_count {
            proof {
                assert(!spec_icn_row_ok(s@, rtbl_off as int, pal_count as int, t as int));
                assert(spec_icn_layout(s@) == Err::<IcnLayout, Error>(Error::IcnBadPaletteRow));
            }
            return Err(Error::IcnBadPaletteRow);
        }
        proof {
            assert(spec_icn_row_ok(s@, rtbl_off as int, pal_count as int, t as int));
        }
        t = t + 1;
    }
    let ghost lay = spec_icn_layout(s@)->Ok_0;
    proof {
        assert(spec_icn_layout(s@) is Ok);
        assert(lay.tile_count == tile_count && lay.tile_size == tile_size && lay.width == width
            && lay.height == height && lay.bpp == bpp && lay.pal_size == pal_size && lay.pal_count
            == pal_count && lay.sset_off == 40 && lay.rpal_off == rpal_off && lay.rtbl_off
            == rtbl_off);
    }
    let size = Size { width, height };
    let pixels: u64 = (width as u64) * (height as u64);
    proof {
        if bpp == 1 {
            assert(pixels * 1 == tile_bits && 8 * tile_size == tile_bits && pixels == tile_size * (
            8 as int)) by (nonlinear_arith)
                requires
                    pixels == (width as int) * (height as int),
                    tile_bits == (width as int) * (height as int) * 1,
                    tile_bits % 8 == 0,
                    tile_size == tile_bits / 8,
                    bpp == 1,
            ;
        } else if bpp == 2 {
            assert(pixels == tile_size * (4 as int)) by (nonlinear_arith)
                requires
                    pixels == (width as int) * (height as int),
                    tile_bits == (width as int) * (height as int) * 2,
                    tile_bits % 8 == 0,
                    tile_size == tile_bits / 8,
            ;
        } else if bpp == 4 {
            assert(pixels == tile_size * (2 as int)) by (nonlinear_arith)
                requires
                    pixels == (width as int) * (height as int),
                    tile_bits == (width as int) * (height as int) * 4,
                    tile_bits % 8 == 0,
                    tile_size == tile_bits / 8,
            ;
        } else {
            assert(pixels == tile_size * (1 as int)) by (nonlinear_arith)
                requires
                    pixels == (width as int) * (height as int),
                    tile_bits == (width as int) * (height as int) * 8,
                    tile_bits % 8 == 0,
                    tile_size == tile_bits / 8,
            ;
        }
    }
    let f: u64 = (8 / bpp) as u64;
    let mut tiles: Vec<Tile> = Vec::new();
    let mut t: u64 = 0;
    while t < tile_count
        invariant
            spec_icn_layout(s@) is Ok,
            lay == spec_icn_layout(s@)->Ok_0,
            lay.tile_count == tile_count && lay.tile_size == tile_size,
            lay.width == width && lay.height == height && lay.bpp == bpp,
            lay.pal_size == pal_size && lay.pal_count == pal_count,
            lay.sset_off == 40 && lay.rpal_off == rpal_off && lay.rtbl_off == rtbl_off,
            bpp == 1 || bpp == 2 || bpp == 4 || bpp == 8,
            f == 8int / (bpp as int) && f * bpp == 8,
            size == (Size { width, height }),
            pixels == (width as int) * (height as int),
            pixels == tile_size * f,
            tile_size >= 1,
            40 + tile_count * tile_size <= s@.len() <= usize::MAX,
            rpal_off + pal_count * pal_size <= s@.len(),
            rtbl_off + tile_count <= s@.len(),
            forall|tt: int|
                0 <= tt < tile_count ==> #[trigger] spec_icn_row_ok(
                    s@,
                    rtbl_off as int,
                    pal_count as int,
                    tt,
                ),
            t <= tile_count,
            tiles@.len() == t,
            forall|tt: int|
                0 <= tt < t ==> (#[trigger] tiles@[tt]).wf() && tiles@[tt].spec_size() == size
                    && forall|j: int|
                    0 <= j < pixels ==> tiles@[tt].spec_data()[j] == spec_icn_tile_pixel(
                        s@,
                        lay,
                        tt,
                        j,
                    ),
        decreases tile_count - t,
    {
        let mut data: Vec<u8> = Vec::new();
        let mut j: u64 = 0;
        proof {
            lemma_index_bounds(tile_size as int, tile_count as int, 0, t as int);
            assert((t as int) * tile_size + tile_size <= tile_count * tile_size)
                by (nonlinear_arith)
                requires
                    0 <= t < tile_count,
                    tile_size >= 0,
            ;
        }
        let tile_base: u64 = 40 + t * tile_size;
        let row = s[(rtbl_off + t) as usize];
        proof {
            assert(spec_icn_row_ok(s@, rtbl_off as int, pal_count as int, t as int));
            lemma_index_bounds(pal_size as int, pal_count as int, 0, row as int);
            assert((row as int) * pal_size + pal_size <= pal_count * pal_size)
                by (nonlinear_arith)
                requires
                    0 <= row < pal_count,
                    pal_size >= 0,
            ;
        }
        let row_base: u64 = rpal_off + (row as u64) * pal_size;
        while j < pixels
            invariant
                spec_icn_layout(s@) is Ok,
                lay == spec_icn_layout(s@)->Ok_0,
                lay.tile_count == tile_count && lay.tile_size == tile_size,
                lay.width == width && lay.height == height && lay.bpp == bpp,
                lay.pal_size == pal_size && lay.pal_count == pal_count,
                lay.sset_off == 40 && lay.rpal_off == rpal_off && lay.rtbl_off == rtbl_off,
                bpp == 1 || bpp == 2 || bpp == 4 || bpp == 8,
                f == 8int / (bpp as int) && f * bpp == 8 && 1 <= f <= 8,
                pixels == tile_size * f,
                tile_size >= 1,
                t < tile_count,
                tile_base == 40 + t * tile_size,
                tile_base + tile_size <= 40 + tile_count * tile_size,
                40 + tile_count * tile_size <= s@.len() <= usize::MAX,
                rtbl_off + tile_count <= s@.len(),
                row == s@[rtbl_off + t],
                row < pal_count,
                row_base == rpal_off + row * pal_size,
                row_base + pal_size <= rpal_off + pal_count * pal_size <= s@.len(),
                j <= pixels,
                data@.len() == j,
                forall|jj: int|
                    0 <= jj < j ==> data@[jj] == spec_icn_tile_pixel(s@, lay, t as int, jj),
            decreases pixels - j,
        {
            proof {
                assert((j as int) / (f as int) < tile_size) by (nonlinear_arith)
                    requires
                        0 <= j < tile_size * f,
                        f >= 1,
                        tile_size >= 0,
                ;
            }
            let byte = s[(tile_base + j / f) as usize];
            let k: u64 = j % f;
            let sh: u8 = ((f - 1 - k) as u8) * bpp;
            let mask: u8 = 0xff >> (8 - bpp);
            proof {
                assert((byte >> sh) & mask <= mask) by (bit_vector);
                assert(mask < 0xffu8 || bpp == 8) by (bit_vector)
                    requires
                        mask == 0xffu8 >> ((8 - bpp) as u8),
                        bpp == 1 || bpp == 2 || bpp == 4 || bpp == 8,
                ;
                assert(0xffu8 >> 7u8 == 1 && 0xffu8 >> 6u8 == 3 && 0xffu8 >> 4u8 == 15 && 0xffu8
                    >> 0u8 == 255) by (bit_vector);
            }
            let field = (byte >> sh) & mask;
            proof {
                assert(field < pal_size);
            }
            let value = s[(row_base + field as u64) as usize];
            data.push(value);
            j = j + 1;
        }
        proof {
            assert(data@.len() == size.area()) by (nonlinear_arith)
                requires
                    data@.len() == pixels,
                    pixels == (width as int) * (height as int),
                    size == (Size { width, height }),
            ;
        }
        let tile = Tile::new(data, size);
        tiles.push(tile);
        t = t + 1;
    }
    Ok((size, tiles))
}

} // verus!
