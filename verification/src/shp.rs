//! The compressed sprite-frame decoder: a versioned frame-offset
//! table, per-frame headers, the LCW and zero-run decompression
//! pipeline, and an optional per-frame remap table.

use vstd::prelude::*;

verus! {

use crate::bytes::{spec_le16, spec_le32, le16_at, le32_at};
use crate::error::Error;
use crate::geometry::Size;
use crate::lcw::{spec_lcw_decode, lcw_decode};
use crate::rle::{spec_rle_expand, rle_zero_expand};
use crate::tile::Tile;

/// Frame offset `k` of the table: 16-bit in the legacy scheme, 32-bit
/// with a fixed adjustment of two in the newer scheme.
pub open spec fn spec_shp_offset(s: Seq<u8>, v107: bool, k: int) -> int {
    if v107 {
        spec_le32(s, 2 + 4 * k) + 2
    } else {
        spec_le16(s, 2 + 2 * k)
    }
}

/// Offset `k` does not run backwards.
pub open spec fn spec_shp_mono(s: Seq<u8>, v107: bool, k: int) -> bool {
    spec_shp_offset(s, v107, k) <= spec_shp_offset(s, v107, k + 1)
}

/// Every decoded byte selects an entry that the remap table has.
pub open spec fn spec_shp_remap_ok(d: Seq<u8>, remap_count: int) -> bool {
    forall|i: int| 0 <= i < d.len() ==> #[trigger] d[i] < remap_count
}

/// The offset table never runs backwards.
pub open spec fn spec_shp_offsets_ok(s: Seq<u8>, v107: bool, fc: int) -> bool {
    forall|k: int| 0 <= k < fc ==> #[trigger] spec_shp_mono(s, v107, k)
}

/// The first frame of the table that fails to decode, if any.
pub open spec fn spec_shp_first_bad_frame(s: Seq<u8>, v107: bool, k: int, fc: int) -> Option<int>
    decreases fc - k,
{
    if k < 0 || k >= fc {
        None
    } else if spec_shp_frame_at(s, v107, k) is Err {
        Some(k)
    } else {
        spec_shp_first_bad_frame(s, v107, k + 1, fc)
    }
}

/// Parses one frame at `off` whose size the offset table declared as
/// `size`: the 16-bit flag word, slice count, width, height, declared
/// sizes, the optional remap table, and the pixel payload, stored raw
/// or as an LCW block followed by zero-run expansion.  Each way the
/// frame can be malformed carries its own error.
pub open spec fn spec_shp_frame(s: Seq<u8>, off: int, size: int) -> Result<
    (int, int, Seq<u8>),
    Error,
> {
    if off < 0 || off + 10 > s.len() {
        Err(Error::UnexpectedEndOfInput)
    } else {
        let flags = spec_le16(s, off);
        let slices = s[off + 2] as int;
        let width = spec_le16(s, off + 3);
        let height = s[off + 5] as int;
        if slices != height {
            Err(Error::ShpSliceMismatch)
        } else if spec_le16(s, off + 6) != size {
            Err(Error::ShpFrameSizeMismatch)
        } else {
            let rle_size = spec_le16(s, off + 8);
            let has_remap = flags % 2 == 1;
            let no_lcw = (flags / 2) % 2 == 1;
            let custom = (flags / 4) % 2 == 1;
            if has_remap && custom && off + 11 > s.len() {
                Err(Error::UnexpectedEndOfInput)
            } else {
                let remap_count: int = if has_remap {
                    if custom {
                        s[off + 10] as int
                    } else {
                        16
                    }
                } else {
                    0
                };
                let tstart: int = if has_remap && custom {
                    off + 11
                } else {
                    off + 10
                };
                if tstart + remap_count > s.len() {
                    Err(Error::UnexpectedEndOfInput)
                } else {
                    let dstart = tstart + remap_count;
                    let rle: Result<Seq<u8>, Error> = if no_lcw {
                        if dstart + rle_size <= s.len() {
                            Ok(s.subrange(dstart, dstart + rle_size))
                        } else {
                            Err(Error::UnexpectedEndOfInput)
                        }
                    } else {
                        match spec_lcw_decode(s, dstart) {
                            Ok(p) => Ok(p.0),
                            Err(e) => Err(e),
                        }
                    };
                    match rle {
                        Err(e) => Err(e),
                        Ok(r) => match spec_rle_expand(r) {
                            None => Err(Error::RleMissingCount),
                            Some(d) => if remap_count > 0 {
                                if spec_shp_remap_ok(d, remap_count) {
                                    let out = Seq::new(d.len(), |i: int| s[tstart + d[i]]);
                                    if out.len() == width * height {
                                        Ok((width, height, out))
                                    } else {
                                        Err(Error::ShpBadFrameData)
                                    }
                                } else {
                                    Err(Error::ShpBadRemap)
                                }
                            } else {
                                if d.len() == width * height {
                                    Ok((width, height, d))
                                } else {
                                    Err(Error::ShpBadFrameData)
                                }
                            },
                        },
                    }
                }
            }
        }
    }
}

/// Parses frame `k` using the offsets the table declares for it.
pub open spec fn spec_shp_frame_at(s: Seq<u8>, v107: bool, k: int) -> Result<
    (int, int, Seq<u8>),
    Error,
> {
    spec_shp_frame(
        s,
        spec_shp_offset(s, v107, k),
        spec_shp_offset(s, v107, k + 1) - spec_shp_offset(s, v107, k),
    )
}

/// Parses a whole sprite file: the version is detected from the word
/// at offset four, the offset table gives each frame's position and
/// size, and every frame must decode.  A backwards offset table is
/// rejected first; otherwise the error of the first failing frame is
/// the file's error.
pub open spec fn spec_shp_parse(s: Seq<u8>) -> Result<Seq<(int, int, Seq<u8>)>, Error> {
    if s.len() < 6 {
        Err(Error::UnexpectedEndOfInput)
    } else {
        let v107 = spec_le16(s, 4) == 0;
        let fc = spec_le16(s, 0);
        let esz: int = if v107 {
            4
        } else {
            2
        };
        if 2 + (fc + 1) * esz > s.len() {
            Err(Error::UnexpectedEndOfInput)
        } else if !spec_shp_offsets_ok(s, v107, fc) {
            Err(Error::ShpBadOffsets)
        } else {
            match spec_shp_first_bad_frame(s, v107, 0, fc) {
                Some(k) => Err(spec_shp_frame_at(s, v107, k)->Err_0),
                None => Ok(Seq::new(fc as nat, |k: int| spec_shp_frame_at(s, v107, k)->Ok_0)),
            }
        }
    }
}

/// Decodes one frame and applies its remap table.
#[verifier::rlimit(100)]
fn read_shp_frame(s: &[u8], off: u64, size: u64) -> (res: Result<Tile, Error>)
    requires
        off <= 0x2_0000_0000,
    ensures
        match res {
            Ok(t) => {
                &&& spec_shp_frame(s@, off as int, size as int) matches Ok(fr)
                &&& {
                    let fr = spec_shp_frame(s@, off as int, size as int)->Ok_0;
                    &&& t.wf()
                    &&& t.spec_size().width == fr.0 && t.spec_size().height == fr.1
                    &&& t.spec_data() == fr.2
                }
            },
            Err(e) => spec_shp_frame(s@, off as int, size as int) == Err::<(int, int, Seq<u8>),
                Error,
            >(e),
        },
{
    let n = s.len();
    if off + 10 > n as u64 {
        return Err(Error::UnexpectedEndOfInput);
    }
    let o = off as usize;
    let flags = le16_at(s, o);
    let slices = s[o + 2];
    let width = le16_at(s, o + 3);
    let height = s[o + 5];
    if slices as u16 != height as u16 {
        return Err(Error::ShpSliceMismatch);
    }
    let frame_size = le16_at(s, o + 6);
    if frame_size as u64 != size {
        return Err(Error::ShpFrameSizeMismatch);
    }
    let rle_size = le16_at(s, o + 8);
    let has_remap = flags % 2 == 1;
    let no_lcw = (flags / 2) % 2 == 1;
    let custom = (flags / 4) % 2 == 1;
    if has_remap && custom && off + 11 > n as u64 {
        return Err(Error::UnexpectedEndOfInput);
    }
    let remap_count: usize = if has_remap {
        if custom {
            s[o + 10] as usize
        } else {
            16
        }
    } else {
        0
    };
    let tstart: usize = if has_remap && custom {
        o + 11
    } else {
        o + 10
    };
    if tstart as u64 + remap_count as u64 > n as u64 {
        return Err(Error::UnexpectedEndOfInput);
    }
    let dstart: usize = tstart + remap_count;
    let rle_data: Vec<u8> = if no_lcw {
        if dstart as u64 + rle_size as u64 > n as u64 {
            return Err(Error::UnexpectedEndOfInput);
        }
        let mut raw: Vec<u8> = Vec::new();
        let mut i: usize = 0;
        while i < rle_size as usize
            invariant
                dstart + rle_size <= s@.len() <= usize::MAX,
                i <= rle_size,
                raw@ =~= s@.subrange(dstart as int, dstart + i),
            decreases rle_size as int - i,
        {
            raw.push(s[dstart + i]);
            proof {
                assert(raw@ =~= s@.subrange(dstart as int, dstart + i + 1));
            }
            i = i + 1;
        }
        proof {
            assert(raw@ =~= s@.subrange(dstart as int, dstart + rle_size as int));
        }
        raw
    } else {
        if dstart as u64 >= n as u64 {
            return Err(Error::UnexpectedEndOfInput);
        }
        match lcw_decode(s, dstart) {
            Ok((v, _end)) => v,
            Err(e) => {
                return Err(e);
            },
        }
    };
    let data: Vec<u8> = match rle_zero_expand(rle_data.as_slice()) {
        Ok(d) => d,
        Err(e) => {
            return Err(e);
        },
    };
    let final_data: Vec<u8> = if remap_count > 0 {
        proof {
            assert(spec_rle_expand(rle_data@) == Some(data@));
            let rspec: Seq<u8> = if no_lcw {
                s@.subrange(dstart as int, dstart + rle_size)
            } else {
                spec_lcw_decode(s@, dstart as int)->Ok_0.0
            };
            let dspec = spec_rle_expand(rspec)->Some_0;
            assert(dspec == data@);
            if !spec_shp_remap_ok(data@, remap_count as int) {
                assert(!spec_shp_remap_ok(dspec, remap_count as int));
                assert(spec_shp_frame(s@, off as int, size as int) == Err::<
                    (int, int, Seq<u8>),
                    Error,
                >(Error::ShpBadRemap));
            }
        }
        let mut out: Vec<u8> = Vec::new();
        let mut i: usize = 0;
        let len = data.len();
        while i < len
            invariant
                len == data@.len() <= usize::MAX,
                tstart + remap_count <= s@.len() <= usize::MAX,
                remap_count <= 0xffff_ffff,
                !spec_shp_remap_ok(data@, remap_count as int) ==> spec_shp_frame(
                    s@,
                    off as int,
                    size as int,
                ) == Err::<(int, int, Seq<u8>), Error>(Error::ShpBadRemap),
                i <= len,
                out@.len() == i,
                forall|j: int| 0 <= j < i ==> #[trigger] data@[j] < remap_count,
                forall|j: int| 0 <= j < i ==> #[trigger] out@[j] == s@[tstart + data@[j]],
            decreases len - i,
        {
            let b = data[i] as usize;
            if b >= remap_count {
                proof {
                    assert(!(data@[i as int] < remap_count));
                    assert(!spec_shp_remap_ok(data@, remap_count as int));
                }
                return Err(Error::ShpBadRemap);
            }
            out.push(s[tstart + b]);
            i = i + 1;
        }
        proof {
            assert(out@ =~= Seq::new(data@.len(), |j: int| s@[tstart + data@[j]]));
            assert(spec_shp_remap_ok(data@, remap_count as int));
        }
        out
    } else {
        data
    };
    proof {
        assert((width as int) * (height as int) <= 0xffff * 0xff) by (nonlinear_arith)
            requires
                0 <= width <= 0xffff,
                0 <= height <= 0xff,
        ;
    }
    let pixels: u64 = (width as u64) * (height as u64);
    if final_data.len() as u64 != pixels {
        return Err(Error::ShpBadFrameData);
    }
    let size_px = Size { width: width as u32, height: height as u32 };
    proof {
        assert(size_px.area() == (width as int) * (height as int));
    }
    Ok(Tile::new(final_data, size_px))
}

/// Decodes a whole sprite file into tiles, the remap table of each
/// frame already applied to its pixels.
#[verifier::rlimit(100)]
pub fn read_tiles_from_bytes(s: &[u8]) -> (res: Result<Vec<Tile>, Error>)
    ensures
        match res {
            Ok(tiles) => {
                &&& spec_shp_parse(s@) matches Ok(frames)
                &&& {
                    let frames = spec_shp_parse(s@)->Ok_0;
                    &&& tiles@.len() == frames.len()
                    &&& forall|k: int|
                        0 <= k < frames.len() ==> (#[trigger] tiles@[k]).wf()
                            && tiles@[k].spec_size().width == frames[k].0
                            && tiles@[k].spec_size().height == frames[k].1
                            && tiles@[k].spec_data() == frames[k].2
                }
            },
            Err(e) => spec_shp_parse(s@) == Err::<Seq<(int, int, Seq<u8>)>, Error>(e),
        },
{
    let n = s.len();
    if n < 6 {
        return Err(Error::UnexpectedEndOfInput);
    }
    let v107 = le16_at(s, 4) == 0;
    let fc = le16_at(s, 0) as usize;
    let esz: usize = if v107 {
        4
    } else {
        2
    };
    if 2 + (fc + 1) * esz > n {
        return Err(Error::UnexpectedEndOfInput);
    }
    // read the offset table
    let mut offs: Vec<u64> = Vec::new();
    let mut k: usize = 0;
    while k < fc + 1
        invariant
            2 + (fc + 1) * esz <= s@.len() <= usize::MAX,
            esz == (if v107 {
                4int
            } else {
                2int
            }),
            k <= fc + 1,
            fc <= 0xffff,
            offs@.len() == k,
            forall|kk: int|
                0 <= kk < k ==> #[trigger] offs@[kk] == spec_shp_offset(s@, v107, kk)
                    && offs@[kk] <= 0x1_0000_0002,
        decreases fc + 1 - k,
    {
        proof {
            assert((k + 1) * esz <= (fc + 1) * esz) by (nonlinear_arith)
                requires
                    k < fc + 1,
                    esz >= 1,
            ;
            assert((k as int) * esz + esz == ((k as int) + 1) * esz) by (nonlinear_arith);
        }
        let off: u64 = if v107 {
            le32_at(s, 2 + 4 * k) as u64 + 2
        } else {
            le16_at(s, 2 + 2 * k) as u64
        };
        offs.push(off);
        k = k + 1;
    }
    // the offset table must never run backwards
    let mut k: usize = 0;
    while k < fc
        invariant
            s@.len() >= 6,
            2 + (fc + 1) * esz <= s@.len() <= usize::MAX,
            esz == (if v107 {
                4int
            } else {
                2int
            }),
            v107 == (spec_le16(s@, 4) == 0),
            fc == spec_le16(s@, 0),
            k <= fc,
            offs@.len() == fc + 1,
            forall|kk: int|
                0 <= kk < fc + 1 ==> #[trigger] offs@[kk] == spec_shp_offset(s@, v107, kk)
                    && offs@[kk] <= 0x1_0000_0002,
            forall|kk: int| 0 <= kk < k ==> #[trigger] spec_shp_mono(s@, v107, kk),
            !spec_shp_offsets_ok(s@, v107, fc as int) ==> spec_shp_parse(s@) == Err::<
                Seq<(int, int, Seq<u8>)>,
                Error,
            >(Error::ShpBadOffsets),
        decreases fc - k,
    {
        if offs[k + 1] < offs[k] {
            proof {
                assert(!spec_shp_mono(s@, v107, k as int));
                assert(!spec_shp_offsets_ok(s@, v107, fc as int));
            }
            return Err(Error::ShpBadOffsets);
        }
        proof {
            assert(spec_shp_mono(s@, v107, k as int));
        }
        k = k + 1;
    }
    // decode every frame; the first failing frame decides the error
    let mut tiles: Vec<Tile> = Vec::new();
    let mut k: usize = 0;
    while k < fc
        invariant
            s@.len() >= 6,
            2 + (fc + 1) * esz <= s@.len() <= usize::MAX,
            esz == (if v107 {
                4int
            } else {
                2int
            }),
            v107 == (spec_le16(s@, 4) == 0),
            fc == spec_le16(s@, 0),
            spec_shp_offsets_ok(s@, v107, fc as int),
            k <= fc,
            offs@.len() == fc + 1,
            forall|kk: int|
                0 <= kk < fc + 1 ==> #[trigger] offs@[kk] == spec_shp_offset(s@, v107, kk)
                    && offs@[kk] <= 0x1_0000_0002,
            tiles@.len() == k,
            spec_shp_first_bad_frame(s@, v107, 0, fc as int) == spec_shp_first_bad_frame(
                s@,
                v107,
                k as int,
                fc as int,
            ),
            forall|kk: int| 0 <= kk < k ==> (#[trigger] spec_shp_frame_at(s@, v107, kk)) is Ok,
            forall|kk: int|
                0 <= kk < k ==> (#[trigger] tiles@[kk]).wf() && tiles@[kk].spec_size().width
                    == spec_shp_frame_at(s@, v107, kk)->Ok_0.0 && tiles@[kk].spec_size().height
                    == spec_shp_frame_at(s@, v107, kk)->Ok_0.1 && tiles@[kk].spec_data()
                    == spec_shp_frame_at(s@, v107, kk)->Ok_0.2,
        decreases fc - k,
    {
        let off = offs[k];
        let next = offs[k + 1];
        proof {
            assert(spec_shp_mono(s@, v107, k as int));
        }
        let size = next - off;
        match read_shp_frame(s, off, size) {
            Ok(t) => {
                proof {
                    assert(spec_shp_frame_at(s@, v107, k as int) is Ok);
                }
                tiles.push(t);
            },
            Err(e) => {
                proof {
                    assert(spec_shp_frame_at(s@, v107, k as int) == Err::<
                        (int, int, Seq<u8>),
                        Error,
                    >(e));
                    assert(spec_shp_first_bad_frame(s@, v107, k as int, fc as int) == Some(
                        k as int,
                    ));
                    assert(spec_shp_parse(s@) == Err::<Seq<(int, int, Seq<u8>)>, Error>(e));
                }
                return Err(e);
            },
        }
        k = k + 1;
    }
    proof {
        assert(spec_shp_first_bad_frame(s@, v107, fc as int, fc as int) is None);
        let frames = spec_shp_parse(s@)->Ok_0;
        assert(spec_shp_parse(s@) is Ok);
        assert forall|kk: int| 0 <= kk < frames.len() implies (#[trigger] tiles@[kk]).wf()
            && tiles@[kk].spec_size().width == frames[kk].0 && tiles@[kk].spec_size().height
            == frames[kk].1 && tiles@[kk].spec_data() == frames[kk].2 by {
            assert(frames[kk] == spec_shp_frame_at(s@, v107, kk)->Ok_0);
        }
    }
    Ok(tiles)
}

} // verus!
