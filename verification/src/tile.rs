//! Tiles: uniform-size indexed pixel buffers, with anchored resize
//! and flip transforms.

use vstd::prelude::*;

verus! {

use crate::bitmap::{Bitmap, BitmapGetPixel};
use crate::color::{Color, Palette, spec_color_at};
use crate::faction::{Faction, remap_color_index, spec_remap_color_index};
use crate::geometry::{Point, Size, spec_index, lemma_index_bounds, lemma_index_recompose,
    lemma_index_decompose};

/// An explicit anchor offset: where the source tile's top-left corner
/// lands inside the destination of a resize.
#[derive(Clone, Copy, Debug, PartialEq, Eq, Structural)]
pub struct TileAnchorPosition {
    pub left: i32,
    pub top: i32,
}

/// Where to place the source tile inside the destination when
/// resizing: one of nine named positions, or an explicit offset.
#[derive(Clone, Copy, Debug, PartialEq, Eq, Structural)]
pub enum TileAnchor {
    Position(TileAnchorPosition),
    BottomLeft,
    BottomCenter,
    BottomRight,
    CenterLeft,
    Center,
    CenterRight,
    TopLeft,
    TopCenter,
    TopRight,
}

/// Half the difference of two extents, rounded toward zero; the
/// offset that centers a source extent inside a destination extent.
pub open spec fn spec_center_offset(dst: int, src: int) -> int {
    if dst >= src {
        (dst - src) / 2
    } else {
        -((src - dst) / 2)
    }
}

fn center_offset(dst: u32, src: u32) -> (r: i64)
    ensures
        r == spec_center_offset(dst as int, src as int),
{
    if dst >= src {
        ((dst - src) / 2) as i64
    } else {
        -(((src - dst) / 2) as i64)
    }
}

impl TileAnchor {
    /// The horizontal offset of the source's left edge inside the
    /// destination.
    pub open spec fn spec_left(self, src: Size, dst: Size) -> int {
        match self {
            TileAnchor::Position(p) => p.left as int,
            TileAnchor::TopLeft | TileAnchor::CenterLeft | TileAnchor::BottomLeft => 0,
            TileAnchor::TopCenter | TileAnchor::Center | TileAnchor::BottomCenter
                => spec_center_offset(dst.width as int, src.width as int),
            TileAnchor::TopRight | TileAnchor::CenterRight | TileAnchor::BottomRight => dst.width
                - src.width,
        }
    }

    /// The vertical offset of the source's top edge inside the
    /// destination.
    pub open spec fn spec_top(self, src: Size, dst: Size) -> int {
        match self {
            TileAnchor::Position(p) => p.top as int,
            TileAnchor::TopLeft | TileAnchor::TopCenter | TileAnchor::TopRight => 0,
            TileAnchor::CenterLeft | TileAnchor::Center | TileAnchor::CenterRight
                => spec_center_offset(dst.height as int, src.height as int),
            TileAnchor::BottomLeft | TileAnchor::BottomCenter | TileAnchor::BottomRight
                => dst.height - src.height,
        }
    }

    /// Computes both anchor offsets.
    fn to_position(&self, src: &Size, dst: &Size) -> (r: (i64, i64))
        ensures
            r.0 == self.spec_left(*src, *dst),
            r.1 == self.spec_top(*src, *dst),
    {
        let left: i64 = match self {
            TileAnchor::Position(p) => p.left as i64,
            TileAnchor::TopLeft | TileAnchor::CenterLeft | TileAnchor::BottomLeft => 0,
            TileAnchor::TopCenter | TileAnchor::Center | TileAnchor::BottomCenter
                => center_offset(dst.width, src.width),
            TileAnchor::TopRight | TileAnchor::CenterRight | TileAnchor::BottomRight => dst.width
                as i64 - src.width as i64,
        };
        let top: i64 = match self {
            TileAnchor::Position(p) => p.top as i64,
            TileAnchor::TopLeft | TileAnchor::TopCenter | TileAnchor::TopRight => 0,
            TileAnchor::CenterLeft | TileAnchor::Center | TileAnchor::CenterRight
                => center_offset(dst.height, src.height),
            TileAnchor::BottomLeft | TileAnchor::BottomCenter | TileAnchor::BottomRight
                => dst.height as i64 - src.height as i64,
        };
        (left, top)
    }
}

/// A mirror transform of a tile.
#[derive(Clone, Copy, Debug, PartialEq, Eq, Structural)]
pub enum TileTransformation {
    FlipX,
    FlipY,
    FlipXY,
}

/// A tile: a flat buffer of palette-index bytes together with its
/// extent.  The buffer holds exactly `width * height` bytes in
/// row-major order.
#[derive(Debug)]
pub struct Tile {
    data: Vec<u8>,
    size: Size,
}

/// The pixel a flip transform reads at destination coordinates
/// `(x, y)`.
pub open spec fn spec_transformed_pixel(t: Tile, tr: TileTransformation, x: int, y: int) -> u8 {
    let w = t.spec_size().width as int;
    let h = t.spec_size().height as int;
    match tr {
        TileTransformation::FlipX => t.spec_pixel(w - 1 - x, y),
        TileTransformation::FlipY => t.spec_pixel(x, h - 1 - y),
        TileTransformation::FlipXY => t.spec_pixel(w - 1 - x, h - 1 - y),
    }
}

/// The pixel a resize writes at destination coordinates `(x, y)`:
/// the source pixel where the shifted source extent covers the
/// destination point, and the default zero index everywhere else.
pub open spec fn spec_resize_pixel(t: Tile, left: int, top: int, x: int, y: int) -> u8 {
    let sx = x - left;
    let sy = y - top;
    if 0 <= sx < t.spec_size().width && 0 <= sy < t.spec_size().height {
        t.spec_pixel(sx, sy)
    } else {
        0
    }
}

impl Tile {
    /// The pixel bytes in row-major order.
    pub closed spec fn spec_data(self) -> Seq<u8> {
        self.data@
    }

    /// The extent of the tile.
    pub closed spec fn spec_size(self) -> Size {
        self.size
    }

    /// The buffer holds exactly one byte per pixel.  Every tile
    /// value satisfies this.
    #[verifier::type_invariant]
    pub open spec fn wf(self) -> bool {
        self.spec_data().len() == self.spec_size().area() && self.spec_size().area() <= usize::MAX
    }

    /// The palette index stored at `(x, y)`.
    pub open spec fn spec_pixel(self, x: int, y: int) -> u8 {
        self.spec_data()[spec_index(self.spec_size().width as int, x, y)]
    }

    /// Builds a tile from its pixel bytes and extent.
    pub fn new(data: Vec<u8>, size: Size) -> (t: Tile)
        requires
            data@.len() == size.area(),
        ensures
            t.wf(),
            t.spec_data() == data@,
            t.spec_size() == size,
    {
        let n = data.len();
        Tile { data, size }
    }

    /// The extent of the tile.
    pub fn size(&self) -> (s: Size)
        ensures
            s == self.spec_size(),
    {
        self.size
    }

    /// The pixel bytes in row-major order.
    pub fn data(&self) -> (d: &Vec<u8>)
        ensures
            d@ == self.spec_data(),
    {
        &self.data
    }

    /// The palette index stored at the in-bounds position `(x, y)`.
    pub fn pixel(&self, x: u32, y: u32) -> (p: u8)
        requires
            x < self.spec_size().width,
            y < self.spec_size().height,
        ensures
            p == self.spec_pixel(x as int, y as int),
    {
        proof {
            use_type_invariant(self);
        }
        let idx = buf_index(self.size, x, y);
        self.data[idx]
    }

    /// A new tile whose pixels are the mirror of this tile along X,
    /// Y, or both; `None` copies the tile unchanged.  The source is
    /// not mutated.
    pub fn transform(&self, transform: Option<TileTransformation>) -> (r: Tile)
        ensures
            r.wf(),
            r.spec_size() == self.spec_size(),
            forall|x: int, y: int|
                0 <= x < self.spec_size().width && 0 <= y < self.spec_size().height
                    ==> #[trigger] r.spec_pixel(x, y) == match transform {
                    None => self.spec_pixel(x, y),
                    Some(tr) => spec_transformed_pixel(*self, tr, x, y),
                },
    {
        proof {
            use_type_invariant(self);
        }
        match transform {
            None => {
                let data = copy_bytes(&self.data);
                let r = Tile { data, size: self.size };
                proof {
                    assert forall|x: int, y: int|
                        0 <= x < self.spec_size().width && 0 <= y
                            < self.spec_size().height implies #[trigger] r.spec_pixel(x, y)
                        == self.spec_pixel(x, y) by {
                        lemma_index_bounds(
                            self.spec_size().width as int,
                            self.spec_size().height as int,
                            x,
                            y,
                        );
                    }
                }
                r
            },
            Some(tr) => {
                let w = self.size.width;
                let h = self.size.height;
                let len = self.data.len();
                let mut out: Vec<u8> = Vec::new();
                let mut j: usize = 0;
                while j < len
                    invariant
                        self.wf(),
                        w == self.spec_size().width,
                        h == self.spec_size().height,
                        len == self.spec_data().len(),
                        len <= usize::MAX,
                        j <= len,
                        out@.len() == j,
                        forall|jj: int|
                            0 <= jj < j ==> #[trigger] out@[jj] == spec_transformed_pixel(
                                *self,
                                tr,
                                jj % (w as int),
                                jj / (w as int),
                            ),
                    decreases len - j,
                {
                    proof {
                        assert(w > 0) by (nonlinear_arith)
                            requires
                                j < len,
                                len == (w as int) * (h as int),
                                j >= 0,
                        ;
                        lemma_index_recompose(w as int, h as int, j as int);
                    }
                    let x = j % (w as usize);
                    let y = j / (w as usize);
                    let (sx, sy): (u32, u32) = match tr {
                        TileTransformation::FlipX => (w - 1 - (x as u32), y as u32),
                        TileTransformation::FlipY => (x as u32, h - 1 - (y as u32)),
                        TileTransformation::FlipXY => (w - 1 - (x as u32), h - 1 - (y as u32)),
                    };
                    let idx = buf_index(self.size, sx, sy);
                    out.push(self.data[idx]);
                    j = j + 1;
                }
                let r = Tile { data: out, size: self.size };
                proof {
                    assert forall|x: int, y: int|
                        0 <= x < self.spec_size().width && 0 <= y
                            < self.spec_size().height implies #[trigger] r.spec_pixel(x, y)
                        == spec_transformed_pixel(*self, tr, x, y) by {
                        let w = self.spec_size().width as int;
                        let h = self.spec_size().height as int;
                        lemma_index_bounds(w, h, x, y);
                        lemma_index_decompose(w, x, y);
                    }
                }
                r
            },
        }
    }

    /// A new tile of the given extent.  The source tile is placed at
    /// the anchor's offset (centered when no anchor is given); source
    /// pixels outside the destination are clipped, destination pixels
    /// outside the source keep the default zero index.
    pub fn resize(&self, size: Size, maybe_anchor: Option<TileAnchor>) -> (r: Tile)
        requires
            size.area() <= usize::MAX,
        ensures
            r.wf(),
            r.spec_size() == size,
            forall|x: int, y: int|
                0 <= x < size.width && 0 <= y < size.height ==> #[trigger] r.spec_pixel(x, y)
                    == spec_resize_pixel(
                    *self,
                    (match maybe_anchor {
                        Some(a) => a,
                        None => TileAnchor::Center,
                    }).spec_left(self.spec_size(), size),
                    (match maybe_anchor {
                        Some(a) => a,
                        None => TileAnchor::Center,
                    }).spec_top(self.spec_size(), size),
                    x,
                    y,
                ),
    {
        proof {
            use_type_invariant(self);
        }
        let anchor = match maybe_anchor {
            Some(a) => a,
            None => TileAnchor::Center,
        };
        let (left, top) = anchor.to_position(&self.size, &size);
        let w = size.width;
        let h = size.height;
        let self_len = self.data.len();
        let len: usize = ((w as u64) * (h as u64)) as usize;
        let mut out: Vec<u8> = Vec::new();
        let mut j: usize = 0;
        while j < len
            invariant
                self.wf(),
                self.spec_data().len() <= usize::MAX,
                w == size.width,
                h == size.height,
                len == size.area(),
                len <= usize::MAX,
                left == (match maybe_anchor {
                    Some(a) => a,
                    None => TileAnchor::Center,
                }).spec_left(self.spec_size(), size),
                top == (match maybe_anchor {
                    Some(a) => a,
                    None => TileAnchor::Center,
                }).spec_top(self.spec_size(), size),
                j <= len,
                out@.len() == j,
                forall|jj: int|
                    0 <= jj < j ==> #[trigger] out@[jj] == spec_resize_pixel(
                        *self,
                        (match maybe_anchor {
                            Some(a) => a,
                            None => TileAnchor::Center,
                        }).spec_left(self.spec_size(), size),
                        (match maybe_anchor {
                            Some(a) => a,
                            None => TileAnchor::Center,
                        }).spec_top(self.spec_size(), size),
                        jj % (w as int),
                        jj / (w as int),
                    ),
            decreases len - j,
        {
            proof {
                assert(w > 0) by (nonlinear_arith)
                    requires
                        j < len,
                        len == (w as int) * (h as int),
                        j >= 0,
                ;
                lemma_index_recompose(w as int, h as int, j as int);
            }
            let x = j % (w as usize);
            let y = j / (w as usize);
            let sx: i64 = x as i64 - left;
            let sy: i64 = y as i64 - top;
            let value: u8 = if sx >= 0 && sx < self.size.width as i64 && sy >= 0 && sy
                < self.size.height as i64 {
                let idx = buf_index(self.size, sx as u32, sy as u32);
                self.data[idx]
            } else {
                0
            };
            out.push(value);
            j = j + 1;
        }
        let r = Tile { data: out, size };
        proof {
            assert forall|x: int, y: int|
                0 <= x < size.width && 0 <= y < size.height implies #[trigger] r.spec_pixel(x, y)
                == spec_resize_pixel(
                *self,
                (match maybe_anchor {
                    Some(a) => a,
                    None => TileAnchor::Center,
                }).spec_left(self.spec_size(), size),
                (match maybe_anchor {
                    Some(a) => a,
                    None => TileAnchor::Center,
                }).spec_top(self.spec_size(), size),
                x,
                y,
            ) by {
                let w = size.width as int;
                let h = size.height as int;
                lemma_index_bounds(w, h, x, y);
                lemma_index_decompose(w, x, y);
            }
        }
        r
    }
}

/// The row-major buffer index of the in-bounds pixel `(x, y)`.
fn buf_index(size: Size, x: u32, y: u32) -> (i: usize)
    requires
        x < size.width,
        y < size.height,
        size.area() <= usize::MAX,
    ensures
        i == spec_index(size.width as int, x as int, y as int),
        i < size.area(),
{
    proof {
        lemma_index_bounds(size.width as int, size.height as int, x as int, y as int);
    }
    ((y as u64) * (size.width as u64) + (x as u64)) as usize
}

/// A read-only view of a tile as a pixel source: each palette-index
/// byte is looked up in a palette, after the faction remap when a
/// faction is given.
pub struct TileBitmap<'a> {
    pub tile: &'a Tile,
    pub palette: &'a Palette,
    pub faction: Option<Faction>,
}

/// The palette index a tile pixel resolves to once the optional
/// faction remap is applied.
pub open spec fn spec_faction_index(index: int, faction: Option<Faction>) -> int {
    match faction {
        Some(f) => spec_remap_color_index(index, f.spec_ordinal()),
        None => index,
    }
}

impl<'a> TileBitmap<'a> {
    /// Builds the view from its three parts.
    pub fn with_palette(tile: &'a Tile, faction: Option<Faction>, palette: &'a Palette) -> (b:
        TileBitmap<'a>)
        ensures
            b.tile == tile && b.palette == palette && b.faction == faction,
    {
        TileBitmap { tile, palette, faction }
    }
}

impl<'a> Bitmap for TileBitmap<'a> {
    open spec fn spec_width(&self) -> u32 {
        self.tile.spec_size().width
    }

    open spec fn spec_height(&self) -> u32 {
        self.tile.spec_size().height
    }

    fn width(&self) -> u32 {
        self.tile.size().width
    }

    fn height(&self) -> u32 {
        self.tile.size().height
    }
}

impl<'a> BitmapGetPixel for TileBitmap<'a> {
    open spec fn spec_pixel(&self, x: int, y: int) -> Option<Color> {
        if 0 <= x < self.tile.spec_size().width && 0 <= y < self.tile.spec_size().height {
            spec_color_at(
                self.palette@,
                spec_faction_index(self.tile.spec_pixel(x, y) as int, self.faction),
            )
        } else {
            None
        }
    }

    fn get_pixel(&self, p: Point) -> Option<Color> {
        if p.x < 0 || p.y < 0 {
            return None;
        }
        let x = p.x as u32;
        let y = p.y as u32;
        let size = self.tile.size();
        if x >= size.width || y >= size.height {
            return None;
        }
        let mut color_index = self.tile.pixel(x, y) as usize;
        if let Some(faction) = self.faction {
            color_index = remap_color_index(color_index, faction);
        }
        self.palette.color_at(color_index)
    }
}

fn copy_bytes(v: &Vec<u8>) -> (r: Vec<u8>)
    ensures
        r@ =~= v@,
{
    let mut r: Vec<u8> = Vec::new();
    let mut i: usize = 0;
    while i < v.len()
        invariant
            i <= v@.len(),
            r@ =~= v@.subrange(0, i as int),
        decreases v@.len() - i,
    {
        r.push(v[i]);
        i = i + 1;
    }
    r
}

} // verus!
