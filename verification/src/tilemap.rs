//! Tilemaps: a grid shape over tile indices into a named tileset,
//! and the composed bitmap view over them.

use vstd::prelude::*;

verus! {

use crate::bitmap::{Bitmap, BitmapGetPixel};
use crate::color::{Color, Palette, spec_color_at};
use crate::error::Error;
use crate::faction::Faction;
use crate::geometry::{Point, Shape, Size, spec_index, lemma_index_bounds};
use crate::resources::Resources;
use crate::tile::{Tile, spec_faction_index};

/// A grid of tile indices into a tileset, with the flag that decides
/// whether faction remapping applies when the map is composed.
#[derive(Debug)]
pub struct Tilemap {
    pub shape: Shape,
    pub tiles: Vec<usize>,
    pub tileset: String,
    pub remapable: bool,
}

/// A composed view of a tilemap as one bitmap: pixel `(x, y)` comes
/// from the tile of the grid cell that covers it.
pub struct TilemapBitmap<'a> {
    tiles: Vec<&'a Tile>,
    palette: &'a Palette,
    faction: Option<Faction>,
    shape: Shape,
    tile_size: Size,
}

/// What a successful composition guarantees: the view carries the
/// tilemap's shape, the owning resources' palette, the faction only
/// when the tilemap is remapable, and exactly the tiles its indices
/// name in its tileset.
pub open spec fn spec_composed_ok(
    resources: Resources,
    tm: Tilemap,
    faction: Option<Faction>,
    b: TilemapBitmap,
) -> bool {
    &&& b.spec_shape() == tm.shape
    &&& b.spec_palette() == resources.palette@
    &&& b.spec_faction() == (if tm.remapable {
        faction
    } else {
        None::<Faction>
    })
    &&& crate::resources::spec_tileset_index(resources.tilesets@, tm.tileset@, 0) matches Some(ti)
        && {
        let tileset = resources.tilesets@[ti];
        &&& b.spec_tile_size() == tileset.spec_tile_size()
        &&& b.spec_tiles().len() == tm.tiles@.len()
        &&& forall|i: int|
            0 <= i < tm.tiles@.len() ==> tm.tiles@[i] < tileset.spec_tiles().len()
                && #[trigger] b.spec_tiles()[i] == tileset.spec_tiles()[tm.tiles@[i] as int]
    }
}

/// The first grid position whose tile index runs past the tileset,
/// if any.
pub open spec fn spec_first_bad_tile(tiles: Seq<usize>, limit: int, i: int) -> Option<int>
    decreases tiles.len() - i,
{
    if i < 0 || i >= tiles.len() {
        None
    } else if tiles[i] >= limit {
        Some(i)
    } else {
        spec_first_bad_tile(tiles, limit, i + 1)
    }
}

/// The exact outcome of composing a tilemap: an unknown tileset id,
/// a tile list that does not match the grid shape, an extent beyond
/// the signed-32-bit range, and an out-of-range tile index each map
/// to their own error, checked in that order; otherwise the result
/// is a correctly composed view.
pub open spec fn spec_compose_outcome<'a>(
    resources: Resources,
    tm: Tilemap,
    faction: Option<Faction>,
    res: Result<TilemapBitmap<'a>, Error>,
) -> bool {
    match crate::resources::spec_tileset_index(resources.tilesets@, tm.tileset@, 0) {
        None => res == Err::<TilemapBitmap<'a>, Error>(Error::TilesetInvalidId),
        Some(ti) => {
            let tileset = resources.tilesets@[ti];
            if tm.tiles@.len() != tm.shape.rows * tm.shape.columns {
                res == Err::<TilemapBitmap<'a>, Error>(Error::TilemapShapeMismatch)
            } else if tm.shape.columns * tileset.spec_tile_size().width > 0x7fff_ffff
                || tm.shape.rows * tileset.spec_tile_size().height > 0x7fff_ffff {
                res == Err::<TilemapBitmap<'a>, Error>(Error::TilemapTooLarge)
            } else {
                match spec_first_bad_tile(tm.tiles@, tileset.spec_tiles().len() as int, 0) {
                    Some(j) => res == Err::<TilemapBitmap<'a>, Error>(
                        Error::TilesetInvalidTileIndex(tm.tiles@[j]),
                    ),
                    None => res matches Ok(b) && spec_composed_ok(resources, tm, faction, b),
                }
            }
        },
    }
}

impl<'a> TilemapBitmap<'a> {
    /// The tiles of the grid, row-major.
    pub closed spec fn spec_tiles(self) -> Seq<Tile> {
        Seq::new(self.tiles@.len(), |i: int| *self.tiles@[i])
    }

    /// The palette colors indices resolve against.
    pub closed spec fn spec_palette(self) -> Seq<Color> {
        self.palette@
    }

    /// The faction whose remap applies, if any.
    pub closed spec fn spec_faction(self) -> Option<Faction> {
        self.faction
    }

    /// The grid shape.
    pub closed spec fn spec_shape(self) -> Shape {
        self.shape
    }

    /// The uniform tile extent.
    pub closed spec fn spec_tile_size(self) -> Size {
        self.tile_size
    }

    /// One tile per grid cell, all of the declared tile size, and a
    /// composed extent that stays within signed-32-bit range.
    #[verifier::type_invariant]
    pub open spec fn wf(self) -> bool {
        &&& self.spec_tiles().len() == self.spec_shape().rows * self.spec_shape().columns
        &&& forall|i: int|
            0 <= i < self.spec_tiles().len() ==> (#[trigger] self.spec_tiles()[i]).spec_size()
                == self.spec_tile_size()
        &&& self.spec_shape().columns * self.spec_tile_size().width <= 0x7fff_ffff
        &&& self.spec_shape().rows * self.spec_tile_size().height <= 0x7fff_ffff
    }

    /// Composes a tilemap against the resources that own its tileset.
    /// The faction is honored only when the tilemap is remapable.
    pub fn try_with_resources(
        tilemap: &Tilemap,
        faction: Option<Faction>,
        resources: &'a Resources,
    ) -> (res: Result<TilemapBitmap<'a>, Error>)
        requires
            resources.wf(),
        ensures
            spec_compose_outcome(*resources, *tilemap, faction, res),
    {
        let tileset = match resources.get_tileset(&tilemap.tileset) {
            Ok(t) => t,
            Err(e) => {
                return Err(e);
            },
        };
        let tile_size = tileset.tile_size();
        let shape = tilemap.shape;
        proof {
            assert((shape.rows as int) * (shape.columns as int) < 0x1_0000_0000_0000_0000 && (
            shape.columns as int) * (tile_size.width as int) < 0x1_0000_0000_0000_0000 && (
            shape.rows as int) * (tile_size.height as int) < 0x1_0000_0000_0000_0000)
                by (nonlinear_arith)
                requires
                    0 <= shape.rows < 0x1_0000_0000,
                    0 <= shape.columns < 0x1_0000_0000,
                    0 <= tile_size.width < 0x1_0000_0000,
                    0 <= tile_size.height < 0x1_0000_0000,
            ;
        }
        let cells: u64 = (shape.rows as u64) * (shape.columns as u64);
        if tilemap.tiles.len() as u64 != cells {
            return Err(Error::TilemapShapeMismatch);
        }
        if (shape.columns as u64) * (tile_size.width as u64) > 0x7fff_ffff || (shape.rows as u64)
            * (tile_size.height as u64) > 0x7fff_ffff {
            return Err(Error::TilemapTooLarge);
        }
        let mut tiles: Vec<&'a Tile> = Vec::new();
        let mut i: usize = 0;
        let count = tilemap.tiles.len();
        while i < count
            invariant
                count == tilemap.tiles@.len(),
                i <= count,
                tiles@.len() == i,
                crate::resources::spec_tileset_index(
                    resources.tilesets@,
                    tilemap.tileset@,
                    0,
                ) matches Some(ti) && resources.tilesets@[ti] == *tileset,
                tilemap.tiles@.len() == tilemap.shape.rows * tilemap.shape.columns,
                tilemap.shape.columns * tileset.spec_tile_size().width <= 0x7fff_ffff,
                tilemap.shape.rows * tileset.spec_tile_size().height <= 0x7fff_ffff,
                spec_first_bad_tile(tilemap.tiles@, tileset.spec_tiles().len() as int, 0)
                    == spec_first_bad_tile(tilemap.tiles@, tileset.spec_tiles().len() as int, i as int),
                forall|j: int|
                    0 <= j < i ==> #[trigger] tilemap.tiles@[j] < tileset.spec_tiles().len(),
                forall|j: int|
                    0 <= j < i ==> *(#[trigger] tiles@[j]) == tileset.spec_tiles()[tilemap.tiles@[j] as int],
            decreases count - i,
        {
            let tile = match tileset.tile_at(tilemap.tiles[i]) {
                Ok(t) => t,
                Err(e) => {
                    proof {
                        assert(spec_first_bad_tile(
                            tilemap.tiles@,
                            tileset.spec_tiles().len() as int,
                            i as int,
                        ) == Some(i as int));
                    }
                    return Err(e);
                },
            };
            tiles.push(tile);
            proof {
                assert(*tiles@[i as int] == tileset.spec_tiles()[tilemap.tiles@[i as int] as int]);
            }
            i = i + 1;
        }
        let ghost tilesseq = tiles@;
        proof {
            let ghost ti = crate::resources::spec_tileset_index(
                resources.tilesets@,
                tilemap.tileset@,
                0,
            )->Some_0;
            assert(resources.tilesets@[ti].wf());
        }
        let b = TilemapBitmap { tiles, palette: resources.palette_ref(), faction: if
            tilemap.remapable {
            faction
        } else {
            None
        }, shape, tile_size };
        proof {
            assert forall|j: int| 0 <= j < b.spec_tiles().len() implies (
            #[trigger] b.spec_tiles()[j]).spec_size() == b.spec_tile_size() by {
                assert(*tilesseq[j] == tileset.spec_tiles()[tilemap.tiles@[j] as int]);
            }
        }
        Ok(b)
    }
}

impl<'a> Bitmap for TilemapBitmap<'a> {
    closed spec fn spec_width(&self) -> u32 {
        (self.shape.columns * self.tile_size.width) as u32
    }

    closed spec fn spec_height(&self) -> u32 {
        (self.shape.rows * self.tile_size.height) as u32
    }

    fn width(&self) -> u32 {
        proof {
            use_type_invariant(self);
        }
        self.shape.columns * self.tile_size.width
    }

    fn height(&self) -> u32 {
        proof {
            use_type_invariant(self);
        }
        self.shape.rows * self.tile_size.height
    }
}

/// The color the composed tilemap shows at `(x, y)`: the pixel of
/// the covering grid cell's tile, remapped for the faction and
/// resolved in the palette; `None` outside the composed extent.
pub open spec fn spec_tilemap_pixel(
    tiles: Seq<Tile>,
    palette: Seq<Color>,
    faction: Option<Faction>,
    shape: Shape,
    tile_size: Size,
    x: int,
    y: int,
) -> Option<Color> {
    let tw = tile_size.width as int;
    let th = tile_size.height as int;
    if 0 <= x < shape.columns * tw && 0 <= y < shape.rows * th {
        let col = x / tw;
        let row = y / th;
        let cell = row * shape.columns + col;
        let px = tiles[cell].spec_pixel(x % tw, y % th);
        spec_color_at(palette, spec_faction_index(px as int, faction))
    } else {
        None
    }
}

impl<'a> BitmapGetPixel for TilemapBitmap<'a> {
    closed spec fn spec_pixel(&self, x: int, y: int) -> Option<Color> {
        spec_tilemap_pixel(
            self.spec_tiles(),
            self.palette@,
            self.faction,
            self.shape,
            self.tile_size,
            x,
            y,
        )
    }

    #[verifier::rlimit(60)]
    fn get_pixel(&self, p: Point) -> Option<Color> {
        proof {
            use_type_invariant(self);
        }
        if p.x < 0 || p.y < 0 {
            return None;
        }
        let x = p.x as u32;
        let y = p.y as u32;
        let width = self.shape.columns * self.tile_size.width;
        let height = self.shape.rows * self.tile_size.height;
        if x >= width || y >= height {
            return None;
        }
        proof {
            assert(self.tile_size.width > 0 && self.tile_size.height > 0) by (nonlinear_arith)
                requires
                    x < self.shape.columns * self.tile_size.width,
                    y < self.shape.rows * self.tile_size.height,
                    x >= 0,
                    y >= 0,
            ;
            assert((x as int) / (self.tile_size.width as int) < self.shape.columns && (y as int) / (
            self.tile_size.height as int) < self.shape.rows) by (nonlinear_arith)
                requires
                    0 <= x < self.shape.columns * self.tile_size.width,
                    0 <= y < self.shape.rows * self.tile_size.height,
                    self.tile_size.width > 0,
                    self.tile_size.height > 0,
            ;
        }
        let col = x / self.tile_size.width;
        let row = y / self.tile_size.height;
        let cell_count = self.tiles.len();
        proof {
            lemma_index_bounds(
                self.shape.columns as int,
                self.shape.rows as int,
                col as int,
                row as int,
            );
            assert((self.shape.columns as int) * (self.shape.rows as int) == (self.shape.rows
                as int) * (self.shape.columns as int)) by (nonlinear_arith);
        }
        let cell: usize = ((row as u64) * (self.shape.columns as u64) + (col as u64)) as usize;
        let tile = self.tiles[cell];
        let tx = x % self.tile_size.width;
        let ty = y % self.tile_size.height;
        proof {
            assert(self.spec_tiles()[cell as int] == *tile);
        }
        let mut color_index = tile.pixel(tx, ty) as usize;
        if let Some(faction) = self.faction {
            color_index = crate::faction::remap_color_index(color_index, faction);
        }
        self.palette.color_at(color_index)
    }
}

/// Spells out what the composed view of a tilemap shows at each
/// point.
pub proof fn lemma_tilemap_pixel(b: TilemapBitmap, x: int, y: int)
    requires
        b.wf(),
    ensures
        b.spec_pixel(x, y) == spec_tilemap_pixel(
            b.spec_tiles(),
            b.spec_palette(),
            b.spec_faction(),
            b.spec_shape(),
            b.spec_tile_size(),
            x,
            y,
        ),
        b.spec_width() == b.spec_shape().columns * b.spec_tile_size().width,
        b.spec_height() == b.spec_shape().rows * b.spec_tile_size().height,
{
}

} // verus!
