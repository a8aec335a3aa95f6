//! The immutable resource bundle: a palette, named tilesets, a
//! tilemap list and named sprites, with the lookups that composition
//! is built on.

use vstd::prelude::*;

verus! {

use crate::color::Palette;
use crate::error::Error;
use crate::faction::Faction;
use crate::sprite::{Sprite, SpriteFrameBitmap};
use crate::tile::{Tile, TileBitmap};
use crate::tilemap::{Tilemap, TilemapBitmap};
use crate::tileset::Tileset;

/// The first position at or after `i` whose tileset carries the id,
/// or `None` when no tileset does.
pub open spec fn spec_tileset_index(ts: Seq<Tileset>, id: Seq<char>, i: int) -> Option<int>
    decreases ts.len() - i,
{
    if i < 0 || i >= ts.len() {
        None
    } else if ts[i].spec_id() == id {
        Some(i)
    } else {
        spec_tileset_index(ts, id, i + 1)
    }
}

/// The first position at or after `i` whose sprite carries the id.
pub open spec fn spec_sprite_index(sp: Seq<(String, Sprite)>, id: Seq<char>, i: int) -> Option<int>
    decreases sp.len() - i,
{
    if i < 0 || i >= sp.len() {
        None
    } else if sp[i].0@ == id {
        Some(i)
    } else {
        spec_sprite_index(sp, id, i + 1)
    }
}

/// A loaded resource bundle.  Constructed once by the build pipeline
/// and read-only afterwards.  Tileset and sprite ids are expected to
/// be unique — the build pipeline rejects duplicates — and every
/// lookup takes the first match.
#[derive(Debug)]
pub struct Resources {
    pub palette: Palette,
    pub tilesets: Vec<Tileset>,
    pub tilemaps: Vec<Tilemap>,
    pub sprites: Vec<(String, Sprite)>,
}

impl Resources {
    /// The palette is well formed and every tileset keeps its size
    /// invariant.
    pub open spec fn wf(self) -> bool {
        &&& self.palette.wf()
        &&& forall|i: int| 0 <= i < self.tilesets@.len() ==> (#[trigger] self.tilesets@[i]).wf()
    }

    /// A shared reference to the palette.
    pub fn palette_ref(&self) -> (p: &Palette)
        ensures
            p == &self.palette,
    {
        &self.palette
    }

    /// Finds the tileset with the given id.  An unknown id is
    /// rejected with the invalid-id error.
    pub fn get_tileset(&self, tileset_id: &String) -> (res: Result<&Tileset, Error>)
        ensures
            match res {
                Ok(t) => spec_tileset_index(self.tilesets@, tileset_id@, 0) matches Some(i) && 0
                    <= i < self.tilesets@.len() && *t == self.tilesets@[i] && t.spec_id()
                    == tileset_id@,
                Err(e) => spec_tileset_index(self.tilesets@, tileset_id@, 0) is None && e
                    == Error::TilesetInvalidId,
            },
    {
        let n = self.tilesets.len();
        let mut i: usize = 0;
        while i < n
            invariant
                n == self.tilesets@.len(),
                i <= n,
                spec_tileset_index(self.tilesets@, tileset_id@, 0) == spec_tileset_index(
                    self.tilesets@,
                    tileset_id@,
                    i as int,
                ),
            decreases n - i,
        {
            if self.tilesets[i].get_id().eq(tileset_id) {
                return Ok(&self.tilesets[i]);
            }
            i = i + 1;
        }
        Err(Error::TilesetInvalidId)
    }

    /// Finds the sprite with the given id.  An unknown id is
    /// rejected.
    pub fn get_sprite(&self, sprite_id: &String) -> (res: Result<&Sprite, Error>)
        ensures
            match res {
                Ok(s) => spec_sprite_index(self.sprites@, sprite_id@, 0) matches Some(i) && 0 <= i
                    < self.sprites@.len() && *s == self.sprites@[i].1,
                Err(e) => spec_sprite_index(self.sprites@, sprite_id@, 0) is None && e
                    == Error::SpriteInvalidId,
            },
    {
        let n = self.sprites.len();
        let mut i: usize = 0;
        while i < n
            invariant
                n == self.sprites@.len(),
                i <= n,
                spec_sprite_index(self.sprites@, sprite_id@, 0) == spec_sprite_index(
                    self.sprites@,
                    sprite_id@,
                    i as int,
                ),
            decreases n - i,
        {
            if self.sprites[i].0.eq(sprite_id) {
                return Ok(&self.sprites[i].1);
            }
            i = i + 1;
        }
        Err(Error::SpriteInvalidId)
    }

    /// A bitmap view of one tile of a named tileset, with the
    /// faction remap applied when a faction is given.
    pub fn get_tile_bitmap(
        &self,
        tileset_id: &String,
        tile_index: usize,
        faction: Option<Faction>,
    ) -> (res: Result<TileBitmap, Error>)
        ensures
            match spec_tileset_index(self.tilesets@, tileset_id@, 0) {
                None => res matches Err(e) && e == Error::TilesetInvalidId,
                Some(i) => {
                    let tileset = self.tilesets@[i];
                    if tile_index >= tileset.spec_tiles().len() {
                        res matches Err(e) && e == Error::TilesetInvalidTileIndex(tile_index)
                    } else {
                        res matches Ok(b) && *b.tile == tileset.spec_tiles()[tile_index as int]
                            && b.palette == &self.palette && b.faction == faction
                    }
                },
            },
    {
        let tileset = match self.get_tileset(tileset_id) {
            Ok(t) => t,
            Err(e) => {
                return Err(e);
            },
        };
        let tile = match tileset.tile_at(tile_index) {
            Ok(t) => t,
            Err(e) => {
                return Err(e);
            },
        };
        Ok(TileBitmap::with_palette(tile, faction, &self.palette))
    }

    /// The composed bitmap view of the tilemap at an index.
    pub fn tilemap_bitmap(&self, tilemap_index: usize, faction: Option<Faction>) -> (res: Result<
        TilemapBitmap,
        Error,
    >)
        requires
            self.wf(),
        ensures
            tilemap_index >= self.tilemaps@.len() ==> res == Err::<TilemapBitmap, Error>(
                Error::TilemapInvalidIndex(tilemap_index),
            ),
            tilemap_index < self.tilemaps@.len() ==> crate::tilemap::spec_compose_outcome(
                *self,
                self.tilemaps@[tilemap_index as int],
                faction,
                res,
            ),
    {
        if tilemap_index >= self.tilemaps.len() {
            return Err(Error::TilemapInvalidIndex(tilemap_index));
        }
        let tm = &self.tilemaps[tilemap_index];
        let res = TilemapBitmap::try_with_resources(tm, faction, self);
        proof {
            assert(*tm == self.tilemaps@[tilemap_index as int]);
        }
        res
    }

    /// The bitmap view of one frame of a named sprite, the frame's
    /// flip transform applied at fetch time.
    pub fn sprite_frame_bitmap(
        &self,
        sprite_id: &String,
        sprite_frame_index: usize,
        faction: Option<Faction>,
    ) -> (res: Result<SpriteFrameBitmap, Error>)
        requires
            self.wf(),
        ensures
            match spec_sprite_index(self.sprites@, sprite_id@, 0) {
                None => res matches Err(e) && e == Error::SpriteInvalidId,
                Some(i) => {
                    let sprite = self.sprites@[i].1;
                    if sprite_frame_index >= sprite.spec_frames().len() {
                        res matches Err(e) && e == Error::SpriteInvalidFrameIndex(
                            sprite_frame_index,
                        )
                    } else {
                        let frame = sprite.spec_frames()[sprite_frame_index as int];
                        if frame.tilemap >= self.tilemaps@.len() {
                            res matches Err(e) && e == Error::TilemapInvalidIndex(frame.tilemap)
                        } else {
                            &&& crate::tilemap::spec_compose_outcome(
                                *self,
                                self.tilemaps@[frame.tilemap as int],
                                faction,
                                (match res {
                                    Ok(b) => Ok(b.bitmap),
                                    Err(e) => Err(e),
                                }),
                            )
                            &&& res matches Ok(b) ==> b.transformation == frame.transform
                        }
                    }
                },
            },
    {
        let sprite = match self.get_sprite(sprite_id) {
            Ok(s) => s,
            Err(e) => {
                return Err(e);
            },
        };
        let frame = match sprite.frame(sprite_frame_index) {
            Ok(f) => f,
            Err(e) => {
                return Err(e);
            },
        };
        let transformation = frame.transform;
        let tilemap_index = frame.tilemap;
        let bitmap = match self.tilemap_bitmap(tilemap_index, faction) {
            Ok(b) => b,
            Err(e) => {
                return Err(e);
            },
        };
        Ok(SpriteFrameBitmap { bitmap, transformation })
    }
}

} // verus!
