//! Tilesets: an identifier, a uniform tile size, and an ordered list
//! of tiles of exactly that size.

use vstd::prelude::*;

verus! {

use crate::error::Error;
use crate::geometry::Size;
use crate::tile::Tile;

/// A named, ordered collection of tiles that all share one declared
/// tile size.
#[derive(Debug)]
pub struct Tileset {
    id: String,
    tile_size: Size,
    tiles: Vec<Tile>,
}

impl Tileset {
    /// The identifier of the tileset.
    pub closed spec fn spec_id(self) -> Seq<char> {
        self.id@
    }

    /// The declared size every tile must have.
    pub closed spec fn spec_tile_size(self) -> Size {
        self.tile_size
    }

    /// The tiles in insertion order.
    pub closed spec fn spec_tiles(self) -> Seq<Tile> {
        self.tiles@
    }

    /// Every tile is well formed and has exactly the declared size.
    pub open spec fn wf(self) -> bool {
        forall|i: int|
            0 <= i < self.spec_tiles().len() ==> (#[trigger] self.spec_tiles()[i]).wf()
                && self.spec_tiles()[i].spec_size() == self.spec_tile_size()
    }

    /// Builds an empty tileset with the given id and tile size.
    pub fn new(tileset_id: &str, tile_size: Size) -> (t: Tileset)
        ensures
            t.wf(),
            t.spec_id() == tileset_id@,
            t.spec_tile_size() == tile_size,
            t.spec_tiles() =~= Seq::<Tile>::empty(),
    {
        Tileset { id: tileset_id.to_owned(), tile_size, tiles: Vec::new() }
    }

    /// Appends a tile.  A tile whose size differs from the declared
    /// tile size is rejected with the size-mismatch error and leaves
    /// the tileset unchanged.
    pub fn add(&mut self, tile: Tile) -> (res: Result<(), Error>)
        requires
            old(self).wf(),
            tile.wf(),
        ensures
            final(self).wf(),
            final(self).spec_id() == old(self).spec_id(),
            final(self).spec_tile_size() == old(self).spec_tile_size(),
            if tile.spec_size() == old(self).spec_tile_size() {
                res is Ok && final(self).spec_tiles() =~= old(self).spec_tiles().push(tile)
            } else {
                res == Err::<(), Error>(Error::TilesetInvalidTileSize(tile.spec_size()))
                    && final(self).spec_tiles() =~= old(self).spec_tiles()
            },
    {
        let tile_size = tile.size();
        if self.tile_size == tile_size {
            self.tiles.push(tile);
            proof {
                assert forall|i: int| 0 <= i < self.spec_tiles().len() implies (
                #[trigger] self.spec_tiles()[i]).wf() && self.spec_tiles()[i].spec_size()
                    == self.spec_tile_size() by {
                    if i < old(self).spec_tiles().len() {
                        assert(old(self).spec_tiles()[i].wf());
                    }
                }
            }
            Ok(())
        } else {
            Err(Error::TilesetInvalidTileSize(tile_size))
        }
    }

    /// The identifier of the tileset.
    pub fn get_id(&self) -> (id: &String)
        ensures
            id@ == self.spec_id(),
    {
        &self.id
    }

    /// A reference to the tile at an index.  An index past the end is
    /// rejected with the invalid-index error.
    pub fn tile_at(&self, tile_index: usize) -> (res: Result<&Tile, Error>)
        ensures
            match res {
                Ok(t) => tile_index < self.spec_tiles().len() && *t
                    == self.spec_tiles()[tile_index as int],
                Err(e) => tile_index >= self.spec_tiles().len() && e
                    == Error::TilesetInvalidTileIndex(tile_index),
            },
    {
        if tile_index < self.tiles.len() {
            Ok(&self.tiles[tile_index])
        } else {
            Err(Error::TilesetInvalidTileIndex(tile_index))
        }
    }

    /// The declared tile size.
    pub fn tile_size(&self) -> (s: Size)
        ensures
            s == self.spec_tile_size(),
    {
        self.tile_size
    }

    /// The number of tiles.
    pub fn tile_count(&self) -> (n: usize)
        ensures
            n == self.spec_tiles().len(),
    {
        self.tiles.len()
    }
}

} // verus!
