//! The error taxonomy shared by every decoder, composition and
//! serialization operation of the crate.

use vstd::prelude::*;

verus! {

use crate::geometry::Size;

/// Everything that can go wrong while decoding, composing or
/// serializing assets.  No operation of this crate panics on
/// malformed input: each failure is reported as one of these.
#[derive(Clone, Copy, Debug, PartialEq, Eq, Structural)]
pub enum Error {
    /// A read ran past the end of the input bytes.
    UnexpectedEndOfInput,
    /// An LCW back-reference addressed bytes outside the output
    /// produced so far.
    LcwOutOfBounds,
    /// A zero byte in zero-run-encoded data had no following count
    /// byte.
    RleMissingCount,
    /// A chunk of the tile container did not carry the expected
    /// four-byte identifier.
    IcnBadChunkId,
    /// A declared chunk size of the tile container was inconsistent
    /// with the sizes computed from the info chunk.
    IcnBadChunkSize,
    /// The tile-data chunk and the row-table chunk of the tile
    /// container declared different tile counts.
    IcnCountMismatch,
    /// A row-table entry selected a local palette row that the
    /// palette chunk does not contain.
    IcnBadPaletteRow,
    /// The frame-offset table of a sprite file was truncated or not
    /// monotonic.
    ShpBadOffsets,
    /// A sprite frame declared a slice count different from its
    /// height.
    ShpSliceMismatch,
    /// A sprite frame declared a total size different from the size
    /// computed from the offset table.
    ShpFrameSizeMismatch,
    /// A decoded sprite pixel index fell outside the frame's remap
    /// table.
    ShpBadRemap,
    /// The decompressed pixel data of a sprite frame did not match
    /// the frame's declared dimensions.
    ShpBadFrameData,
    /// A palette file's byte length was not a multiple of three.
    BadPaletteData,
    /// A tile whose size differs from the tileset's declared tile
    /// size was offered to the tileset.
    TilesetInvalidTileSize(Size),
    /// A tile index ran past the end of a tileset.
    TilesetInvalidTileIndex(usize),
    /// No tileset with the requested id exists in the resources.
    TilesetInvalidId,
    /// A tilemap index ran past the end of the resources.
    TilemapInvalidIndex(usize),
    /// A tilemap's tile-index list does not match its grid shape.
    TilemapShapeMismatch,
    /// A composed tilemap would exceed the supported bitmap extent.
    TilemapTooLarge,
    /// No sprite with the requested id exists in the resources.
    SpriteInvalidId,
    /// A sprite frame index ran past the end of a sprite.
    SpriteInvalidFrameIndex(usize),
    /// A pixel color was not present in the palette given to the BMP
    /// serializer.
    ColorNotInPalette,
    /// The image or palette exceeds what the BMP header's fixed-width
    /// fields can describe.
    BmpTooLarge,
}

} // verus!
