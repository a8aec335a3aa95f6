//! Decoders and compositing for the asset formats of a classic
//! real-time-strategy game: indexed-color palettes, chunked tile
//! containers, compressed sprite frames, 2D geometry, bitmap blitting
//! and an indexed BMP serializer.

pub mod bitmap;
pub mod bmp;
pub mod bytes;
pub mod color;
pub mod error;
pub mod faction;
pub mod geometry;
pub mod icn;
pub mod lcw;
pub mod resources;
pub mod rle;
pub mod shp;
pub mod sprite;
pub mod surface;
pub mod tile;
pub mod tilemap;
pub mod tileset;
