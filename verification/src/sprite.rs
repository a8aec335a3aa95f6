//! Sprites: named sequences of frames, each referencing a tilemap
//! with an optional flip transform applied at pixel-fetch time.

use vstd::prelude::*;

verus! {

use crate::bitmap::{Bitmap, BitmapGetPixel};
use crate::color::Color;
use crate::error::Error;
use crate::geometry::Point;
use crate::tilemap::TilemapBitmap;

/// A coordinate reflection applied when a sprite frame is read.
#[derive(Clone, Copy, Debug, PartialEq, Eq, Structural)]
pub enum SpriteFrameTransform {
    FlipX,
    FlipY,
    FlipXY,
}

/// One frame of a sprite: a tilemap index and an optional flip.
#[derive(Clone, Copy, Debug, PartialEq, Eq, Structural)]
pub struct SpriteFrame {
    pub tilemap: usize,
    pub transform: Option<SpriteFrameTransform>,
}

/// An ordered list of frames.
#[derive(Debug)]
pub struct Sprite {
    frames: Vec<SpriteFrame>,
}

impl Sprite {
    /// The frames in order.
    pub closed spec fn spec_frames(self) -> Seq<SpriteFrame> {
        self.frames@
    }

    /// Builds a sprite from its frames.
    pub fn new(frames: Vec<SpriteFrame>) -> (s: Sprite)
        ensures
            s.spec_frames() == frames@,
    {
        Sprite { frames }
    }

    /// The number of frames.
    pub fn frame_count(&self) -> (n: usize)
        ensures
            n == self.spec_frames().len(),
    {
        self.frames.len()
    }

    /// The frame at an index; an index past the end is rejected.
    pub fn frame(&self, index: usize) -> (res: Result<&SpriteFrame, Error>)
        ensures
            match res {
                Ok(f) => index < self.spec_frames().len() && *f == self.spec_frames()[index as int],
                Err(e) => index >= self.spec_frames().len() && e
                    == Error::SpriteInvalidFrameIndex(index),
            },
    {
        if index < self.frames.len() {
            Ok(&self.frames[index])
        } else {
            Err(Error::SpriteInvalidFrameIndex(index))
        }
    }
}

/// A sprite frame viewed as a bitmap: the composed tilemap with the
/// frame's flip applied as a coordinate reflection, no data copied.
pub struct SpriteFrameBitmap<'a> {
    pub bitmap: TilemapBitmap<'a>,
    pub transformation: Option<SpriteFrameTransform>,
}

impl<'a> Bitmap for SpriteFrameBitmap<'a> {
    open spec fn spec_width(&self) -> u32 {
        self.bitmap.spec_width()
    }

    open spec fn spec_height(&self) -> u32 {
        self.bitmap.spec_height()
    }

    fn width(&self) -> u32 {
        self.bitmap.width()
    }

    fn height(&self) -> u32 {
        self.bitmap.height()
    }
}

impl<'a> BitmapGetPixel for SpriteFrameBitmap<'a> {
    open spec fn spec_pixel(&self, x: int, y: int) -> Option<Color> {
        let w = self.bitmap.spec_width() as int;
        let h = self.bitmap.spec_height() as int;
        if 0 <= x < w && 0 <= y < h {
            match self.transformation {
                None => self.bitmap.spec_pixel(x, y),
                Some(SpriteFrameTransform::FlipX) => self.bitmap.spec_pixel(w - 1 - x, y),
                Some(SpriteFrameTransform::FlipY) => self.bitmap.spec_pixel(x, h - 1 - y),
                Some(SpriteFrameTransform::FlipXY) => self.bitmap.spec_pixel(w - 1 - x, h - 1 - y),
            }
        } else {
            None
        }
    }

    fn get_pixel(&self, p: Point) -> Option<Color> {
        proof {
            use_type_invariant(&self.bitmap);
            crate::tilemap::lemma_tilemap_pixel(self.bitmap, p.x as int, p.y as int);
        }
        let w = self.bitmap.width();
        let h = self.bitmap.height();
        if p.x < 0 || p.y < 0 {
            return None;
        }
        let x = p.x as u32;
        let y = p.y as u32;
        if x >= w || y >= h {
            return None;
        }
        match self.transformation {
            None => self.bitmap.get_pixel(Point { x: p.x, y: p.y }),
            Some(SpriteFrameTransform::FlipX) => self.bitmap.get_pixel(
                Point { x: (w - 1 - x) as i32, y: p.y },
            ),
            Some(SpriteFrameTransform::FlipY) => self.bitmap.get_pixel(
                Point { x: p.x, y: (h - 1 - y) as i32 },
            ),
            Some(SpriteFrameTransform::FlipXY) => self.bitmap.get_pixel(
                Point { x: (w - 1 - x) as i32, y: (h - 1 - y) as i32 },
            ),
        }
    }
}

} // verus!
