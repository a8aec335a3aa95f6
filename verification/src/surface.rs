//! An owned pixel buffer that is both a pixel source and a pixel
//! sink.

use vstd::prelude::*;

verus! {

use crate::bitmap::{Bitmap, BitmapGetPixel, BitmapPutPixel, bitmap_blit};
use crate::color::Color;
use crate::geometry::{Point, Rect, Size, point_to_index, spec_index, lemma_index_bounds,
    lemma_index_decompose};

/// A flat buffer of colors with an extent and a background color.
/// The background is what a `None` write stores.
pub struct Surface {
    size: Size,
    pixels: Vec<Color>,
    background: Color,
}

impl Surface {
    #[verifier::type_invariant]
    spec fn type_inv(self) -> bool {
        self.pixels@.len() == self.size.area() && self.size.area() <= usize::MAX
    }

    /// The extent of the surface.
    pub closed spec fn spec_size(self) -> Size {
        self.size
    }

    /// The color a `None` write stores.
    pub closed spec fn spec_background(self) -> Color {
        self.background
    }

    /// Builds a surface filled with the given background color.
    pub fn with_background(size: Size, background: Color) -> (s: Surface)
        requires
            size.area() <= usize::MAX,
        ensures
            s.spec_size() == size,
            s.spec_background() == background,
            forall|x: int, y: int| #[trigger] s.spec_at(x, y) == background,
    {
        proof {
            assert(size.width * size.height >= 0) by (nonlinear_arith);
        }
        let count: usize = ((size.width as u64) * (size.height as u64)) as usize;
        let mut pixels: Vec<Color> = Vec::new();
        let mut i: usize = 0;
        while i < count
            invariant
                i <= count,
                pixels@.len() == i,
                forall|j: int| 0 <= j < i ==> pixels@[j] == background,
            decreases count - i,
        {
            pixels.push(background);
            i = i + 1;
        }
        let s = Surface { size, pixels, background };
        proof {
            assert forall|x: int, y: int| #[trigger] s.spec_at(x, y) == background by {
                if 0 <= x < size.width && 0 <= y < size.height {
                    lemma_index_bounds(size.width as int, size.height as int, x, y);
                }
            }
        }
        s
    }

    /// Builds a black surface.
    pub fn new(size: Size) -> (s: Surface)
        requires
            size.area() <= usize::MAX,
        ensures
            s.spec_size() == size,
            s.spec_background() == (Color { red: 0, green: 0, blue: 0 }),
            forall|x: int, y: int| #[trigger]
                s.spec_at(x, y) == (Color { red: 0, green: 0, blue: 0 }),
    {
        Surface::with_background(size, Color { red: 0, green: 0, blue: 0 })
    }

    /// A copy of a pixel source, scaled up by an integer factor:
    /// every source pixel is reproduced as a `scale` by `scale`
    /// block, and positions the source has no color for show black.
    pub fn from_bitmap_scaled<T: Bitmap + BitmapGetPixel>(bitmap: &T, scale: u32) -> (s: Surface)
        requires
            1 <= scale,
            scale * bitmap.spec_width() <= 0x7fff_ffff,
            scale * bitmap.spec_height() <= 0x7fff_ffff,
            (scale * bitmap.spec_width()) * (scale * bitmap.spec_height()) <= usize::MAX,
        ensures
            s.spec_size() == (Size {
                width: (scale * bitmap.spec_width()) as u32,
                height: (scale * bitmap.spec_height()) as u32,
            }),
            s.spec_background() == (Color { red: 0, green: 0, blue: 0 }),
            forall|x: int, y: int|
                0 <= x < scale * bitmap.spec_width() && 0 <= y < scale * bitmap.spec_height()
                    ==> #[trigger] s.spec_at(x, y) == (match bitmap.spec_pixel(
                    x / (scale as int),
                    y / (scale as int),
                ) {
                    Some(c) => c,
                    None => Color { red: 0, green: 0, blue: 0 },
                }),
    {
        proof {
            assert(scale * bitmap.spec_width() >= bitmap.spec_width() && scale
                * bitmap.spec_height() >= bitmap.spec_height()) by (nonlinear_arith)
                requires
                    1 <= scale,
            ;
        }
        let width = scale * bitmap.width();
        let height = scale * bitmap.height();
        let mut surface = Surface::new(Size { width, height });
        let src_rect = Rect::from_point_and_size(
            Point::zero(),
            Size { width: bitmap.width(), height: bitmap.height() },
        );
        let dst_rect = Rect::from_point_and_size(Point::zero(), Size { width, height });
        bitmap_blit(bitmap, &src_rect, &mut surface, &dst_rect);
        proof {
            assert(surface.spec_stored(None) == surface.spec_background());
            let sw = bitmap.spec_width() as int;
            let sh = bitmap.spec_height() as int;
            let k = scale as int;
            assert forall|x: int, y: int|
                0 <= x < k * sw && 0 <= y < k * sh implies #[trigger] surface.spec_at(x, y) == (
            match bitmap.spec_pixel(x / k, y / k) {
                Some(c) => c,
                None => Color { red: 0, green: 0, blue: 0 },
            }) by {
                assert(k * sw == width && k * sh == height);
                assert(sw > 0 && sh > 0) by (nonlinear_arith)
                    requires
                        0 <= x < k * sw,
                        0 <= y < k * sh,
                        sw >= 0,
                        sh >= 0,
                ;
                crate::geometry::lemma_rect_intersection_self(dst_rect);
                crate::geometry::lemma_rect_intersection_self(src_rect);
                crate::bitmap::lemma_linmap_integer_scale(0, 0, sw, k, x);
                crate::bitmap::lemma_linmap_integer_scale(0, 0, sh, k, y);
            }
        }
        surface
    }
}

impl Bitmap for Surface {
    closed spec fn spec_width(&self) -> u32 {
        self.size.width
    }

    closed spec fn spec_height(&self) -> u32 {
        self.size.height
    }

    fn width(&self) -> u32 {
        self.size.width
    }

    fn height(&self) -> u32 {
        self.size.height
    }
}

impl BitmapGetPixel for Surface {
    closed spec fn spec_pixel(&self, x: int, y: int) -> Option<Color> {
        if 0 <= x < self.size.width && 0 <= y < self.size.height {
            Some(self.pixels@[spec_index(self.size.width as int, x, y)])
        } else {
            None
        }
    }

    fn get_pixel(&self, p: Point) -> Option<Color> {
        proof {
            use_type_invariant(self);
        }
        match point_to_index(p, self.size) {
            Some(idx) => {
                proof {
                    lemma_index_bounds(
                        self.size.width as int,
                        self.size.height as int,
                        p.x as int,
                        p.y as int,
                    );
                }
                Some(self.pixels[idx])
            },
            None => None,
        }
    }
}

impl BitmapPutPixel for Surface {
    closed spec fn spec_at(&self, x: int, y: int) -> Color {
        if 0 <= x < self.size.width && 0 <= y < self.size.height {
            self.pixels@[spec_index(self.size.width as int, x, y)]
        } else {
            self.background
        }
    }

    closed spec fn spec_stored(&self, color: Option<Color>) -> Color {
        match color {
            Some(c) => c,
            None => self.background,
        }
    }

    fn put_pixel(&mut self, p: Point, color: Option<Color>) {
        proof {
            use_type_invariant(&*self);
        }
        let value = match color {
            Some(c) => c,
            None => self.background,
        };
        match point_to_index(p, self.size) {
            Some(idx) => {
                proof {
                    lemma_index_bounds(
                        self.size.width as int,
                        self.size.height as int,
                        p.x as int,
                        p.y as int,
                    );
                }
                self.pixels[idx] = value;
                proof {
                    assert forall|x: int, y: int| #[trigger]
                        self.spec_at(x, y) == (if x == p.x && y == p.y && 0 <= x < old(
                            self,
                        ).spec_width() && 0 <= y < old(self).spec_height() {
                            old(self).spec_stored(color)
                        } else {
                            old(self).spec_at(x, y)
                        }) by {
                        if 0 <= x < self.size.width && 0 <= y < self.size.height {
                            lemma_index_bounds(self.size.width as int, self.size.height as int, x, y);
                            lemma_index_decompose(self.size.width as int, x, y);
                            lemma_index_decompose(self.size.width as int, p.x as int, p.y as int);
                        }
                    }
                }
            },
            None => {},
        }
    }
}

/// What a surface stores for an explicit color and for `None`: the
/// color itself, and the background respectively.
pub proof fn lemma_surface_stored(s: Surface, color: Option<Color>)
    ensures
        s.spec_stored(color) == match color {
            Some(c) => c,
            None => s.spec_background(),
        },
{
}

/// Reading a surface pixel inside the extent yields exactly the
/// stored color; outside it yields nothing.
pub proof fn lemma_surface_pixel(s: Surface, x: int, y: int)
    ensures
        s.spec_pixel(x, y) == (if 0 <= x < s.spec_size().width && 0 <= y < s.spec_size().height {
            Some(s.spec_at(x, y))
        } else {
            None
        }),
        s.spec_width() == s.spec_size().width,
        s.spec_height() == s.spec_size().height,
{
}

} // verus!
