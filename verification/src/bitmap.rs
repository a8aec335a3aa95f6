//! The pixel-source / pixel-sink capability pair and the rectangle
//! operations built on them: fill, clear and the scaling blit.

use vstd::prelude::*;

verus! {

use crate::color::Color;
use crate::geometry::{Point, Rect, Size};

/// Anything with a pixel extent.
pub trait Bitmap: Sized {
    /// The width in pixels.
    spec fn spec_width(&self) -> u32;

    /// The height in pixels.
    spec fn spec_height(&self) -> u32;

    /// The width in pixels.
    fn width(&self) -> (w: u32)
        ensures
            w == self.spec_width(),
    ;

    /// The height in pixels.
    fn height(&self) -> (h: u32)
        ensures
            h == self.spec_height(),
    ;
}

/// A pixel source: something whose pixels can be read.
pub trait BitmapGetPixel: Bitmap {
    /// The color read at `(x, y)`: `None` outside the extent, and
    /// also where the source itself has no color for the position.
    spec fn spec_pixel(&self, x: int, y: int) -> Option<Color>;

    /// Reads the pixel at a point.
    fn get_pixel(&self, p: Point) -> (c: Option<Color>)
        ensures
            c == self.spec_pixel(p.x as int, p.y as int),
    ;
}

/// A pixel sink: something whose pixels can be written.  Writing
/// `None` stores the sink's own substitute color (its background).
pub trait BitmapPutPixel: Bitmap {
    /// The color currently stored at `(x, y)`.
    spec fn spec_at(&self, x: int, y: int) -> Color;

    /// The color the sink stores when asked to write `color`.
    spec fn spec_stored(&self, color: Option<Color>) -> Color;

    /// Writes one pixel.  A point outside the extent changes
    /// nothing.
    fn put_pixel(&mut self, p: Point, color: Option<Color>)
        ensures
            final(self).spec_width() == old(self).spec_width(),
            final(self).spec_height() == old(self).spec_height(),
            forall|c: Option<Color>| #[trigger]
                final(self).spec_stored(c) == old(self).spec_stored(c),
            forall|x: int, y: int| #[trigger]
                final(self).spec_at(x, y) == (if x == p.x && y == p.y && 0 <= x < old(
                    self,
                ).spec_width() && 0 <= y < old(self).spec_height() {
                    old(self).spec_stored(color)
                } else {
                    old(self).spec_at(x, y)
                }),
    ;
}

/// How a blit reconciles source and destination extents.  Kept for
/// API compatibility; the blit of this crate always stretches.
#[derive(Clone, Copy, Debug, PartialEq, Eq, Structural)]
pub enum BlitSizePolicy {
    Clip,
    Stretch,
}

/// The rectangle covering the whole extent of a bitmap.
pub open spec fn spec_full_rect(width: u32, height: u32) -> Rect {
    Rect { top_left: Point { x: 0, y: 0 }, size: Size { width, height } }
}

/// Whether an optional rectangle contains the point.
pub open spec fn spec_rect_opt_contains(o: Option<Rect>, x: int, y: int) -> bool {
    match o {
        Some(r) => r.spec_contains(x, y),
        None => false,
    }
}

/// The independent-axis linear map of blit: sends `[dmin, dmax)` onto
/// `[smin, smax)`, truncating to an integer index.
pub open spec fn spec_linmap(dmin: int, dmax: int, smin: int, smax: int, v: int) -> int {
    smin + (v - dmin) * (smax - smin) / (dmax - dmin)
}

/// The source color a blit reads for the destination point `(x, y)`:
/// the pixel under the per-axis linear map from the clipped
/// destination rectangle onto the clipped source rectangle, or `None`
/// when the source rectangle clipped to nothing.
pub open spec fn spec_blit_source<T: BitmapGetPixel>(
    src: &T,
    sr_opt: Option<Rect>,
    dr: Rect,
    x: int,
    y: int,
) -> Option<Color> {
    match sr_opt {
        Some(sr) => src.spec_pixel(
            spec_linmap(dr.spec_left(), dr.spec_right(), sr.spec_left(), sr.spec_right(), x),
            spec_linmap(dr.spec_top(), dr.spec_bottom(), sr.spec_top(), sr.spec_bottom(), y),
        ),
        None => None,
    }
}

/// On an integer-multiple blit the linear map divides evenly: when
/// the destination span is `k` times the source span, destination
/// point `v` reads source point `smin + (v - dmin) / k`, so each
/// source pixel is reproduced as a `k` by `k` block.
pub proof fn lemma_linmap_integer_scale(dmin: int, smin: int, w: int, k: int, v: int)
    requires
        0 < w,
        0 < k,
        dmin <= v,
    ensures
        spec_linmap(dmin, dmin + k * w, smin, smin + w, v) == smin + (v - dmin) / k,
{
    let n = v - dmin;
    let q = n / k;
    let r = n % k;
    vstd::arithmetic::div_mod::lemma_fundamental_div_mod(n, k);
    assert(n * w == q * (k * w) + r * w) by (nonlinear_arith)
        requires
            n == k * q + r,
    ;
    assert(0 <= r * w < k * w) by (nonlinear_arith)
        requires
            0 <= r < k,
            0 < w,
    ;
    vstd::arithmetic::div_mod::lemma_fundamental_div_mod_converse(n * w, k * w, q, r * w);
    assert((dmin + k * w) - dmin == k * w);
    assert((smin + w) - smin == w);
}

fn linmap(dmin: i64, dmax: i64, smin: i64, smax: i64, v: i64) -> (r: i64)
    requires
        dmin <= v < dmax,
        smin < smax,
        -0x8000_0000 <= dmin,
        dmax <= 0x8000_0000,
        -0x8000_0000 <= smin,
        smax <= 0x8000_0000,
    ensures
        r == spec_linmap(dmin as int, dmax as int, smin as int, smax as int, v as int),
        smin <= r < smax,
{
    let n: u64 = (v - dmin) as u64;
    let s: u64 = (smax - smin) as u64;
    let d: u64 = (dmax - dmin) as u64;
    proof {
        assert((n as int) * (s as int) < 0x1_0000_0000_0000_0000) by (nonlinear_arith)
            requires
                0 <= n < 0x1_0000_0000,
                0 <= s <= 0x1_0000_0000,
        ;
    }
    let q: u64 = n * s / d;
    proof {
        assert((n as int) * (s as int) / (d as int) < s as int) by (nonlinear_arith)
            requires
                0 <= n < d,
                0 < s,
        ;
    }
    smin + q as i64
}

/// Writes one color to every point of the rectangle, clipped against
/// the bitmap's extent; every other pixel is unchanged.
pub fn bitmap_fill_rect<T: Bitmap + BitmapPutPixel>(
    bitmap: &mut T,
    rect: &Rect,
    color: Option<Color>,
)
    requires
        old(bitmap).spec_width() <= 0x7fff_ffff,
        old(bitmap).spec_height() <= 0x7fff_ffff,
    ensures
        final(bitmap).spec_width() == old(bitmap).spec_width(),
        final(bitmap).spec_height() == old(bitmap).spec_height(),
        forall|c: Option<Color>| #[trigger]
            final(bitmap).spec_stored(c) == old(bitmap).spec_stored(c),
        forall|x: int, y: int| #[trigger]
            final(bitmap).spec_at(x, y) == (if spec_rect_opt_contains(
                rect.spec_intersect(
                    spec_full_rect(old(bitmap).spec_width(), old(bitmap).spec_height()),
                ),
                x,
                y,
            ) {
                old(bitmap).spec_stored(color)
            } else {
                old(bitmap).spec_at(x, y)
            }),
{
    let ghost b0 = *bitmap;
    let w = bitmap.width();
    let h = bitmap.height();
    let full = Rect::from_point_and_size(Point::zero(), Size { width: w, height: h });
    let clipped = rect.intersected(&full);
    match clipped {
        None => {},
        Some(r) => {
            let left = r.left();
            let top = r.top();
            let right = r.right();
            let bottom = r.bottom();
            let mut y: i64 = top as i64;
            while y < bottom
                invariant
                    bitmap.spec_width() == b0.spec_width(),
                    bitmap.spec_height() == b0.spec_height(),
                    forall|c: Option<Color>| #[trigger]
                        bitmap.spec_stored(c) == b0.spec_stored(c),
                    rect.spec_intersect(spec_full_rect(b0.spec_width(), b0.spec_height()))
                        == Some(r),
                    left == r.spec_left() && top == r.spec_top(),
                    right == r.spec_right() && bottom == r.spec_bottom(),
                    0 <= left && 0 <= top,
                    right <= b0.spec_width() <= 0x7fff_ffff,
                    bottom <= b0.spec_height() <= 0x7fff_ffff,
                    top <= y <= bottom,
                    forall|xx: int, yy: int| #[trigger]
                        bitmap.spec_at(xx, yy) == (if r.spec_contains(xx, yy) && yy < y {
                            b0.spec_stored(color)
                        } else {
                            b0.spec_at(xx, yy)
                        }),
                decreases bottom - y,
            {
                let mut x: i64 = left as i64;
                while x < right
                    invariant
                        bitmap.spec_width() == b0.spec_width(),
                        bitmap.spec_height() == b0.spec_height(),
                        forall|c: Option<Color>| #[trigger]
                            bitmap.spec_stored(c) == b0.spec_stored(c),
                        left == r.spec_left() && top == r.spec_top(),
                        right == r.spec_right() && bottom == r.spec_bottom(),
                        0 <= left && 0 <= top,
                        right <= b0.spec_width() <= 0x7fff_ffff,
                        bottom <= b0.spec_height() <= 0x7fff_ffff,
                        top <= y < bottom,
                        left <= x <= right,
                        forall|xx: int, yy: int| #[trigger]
                            bitmap.spec_at(xx, yy) == (if r.spec_contains(xx, yy) && (yy < y || (yy
                                == y && xx < x)) {
                                b0.spec_stored(color)
                            } else {
                                b0.spec_at(xx, yy)
                            }),
                    decreases right - x,
                {
                    bitmap.put_pixel(Point { x: x as i32, y: y as i32 }, color);
                    x = x + 1;
                }
                y = y + 1;
            }
        },
    }
}

/// Fills the whole bitmap with one color.
pub fn bitmap_clear<T: Bitmap + BitmapPutPixel>(bitmap: &mut T, color: Option<Color>)
    requires
        old(bitmap).spec_width() <= 0x7fff_ffff,
        old(bitmap).spec_height() <= 0x7fff_ffff,
    ensures
        final(bitmap).spec_width() == old(bitmap).spec_width(),
        final(bitmap).spec_height() == old(bitmap).spec_height(),
        forall|c: Option<Color>| #[trigger]
            final(bitmap).spec_stored(c) == old(bitmap).spec_stored(c),
        forall|x: int, y: int| #[trigger]
            final(bitmap).spec_at(x, y) == (if 0 <= x < old(bitmap).spec_width() && 0 <= y < old(
                bitmap,
            ).spec_height() {
                old(bitmap).spec_stored(color)
            } else {
                old(bitmap).spec_at(x, y)
            }),
{
    let ghost b0 = *bitmap;
    let w = bitmap.width();
    let h = bitmap.height();
    let full = Rect::from_point_and_size(Point::zero(), Size { width: w, height: h });
    bitmap_fill_rect(bitmap, &full, color);
    proof {
        assert forall|x: int, y: int| #[trigger]
            bitmap.spec_at(x, y) == (if 0 <= x < b0.spec_width() && 0 <= y < b0.spec_height() {
                b0.spec_stored(color)
            } else {
                b0.spec_at(x, y)
            }) by {
            assert(bitmap.spec_at(x, y) == (if spec_rect_opt_contains(
                full.spec_intersect(spec_full_rect(b0.spec_width(), b0.spec_height())),
                x,
                y,
            ) {
                b0.spec_stored(color)
            } else {
                b0.spec_at(x, y)
            }));
        }
    }
}

/// Blits the clipped source rectangle of a pixel source onto the
/// clipped destination rectangle of a pixel sink.  Every destination
/// pixel receives the source pixel under an independent per-axis
/// linear map between the two rectangles, which scales by any factor;
/// pixels outside the destination rectangle are unchanged.  A source
/// rectangle that clips to nothing writes the sink's substitute
/// color.
pub fn bitmap_blit<T: Bitmap + BitmapGetPixel, U: Bitmap + BitmapPutPixel>(
    src_bitmap: &T,
    src_rect: &Rect,
    dst_bitmap: &mut U,
    dst_rect: &Rect,
)
    requires
        src_bitmap.spec_width() <= 0x7fff_ffff,
        src_bitmap.spec_height() <= 0x7fff_ffff,
        old(dst_bitmap).spec_width() <= 0x7fff_ffff,
        old(dst_bitmap).spec_height() <= 0x7fff_ffff,
    ensures
        final(dst_bitmap).spec_width() == old(dst_bitmap).spec_width(),
        final(dst_bitmap).spec_height() == old(dst_bitmap).spec_height(),
        forall|c: Option<Color>| #[trigger]
            final(dst_bitmap).spec_stored(c) == old(dst_bitmap).spec_stored(c),
        match dst_rect.spec_intersect(
            spec_full_rect(old(dst_bitmap).spec_width(), old(dst_bitmap).spec_height()),
        ) {
            Some(dr) => forall|x: int, y: int| #[trigger]
                final(dst_bitmap).spec_at(x, y) == (if dr.spec_contains(x, y) {
                    old(dst_bitmap).spec_stored(
                        spec_blit_source(
                            src_bitmap,
                            src_rect.spec_intersect(
                                spec_full_rect(src_bitmap.spec_width(), src_bitmap.spec_height()),
                            ),
                            dr,
                            x,
                            y,
                        ),
                    )
                } else {
                    old(dst_bitmap).spec_at(x, y)
                }),
            None => forall|x: int, y: int| #[trigger]
                final(dst_bitmap).spec_at(x, y) == old(dst_bitmap).spec_at(x, y),
        },
{
    let ghost b0 = *dst_bitmap;
    let src_w = src_bitmap.width();
    let src_h = src_bitmap.height();
    let src_full = Rect::from_point_and_size(Point::zero(), Size { width: src_w, height: src_h });
    let sr_clipped = src_rect.intersected(&src_full);
    let dst_w = dst_bitmap.width();
    let dst_h = dst_bitmap.height();
    let dst_full = Rect::from_point_and_size(Point::zero(), Size { width: dst_w, height: dst_h });
    let dr_clipped = dst_rect.intersected(&dst_full);
    match dr_clipped {
        None => {},
        Some(dr) => {
            let left = dr.left();
            let top = dr.top();
            let right = dr.right();
            let bottom = dr.bottom();
            let mut y: i64 = top as i64;
            while y < bottom
                invariant
                    dst_bitmap.spec_width() == b0.spec_width(),
                    dst_bitmap.spec_height() == b0.spec_height(),
                    forall|c: Option<Color>| #[trigger]
                        dst_bitmap.spec_stored(c) == b0.spec_stored(c),
                    src_bitmap.spec_width() <= 0x7fff_ffff,
                    src_bitmap.spec_height() <= 0x7fff_ffff,
                    sr_clipped == src_rect.spec_intersect(
                        spec_full_rect(src_bitmap.spec_width(), src_bitmap.spec_height()),
                    ),
                    dst_rect.spec_intersect(spec_full_rect(b0.spec_width(), b0.spec_height()))
                        == Some(dr),
                    sr_clipped matches Some(sr) ==> 0 <= sr.spec_left() < sr.spec_right()
                        <= src_bitmap.spec_width() && 0 <= sr.spec_top() < sr.spec_bottom()
                        <= src_bitmap.spec_height(),
                    left == dr.spec_left() && top == dr.spec_top(),
                    right == dr.spec_right() && bottom == dr.spec_bottom(),
                    0 <= left && 0 <= top,
                    left < right && top < bottom,
                    right <= b0.spec_width() <= 0x7fff_ffff,
                    bottom <= b0.spec_height() <= 0x7fff_ffff,
                    top <= y <= bottom,
                    forall|xx: int, yy: int| #[trigger]
                        dst_bitmap.spec_at(xx, yy) == (if dr.spec_contains(xx, yy) && yy < y {
                            b0.spec_stored(spec_blit_source(src_bitmap, sr_clipped, dr, xx, yy))
                        } else {
                            b0.spec_at(xx, yy)
                        }),
                decreases bottom - y,
            {
                let mut x: i64 = left as i64;
                while x < right
                    invariant
                        dst_bitmap.spec_width() == b0.spec_width(),
                        dst_bitmap.spec_height() == b0.spec_height(),
                        forall|c: Option<Color>| #[trigger]
                            dst_bitmap.spec_stored(c) == b0.spec_stored(c),
                        src_bitmap.spec_width() <= 0x7fff_ffff,
                        src_bitmap.spec_height() <= 0x7fff_ffff,
                        sr_clipped == src_rect.spec_intersect(
                            spec_full_rect(src_bitmap.spec_width(), src_bitmap.spec_height()),
                        ),
                        sr_clipped matches Some(sr) ==> 0 <= sr.spec_left() < sr.spec_right()
                            <= src_bitmap.spec_width() && 0 <= sr.spec_top() < sr.spec_bottom()
                            <= src_bitmap.spec_height(),
                        left == dr.spec_left() && top == dr.spec_top(),
                        right == dr.spec_right() && bottom == dr.spec_bottom(),
                        0 <= left && 0 <= top,
                        left < right && top < bottom,
                        right <= b0.spec_width() <= 0x7fff_ffff,
                        bottom <= b0.spec_height() <= 0x7fff_ffff,
                        top <= y < bottom,
                        left <= x <= right,
                        forall|xx: int, yy: int| #[trigger]
                            dst_bitmap.spec_at(xx, yy) == (if dr.spec_contains(xx, yy) && (yy < y
                                || (yy == y && xx < x)) {
                                b0.spec_stored(spec_blit_source(src_bitmap, sr_clipped, dr, xx, yy))
                            } else {
                                b0.spec_at(xx, yy)
                            }),
                    decreases right - x,
                {
                    let color: Option<Color> = match &sr_clipped {
                        Some(sr) => {
                            let mx = linmap(
                                left as i64,
                                right,
                                sr.left() as i64,
                                sr.right(),
                                x,
                            );
                            let my = linmap(
                                top as i64,
                                bottom,
                                sr.top() as i64,
                                sr.bottom(),
                                y,
                            );
                            src_bitmap.get_pixel(Point { x: mx as i32, y: my as i32 })
                        },
                        None => None,
                    };
                    dst_bitmap.put_pixel(Point { x: x as i32, y: y as i32 }, color);
                    x = x + 1;
                }
                y = y + 1;
            }
        },
    }
}

} // verus!
