use dune2_rc::bitmap::{Bitmap, BitmapGetPixel, BitmapPutPixel, bitmap_blit, bitmap_clear,
    bitmap_fill_rect};
use dune2_rc::color::Color;
use dune2_rc::geometry::{Point, Rect, Size};
use dune2_rc::surface::Surface;

fn color(v: u8) -> Color {
    Color::new(v, v, v)
}

fn full_rect<T: Bitmap>(b: &T) -> Rect {
    Rect::from_point_and_size(Point { x: 0, y: 0 }, Size { width: b.width(), height: b.height() })
}

#[test]
fn blit_scales_two_by_two_into_four_by_four() {
    let mut src = Surface::new(Size { width: 2, height: 2 });
    src.put_pixel(Point { x: 0, y: 0 }, Some(color(1)));
    src.put_pixel(Point { x: 1, y: 0 }, Some(color(2)));
    src.put_pixel(Point { x: 0, y: 1 }, Some(color(3)));
    src.put_pixel(Point { x: 1, y: 1 }, Some(color(4)));
    let mut dst = Surface::new(Size { width: 4, height: 4 });
    let src_rect = full_rect(&src);
    let dst_rect = full_rect(&dst);
    bitmap_blit(&src, &src_rect, &mut dst, &dst_rect);
    // each source pixel becomes a 2x2 block
    for y in 0..4i32 {
        for x in 0..4i32 {
            let expected = src.get_pixel(Point { x: x / 2, y: y / 2 }).unwrap();
            assert_eq!(dst.get_pixel(Point { x, y }), Some(expected));
        }
    }
}

#[test]
fn blit_identity_copies_pixels() {
    let mut src = Surface::new(Size { width: 3, height: 1 });
    src.put_pixel(Point { x: 0, y: 0 }, Some(color(5)));
    src.put_pixel(Point { x: 1, y: 0 }, Some(color(6)));
    src.put_pixel(Point { x: 2, y: 0 }, Some(color(7)));
    let mut dst = Surface::new(Size { width: 3, height: 1 });
    let r = full_rect(&src);
    bitmap_blit(&src, &r, &mut dst, &r.clone());
    for x in 0..3i32 {
        assert_eq!(dst.get_pixel(Point { x, y: 0 }), src.get_pixel(Point { x, y: 0 }));
    }
}

#[test]
fn blit_clips_destination_rect() {
    let src = Surface::with_background(Size { width: 2, height: 2 }, color(9));
    let mut dst = Surface::new(Size { width: 4, height: 4 });
    let src_rect = full_rect(&src);
    // destination rect hangs off the bitmap; only the overlap is written
    let dst_rect = Rect::from_point_and_size(Point { x: 2, y: 2 }, Size { width: 4, height: 4 });
    bitmap_blit(&src, &src_rect, &mut dst, &dst_rect);
    assert_eq!(dst.get_pixel(Point { x: 1, y: 1 }), Some(color(0)));
    assert_eq!(dst.get_pixel(Point { x: 2, y: 2 }), Some(color(9)));
    assert_eq!(dst.get_pixel(Point { x: 3, y: 3 }), Some(color(9)));
}

#[test]
fn fill_rect_writes_only_the_clipped_rect() {
    let mut s = Surface::new(Size { width: 4, height: 4 });
    let r = Rect::from_point_and_size(Point { x: 2, y: 2 }, Size { width: 5, height: 5 });
    bitmap_fill_rect(&mut s, &r, Some(color(8)));
    assert_eq!(s.get_pixel(Point { x: 1, y: 2 }), Some(color(0)));
    assert_eq!(s.get_pixel(Point { x: 2, y: 2 }), Some(color(8)));
    assert_eq!(s.get_pixel(Point { x: 3, y: 3 }), Some(color(8)));
}

#[test]
fn clear_fills_everything() {
    let mut s = Surface::new(Size { width: 2, height: 3 });
    bitmap_clear(&mut s, Some(color(7)));
    for y in 0..3i32 {
        for x in 0..2i32 {
            assert_eq!(s.get_pixel(Point { x, y }), Some(color(7)));
        }
    }
}

#[test]
fn put_pixel_none_stores_background() {
    let mut s = Surface::with_background(Size { width: 1, height: 1 }, color(3));
    s.put_pixel(Point { x: 0, y: 0 }, Some(color(9)));
    assert_eq!(s.get_pixel(Point { x: 0, y: 0 }), Some(color(9)));
    s.put_pixel(Point { x: 0, y: 0 }, None);
    assert_eq!(s.get_pixel(Point { x: 0, y: 0 }), Some(color(3)));
}

#[test]
fn get_pixel_outside_is_none() {
    let s = Surface::new(Size { width: 2, height: 2 });
    assert_eq!(s.get_pixel(Point { x: -1, y: 0 }), None);
    assert_eq!(s.get_pixel(Point { x: 2, y: 0 }), None);
}

#[test]
fn from_bitmap_scaled_doubles_each_pixel() {
    let mut src = Surface::new(Size { width: 2, height: 1 });
    src.put_pixel(Point { x: 0, y: 0 }, Some(color(1)));
    src.put_pixel(Point { x: 1, y: 0 }, Some(color(2)));
    let scaled = Surface::from_bitmap_scaled(&src, 2);
    assert_eq!(scaled.width(), 4);
    assert_eq!(scaled.height(), 2);
    assert_eq!(scaled.get_pixel(Point { x: 0, y: 0 }), Some(color(1)));
    assert_eq!(scaled.get_pixel(Point { x: 1, y: 1 }), Some(color(1)));
    assert_eq!(scaled.get_pixel(Point { x: 2, y: 0 }), Some(color(2)));
    assert_eq!(scaled.get_pixel(Point { x: 3, y: 1 }), Some(color(2)));
}
