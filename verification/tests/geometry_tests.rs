use dune2_rc::geometry::{Point, Rect, Size, point_to_index};

fn rect(x: i32, y: i32, w: u32, h: u32) -> Rect {
    Rect::from_point_and_size(Point { x, y }, Size { width: w, height: h })
}

#[test]
fn rect_intersection_disjoint_is_none() {
    let a = rect(0, 0, 2, 2);
    let b = rect(5, 5, 2, 2);
    assert_eq!(a.intersected(&b), None);
    assert_eq!(b.intersected(&a), None);
}

#[test]
fn rect_intersection_identical_is_self() {
    let a = rect(3, 4, 7, 9);
    assert_eq!(a.intersected(&a), Some(a));
}

#[test]
fn rect_intersection_is_commutative() {
    let a = rect(0, 0, 10, 10);
    let b = rect(4, -3, 10, 10);
    assert_eq!(a.intersected(&b), b.intersected(&a));
    assert_eq!(a.intersected(&b), Some(rect(4, 0, 6, 7)));
}

#[test]
fn rect_zero_area_overlap_is_none() {
    // rects that only share an edge have zero-area overlap
    let a = rect(0, 0, 2, 2);
    let b = rect(2, 0, 2, 2);
    assert_eq!(a.intersected(&b), None);
}

#[test]
fn rect_edges() {
    let a = rect(-2, 3, 4, 5);
    assert_eq!(a.left(), -2);
    assert_eq!(a.top(), 3);
    assert_eq!(a.right(), 2);
    assert_eq!(a.bottom(), 8);
    assert_eq!(a.width(), 4);
    assert_eq!(a.height(), 5);
}

#[test]
fn rect_from_points_orders_corners() {
    let r = Rect::from_points(Point { x: 5, y: -1 }, Point { x: 1, y: 3 });
    assert_eq!(r.left(), 1);
    assert_eq!(r.top(), -1);
    assert_eq!(r.width(), 4);
    assert_eq!(r.height(), 4);
}

#[test]
fn point_to_index_row_major() {
    let size = Size { width: 4, height: 3 };
    assert_eq!(point_to_index(Point { x: 0, y: 0 }, size), Some(0));
    assert_eq!(point_to_index(Point { x: 3, y: 2 }, size), Some(11));
    assert_eq!(point_to_index(Point { x: 1, y: 1 }, size), Some(5));
    assert_eq!(point_to_index(Point { x: 4, y: 0 }, size), None);
    assert_eq!(point_to_index(Point { x: -1, y: 0 }, size), None);
    assert_eq!(point_to_index(Point { x: 0, y: 3 }, size), None);
}
