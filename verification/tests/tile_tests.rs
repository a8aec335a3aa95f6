use dune2_rc::error::Error;
use dune2_rc::faction::{Faction, remap_color_index};
use dune2_rc::geometry::Size;
use dune2_rc::tile::{Tile, TileAnchor, TileAnchorPosition, TileTransformation};
use dune2_rc::tileset::Tileset;

fn tile2x2() -> Tile {
    // 1 2
    // 3 4
    Tile::new(vec![1, 2, 3, 4], Size { width: 2, height: 2 })
}

#[test]
fn tile_holds_its_data() {
    let t = tile2x2();
    assert_eq!(t.size(), Size { width: 2, height: 2 });
    assert_eq!(t.data().as_slice(), &[1, 2, 3, 4]);
    assert_eq!(t.pixel(0, 0), 1);
    assert_eq!(t.pixel(1, 1), 4);
}

#[test]
fn tile_transform_flip_x() {
    let t = tile2x2().transform(Some(TileTransformation::FlipX));
    assert_eq!(t.data().as_slice(), &[2, 1, 4, 3]);
}

#[test]
fn tile_transform_flip_y() {
    let t = tile2x2().transform(Some(TileTransformation::FlipY));
    assert_eq!(t.data().as_slice(), &[3, 4, 1, 2]);
}

#[test]
fn tile_transform_flip_xy() {
    let t = tile2x2().transform(Some(TileTransformation::FlipXY));
    assert_eq!(t.data().as_slice(), &[4, 3, 2, 1]);
}

#[test]
fn tile_transform_none_copies() {
    let source = tile2x2();
    let t = source.transform(None);
    assert_eq!(t.data().as_slice(), source.data().as_slice());
}

#[test]
fn tile_resize_centered_pads_with_zero() {
    let t = tile2x2().resize(Size { width: 4, height: 4 }, None);
    assert_eq!(
        t.data().as_slice(),
        &[
            0, 0, 0, 0,
            0, 1, 2, 0,
            0, 3, 4, 0,
            0, 0, 0, 0,
        ]
    );
}

#[test]
fn tile_resize_top_left_anchor() {
    let t = tile2x2().resize(Size { width: 3, height: 3 }, Some(TileAnchor::TopLeft));
    assert_eq!(t.data().as_slice(), &[1, 2, 0, 3, 4, 0, 0, 0, 0]);
}

#[test]
fn tile_resize_bottom_right_anchor() {
    let t = tile2x2().resize(Size { width: 3, height: 3 }, Some(TileAnchor::BottomRight));
    assert_eq!(t.data().as_slice(), &[0, 0, 0, 0, 1, 2, 0, 3, 4]);
}

#[test]
fn tile_resize_explicit_negative_offset_clips_source() {
    let anchor = TileAnchor::Position(TileAnchorPosition { left: -1, top: -1 });
    let t = tile2x2().resize(Size { width: 2, height: 2 }, Some(anchor));
    assert_eq!(t.data().as_slice(), &[4, 0, 0, 0]);
}

#[test]
fn tile_resize_shrinking_center_keeps_middle() {
    let t = Tile::new(
        vec![
            1, 2, 3, 4,
            5, 6, 7, 8,
            9, 10, 11, 12,
            13, 14, 15, 16,
        ],
        Size { width: 4, height: 4 },
    );
    let r = t.resize(Size { width: 2, height: 2 }, None);
    assert_eq!(r.data().as_slice(), &[6, 7, 10, 11]);
}

#[test]
fn tileset_rejects_mismatched_tile_and_stays_unchanged() {
    let mut ts = Tileset::new("terrain", Size { width: 2, height: 2 });
    let wrong = Tile::new(vec![0; 6], Size { width: 3, height: 2 });
    let err = ts.add(wrong).unwrap_err();
    assert_eq!(err, Error::TilesetInvalidTileSize(Size { width: 3, height: 2 }));
    assert_eq!(ts.tile_count(), 0);
    // a matching tile is accepted afterwards
    ts.add(tile2x2()).unwrap();
    assert_eq!(ts.tile_count(), 1);
}

#[test]
fn tileset_tile_lookup() {
    let mut ts = Tileset::new("units", Size { width: 2, height: 2 });
    ts.add(tile2x2()).unwrap();
    assert_eq!(ts.get_id(), "units");
    assert_eq!(ts.tile_size(), Size { width: 2, height: 2 });
    assert!(ts.tile_at(0).is_ok());
    assert_eq!(ts.tile_at(3).unwrap_err(), Error::TilesetInvalidTileIndex(3));
}

#[test]
fn faction_remap_boundaries() {
    // 143 and 151 lie outside the remapped sub-range
    assert_eq!(remap_color_index(143, Faction::Ordos), 143);
    assert_eq!(remap_color_index(151, Faction::Ordos), 151);
    // 144 with faction ordinal 2 moves two 16-entry windows up
    assert_eq!(remap_color_index(144, Faction::Ordos), 176);
    assert_eq!(remap_color_index(150, Faction::Harkonnen), 150);
    assert_eq!(remap_color_index(144, Faction::Mercenary), 144 + 16 * 5);
}

#[test]
fn faction_ordinals() {
    assert_eq!(Faction::Harkonnen.ordinal(), 0);
    assert_eq!(Faction::Atreides.ordinal(), 1);
    assert_eq!(Faction::Ordos.ordinal(), 2);
    assert_eq!(Faction::Fremen.ordinal(), 3);
    assert_eq!(Faction::Sardaukar.ordinal(), 4);
    assert_eq!(Faction::Mercenary.ordinal(), 5);
}
