use dune2_rc::bitmap::{Bitmap, BitmapGetPixel};
use dune2_rc::color::{Color, Palette};
use dune2_rc::error::Error;
use dune2_rc::faction::Faction;
use dune2_rc::geometry::{Point, Shape, Size};
use dune2_rc::resources::Resources;
use dune2_rc::sprite::{Sprite, SpriteFrame, SpriteFrameTransform};
use dune2_rc::tile::{Tile, TileBitmap};
use dune2_rc::tilemap::Tilemap;
use dune2_rc::tileset::Tileset;

/// A palette where entry i is the color (i, 0, 0).
fn gray_palette() -> Palette {
    let mut p = Palette::new();
    for i in 0..=255u8 {
        p.push(&Color::new(i, 0, 0));
    }
    p
}

fn build_resources(remapable: bool) -> Resources {
    let mut tileset = Tileset::new("terrain", Size { width: 1, height: 1 });
    tileset.add(Tile::new(vec![5], Size { width: 1, height: 1 })).unwrap();
    tileset.add(Tile::new(vec![144], Size { width: 1, height: 1 })).unwrap();
    let tilemap = Tilemap {
        shape: Shape { rows: 1, columns: 2 },
        tiles: vec![0, 1],
        tileset: String::from("terrain"),
        remapable,
    };
    let sprite = Sprite::new(vec![
        SpriteFrame { tilemap: 0, transform: None },
        SpriteFrame { tilemap: 0, transform: Some(SpriteFrameTransform::FlipX) },
    ]);
    Resources {
        palette: gray_palette(),
        tilesets: vec![tileset],
        tilemaps: vec![tilemap],
        sprites: vec![(String::from("unit"), sprite)],
    }
}

#[test]
fn get_tileset_by_id() {
    let r = build_resources(false);
    let ts = r.get_tileset(&String::from("terrain")).unwrap();
    assert_eq!(ts.tile_count(), 2);
    assert_eq!(
        r.get_tileset(&String::from("missing")).unwrap_err(),
        Error::TilesetInvalidId
    );
}

#[test]
fn tile_bitmap_resolves_palette_colors() {
    let r = build_resources(false);
    let b = r.get_tile_bitmap(&String::from("terrain"), 0, None).unwrap();
    assert_eq!(b.width(), 1);
    assert_eq!(b.height(), 1);
    assert_eq!(b.get_pixel(Point { x: 0, y: 0 }), Some(Color::new(5, 0, 0)));
    assert_eq!(b.get_pixel(Point { x: 1, y: 0 }), None);
}

#[test]
fn tile_bitmap_applies_faction_remap() {
    let r = build_resources(false);
    // index 144 with faction ordinal 2 becomes 176
    let b = r.get_tile_bitmap(&String::from("terrain"), 1, Some(Faction::Ordos)).unwrap();
    assert_eq!(b.get_pixel(Point { x: 0, y: 0 }), Some(Color::new(176, 0, 0)));
}

#[test]
fn tile_bitmap_invalid_index() {
    let r = build_resources(false);
    match r.get_tile_bitmap(&String::from("terrain"), 9, None) {
        Err(e) => assert_eq!(e, Error::TilesetInvalidTileIndex(9)),
        Ok(_) => panic!("lookup should fail"),
    }
}

#[test]
fn tilemap_bitmap_composes_cells() {
    let r = build_resources(false);
    let b = r.tilemap_bitmap(0, None).unwrap();
    assert_eq!(b.width(), 2);
    assert_eq!(b.height(), 1);
    assert_eq!(b.get_pixel(Point { x: 0, y: 0 }), Some(Color::new(5, 0, 0)));
    assert_eq!(b.get_pixel(Point { x: 1, y: 0 }), Some(Color::new(144, 0, 0)));
    assert_eq!(b.get_pixel(Point { x: 2, y: 0 }), None);
}

#[test]
fn tilemap_remap_honors_the_remapable_flag() {
    let plain = build_resources(false);
    let b = plain.tilemap_bitmap(0, Some(Faction::Ordos)).unwrap();
    // not remapable: the faction is ignored
    assert_eq!(b.get_pixel(Point { x: 1, y: 0 }), Some(Color::new(144, 0, 0)));

    let remapable = build_resources(true);
    let b = remapable.tilemap_bitmap(0, Some(Faction::Ordos)).unwrap();
    assert_eq!(b.get_pixel(Point { x: 1, y: 0 }), Some(Color::new(176, 0, 0)));
}

#[test]
fn tilemap_invalid_index() {
    let r = build_resources(false);
    match r.tilemap_bitmap(3, None) {
        Err(e) => assert_eq!(e, Error::TilemapInvalidIndex(3)),
        Ok(_) => panic!("lookup should fail"),
    }
}

#[test]
fn sprite_frame_flip_reflects_coordinates() {
    let r = build_resources(false);
    let plain = r.sprite_frame_bitmap(&String::from("unit"), 0, None).unwrap();
    let flipped = r.sprite_frame_bitmap(&String::from("unit"), 1, None).unwrap();
    assert_eq!(plain.width(), 2);
    assert_eq!(
        flipped.get_pixel(Point { x: 0, y: 0 }),
        plain.get_pixel(Point { x: 1, y: 0 })
    );
    assert_eq!(
        flipped.get_pixel(Point { x: 1, y: 0 }),
        plain.get_pixel(Point { x: 0, y: 0 })
    );
}

#[test]
fn sprite_lookup_errors() {
    let r = build_resources(false);
    match r.sprite_frame_bitmap(&String::from("nobody"), 0, None) {
        Err(e) => assert_eq!(e, Error::SpriteInvalidId),
        Ok(_) => panic!("lookup should fail"),
    }
    match r.sprite_frame_bitmap(&String::from("unit"), 7, None) {
        Err(e) => assert_eq!(e, Error::SpriteInvalidFrameIndex(7)),
        Ok(_) => panic!("lookup should fail"),
    }
    let sprite = r.get_sprite(&String::from("unit")).unwrap();
    assert_eq!(sprite.frame_count(), 2);
}

#[test]
fn tile_bitmap_with_palette_directly() {
    let palette = gray_palette();
    let tile = Tile::new(vec![3, 4, 5, 6], Size { width: 2, height: 2 });
    let b = TileBitmap::with_palette(&tile, None, &palette);
    assert_eq!(b.get_pixel(Point { x: 1, y: 1 }), Some(Color::new(6, 0, 0)));
}

#[test]
fn tilemap_shape_mismatch_fails() {
    let mut r = build_resources(false);
    r.tilemaps[0].tiles.pop();
    match r.tilemap_bitmap(0, None) {
        Err(e) => assert_eq!(e, Error::TilemapShapeMismatch),
        Ok(_) => panic!("composition should fail"),
    }
}
