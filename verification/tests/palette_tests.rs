use dune2_rc::color::{Color, Palette, read_palette_from_bytes};
use dune2_rc::error::Error;

#[test]
fn palette_push_and_round_trip() {
    let mut palette = Palette::new();
    let red = Color::new(255, 0, 0);
    let green = Color::new(0, 255, 0);
    let i0 = palette.push(&red);
    let i1 = palette.push(&green);
    assert_eq!(i0, 0);
    assert_eq!(i1, 1);
    assert_eq!(palette.len(), 2);
    // for every pushed color, color_at(color_index(c)) == c
    assert_eq!(palette.color_at(palette.color_index(&red).unwrap()), Some(red));
    assert_eq!(palette.color_at(palette.color_index(&green).unwrap()), Some(green));
}

#[test]
fn palette_round_trip_first_entry() {
    let mut palette = Palette::new();
    let c = Color::new(10, 20, 30);
    let i = palette.push(&c);
    assert_eq!(i, 0);
    assert_eq!(palette.color_at(0), Some(c));
    assert_eq!(palette.color_index(&c), Some(0));
}

#[test]
fn palette_add_deduplicates() {
    let mut palette = Palette::new();
    let c = Color::new(1, 2, 3);
    let first = palette.add(&c);
    let second = palette.add(&c);
    assert_eq!(first, second);
    assert_eq!(palette.len(), 1);
    let other = palette.add(&Color::new(4, 5, 6));
    assert_eq!(other, 1);
    assert_eq!(palette.len(), 2);
}

#[test]
fn palette_missing_color_has_no_index() {
    let mut palette = Palette::new();
    palette.push(&Color::new(1, 1, 1));
    assert_eq!(palette.color_index(&Color::new(9, 9, 9)), None);
}

#[test]
fn palette_color_at_out_of_range_is_none() {
    let palette = Palette::new();
    assert_eq!(palette.color_at(0), None);
    assert_eq!(palette.color_at(17), None);
}

#[test]
fn palette_iter_preserves_order() {
    let mut palette = Palette::new();
    let a = Color::new(1, 0, 0);
    let b = Color::new(0, 1, 0);
    palette.push(&a);
    palette.push(&b);
    assert_eq!(palette.iter(), vec![a, b]);
}

#[test]
fn raw_palette_expands_six_bit_channels() {
    // two entries at six bits per channel, multiplied by four
    let bytes = [63u8, 0, 32, 1, 2, 3];
    let palette = read_palette_from_bytes(&bytes).unwrap();
    assert_eq!(palette.len(), 2);
    assert_eq!(palette.color_at(0), Some(Color::new(252, 0, 128)));
    assert_eq!(palette.color_at(1), Some(Color::new(4, 8, 12)));
}

#[test]
fn raw_palette_rejects_partial_entry() {
    let bytes = [1u8, 2, 3, 4];
    assert_eq!(read_palette_from_bytes(&bytes).unwrap_err(), Error::BadPaletteData);
}

#[test]
fn palette_push_duplicate_lookup_finds_newest() {
    let mut palette = Palette::new();
    let c = Color::new(9, 9, 9);
    palette.push(&c);
    palette.push(&Color::new(1, 1, 1));
    let again = palette.push(&c);
    assert_eq!(again, 2);
    assert_eq!(palette.color_index(&c), Some(2));
    assert_eq!(palette.len(), 3);
}
