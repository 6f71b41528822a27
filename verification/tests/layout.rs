use bevy::image::TextureAtlasLayout;
use bevy::math::UVec2;
use character_atlas::layout::{AtlasLayout, PixelRect};

fn rect(min_x: u32, min_y: u32, max_x: u32, max_y: u32) -> PixelRect {
    PixelRect { min_x, min_y, max_x, max_y }
}

/// The layout that the contract of `AtlasLayout::from_grid` describes,
/// computed in 64 bits.
fn expected(
    tile: (u32, u32),
    columns: u32,
    rows: u32,
    padding: Option<(u32, u32)>,
    offset: Option<(u32, u32)>,
) -> (u64, u64, Vec<(u64, u64, u64, u64)>) {
    let (tw, th) = (tile.0 as u64, tile.1 as u64);
    let (px, py) = padding.map_or((0, 0), |p| (p.0 as u64, p.1 as u64));
    let (ox, oy) = offset.map_or((0, 0), |o| (o.0 as u64, o.1 as u64));
    let gap_x = if columns >= 2 && rows >= 1 { px } else { 0 };
    let gap_y = if rows >= 2 { py } else { 0 };
    let width = (tw + gap_x) * columns as u64 - gap_x;
    let height = (th + gap_y) * rows as u64 - gap_y;
    let mut tiles = Vec::new();
    for row in 0..rows as u64 {
        for col in 0..columns as u64 {
            let left = (tw + px) * col + ox;
            let top = (th + py) * row + oy;
            tiles.push((left, top, left + tw, top + th));
        }
    }
    (width, height, tiles)
}

fn check_against_contract(
    tile: (u32, u32),
    columns: u32,
    rows: u32,
    padding: Option<(u32, u32)>,
    offset: Option<(u32, u32)>,
) {
    let layout = AtlasLayout::from_grid(tile, columns, rows, padding, offset)
        .expect("the grid fits in 32 bits");
    let (width, height, tiles) = expected(tile, columns, rows, padding, offset);
    assert_eq!(layout.width as u64, width);
    assert_eq!(layout.height as u64, height);
    let got: Vec<(u64, u64, u64, u64)> = layout
        .textures
        .iter()
        .map(|r| (r.min_x as u64, r.min_y as u64, r.max_x as u64, r.max_y as u64))
        .collect();
    assert_eq!(got, tiles);
}

#[test]
fn grid_of_one_row_lists_tiles_from_the_left() {
    let layout = AtlasLayout::from_grid((24, 24), 7, 1, None, Some((3, 4))).unwrap();
    assert_eq!(layout.width, 168);
    assert_eq!(layout.height, 24);
    assert_eq!(
        layout.textures,
        vec![
            rect(3, 4, 27, 28),
            rect(27, 4, 51, 28),
            rect(51, 4, 75, 28),
            rect(75, 4, 99, 28),
            rect(99, 4, 123, 28),
            rect(123, 4, 147, 28),
            rect(147, 4, 171, 28),
        ]
    );
}

#[test]
fn grid_lists_tiles_row_by_row() {
    let layout = AtlasLayout::from_grid((10, 20), 3, 2, None, None).unwrap();
    assert_eq!(layout.width, 30);
    assert_eq!(layout.height, 40);
    assert_eq!(
        layout.textures,
        vec![
            rect(0, 0, 10, 20),
            rect(10, 0, 20, 20),
            rect(20, 0, 30, 20),
            rect(0, 20, 10, 40),
            rect(10, 20, 20, 40),
            rect(20, 20, 30, 40),
        ]
    );
}

#[test]
fn grid_with_padding_leaves_gaps_between_tiles() {
    let layout = AtlasLayout::from_grid((10, 20), 3, 2, Some((1, 2)), Some((5, 7))).unwrap();
    assert_eq!(layout.width, 32);
    assert_eq!(layout.height, 42);
    assert_eq!(
        layout.textures,
        vec![
            rect(5, 7, 15, 27),
            rect(16, 7, 26, 27),
            rect(27, 7, 37, 27),
            rect(5, 29, 15, 49),
            rect(16, 29, 26, 49),
            rect(27, 29, 37, 49),
        ]
    );
}

#[test]
fn grid_of_one_tile_counts_no_padding() {
    let layout = AtlasLayout::from_grid((10, 20), 1, 1, Some((3, 4)), None).unwrap();
    assert_eq!(layout.width, 10);
    assert_eq!(layout.height, 20);
    assert_eq!(layout.textures, vec![rect(0, 0, 10, 20)]);
}

#[test]
fn grid_without_rows_or_columns_has_no_tiles() {
    let no_rows = AtlasLayout::from_grid((10, 20), 3, 0, Some((1, 2)), Some((5, 7))).unwrap();
    assert_eq!(no_rows.width, 30);
    assert_eq!(no_rows.height, 0);
    assert!(no_rows.textures.is_empty());
    let no_columns = AtlasLayout::from_grid((10, 20), 0, 3, Some((1, 2)), Some((5, 7))).unwrap();
    assert_eq!(no_columns.width, 0);
    assert_eq!(no_columns.height, 64);
    assert!(no_columns.textures.is_empty());
}

#[test]
fn grid_matches_its_contract_on_many_shapes() {
    let paddings = [None, Some((0, 0)), Some((1, 2)), Some((7, 0)), Some((0, 9))];
    let offsets = [None, Some((0, 0)), Some((3, 4)), Some((100, 1))];
    for columns in 0..5 {
        for rows in 0..5 {
            for padding in paddings {
                for offset in offsets {
                    check_against_contract((24, 24), columns, rows, padding, offset);
                    check_against_contract((1, 5), columns, rows, padding, offset);
                    check_against_contract((0, 3), columns, rows, padding, offset);
                }
            }
        }
    }
}

#[test]
fn grid_is_what_the_engine_lays_out() {
    let made = AtlasLayout::from_grid((16, 8), 4, 3, Some((2, 1)), Some((5, 6))).unwrap();
    let engine = TextureAtlasLayout::from_grid(
        UVec2::new(16, 8),
        4,
        3,
        Some(UVec2::new(2, 1)),
        Some(UVec2::new(5, 6)),
    );
    assert_eq!((made.width, made.height), (engine.size.x, engine.size.y));
    assert_eq!(made.textures.len(), engine.textures.len());
    for (mine, theirs) in made.textures.iter().zip(engine.textures.iter()) {
        assert_eq!(
            (mine.min_x, mine.min_y, mine.max_x, mine.max_y),
            (theirs.min.x, theirs.min.y, theirs.max.x, theirs.max.y)
        );
    }
}

#[test]
fn grid_reaches_the_last_coordinate() {
    let layout = AtlasLayout::from_grid((24, 24), 7, 1, None, Some((u32::MAX - 168, u32::MAX - 24)));
    let layout = layout.expect("the last frame ends at the last coordinate");
    assert_eq!(layout.textures[6], rect(u32::MAX - 24, u32::MAX - 24, u32::MAX, u32::MAX));
}

#[test]
fn grid_beyond_32_bits_is_refused() {
    assert_eq!(AtlasLayout::from_grid((24, 24), 7, 1, None, Some((u32::MAX - 167, 0))), None);
    assert_eq!(AtlasLayout::from_grid((24, 24), 7, 1, None, Some((0, u32::MAX - 23))), None);
    assert_eq!(AtlasLayout::from_grid((u32::MAX, 1), 2, 1, None, None), None);
    assert_eq!(AtlasLayout::from_grid((1, u32::MAX), 1, 2, None, None), None);
    assert_eq!(AtlasLayout::from_grid((u32::MAX, 1), 2, 0, None, None), None);
    assert_eq!(AtlasLayout::from_grid((10, 10), 2, 1, Some((u32::MAX - 9, 0)), None), None);
    assert_eq!(AtlasLayout::from_grid((10, 10), 1, 2, Some((0, u32::MAX - 9)), None), None);
}

#[test]
fn padding_that_no_gap_uses_does_not_count() {
    let one_column = AtlasLayout::from_grid((10, 10), 1, 1, Some((u32::MAX, u32::MAX)), None);
    assert_eq!(
        one_column,
        Some(AtlasLayout { width: 10, height: 10, textures: vec![rect(0, 0, 10, 10)] })
    );
}

#[test]
fn a_copy_of_a_layout_equals_it() {
    let layout = AtlasLayout::from_grid((2, 3), 2, 2, Some((1, 1)), Some((4, 4))).unwrap();
    let copy = layout.clone();
    assert_eq!(copy, layout);
    assert_eq!(copy.textures[3], rect(7, 8, 9, 11));
}

#[test]
fn padding_along_a_single_row_or_column_does_not_count() {
    let one_column = AtlasLayout::from_grid((10, 10), 1, 2, Some((u32::MAX, 1)), None).unwrap();
    assert_eq!((one_column.width, one_column.height), (10, 21));
    assert_eq!(one_column.textures, vec![rect(0, 0, 10, 10), rect(0, 11, 10, 21)]);
    let one_row = AtlasLayout::from_grid((10, 10), 2, 1, Some((1, u32::MAX)), None).unwrap();
    assert_eq!((one_row.width, one_row.height), (21, 10));
    assert_eq!(one_row.textures, vec![rect(0, 0, 10, 10), rect(11, 0, 21, 10)]);
}

#[test]
fn tiles_lie_within_the_grid_and_apart_from_each_other() {
    let shapes = [
        ((24, 24), 7, 1, None, Some((170, 2))),
        ((10, 20), 3, 4, Some((1, 2)), Some((5, 7))),
        ((3, 1), 5, 5, Some((0, 4)), None),
        ((8, 8), 1, 6, Some((9, 9)), Some((1, 1))),
    ];
    for (tile, columns, rows, padding, offset) in shapes {
        let layout = AtlasLayout::from_grid(tile, columns, rows, padding, offset).unwrap();
        let (left, top) = offset.unwrap_or((0, 0));
        for (i, a) in layout.textures.iter().enumerate() {
            assert_eq!((a.max_x - a.min_x, a.max_y - a.min_y), tile);
            assert!(left <= a.min_x && a.max_x <= left + layout.width);
            assert!(top <= a.min_y && a.max_y <= top + layout.height);
            for b in layout.textures.iter().skip(i + 1) {
                assert!(
                    a.max_x <= b.min_x
                        || b.max_x <= a.min_x
                        || a.max_y <= b.min_y
                        || b.max_y <= a.min_y
                );
            }
        }
    }
}
