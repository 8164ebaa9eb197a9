use tilesim::geom::{Rect, Vec2};
use tilesim::level::{EntityType, Level, LevelError, SheetRegion, TileData};

fn region() -> SheetRegion {
    SheetRegion { sheet: 0, x: 0, y: 0, depth: 16, w: 18, h: 18 }
}

fn open_tile() -> TileData {
    TileData { solid: false, sheet_region: region() }
}

fn solid_tile() -> TileData {
    TileData { solid: true, sheet_region: region() }
}

/// A 5x5 level: solid border (tile 1), open interior (tile 0), the
/// player starting at the center cell's center.
fn make_level() -> Level {
    let mut data: Vec<u8> = Vec::new();
    for y in 0..5 {
        for x in 0..5 {
            if x == 0 || x == 4 || y == 0 || y == 4 {
                data.push(1);
            } else {
                data.push(0);
            }
        }
    }
    let starts = vec![
        (EntityType::Player, Vec2 { x: 2560, y: 2560 }),
        (EntityType::Enemy, Vec2 { x: 1536, y: 1536 }),
    ];
    Level::new(
        String::from("arena"),
        5,
        5,
        data,
        vec![open_tile(), solid_tile()],
        starts,
    )
    .unwrap()
}

#[test]
fn get_tile_absent_outside_grid() {
    let lvl = make_level();
    assert!(lvl.get_tile(Vec2 { x: -1, y: 100 }).is_none());
    assert!(lvl.get_tile(Vec2 { x: 100, y: -1 }).is_none());
    assert!(lvl.get_tile(Vec2 { x: 5 * 1024, y: 100 }).is_none());
    assert!(lvl.get_tile(Vec2 { x: 100, y: 5 * 1024 }).is_none());
}

#[test]
fn get_tile_returns_stored_tile_inside() {
    let lvl = make_level();
    // Corner cell (0,0) is solid; the center cell is open. Positions are
    // truncated to their containing cell.
    assert!(lvl.get_tile(Vec2 { x: 0, y: 0 }).unwrap().solid);
    assert!(lvl.get_tile(Vec2 { x: 1023, y: 1023 }).unwrap().solid);
    assert!(!lvl.get_tile(Vec2 { x: 2560, y: 2560 }).unwrap().solid);
    assert!(!lvl.get_tile(Vec2 { x: 1024, y: 1024 }).unwrap().solid);
}

#[test]
fn grid_get_bounds_checked() {
    let lvl = make_level();
    assert_eq!(lvl.grid.get(0, 0), Some(1));
    assert_eq!(lvl.grid.get(2, 2), Some(0));
    assert_eq!(lvl.grid.get(5, 2), None);
    assert_eq!(lvl.grid.get(2, 5), None);
}

#[test]
fn grid_row_extracts_one_row() {
    let lvl = make_level();
    assert_eq!(lvl.grid.row(0), vec![1, 1, 1, 1, 1]);
    assert_eq!(lvl.grid.row(2), vec![1, 0, 0, 0, 1]);
}

#[test]
fn level_dimensions() {
    let lvl = make_level();
    assert_eq!(lvl.grid_width(), 5);
    assert_eq!(lvl.grid_height(), 5);
    assert_eq!(lvl.sprite_count(), 25);
    assert_eq!(lvl.name().as_str(), "arena");
    assert_eq!(lvl.starts().len(), 2);
}

#[test]
fn player_start_found() {
    let lvl = make_level();
    assert_eq!(lvl.player_start(), Some(Vec2 { x: 2560, y: 2560 }));
}

#[test]
fn open_spaces_are_the_interior() {
    let lvl = make_level();
    let opens = lvl.get_open_spaces();
    assert_eq!(opens.len(), 9);
    for &(x, y) in &opens {
        assert!(1 <= x && x <= 3 && 1 <= y && y <= 3);
    }
    // Row-major scan order, bottom row first.
    assert_eq!(opens[0], (1, 1));
    assert_eq!(opens[8], (3, 3));
}

#[test]
fn tiles_within_enumerates_the_cell_range() {
    let lvl = make_level();
    // A rectangle inside cell (2,2) touching no neighbor: one cell.
    let r = Rect { x: 2304, y: 2304, w: 512, h: 512 };
    let tiles = lvl.tiles_within(&r);
    assert_eq!(tiles.len(), 1);
    assert_eq!(tiles[0].0, Rect { x: 2048, y: 2048, w: 1024, h: 1024 });
    assert!(!tiles[0].1.solid);
    // A rectangle straddling cells (1..3, 1..2): 2x1 cells.
    let r2 = Rect { x: 1536, y: 1100, w: 1024, h: 512 };
    let tiles2 = lvl.tiles_within(&r2);
    assert_eq!(tiles2.len(), 2);
    assert_eq!(tiles2[0].0, Rect { x: 1024, y: 1024, w: 1024, h: 1024 });
    assert_eq!(tiles2[1].0, Rect { x: 2048, y: 1024, w: 1024, h: 1024 });
}

#[test]
fn tiles_within_clamps_to_grid() {
    let lvl = make_level();
    // A huge query is clamped to the 5x5 grid.
    let r = Rect { x: -10_000, y: -10_000, w: 100_000, h: 100_000 };
    assert_eq!(lvl.tiles_within(&r).len(), 25);
}

#[test]
fn level_new_rejects_bad_dimensions() {
    let r = Level::new(
        String::from("bad"),
        2,
        2,
        vec![0, 0, 0],
        vec![open_tile()],
        vec![(EntityType::Player, Vec2 { x: 0, y: 0 })],
    );
    assert_eq!(r.err(), Some(LevelError::BadDimensions));
}

#[test]
fn level_new_rejects_empty_tileset() {
    let r = Level::new(
        String::from("bad"),
        1,
        1,
        vec![0],
        vec![],
        vec![(EntityType::Player, Vec2 { x: 0, y: 0 })],
    );
    assert_eq!(r.err(), Some(LevelError::EmptyTileset));
}

#[test]
fn level_new_rejects_bad_tile_index() {
    let r = Level::new(
        String::from("bad"),
        1,
        1,
        vec![7],
        vec![open_tile()],
        vec![(EntityType::Player, Vec2 { x: 0, y: 0 })],
    );
    assert_eq!(r.err(), Some(LevelError::BadTileIndex));
}

#[test]
fn level_new_rejects_missing_player_spawn() {
    let r = Level::new(
        String::from("bad"),
        1,
        1,
        vec![0],
        vec![open_tile()],
        vec![(EntityType::Enemy, Vec2 { x: 0, y: 0 })],
    );
    assert_eq!(r.err(), Some(LevelError::NoPlayerSpawn));
}

#[test]
fn tiles_within_spans_rows_and_columns() {
    let lvl = make_level();
    // A rectangle straddling a 2x2 block of cells, row-major order.
    let r = Rect { x: 1536, y: 1536, w: 1024, h: 1024 };
    let tiles = lvl.tiles_within(&r);
    assert_eq!(tiles.len(), 4);
    assert_eq!(tiles[0].0, Rect { x: 1024, y: 1024, w: 1024, h: 1024 });
    assert_eq!(tiles[1].0, Rect { x: 2048, y: 1024, w: 1024, h: 1024 });
    assert_eq!(tiles[2].0, Rect { x: 1024, y: 2048, w: 1024, h: 1024 });
    assert_eq!(tiles[3].0, Rect { x: 2048, y: 2048, w: 1024, h: 1024 });
}

#[test]
fn tiles_within_empty_off_grid() {
    let lvl = make_level();
    let r = Rect { x: -5000, y: -5000, w: 100, h: 100 };
    assert_eq!(lvl.tiles_within(&r).len(), 0);
}
