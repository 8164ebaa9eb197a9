use tilesim::collision::tile_displacement;
use tilesim::geom::{Rect, Vec2};
use tilesim::level::{EntityType, Level, SheetRegion, TileData};

fn tile(solid: bool) -> TileData {
    TileData { solid, sheet_region: SheetRegion { sheet: 0, x: 0, y: 0, depth: 16, w: 18, h: 18 } }
}

/// A 5x5 level, all open except one solid tile at cell (3,2).
fn wall_level() -> Level {
    let mut data: Vec<u8> = vec![0; 25];
    data[2 * 5 + 3] = 1;
    Level::new(
        String::from("wall"),
        5,
        5,
        data,
        vec![tile(false), tile(true)],
        vec![(EntityType::Player, Vec2 { x: 2560, y: 2560 })],
    )
    .unwrap()
}

#[test]
fn no_overlap_no_displacement() {
    let lvl = wall_level();
    let actor = Rect { x: 2048, y: 2304, w: 512, h: 512 };
    assert_eq!(tile_displacement(&lvl, &actor), Vec2 { x: 0, y: 0 });
}

#[test]
fn displacement_pushes_out_along_least_axis() {
    let lvl = wall_level();
    // The solid tile spans x in [3072, 4096). An actor penetrating it by
    // 2 subunits from the left is pushed back exactly 2 on x, 0 on y.
    let actor = Rect { x: 2562, y: 2304, w: 512, h: 512 };
    assert_eq!(tile_displacement(&lvl, &actor), Vec2 { x: -2, y: 0 });
}

#[test]
fn displacement_is_idempotent_once_resolved() {
    let lvl = wall_level();
    let actor = Rect { x: 2562, y: 2304, w: 512, h: 512 };
    let d = tile_displacement(&lvl, &actor);
    let moved = actor.translate(d);
    // After applying the displacement the actor only touches the tile:
    // resolving again changes nothing.
    assert_eq!(tile_displacement(&lvl, &moved), Vec2 { x: 0, y: 0 });
    assert_eq!(moved.overlap(&Rect { x: 3072, y: 2048, w: 1024, h: 1024 }), None);
}

#[test]
fn displacement_direction_follows_centers() {
    let lvl = wall_level();
    // Penetrating from the right: pushed toward positive x.
    let actor = Rect { x: 4094, y: 2304, w: 512, h: 512 };
    assert_eq!(tile_displacement(&lvl, &actor), Vec2 { x: 2, y: 0 });
    // Penetrating from below by less than the x penetration: pushed on y.
    let actor2 = Rect { x: 3328, y: 2048 - 508, w: 512, h: 512 };
    assert_eq!(tile_displacement(&lvl, &actor2), Vec2 { x: 0, y: -4 });
}
