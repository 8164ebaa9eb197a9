use tilesim::geom::{isqrt, Direction, Rect, Vec2};

#[test]
fn vec2_arithmetic() {
    let a = Vec2 { x: 3, y: -4 };
    let b = Vec2 { x: 10, y: 20 };
    assert_eq!(a.add(b), Vec2 { x: 13, y: 16 });
    assert_eq!(a.sub(b), Vec2 { x: -7, y: -24 });
    assert_eq!(a.scale(-2), Vec2 { x: -6, y: 8 });
    assert_eq!(Vec2::zero(), Vec2 { x: 0, y: 0 });
}

#[test]
fn isqrt_exact_values() {
    assert_eq!(isqrt(0), 0);
    assert_eq!(isqrt(1), 1);
    assert_eq!(isqrt(2), 1);
    assert_eq!(isqrt(3), 1);
    assert_eq!(isqrt(4), 2);
    assert_eq!(isqrt(15), 3);
    assert_eq!(isqrt(16), 4);
    assert_eq!(isqrt(250_000), 500);
    assert_eq!(isqrt(131_072), 362);
}

#[test]
fn normalize_zero_gives_zero() {
    let z = Vec2 { x: 0, y: 0 };
    assert_eq!(z.normalize(), Vec2 { x: 0, y: 0 });
}

#[test]
fn normalize_scales_to_unit_length() {
    // A 3-4-5 triangle scaled by 100: length 500, so the components are
    // 300*1024/500 and 400*1024/500, truncated.
    let v = Vec2 { x: 300, y: 400 };
    assert_eq!(v.normalize(), Vec2 { x: 614, y: 819 });
    let w = Vec2 { x: -256, y: -256 };
    assert_eq!(w.normalize(), Vec2 { x: -724, y: -724 });
    let axis = Vec2 { x: 0, y: 77 };
    assert_eq!(axis.normalize(), Vec2 { x: 0, y: 1024 });
}

#[test]
fn direction_units() {
    assert_eq!(Direction::North.unit(), Vec2 { x: 0, y: 1 });
    assert_eq!(Direction::East.unit(), Vec2 { x: 1, y: 0 });
    assert_eq!(Direction::South.unit(), Vec2 { x: 0, y: -1 });
    assert_eq!(Direction::West.unit(), Vec2 { x: -1, y: 0 });
}

#[test]
fn overlap_reports_penetration_depths() {
    let a = Rect { x: 0, y: 0, w: 100, h: 100 };
    let b = Rect { x: 90, y: 40, w: 100, h: 100 };
    assert_eq!(a.overlap(&b), Some(Vec2 { x: 10, y: 60 }));
}

#[test]
fn overlap_is_symmetric() {
    let a = Rect { x: 0, y: 0, w: 100, h: 100 };
    let b = Rect { x: 90, y: 40, w: 50, h: 300 };
    assert_eq!(a.overlap(&b), b.overlap(&a));
    let c = Rect { x: 500, y: 500, w: 10, h: 10 };
    assert_eq!(a.overlap(&c), c.overlap(&a));
    assert_eq!(a.overlap(&c), None);
}

#[test]
fn overlap_absent_for_empty_rectangles() {
    let a = Rect { x: 0, y: 0, w: 0, h: 100 };
    let b = Rect { x: 0, y: 0, w: 100, h: 100 };
    assert_eq!(a.overlap(&b), None);
    assert_eq!(b.overlap(&a), None);
    let c = Rect { x: 10, y: 10, w: 30, h: 0 };
    assert_eq!(b.overlap(&c), None);
}

#[test]
fn overlap_absent_for_boundary_contact() {
    // Sharing only an edge is no overlap: strict inequality avoids
    // jitter from touching-but-not-penetrating tiles.
    let a = Rect { x: 0, y: 0, w: 100, h: 100 };
    let edge = Rect { x: 100, y: 0, w: 100, h: 100 };
    assert_eq!(a.overlap(&edge), None);
    let corner = Rect { x: 100, y: 100, w: 50, h: 50 };
    assert_eq!(a.overlap(&corner), None);
}

#[test]
fn rect_emptiness() {
    assert!(Rect { x: 5, y: 5, w: 0, h: 9 }.is_empty());
    assert!(Rect { x: 5, y: 5, w: 9, h: 0 }.is_empty());
    assert!(!Rect { x: 5, y: 5, w: 1, h: 1 }.is_empty());
    assert!(Rect::empty().is_empty());
}
