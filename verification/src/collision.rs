//! Collision resolution: the minimum-translation displacement that pushes
//! a moving actor's rectangle out of the solid tiles it penetrates.
//!
//! For each overlapping solid tile the push acts along the axis of least
//! penetration only (ties resolve on the x axis), signed away from the
//! obstacle's center (a center tie pushes in the positive direction).
//! Contributions of several overlapping tiles are summed, not maxed: this
//! can over-correct when a rectangle straddles several tiles at once. That
//! is a deliberate, known approximation for tile-sized actors, preserved
//! as specified, not a defect to be smoothed over.

use vstd::prelude::*;

verus! {

use crate::geom::{Rect, Vec2};
use crate::level::Level;
use crate::SCALE;

/// The displacement contributed by one solid obstacle: along the axis of
/// least penetration, away from the obstacle center; zero without overlap.
pub open spec fn spec_push_out(actor: Rect, obstacle: Rect) -> Vec2 {
    match Rect::spec_overlap(actor, obstacle) {
        Option::None => Vec2::spec_zero(),
        Option::Some(p) => {
            if p.x <= p.y {
                if actor.spec_center2_x() >= obstacle.spec_center2_x() {
                    Vec2 { x: p.x, y: 0 }
                } else {
                    Vec2 { x: (-(p.x as int)) as i64, y: 0 }
                }
            } else {
                if actor.spec_center2_y() >= obstacle.spec_center2_y() {
                    Vec2 { x: 0, y: p.y }
                } else {
                    Vec2 { x: 0, y: (-(p.y as int)) as i64 }
                }
            }
        },
    }
}

/// The summed displacement of the first `n` entries of the tile span that
/// `Level::tiles_within` enumerates for `actor`, counting solid tiles only.
pub open spec fn spec_tile_displacement_upto(level: Level, actor: Rect, n: int) -> Vec2
    decreases n,
{
    if n <= 0 {
        Vec2::spec_zero()
    } else {
        let prev = spec_tile_displacement_upto(level, actor, n - 1);
        let entry = level.spec_span_entry(actor, n - 1);
        let d = if entry.1.solid {
            spec_push_out(actor, entry.0)
        } else {
            Vec2::spec_zero()
        };
        Vec2 { x: (prev.x + d.x) as i64, y: (prev.y + d.y) as i64 }
    }
}

/// The full displacement for `actor` against every solid tile it overlaps.
pub open spec fn spec_tile_displacement(level: Level, actor: Rect) -> Vec2 {
    spec_tile_displacement_upto(
        level,
        actor,
        level.spec_span_nx(actor) * level.spec_span_ny(actor),
    )
}

/// Each single push is bounded by the obstacle's extent.
proof fn lemma_push_out_bounded(actor: Rect, obstacle: Rect)
    requires
        actor.wf(),
        obstacle.wf(),
    ensures
        -obstacle.w <= spec_push_out(actor, obstacle).x <= obstacle.w,
        -obstacle.h <= spec_push_out(actor, obstacle).y <= obstacle.h,
{
}

/// Staggered (non-nested) extents on the x axis: neither rectangle's x
/// interval lies strictly inside the other's.
pub open spec fn spec_staggered_x(a: Rect, b: Rect) -> bool {
    (a.x <= b.x && a.x + a.w <= b.x + b.w) || (b.x <= a.x && b.x + b.w <= a.x + a.w)
}

pub open spec fn spec_staggered_y(a: Rect, b: Rect) -> bool {
    (a.y <= b.y && a.y + a.h <= b.y + b.h) || (b.y <= a.y && b.y + b.h <= a.y + a.h)
}

/// Applying the displacement computed for a single overlapping obstacle
/// removes the penetration: the moved rectangle no longer overlaps the
/// obstacle (they at most touch), only the resolved axis is affected, and
/// resolving a second time therefore changes nothing. This needs the
/// extents on the resolved axis to be staggered: when one rectangle's
/// extent lies strictly inside the other's, a push by the penetration
/// depth cannot clear the obstacle in one step.
pub proof fn lemma_push_out_separates(a: Rect, b: Rect)
    requires
        a.wf(),
        b.wf(),
        Rect::spec_overlap(a, b) is Some,
        Rect::spec_overlap(a, b)->Some_0.x <= Rect::spec_overlap(a, b)->Some_0.y
            ==> spec_staggered_x(a, b),
        Rect::spec_overlap(a, b)->Some_0.x > Rect::spec_overlap(a, b)->Some_0.y
            ==> spec_staggered_y(a, b),
    ensures
        Rect::spec_overlap(a.spec_translate(spec_push_out(a, b)), b) is None,
        spec_push_out(a.spec_translate(spec_push_out(a, b)), b) == Vec2::spec_zero(),
        spec_push_out(a, b).x != 0 ==> spec_push_out(a, b).y == 0,
        spec_push_out(a, b).y != 0 ==> spec_push_out(a, b).x == 0,
{
    let p = Rect::spec_overlap(a, b)->Some_0;
    let d = spec_push_out(a, b);
    let moved = a.spec_translate(d);
    if p.x <= p.y {
        if a.spec_center2_x() >= b.spec_center2_x() {
            assert(b.x <= a.x && b.x + b.w <= a.x + a.w);
            assert(moved.x == b.x + b.w);
            assert(Rect::spec_penetration_x(moved, b) == 0);
        } else {
            assert(a.x <= b.x && a.x + a.w <= b.x + b.w);
            assert(moved.x == b.x - a.w);
            assert(Rect::spec_penetration_x(moved, b) == 0);
        }
    } else {
        if a.spec_center2_y() >= b.spec_center2_y() {
            assert(b.y <= a.y && b.y + b.h <= a.y + a.h);
            assert(moved.y == b.y + b.h);
            assert(Rect::spec_penetration_y(moved, b) == 0);
        } else {
            assert(a.y <= b.y && a.y + a.h <= b.y + b.h);
            assert(moved.y == b.y - a.h);
            assert(Rect::spec_penetration_y(moved, b) == 0);
        }
    }
}

/// When every span entry but the `k`-th contributes nothing, the summed
/// displacement is exactly the `k`-th entry's push.
proof fn lemma_single_push_sum(level: Level, actor: Rect, k: int, n: int)
    requires
        0 <= k,
        actor.wf(),
        level.spec_span_entry(actor, k).0.w == SCALE,
        level.spec_span_entry(actor, k).0.h == SCALE,
        forall|i: int|
            0 <= i < n && i != k ==> (!(#[trigger] level.spec_span_entry(actor, i)).1.solid
                || spec_push_out(actor, level.spec_span_entry(actor, i).0)
                == Vec2::spec_zero()),
    ensures
        spec_tile_displacement_upto(level, actor, n) == if k < n && level.spec_span_entry(
            actor,
            k,
        ).1.solid {
            spec_push_out(actor, level.spec_span_entry(actor, k).0)
        } else {
            Vec2::spec_zero()
        },
    decreases n,
{
    if n > 0 {
        lemma_single_push_sum(level, actor, k, n - 1);
    }
}

/// Displacement removes penetration, at the resolver: when exactly one
/// solid tile of the enumerated span overlaps the actor, the resolver's
/// whole displacement is that tile's push, and — extents on the resolved
/// axis being staggered — applying it leaves no penetration against that
/// tile, with the orthogonal axis unaffected.
pub proof fn lemma_resolver_removes_penetration(level: Level, actor: Rect, k: int)
    requires
        level.wf(),
        actor.wf(),
        0 <= k < level.spec_span_nx(actor) * level.spec_span_ny(actor),
        level.spec_span_entry(actor, k).1.solid,
        forall|i: int|
            0 <= i < level.spec_span_nx(actor) * level.spec_span_ny(actor) && i != k ==> (!(
            #[trigger] level.spec_span_entry(actor, i)).1.solid || Rect::spec_overlap(
                actor,
                level.spec_span_entry(actor, i).0,
            ) is None),
        level.spec_span_entry(actor, k).0.w == SCALE,
        level.spec_span_entry(actor, k).0.h == SCALE,
        level.spec_span_entry(actor, k).0.wf(),
        Rect::spec_overlap(actor, level.spec_span_entry(actor, k).0) is Some,
        ({
            let p = Rect::spec_overlap(actor, level.spec_span_entry(actor, k).0)->Some_0;
            &&& (p.x <= p.y ==> spec_staggered_x(actor, level.spec_span_entry(actor, k).0))
            &&& (p.x > p.y ==> spec_staggered_y(actor, level.spec_span_entry(actor, k).0))
        }),
    ensures
        spec_tile_displacement(level, actor) == spec_push_out(
            actor,
            level.spec_span_entry(actor, k).0,
        ),
        Rect::spec_overlap(
            actor.spec_translate(spec_tile_displacement(level, actor)),
            level.spec_span_entry(actor, k).0,
        ) is None,
        spec_tile_displacement(level, actor).x != 0 ==> spec_tile_displacement(level, actor).y
            == 0,
        spec_tile_displacement(level, actor).y != 0 ==> spec_tile_displacement(level, actor).x
            == 0,
{
    let total = level.spec_span_nx(actor) * level.spec_span_ny(actor);
    let tile = level.spec_span_entry(actor, k).0;
    lemma_single_push_sum(level, actor, k, total);
    lemma_push_out_separates(actor, tile);
}

/// Compute the displacement that, added to the actor's position, removes
/// its penetration against the solid tiles it overlaps (with the known
/// summation approximation across multiple tiles).
pub fn tile_displacement(level: &Level, actor: &Rect) -> (d: Vec2)
    requires
        level.wf(),
        actor.wf(),
    ensures
        d == spec_tile_displacement(*level, *actor),
        -0x8_0000_0000_0000 <= d.x <= 0x8_0000_0000_0000,
        -0x8_0000_0000_0000 <= d.y <= 0x8_0000_0000_0000,
{
    let tiles = level.tiles_within(actor);
    let ghost total = level.spec_span_nx(*actor) * level.spec_span_ny(*actor);
    proof {
        assert(total <= 0x100_0000_0000) by (nonlinear_arith)
            requires
                total == level.spec_span_nx(*actor) * level.spec_span_ny(*actor),
                0 <= level.spec_span_nx(*actor) <= 0x10_0000,
                0 <= level.spec_span_ny(*actor) <= 0x10_0000,
        ;
    }
    let mut dx: i64 = 0;
    let mut dy: i64 = 0;
    let mut k: usize = 0;
    while k < tiles.len()
        invariant
            level.wf(),
            actor.wf(),
            tiles@.len() == total,
            0 <= total <= 0x100_0000_0000,
            forall|i: int| 0 <= i < tiles@.len() ==> #[trigger] tiles@[i] == level.spec_span_entry(
                *actor,
                i,
            ),
            forall|i: int| 0 <= i < tiles@.len() ==> (#[trigger] tiles@[i]).0.wf(),
            k <= tiles@.len(),
            -(k * SCALE) <= dx <= k * SCALE,
            -(k * SCALE) <= dy <= k * SCALE,
            (Vec2 { x: dx, y: dy }) == spec_tile_displacement_upto(*level, *actor, k as int),
        decreases tiles@.len() - k,
    {
        let (tile_rect, tile_data) = tiles[k];
        proof {
            assert(k * SCALE <= total * SCALE && (k + 1) * SCALE <= total * SCALE)
                by (nonlinear_arith)
                requires
                    0 <= k < total <= 0x100_0000_0000,
            ;
        }
        if tile_data.solid {
            match actor.overlap(&tile_rect) {
                Option::Some(p) => {
                    proof {
                        lemma_push_out_bounded(*actor, tile_rect);
                    }
                    if p.x <= p.y {
                        if 2 * actor.x + actor.w >= 2 * tile_rect.x + tile_rect.w {
                            dx = dx + p.x;
                        } else {
                            dx = dx - p.x;
                        }
                    } else {
                        if 2 * actor.y + actor.h >= 2 * tile_rect.y + tile_rect.h {
                            dy = dy + p.y;
                        } else {
                            dy = dy - p.y;
                        }
                    }
                },
                Option::None => {},
            }
        }
        k = k + 1;
        proof {
            assert((k - 1) * SCALE + SCALE == k * SCALE) by (nonlinear_arith);
        }
    }
    proof {
        assert(total * SCALE <= 0x8_0000_0000_0000) by (nonlinear_arith)
            requires
                0 <= total <= 0x100_0000_0000,
        ;
    }
    Vec2 { x: dx, y: dy }
}

} // verus!
