//! Geometry primitives: fixed-point vectors, axis-aligned rectangles,
//! discrete facings, and the overlap query that collision resolution and
//! hit detection are built on.

use vstd::prelude::*;

verus! {

use crate::RECT_LIMIT;
use crate::SCALE;
use crate::WORLD_LIMIT;

/// One of the four discrete facings an actor can have.
#[derive(Clone, Copy, Debug, PartialEq, Eq, Structural)]
pub enum Direction {
    North,
    East,
    South,
    West,
}

impl Direction {
    /// The unit step of a facing, in whole world-axis steps
    /// (north is +y, east is +x).
    pub open spec fn spec_unit(self) -> Vec2 {
        match self {
            Direction::North => Vec2 { x: 0, y: 1 },
            Direction::East => Vec2 { x: 1, y: 0 },
            Direction::South => Vec2 { x: 0, y: -1i64 },
            Direction::West => Vec2 { x: -1i64, y: 0 },
        }
    }

    pub fn unit(self) -> (r: Vec2)
        ensures
            r == self.spec_unit(),
    {
        match self {
            Direction::North => Vec2 { x: 0, y: 1 },
            Direction::East => Vec2 { x: 1, y: 0 },
            Direction::South => Vec2 { x: 0, y: -1 },
            Direction::West => Vec2 { x: -1, y: 0 },
        }
    }
}

/// Floor of the square root of a non-negative integer.
pub open spec fn sqrt_floor(n: int) -> int
    recommends
        n >= 0,
    decreases n,
{
    if n < 2 {
        if n < 0 {
            0
        } else {
            n
        }
    } else {
        let r = 2 * sqrt_floor(n / 4);
        if (r + 1) * (r + 1) <= n {
            r + 1
        } else {
            r
        }
    }
}

/// `sqrt_floor(n)` is the largest integer whose square does not exceed `n`.
#[verifier::rlimit(50)]
pub proof fn lemma_sqrt_floor_bounds(n: int)
    requires
        n >= 0,
    ensures
        sqrt_floor(n) >= 0,
        sqrt_floor(n) * sqrt_floor(n) <= n,
        (sqrt_floor(n) + 1) * (sqrt_floor(n) + 1) > n,
        sqrt_floor(n) == 0 ==> n == 0,
    decreases n,
{
    if n < 2 {
    } else {
        lemma_sqrt_floor_bounds(n / 4);
        let s = sqrt_floor(n / 4);
        let r = 2 * s;
        let q = sqrt_floor(n);
        vstd::arithmetic::div_mod::lemma_fundamental_div_mod(n, 4);
        vstd::arithmetic::div_mod::lemma_mod_bound(n, 4);
        assert(s >= 0);
        assert(s * s <= n / 4);
        assert((s + 1) * (s + 1) > n / 4);
        assert(4 * (n / 4) <= n < 4 * (n / 4) + 4);
        assert(r * r <= n) by (nonlinear_arith)
            requires
                r == 2 * s,
                s * s <= n / 4,
                4 * (n / 4) <= n,
        ;
        assert((r + 2) * (r + 2) > n) by (nonlinear_arith)
            requires
                r == 2 * s,
                (s + 1) * (s + 1) > n / 4,
                n < 4 * (n / 4) + 4,
        ;
        if (r + 1) * (r + 1) <= n {
            assert(q == r + 1);
            assert(q * q <= n);
            assert((q + 1) * (q + 1) > n);
            assert(q > 0);
        } else {
            assert(q == r);
            assert(q * q <= n);
            assert((q + 1) * (q + 1) > n);
            if q == 0 {
                assert((0 + 1) * (0 + 1) > n);
                assert(false);
            }
        }
    }
}

/// Integer square root, matching `sqrt_floor`.
pub fn isqrt(n: u64) -> (r: u64)
    requires
        n < 0x4000_0000_0000_0000,
    ensures
        r as int == sqrt_floor(n as int),
    decreases n,
{
    if n < 2 {
        n
    } else {
        let s = isqrt(n / 4);
        proof {
            lemma_sqrt_floor_bounds(n as int / 4);
            assert(s < 0x4000_0000) by (nonlinear_arith)
                requires
                    s as int * s as int <= n as int / 4,
                    n as int / 4 < 0x1000_0000_0000_0000,
            ;
        }
        let r = 2 * s;
        proof {
            assert((r + 1) as int * (r + 1) as int <= 0x4000_0000_0000_0000) by (nonlinear_arith)
                requires
                    r as int + 1 <= 0x8000_0000,
            ;
        }
        if (r + 1) * (r + 1) <= n {
            r + 1
        } else {
            r
        }
    }
}

/// Truncating division (toward zero), for a positive divisor.
pub open spec fn div_trunc(a: int, b: int) -> int
    recommends
        b > 0,
{
    if a >= 0 {
        a / b
    } else {
        -((-a) / b)
    }
}

/// Smaller of two mathematical integers.
pub open spec fn spec_min(a: int, b: int) -> int {
    if a <= b {
        a
    } else {
        b
    }
}

/// Larger of two mathematical integers.
pub open spec fn spec_max(a: int, b: int) -> int {
    if a >= b {
        a
    } else {
        b
    }
}

/// A two-component fixed-point vector (position, velocity or direction).
#[derive(Clone, Copy, Debug, PartialEq, Eq, Structural)]
pub struct Vec2 {
    pub x: i64,
    pub y: i64,
}

impl Vec2 {
    /// Both components within the world bounds, so that sums of a few
    /// vectors never overflow `i64`.
    pub open spec fn wf(self) -> bool {
        -WORLD_LIMIT <= self.x <= WORLD_LIMIT && -WORLD_LIMIT <= self.y <= WORLD_LIMIT
    }

    pub open spec fn spec_zero() -> Vec2 {
        Vec2 { x: 0, y: 0 }
    }

    pub fn zero() -> (r: Vec2)
        ensures
            r == Vec2::spec_zero(),
    {
        Vec2 { x: 0, y: 0 }
    }

    /// Component-wise sum.
    pub fn add(self, other: Vec2) -> (r: Vec2)
        requires
            i64::MIN <= self.x + other.x <= i64::MAX,
            i64::MIN <= self.y + other.y <= i64::MAX,
        ensures
            r.x == self.x + other.x,
            r.y == self.y + other.y,
    {
        Vec2 { x: self.x + other.x, y: self.y + other.y }
    }

    /// Component-wise difference.
    pub fn sub(self, other: Vec2) -> (r: Vec2)
        requires
            i64::MIN <= self.x - other.x <= i64::MAX,
            i64::MIN <= self.y - other.y <= i64::MAX,
        ensures
            r.x == self.x - other.x,
            r.y == self.y - other.y,
    {
        Vec2 { x: self.x - other.x, y: self.y - other.y }
    }

    /// Scaling by an integer factor.
    pub fn scale(self, k: i64) -> (r: Vec2)
        requires
            i64::MIN <= self.x * k <= i64::MAX,
            i64::MIN <= self.y * k <= i64::MAX,
        ensures
            r.x == self.x * k,
            r.y == self.y * k,
    {
        Vec2 { x: self.x * k, y: self.y * k }
    }

    /// Squared euclidean length.
    pub open spec fn spec_magnitude2(self) -> int {
        self.x * self.x + self.y * self.y
    }

    /// What `normalize` returns: the zero vector for a zero input, otherwise
    /// the vector scaled so that its length is close to `SCALE` (a
    /// fixed-point unit vector), components rounded toward zero.
    pub open spec fn spec_normalize(self) -> Vec2 {
        if self.x == 0 && self.y == 0 {
            Vec2 { x: 0, y: 0 }
        } else {
            let len = sqrt_floor(self.spec_magnitude2());
            Vec2 {
                x: div_trunc(self.x * SCALE, len) as i64,
                y: div_trunc(self.y * SCALE, len) as i64,
            }
        }
    }

    /// A fixed-point unit vector in the direction of `self`; the zero
    /// vector is normalized to the zero vector (no failure mode). Accepts
    /// any vector whose components fit the rectangle bounds, such as the
    /// difference of two in-world positions.
    pub fn normalize(self) -> (r: Vec2)
        requires
            -RECT_LIMIT <= self.x <= RECT_LIMIT,
            -RECT_LIMIT <= self.y <= RECT_LIMIT,
        ensures
            r == self.spec_normalize(),
    {
        if self.x == 0 && self.y == 0 {
            return Vec2 { x: 0, y: 0 };
        }
        let xa: u64 = (if self.x >= 0 { self.x } else { -self.x }) as u64;
        let ya: u64 = (if self.y >= 0 { self.y } else { -self.y }) as u64;
        proof {
            assert(xa as int * xa as int == self.x * self.x) by (nonlinear_arith)
                requires
                    xa as int == if self.x >= 0 { self.x as int } else { -(self.x as int) },
            ;
            assert(ya as int * ya as int == self.y * self.y) by (nonlinear_arith)
                requires
                    ya as int == if self.y >= 0 { self.y as int } else { -(self.y as int) },
            ;
            assert(xa as int * xa as int <= 0x1000_0000_0000_0000) by (nonlinear_arith)
                requires
                    0 <= xa as int <= 0x4000_0000,
            ;
            assert(ya as int * ya as int <= 0x1000_0000_0000_0000) by (nonlinear_arith)
                requires
                    0 <= ya as int <= 0x4000_0000,
            ;
            assert(xa >= 1 ==> xa as int * xa as int >= 1) by (nonlinear_arith);
            assert(ya >= 1 ==> ya as int * ya as int >= 1) by (nonlinear_arith);
        }
        let mag2 = xa * xa + ya * ya;
        let len = isqrt(mag2);
        proof {
            lemma_sqrt_floor_bounds(mag2 as int);
            assert(mag2 >= 1);
            assert(len >= 1);
            assert(mag2 as int == self.spec_magnitude2());
        }
        let nx: u64 = xa * (SCALE as u64) / len;
        let ny: u64 = ya * (SCALE as u64) / len;
        proof {
            vstd::arithmetic::div_mod::lemma_div_nonincreasing(
                xa as int * (SCALE as int),
                len as int,
            );
            vstd::arithmetic::div_mod::lemma_div_nonincreasing(
                ya as int * (SCALE as int),
                len as int,
            );
        }
        let rx: i64 = if self.x >= 0 {
            nx as i64
        } else {
            -(nx as i64)
        };
        let ry: i64 = if self.y >= 0 {
            ny as i64
        } else {
            -(ny as i64)
        };
        proof {
            assert(rx as int == div_trunc(self.x * SCALE, len as int));
            assert(ry as int == div_trunc(self.y * SCALE, len as int));
        }
        Vec2 { x: rx, y: ry }
    }
}

/// An axis-aligned rectangle: `(x, y)` is the minimum corner (the position
/// convention used throughout: x grows to the east, y grows to the north),
/// `w` and `h` are the extents. A rectangle with `w == 0` or `h == 0` is
/// empty and participates in no collision.
#[derive(Clone, Copy, Debug, PartialEq, Eq, Structural)]
pub struct Rect {
    pub x: i64,
    pub y: i64,
    pub w: i64,
    pub h: i64,
}

impl Rect {
    /// Non-negative extents, corners within the world bounds.
    pub open spec fn wf(self) -> bool {
        &&& 0 <= self.w
        &&& 0 <= self.h
        &&& -RECT_LIMIT <= self.x <= self.x + self.w <= RECT_LIMIT
        &&& -RECT_LIMIT <= self.y <= self.y + self.h <= RECT_LIMIT
    }

    pub open spec fn spec_is_empty(self) -> bool {
        self.w == 0 || self.h == 0
    }

    /// True iff the rectangle has zero area.
    pub fn is_empty(&self) -> (r: bool)
        ensures
            r == self.spec_is_empty(),
    {
        self.w == 0 || self.h == 0
    }

    /// The empty rectangle at the origin.
    pub open spec fn spec_empty() -> Rect {
        Rect { x: 0, y: 0, w: 0, h: 0 }
    }

    pub fn empty() -> (r: Rect)
        ensures
            r == Rect::spec_empty(),
            r.spec_is_empty(),
    {
        Rect { x: 0, y: 0, w: 0, h: 0 }
    }

    /// Per-axis penetration depth of two overlapping rectangles: how far the
    /// intervals of `a` and `b` intersect on each axis. Meaningful only when
    /// both penetrations are positive.
    pub open spec fn spec_penetration_x(a: Rect, b: Rect) -> int {
        spec_min(a.x + a.w, b.x + b.w) - spec_max(a.x as int, b.x as int)
    }

    pub open spec fn spec_penetration_y(a: Rect, b: Rect) -> int {
        spec_min(a.y + a.h, b.y + b.h) - spec_max(a.y as int, b.y as int)
    }

    /// What `overlap` returns: the per-axis penetration depths when the two
    /// rectangles intersect with positive area on both axes, absent
    /// otherwise. Touching along an edge only is not an overlap (strict
    /// inequality), and an empty rectangle overlaps nothing.
    pub open spec fn spec_overlap(a: Rect, b: Rect) -> Option<Vec2> {
        if !a.spec_is_empty() && !b.spec_is_empty()
            && Rect::spec_penetration_x(a, b) > 0 && Rect::spec_penetration_y(a, b) > 0 {
            Some(Vec2 {
                x: Rect::spec_penetration_x(a, b) as i64,
                y: Rect::spec_penetration_y(a, b) as i64,
            })
        } else {
            None
        }
    }

    /// Overlap query: absent when the rectangles do not strictly intersect
    /// (including when either is empty or they only share a boundary);
    /// otherwise the positive per-axis penetration depths. The caller
    /// decides sign and direction from the relative centers.
    pub fn overlap(&self, other: &Rect) -> (r: Option<Vec2>)
        requires
            self.wf(),
            other.wf(),
        ensures
            r == Rect::spec_overlap(*self, *other),
    {
        if self.is_empty() || other.is_empty() {
            return None;
        }
        let a_right = self.x + self.w;
        let b_right = other.x + other.w;
        let a_top = self.y + self.h;
        let b_top = other.y + other.h;
        let pen_x = (if a_right <= b_right { a_right } else { b_right })
            - (if self.x >= other.x { self.x } else { other.x });
        let pen_y = (if a_top <= b_top { a_top } else { b_top })
            - (if self.y >= other.y { self.y } else { other.y });
        if pen_x > 0 && pen_y > 0 {
            Some(Vec2 { x: pen_x, y: pen_y })
        } else {
            None
        }
    }

    /// The rectangle moved by a displacement vector.
    pub open spec fn spec_translate(self, d: Vec2) -> Rect {
        Rect { x: (self.x + d.x) as i64, y: (self.y + d.y) as i64, w: self.w, h: self.h }
    }

    pub fn translate(&self, d: Vec2) -> (r: Rect)
        requires
            i64::MIN <= self.x + d.x <= i64::MAX,
            i64::MIN <= self.y + d.y <= i64::MAX,
        ensures
            r == self.spec_translate(d),
    {
        Rect { x: self.x + d.x, y: self.y + d.y, w: self.w, h: self.h }
    }

    /// Center coordinates, doubled to stay in integers (the comparison of
    /// two centers is all the collision resolver needs).
    pub open spec fn spec_center2_x(self) -> int {
        2 * self.x + self.w
    }

    pub open spec fn spec_center2_y(self) -> int {
        2 * self.y + self.h
    }
}

/// Overlap is symmetric: both rectangles see the same penetration depths.
pub proof fn lemma_overlap_symmetric(a: Rect, b: Rect)
    ensures
        Rect::spec_overlap(a, b) == Rect::spec_overlap(b, a),
{
}

/// Overlap is absent exactly when one rectangle is empty or the two do not
/// strictly intersect on some axis; sharing only a boundary (zero
/// penetration) is no overlap.
pub proof fn lemma_overlap_characterization(a: Rect, b: Rect)
    ensures
        Rect::spec_overlap(a, b) is Some <==> {
            &&& !a.spec_is_empty()
            &&& !b.spec_is_empty()
            &&& Rect::spec_penetration_x(a, b) > 0
            &&& Rect::spec_penetration_y(a, b) > 0
        },
        a.spec_is_empty() || b.spec_is_empty() ==> Rect::spec_overlap(a, b) is None,
        Rect::spec_penetration_x(a, b) == 0 || Rect::spec_penetration_y(a, b) == 0
            ==> Rect::spec_overlap(a, b) is None,
{
}

} // verus!
