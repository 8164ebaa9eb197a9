//! Entity simulation: the per-tick update of player and enemy state —
//! movement integration, facing, AI, the attack/knockback/health state
//! machine, and contact resolution against tiles and between actors.

use vstd::prelude::*;

verus! {

use crate::collision::{spec_tile_displacement, tile_displacement};
use crate::geom::{div_trunc, sqrt_floor, Direction, Rect, Vec2};
use crate::grid::{Coord, MAX_GRID};
use crate::level::Level;
use crate::rng::{rand_below, rand_bool};
use crate::SCALE;
use crate::WORLD_LIMIT;

/// Player walking speed, subunits per second.
pub const PLAYER_SPEED: i64 = 5 * 1024;

/// Enemy speed, subunits per second.
pub const ENEMY_SPEED: i64 = 2 * 1024;

/// Forced backward speed while knocked back, subunits per second.
pub const KNOCKBACK_SPEED: i64 = 4 * 1024;

/// One-time positional impulse away from the enemy on taking a hit,
/// subunits.
pub const KNOCKBACK_STRENGTH: i64 = 512;

/// Side of the player's square bounding box, subunits.
pub const PLAYER_SIZE: i64 = 512;

/// Side of an enemy's square bounding box, subunits.
pub const ENEMY_SIZE: i64 = 512;

/// Side of the square pickup boxes used for gold, subunits.
pub const GOLD_SIZE: i64 = 256;

/// Side of the attack hitbox, subunits.
pub const ATTACK_SIZE: i64 = 512;

/// How far in front of the player the attack hitbox is centered, subunits.
pub const ATTACK_OFFSET: i64 = 512;

/// Length of the whole attack window, time subunits.
pub const ATTACK_MAX_TIME: i64 = 512;

/// Tail of the attack window with no hitbox but still no movement.
pub const ATTACK_COOLDOWN_TIME: i64 = 256;

/// Length of the knockback window, time subunits.
pub const KNOCKBACK_TIME: i64 = 384;

/// Health a fresh session starts with.
pub const START_HEALTH: u32 = 3;

/// The gold population the session replenishes toward.
pub const GOLD_TARGET: usize = 50;

/// Enemies spawn only this far (in subunits, per axis) from the player.
pub const ENEMY_CLEARANCE: i64 = 15 * 1024;

/// The input the simulation consumes each tick: two movement axes in
/// {-1, 0, 1} and the edge-triggered attack press.
#[derive(Clone, Copy, Debug, PartialEq, Eq, Structural)]
pub struct TickInput {
    pub ax: i64,
    pub ay: i64,
    pub attack: bool,
}

impl TickInput {
    pub open spec fn wf(self) -> bool {
        -1 <= self.ax <= 1 && -1 <= self.ay <= 1
    }
}

/// The player's position record: world position, discrete facing, and
/// liveness.
#[derive(Clone, Copy, Debug, PartialEq, Eq, Structural)]
pub struct Player {
    pub pos: Vec2,
    pub facing: Direction,
    pub alive: bool,
}

/// How an enemy moves.
#[derive(Clone, Copy, Debug, PartialEq, Eq, Structural)]
pub enum MovementPattern {
    /// Patrol-and-bounce along the x axis.
    Horizontal,
    /// Patrol-and-bounce along the y axis.
    Vertical,
    /// Re-aim at the player every tick, per axis.
    Chase,
}

/// An enemy: position, current direction (components in {-1, 0, 1}),
/// movement policy, and liveness.
#[derive(Clone, Copy, Debug, PartialEq, Eq, Structural)]
pub struct Entity {
    pub pos: Vec2,
    pub dir: Vec2,
    pub pattern: MovementPattern,
    pub alive: bool,
}

impl Entity {
    pub open spec fn wf(self) -> bool {
        &&& self.pos.wf()
        &&& -1 <= self.dir.x <= 1
        &&& -1 <= self.dir.y <= 1
    }

    /// What `new_enemy` returns: alive, aimed along its patrol axis (chase
    /// enemies aim on their first tick).
    pub open spec fn spec_new_enemy(pos: Vec2, pattern: MovementPattern) -> Entity {
        let dir = match pattern {
            MovementPattern::Horizontal => Vec2 { x: 1, y: 0 },
            MovementPattern::Vertical => Vec2 { x: 0, y: 1 },
            MovementPattern::Chase => Vec2 { x: 0, y: 0 },
        };
        Entity { pos, dir, pattern, alive: true }
    }

    /// A fresh enemy at `pos` with the given movement policy.
    pub fn new_enemy(pos: Vec2, pattern: MovementPattern) -> (r: Entity)
        ensures
            r == Entity::spec_new_enemy(pos, pattern),
    {
        let dir = match pattern {
            MovementPattern::Horizontal => Vec2 { x: 1, y: 0 },
            MovementPattern::Vertical => Vec2 { x: 0, y: 1 },
            MovementPattern::Chase => Vec2 { x: 0, y: 0 },
        };
        Entity { pos, dir, pattern, alive: true }
    }
}

/// The session's combat state: only the player attacks. `attack_timer`
/// and `knockback_timer` are time subunits remaining (0 = inactive);
/// `attack_area` is the live hitbox, collapsed to the empty rectangle
/// whenever no attack is in its active phase.
#[derive(Clone, Copy, Debug, PartialEq, Eq, Structural)]
pub struct Combat {
    pub attack_timer: i64,
    pub knockback_timer: i64,
    pub health: u32,
    pub attack_area: Rect,
}

impl Combat {
    /// Timers in range and the attack-window shape: the hitbox is
    /// non-empty exactly while the attack timer is in the active phase
    /// `(ATTACK_COOLDOWN_TIME, ATTACK_MAX_TIME]`.
    pub open spec fn wf(self) -> bool {
        &&& 0 <= self.attack_timer <= ATTACK_MAX_TIME
        &&& 0 <= self.knockback_timer <= KNOCKBACK_TIME
        &&& self.attack_area.wf()
        &&& self.attack_timer > ATTACK_COOLDOWN_TIME <==> !self.attack_area.spec_is_empty()
    }

    pub open spec fn spec_idle() -> Combat {
        Combat {
            attack_timer: 0,
            knockback_timer: 0,
            health: START_HEALTH,
            attack_area: Rect::spec_empty(),
        }
    }

    /// Fresh combat state: idle, full health, no hitbox.
    pub fn idle() -> (r: Combat)
        ensures
            r == Combat::spec_idle(),
            r.wf(),
    {
        Combat {
            attack_timer: 0,
            knockback_timer: 0,
            health: START_HEALTH,
            attack_area: Rect::empty(),
        }
    }
}

/// One timer after a tick: decremented by `dt`, clamped at zero.
pub open spec fn spec_timer_decay(t: i64, dt: i64) -> i64 {
    if t >= dt {
        (t - dt) as i64
    } else {
        0
    }
}

/// Tick step: both timers decay; the attack hitbox collapses to empty
/// once the attack timer falls to or below the cooldown threshold (the
/// attack visuals end before control returns).
pub open spec fn spec_decay(c: Combat, dt: i64) -> Combat {
    let at = spec_timer_decay(c.attack_timer, dt);
    let kt = spec_timer_decay(c.knockback_timer, dt);
    let area = if at <= ATTACK_COOLDOWN_TIME {
        Rect::spec_empty()
    } else {
        c.attack_area
    };
    Combat { attack_timer: at, knockback_timer: kt, health: c.health, attack_area: area }
}

pub fn decay_combat(c: Combat, dt: i64) -> (r: Combat)
    requires
        0 <= c.attack_timer,
        0 <= c.knockback_timer,
        0 <= dt,
    ensures
        r == spec_decay(c, dt),
{
    let at = if c.attack_timer >= dt {
        c.attack_timer - dt
    } else {
        0
    };
    let kt = if c.knockback_timer >= dt {
        c.knockback_timer - dt
    } else {
        0
    };
    let area = if at <= ATTACK_COOLDOWN_TIME {
        Rect::empty()
    } else {
        c.attack_area
    };
    Combat { attack_timer: at, knockback_timer: kt, health: c.health, attack_area: area }
}

/// New facing from the movement axes: facing changes only on non-zero
/// input, the x axis taking precedence on diagonals; zero input keeps the
/// last-known facing.
pub open spec fn spec_facing_from(ax: i64, ay: i64, last: Direction) -> Direction {
    if ax > 0 {
        Direction::East
    } else if ax < 0 {
        Direction::West
    } else if ay > 0 {
        Direction::North
    } else if ay < 0 {
        Direction::South
    } else {
        last
    }
}

/// Tick step: the desired player velocity (subunits per second) and new
/// facing. Knockback overrides everything with forced backward movement;
/// an active attack pins the player in place; a dead player never moves;
/// only the unconstrained idle branch reads the input.
pub open spec fn spec_control(p: Player, c: Combat, input: TickInput) -> (Vec2, Direction) {
    if !p.alive {
        (Vec2::spec_zero(), p.facing)
    } else if c.knockback_timer > 0 {
        let u = p.facing.spec_unit();
        (Vec2 { x: (-u.x * KNOCKBACK_SPEED) as i64, y: (-u.y * KNOCKBACK_SPEED) as i64 }, p.facing)
    } else if c.attack_timer > 0 {
        (Vec2::spec_zero(), p.facing)
    } else {
        let f = spec_facing_from(input.ax, input.ay, p.facing);
        (Vec2 { x: (input.ax * PLAYER_SPEED) as i64, y: (input.ay * PLAYER_SPEED) as i64 }, f)
    }
}

pub fn control_player(p: &Player, c: &Combat, input: &TickInput) -> (r: (Vec2, Direction))
    requires
        input.wf(),
    ensures
        r == spec_control(*p, *c, *input),
{
    if !p.alive {
        (Vec2::zero(), p.facing)
    } else if c.knockback_timer > 0 {
        let u = p.facing.unit();
        (Vec2 { x: -u.x * KNOCKBACK_SPEED, y: -u.y * KNOCKBACK_SPEED }, p.facing)
    } else if c.attack_timer > 0 {
        (Vec2::zero(), p.facing)
    } else {
        let f = if input.ax > 0 {
            Direction::East
        } else if input.ax < 0 {
            Direction::West
        } else if input.ay > 0 {
            Direction::North
        } else if input.ay < 0 {
            Direction::South
        } else {
            p.facing
        };
        (Vec2 { x: input.ax * PLAYER_SPEED, y: input.ay * PLAYER_SPEED }, f)
    }
}

/// The attack hitbox: a square of side `ATTACK_SIZE` centered a fixed
/// offset in front of the player along the facing. Never empty.
pub open spec fn spec_attack_rect(pos: Vec2, f: Direction) -> Rect {
    let u = f.spec_unit();
    let cx = pos.x + u.x * ATTACK_OFFSET;
    let cy = pos.y + u.y * ATTACK_OFFSET;
    Rect {
        x: (cx - ATTACK_SIZE / 2) as i64,
        y: (cy - ATTACK_SIZE / 2) as i64,
        w: ATTACK_SIZE,
        h: ATTACK_SIZE,
    }
}

/// Tick step: an idle, alive player entering the attack state on a fresh
/// attack press. A press while a timer runs changes nothing (no restart,
/// no stacking).
pub open spec fn spec_try_attack(c: Combat, p: Player, pressed: bool) -> Combat {
    if p.alive && pressed && c.attack_timer == 0 && c.knockback_timer == 0 {
        Combat { attack_timer: ATTACK_MAX_TIME, attack_area: spec_attack_rect(p.pos, p.facing), ..c }
    } else {
        c
    }
}

pub fn try_attack(c: Combat, p: &Player, pressed: bool) -> (r: Combat)
    requires
        p.pos.wf(),
    ensures
        r == spec_try_attack(c, *p, pressed),
{
    if p.alive && pressed && c.attack_timer == 0 && c.knockback_timer == 0 {
        let u = p.facing.unit();
        let cx = p.pos.x + u.x * ATTACK_OFFSET;
        let cy = p.pos.y + u.y * ATTACK_OFFSET;
        Combat {
            attack_timer: ATTACK_MAX_TIME,
            attack_area: Rect {
                x: cx - ATTACK_SIZE / 2,
                y: cy - ATTACK_SIZE / 2,
                w: ATTACK_SIZE,
                h: ATTACK_SIZE,
            },
            ..c
        }
    } else {
        c
    }
}

/// A coordinate clamped into the world bounds.
pub open spec fn spec_clamp_world(x: int) -> i64 {
    if x < -WORLD_LIMIT {
        (-WORLD_LIMIT) as i64
    } else if x > WORLD_LIMIT {
        WORLD_LIMIT
    } else {
        x as i64
    }
}

/// Tick step: position integrated by velocity times `dt` (truncating
/// fixed-point product), then clamped into the world bounds.
pub open spec fn spec_integrate(pos: Vec2, vel: Vec2, dt: i64) -> Vec2 {
    Vec2 {
        x: spec_clamp_world(pos.x + div_trunc(vel.x * dt, SCALE as int)),
        y: spec_clamp_world(pos.y + div_trunc(vel.y * dt, SCALE as int)),
    }
}

/// One velocity component times `dt`, in subunits (truncating toward
/// zero).
fn vel_step(v: i64, dt: i64) -> (r: i64)
    requires
        0 <= dt <= SCALE,
        -0x10_0000 <= v <= 0x10_0000,
    ensures
        r as int == div_trunc(v * dt, SCALE as int),
        -0x10_0000 <= r <= 0x10_0000,
{
    if v >= 0 {
        proof {
            assert(0 <= v * dt <= 0x10_0000 * 1024) by (nonlinear_arith)
                requires
                    0 <= v <= 0x10_0000,
                    0 <= dt <= 1024,
            ;
        }
        let prod = v * dt;
        let q = prod / SCALE;
        proof {
            vstd::arithmetic::div_mod::lemma_div_nonincreasing(prod as int, SCALE as int);
            vstd::arithmetic::div_mod::lemma_div_pos_is_pos(prod as int, SCALE as int);
        }
        q
    } else {
        let m = -v;
        proof {
            assert(0 <= m * dt <= 0x10_0000 * 1024) by (nonlinear_arith)
                requires
                    0 <= m <= 0x10_0000,
                    0 <= dt <= 1024,
            ;
        }
        let prod = m * dt;
        let q = prod / SCALE;
        proof {
            vstd::arithmetic::div_mod::lemma_div_nonincreasing(prod as int, SCALE as int);
            vstd::arithmetic::div_mod::lemma_div_pos_is_pos(prod as int, SCALE as int);
            assert(m as int * dt == -((v as int) * dt)) by (nonlinear_arith)
                requires
                    m as int == -(v as int),
            ;
        }
        -q
    }
}

fn clamp_world(x: i64) -> (r: i64)
    ensures
        r as int == spec_clamp_world(x as int),
{
    if x < -WORLD_LIMIT {
        -WORLD_LIMIT
    } else if x > WORLD_LIMIT {
        WORLD_LIMIT
    } else {
        x
    }
}

pub fn integrate(pos: Vec2, vel: Vec2, dt: i64) -> (r: Vec2)
    requires
        pos.wf(),
        0 <= dt <= SCALE,
        -0x10_0000 <= vel.x <= 0x10_0000,
        -0x10_0000 <= vel.y <= 0x10_0000,
    ensures
        r == spec_integrate(pos, vel, dt),
        r.wf(),
{
    let sx = vel_step(vel.x, dt);
    let sy = vel_step(vel.y, dt);
    Vec2 { x: clamp_world(pos.x + sx), y: clamp_world(pos.y + sy) }
}

/// The square bounding box of side `size` centered at `pos`.
pub open spec fn spec_actor_rect(pos: Vec2, size: i64) -> Rect {
    Rect { x: (pos.x - size / 2) as i64, y: (pos.y - size / 2) as i64, w: size, h: size }
}

pub fn actor_rect(pos: Vec2, size: i64) -> (r: Rect)
    requires
        pos.wf(),
        0 <= size <= SCALE,
    ensures
        r == spec_actor_rect(pos, size),
        r.wf(),
{
    Rect { x: pos.x - size / 2, y: pos.y - size / 2, w: size, h: size }
}

/// The sign of a coordinate difference, as a direction component.
pub open spec fn spec_sign(d: int) -> i64 {
    if d > 0 {
        1
    } else if d < 0 {
        -1i64
    } else {
        0
    }
}

/// Tick step: where an enemy aims. A chase enemy re-aims at the player on
/// each axis independently (sign of the position delta, zero delta gives
/// a zero component); a patrol enemy keeps its current direction.
pub open spec fn spec_aim(e: Entity, ppos: Vec2) -> Vec2 {
    match e.pattern {
        MovementPattern::Chase => Vec2 {
            x: spec_sign(ppos.x - e.pos.x),
            y: spec_sign(ppos.y - e.pos.y),
        },
        _ => e.dir,
    }
}

/// Tick step for one enemy: aim, then try the integrated step. If the
/// step would land outside the grid or on solid ground, the enemy
/// reverses both direction components and stays; otherwise it moves. A
/// dead enemy does not act.
pub open spec fn spec_enemy_step(lvl: Level, e: Entity, ppos: Vec2, dt: i64) -> Entity {
    if !e.alive {
        e
    } else {
        let dir = spec_aim(e, ppos);
        let vel = Vec2 { x: (dir.x * ENEMY_SPEED) as i64, y: (dir.y * ENEMY_SPEED) as i64 };
        let cand = spec_integrate(e.pos, vel, dt);
        let tile = lvl.spec_get_tile(cand);
        if tile is Some && !tile->Some_0.solid {
            Entity { pos: cand, dir, ..e }
        } else {
            Entity { dir: Vec2 { x: (-dir.x) as i64, y: (-dir.y) as i64 }, ..e }
        }
    }
}

pub fn enemy_step(lvl: &Level, e: Entity, ppos: Vec2, dt: i64) -> (r: Entity)
    requires
        lvl.wf(),
        e.wf(),
        ppos.wf(),
        0 <= dt <= SCALE,
    ensures
        r == spec_enemy_step(*lvl, e, ppos, dt),
        r.wf(),
{
    if !e.alive {
        return e;
    }
    let dir = match e.pattern {
        MovementPattern::Chase => {
            let dx = ppos.x - e.pos.x;
            let dy = ppos.y - e.pos.y;
            Vec2 {
                x: if dx > 0 {
                    1
                } else if dx < 0 {
                    -1
                } else {
                    0
                },
                y: if dy > 0 {
                    1
                } else if dy < 0 {
                    -1
                } else {
                    0
                },
            }
        },
        _ => e.dir,
    };
    let vel = Vec2 { x: dir.x * ENEMY_SPEED, y: dir.y * ENEMY_SPEED };
    let cand = integrate(e.pos, vel, dt);
    let blocked = match lvl.get_tile(cand) {
        Option::Some(t) => t.solid,
        Option::None => true,
    };
    if blocked {
        Entity { dir: Vec2 { x: -dir.x, y: -dir.y }, ..e }
    } else {
        Entity { pos: cand, dir, ..e }
    }
}

/// Tick step: a position corrected by the collision resolver against the
/// solid tiles its box overlaps, then clamped into the world bounds.
pub open spec fn spec_resolve_pos(lvl: Level, pos: Vec2, size: i64) -> Vec2 {
    let d = spec_tile_displacement(lvl, spec_actor_rect(pos, size));
    Vec2 { x: spec_clamp_world(pos.x + d.x), y: spec_clamp_world(pos.y + d.y) }
}

pub fn resolve_pos(lvl: &Level, pos: Vec2, size: i64) -> (r: Vec2)
    requires
        lvl.wf(),
        pos.wf(),
        0 <= size <= SCALE,
    ensures
        r == spec_resolve_pos(*lvl, pos, size),
        r.wf(),
{
    let rect = actor_rect(pos, size);
    let d = tile_displacement(lvl, &rect);
    Vec2 { x: clamp_world(pos.x + d.x), y: clamp_world(pos.y + d.y) }
}

/// Tick step: an enemy caught overlapping the live attack hitbox dies on
/// the spot (instant kill, no partial damage); dead enemies are skipped.
/// An empty hitbox overlaps nothing.
pub open spec fn spec_attack_kill(area: Rect, e: Entity) -> Entity {
    if e.alive && Rect::spec_overlap(area, spec_actor_rect(e.pos, ENEMY_SIZE)) is Some {
        Entity { alive: false, ..e }
    } else {
        e
    }
}

pub fn attack_kill(area: &Rect, e: Entity) -> (r: Entity)
    requires
        area.wf(),
        e.pos.wf(),
    ensures
        r == spec_attack_kill(*area, e),
{
    if e.alive {
        let erect = actor_rect(e.pos, ENEMY_SIZE);
        if area.overlap(&erect).is_some() {
            return Entity { alive: false, ..e };
        }
    }
    e
}

/// The first live enemy, scanning from index `i`, whose box overlaps the
/// player's.
pub open spec fn spec_first_contact_from(prect: Rect, es: Seq<Entity>, i: int) -> Option<int>
    decreases es.len() - i,
{
    if i < 0 || i >= es.len() {
        None
    } else if es[i].alive && Rect::spec_overlap(prect, spec_actor_rect(es[i].pos, ENEMY_SIZE))
        is Some {
        Some(i)
    } else {
        spec_first_contact_from(prect, es, i + 1)
    }
}

/// The Knockback transition: the timer is set to its full length, health
/// drops by one (callers only apply this with positive health), and a
/// one-time positional impulse pushes the player away from the enemy:
/// the normalized enemy-to-player direction scaled by the knockback
/// strength. A zero-length direction gives a zero impulse.
pub open spec fn spec_apply_knockback(p: Player, c: Combat, epos: Vec2) -> (Player, Combat) {
    let away = Vec2 { x: (p.pos.x - epos.x) as i64, y: (p.pos.y - epos.y) as i64 }.spec_normalize();
    let pos = Vec2 {
        x: spec_clamp_world(p.pos.x + div_trunc(away.x * KNOCKBACK_STRENGTH, SCALE as int)),
        y: spec_clamp_world(p.pos.y + div_trunc(away.y * KNOCKBACK_STRENGTH, SCALE as int)),
    };
    (
        Player { pos, ..p },
        Combat { knockback_timer: KNOCKBACK_TIME, health: (c.health - 1) as u32, ..c },
    )
}

pub fn apply_knockback(p: &Player, c: Combat, epos: Vec2) -> (r: (Player, Combat))
    requires
        p.pos.wf(),
        epos.wf(),
        c.health > 0,
    ensures
        r == spec_apply_knockback(*p, c, epos),
        r.0.pos.wf(),
{
    let away = Vec2 { x: p.pos.x - epos.x, y: p.pos.y - epos.y }.normalize();
    proof {
        lemma_normalize_bounded(
            Vec2 { x: (p.pos.x - epos.x) as i64, y: (p.pos.y - epos.y) as i64 },
        );
    }
    let ix = vel_step(away.x, KNOCKBACK_STRENGTH);
    let iy = vel_step(away.y, KNOCKBACK_STRENGTH);
    let pos = Vec2 { x: clamp_world(p.pos.x + ix), y: clamp_world(p.pos.y + iy) };
    (
        Player { pos, ..*p },
        Combat { knockback_timer: KNOCKBACK_TIME, health: c.health - 1, ..c },
    )
}

/// Truncating division of `a * SCALE` by `len` stays within `SCALE` when
/// `|a| <= len`.
proof fn lemma_unit_div_bounded(a: int, len: int)
    requires
        0 < len,
        -len <= a <= len,
    ensures
        -SCALE <= div_trunc(a * (SCALE as int), len) <= SCALE,
{
    if a >= 0 {
        vstd::arithmetic::div_mod::lemma_div_pos_is_pos(a * (SCALE as int), len);
        assert(a * (SCALE as int) <= len * (SCALE as int)) by (nonlinear_arith)
            requires
                a <= len,
        ;
        vstd::arithmetic::div_mod::lemma_div_is_ordered(
            a * (SCALE as int),
            len * (SCALE as int),
            len,
        );
        vstd::arithmetic::div_mod::lemma_div_multiples_vanish(SCALE as int, len);
    } else {
        let b = -a;
        vstd::arithmetic::div_mod::lemma_div_pos_is_pos(b * (SCALE as int), len);
        assert(b * (SCALE as int) <= len * (SCALE as int)) by (nonlinear_arith)
            requires
                b <= len,
        ;
        vstd::arithmetic::div_mod::lemma_div_is_ordered(
            b * (SCALE as int),
            len * (SCALE as int),
            len,
        );
        vstd::arithmetic::div_mod::lemma_div_multiples_vanish(SCALE as int, len);
        assert(b * (SCALE as int) == -(a * (SCALE as int))) by (nonlinear_arith)
            requires
                b == -a,
        ;
    }
}

/// A normalized vector's components never exceed `SCALE` in magnitude.
proof fn lemma_normalize_bounded(v: Vec2)
    ensures
        -SCALE <= v.spec_normalize().x <= SCALE,
        -SCALE <= v.spec_normalize().y <= SCALE,
{
    if v.x == 0 && v.y == 0 {
    } else {
        let m = v.spec_magnitude2();
        assert(v.x * v.x >= 0 && v.y * v.y >= 0) by (nonlinear_arith);
        assert(v.x != 0 ==> v.x * v.x >= 1) by (nonlinear_arith);
        assert(v.y != 0 ==> v.y * v.y >= 1) by (nonlinear_arith);
        crate::geom::lemma_sqrt_floor_bounds(m);
        let len = sqrt_floor(m);
        assert(len >= 1);
        assert(-len <= v.x <= len) by (nonlinear_arith)
            requires
                (len + 1) * (len + 1) > m,
                v.x * v.x <= m,
                len >= 0,
        ;
        assert(-len <= v.y <= len) by (nonlinear_arith)
            requires
                (len + 1) * (len + 1) > m,
                v.y * v.y <= m,
                len >= 0,
        ;
        lemma_unit_div_bounded(v.x as int, len);
        lemma_unit_div_bounded(v.y as int, len);
    }
}

/// Saturating increment, so counters never overflow.
pub open spec fn spec_sat_inc32(x: u32) -> u32 {
    if x < u32::MAX {
        (x + 1) as u32
    } else {
        x
    }
}

pub open spec fn spec_sat_inc64(x: u64) -> u64 {
    if x < u64::MAX {
        (x + 1) as u64
    } else {
        x
    }
}

/// Tick step over the whole enemy collection: each live enemy aims and
/// tries its step, independently.
pub open spec fn spec_enemies_stepped(lvl: Level, es: Seq<Entity>, ppos: Vec2, dt: i64) -> Seq<
    Entity,
> {
    Seq::new(es.len(), |i: int| spec_enemy_step(lvl, es[i], ppos, dt))
}

/// Tick step: each enemy's position corrected against the tiles. The
/// displacements are all computed from the pre-pass positions (each
/// depends only on that enemy's own box), so applying them in a second
/// pass is order-independent.
pub open spec fn spec_enemies_resolved(lvl: Level, es: Seq<Entity>) -> Seq<Entity> {
    Seq::new(
        es.len(),
        |i: int| Entity { pos: spec_resolve_pos(lvl, es[i].pos, ENEMY_SIZE), ..es[i] },
    )
}

/// Tick step: every live enemy overlapping the attack hitbox dies.
pub open spec fn spec_enemies_killed(area: Rect, es: Seq<Entity>) -> Seq<Entity> {
    Seq::new(es.len(), |i: int| spec_attack_kill(area, es[i]))
}

/// Deferred removal: the enemies among the first `n` still alive, in
/// order.
pub open spec fn spec_live(es: Seq<Entity>, n: int) -> Seq<Entity>
    decreases n,
{
    if n <= 0 {
        Seq::empty()
    } else {
        let prev = spec_live(es, n - 1);
        if es[n - 1].alive {
            prev.push(es[n - 1])
        } else {
            prev
        }
    }
}

/// Tick step: the knockback gate and transition. Knockback triggers only
/// when the player is alive with positive health and was not already in
/// knockback at tick start; the first live overlapping enemy in iteration
/// order wins, and scanning stops there (one contact per tick).
pub open spec fn spec_contact_step(p: Player, c: Combat, kb_start: i64, es: Seq<Entity>) -> (
    Player,
    Combat,
) {
    if p.alive && c.health > 0 && kb_start == 0 {
        match spec_first_contact_from(spec_actor_rect(p.pos, PLAYER_SIZE), es, 0) {
            Option::Some(i) => spec_apply_knockback(p, c, es[i].pos),
            Option::None => (p, c),
        }
    } else {
        (p, c)
    }
}

/// Tick step: the gold still on the ground after pickup — everything
/// among the first `n` pieces that the player's pickup box does not
/// overlap.
pub open spec fn spec_golds_kept(ppos: Vec2, golds: Seq<Vec2>, n: int) -> Seq<Vec2>
    decreases n,
{
    if n <= 0 {
        Seq::empty()
    } else {
        let prev = spec_golds_kept(ppos, golds, n - 1);
        if Rect::spec_overlap(
            spec_actor_rect(ppos, GOLD_SIZE),
            spec_actor_rect(golds[n - 1], GOLD_SIZE),
        ) is None {
            prev.push(golds[n - 1])
        } else {
            prev
        }
    }
}


/// The center of a grid cell, in world coordinates.
pub open spec fn spec_cell_center(c: Coord) -> Vec2 {
    Vec2 {
        x: (c.0 as int * SCALE + SCALE / 2) as i64,
        y: (c.1 as int * SCALE + SCALE / 2) as i64,
    }
}

fn cell_center(c: Coord) -> (r: Vec2)
    requires
        (c.0 as int) < MAX_GRID,
        (c.1 as int) < MAX_GRID,
    ensures
        r == spec_cell_center(c),
        r.wf(),
{
    Vec2 { x: c.0 as i64 * SCALE + SCALE / 2, y: c.1 as i64 * SCALE + SCALE / 2 }
}

/// A cell where gold may appear: an open cell whose center is not the
/// player's own spot.
pub open spec fn spec_gold_cell_ok(lvl: Level, ppos: Vec2, c: Coord) -> bool {
    lvl.spec_open_cells(lvl.grid.width * lvl.grid.height).contains(c) && spec_cell_center(c)
        != ppos
}

pub open spec fn spec_exists_gold_cell(lvl: Level, ppos: Vec2) -> bool {
    exists|c: Coord| spec_gold_cell_ok(lvl, ppos, c)
}

/// Far enough from the player on at least one axis to spawn an enemy.
pub open spec fn spec_clear_of_player(ppos: Vec2, center: Vec2) -> bool {
    ||| center.x - ppos.x > ENEMY_CLEARANCE
    ||| ppos.x - center.x > ENEMY_CLEARANCE
    ||| center.y - ppos.y > ENEMY_CLEARANCE
    ||| ppos.y - center.y > ENEMY_CLEARANCE
}

/// A cell where an enemy may spawn: open and clear of the player.
pub open spec fn spec_enemy_cell_ok(lvl: Level, ppos: Vec2, c: Coord) -> bool {
    lvl.spec_open_cells(lvl.grid.width * lvl.grid.height).contains(c) && spec_clear_of_player(
        ppos,
        spec_cell_center(c),
    )
}

pub open spec fn spec_exists_enemy_cell(lvl: Level, ppos: Vec2) -> bool {
    exists|c: Coord| spec_enemy_cell_ok(lvl, ppos, c)
}

/// What holds of every enemy the spawner can add, whatever the random
/// draws were: a fresh patrol enemy at the center of some eligible cell.
pub open spec fn spec_spawned_enemy_ok(lvl: Level, ppos: Vec2, e: Entity) -> bool {
    exists|c: Coord|
        spec_enemy_cell_ok(lvl, ppos, c) && (e == Entity::spec_new_enemy(
            spec_cell_center(c),
            MovementPattern::Horizontal,
        ) || e == Entity::spec_new_enemy(spec_cell_center(c), MovementPattern::Vertical))
}

/// The candidate cells for gold placement.
fn gold_cells(lvl: &Level, ppos: Vec2) -> (r: Vec<Coord>)
    requires
        lvl.wf(),
        ppos.wf(),
    ensures
        forall|i: int| 0 <= i < r@.len() ==> spec_gold_cell_ok(*lvl, ppos, #[trigger] r@[i]),
        forall|i: int|
            0 <= i < r@.len() ==> ((#[trigger] r@[i]).0 as int) < MAX_GRID && ((
            r@[i]).1 as int) < MAX_GRID,
        r@.len() > 0 <==> spec_exists_gold_cell(*lvl, ppos),
{
    let opens = lvl.get_open_spaces();
    let ghost all = lvl.spec_open_cells(lvl.grid.width * lvl.grid.height);
    proof {
        lvl.lemma_open_cells_sound((lvl.grid.width * lvl.grid.height) as int);
    }
    let mut out: Vec<Coord> = Vec::new();
    let mut j: usize = 0;
    while j < opens.len()
        invariant
            lvl.wf(),
            ppos.wf(),
            opens@ == all,
            all == lvl.spec_open_cells(lvl.grid.width * lvl.grid.height),
            forall|k: int|
                0 <= k < all.len() ==> ((#[trigger] all[k]).0 as int) < lvl.grid.width && ((
                all[k]).1 as int) < lvl.grid.height,
            lvl.grid.width <= MAX_GRID,
            lvl.grid.height <= MAX_GRID,
            j <= opens@.len(),
            forall|i: int| 0 <= i < out@.len() ==> spec_gold_cell_ok(*lvl, ppos, #[trigger] out@[i]),
            forall|i: int|
                0 <= i < out@.len() ==> ((#[trigger] out@[i]).0 as int) < MAX_GRID && ((
                out@[i]).1 as int) < MAX_GRID,
            out@.len() > 0 <==> exists|t: int|
                0 <= t < j && spec_cell_center(#[trigger] all[t]) != ppos,
        decreases opens@.len() - j,
    {
        let c = opens[j];
        let center = cell_center(c);
        if center.x != ppos.x || center.y != ppos.y {
            proof {
                assert(all.contains(c));
            }
            out.push(c);
        }
        j = j + 1;
    }
    proof {
        if out@.len() > 0 {
            assert(spec_gold_cell_ok(*lvl, ppos, out@[0]));
        }
        if spec_exists_gold_cell(*lvl, ppos) {
            let c = choose|c: Coord| spec_gold_cell_ok(*lvl, ppos, c);
            let t = choose|t: int| 0 <= t < all.len() && all[t] == c;
            assert(spec_cell_center(all[t]) != ppos);
        }
    }
    out
}

/// The candidate cells for enemy spawning.
fn enemy_cells(lvl: &Level, ppos: Vec2) -> (r: Vec<Coord>)
    requires
        lvl.wf(),
        ppos.wf(),
    ensures
        forall|i: int| 0 <= i < r@.len() ==> spec_enemy_cell_ok(*lvl, ppos, #[trigger] r@[i]),
        forall|i: int|
            0 <= i < r@.len() ==> ((#[trigger] r@[i]).0 as int) < MAX_GRID && ((
            r@[i]).1 as int) < MAX_GRID,
        r@.len() > 0 <==> spec_exists_enemy_cell(*lvl, ppos),
{
    let opens = lvl.get_open_spaces();
    let ghost all = lvl.spec_open_cells(lvl.grid.width * lvl.grid.height);
    proof {
        lvl.lemma_open_cells_sound((lvl.grid.width * lvl.grid.height) as int);
    }
    let mut out: Vec<Coord> = Vec::new();
    let mut j: usize = 0;
    while j < opens.len()
        invariant
            lvl.wf(),
            ppos.wf(),
            opens@ == all,
            all == lvl.spec_open_cells(lvl.grid.width * lvl.grid.height),
            forall|k: int|
                0 <= k < all.len() ==> ((#[trigger] all[k]).0 as int) < lvl.grid.width && ((
                all[k]).1 as int) < lvl.grid.height,
            lvl.grid.width <= MAX_GRID,
            lvl.grid.height <= MAX_GRID,
            j <= opens@.len(),
            forall|i: int|
                0 <= i < out@.len() ==> spec_enemy_cell_ok(*lvl, ppos, #[trigger] out@[i]),
            forall|i: int|
                0 <= i < out@.len() ==> ((#[trigger] out@[i]).0 as int) < MAX_GRID && ((
                out@[i]).1 as int) < MAX_GRID,
            out@.len() > 0 <==> exists|t: int|
                0 <= t < j && spec_clear_of_player(ppos, spec_cell_center(#[trigger] all[t])),
        decreases opens@.len() - j,
    {
        let c = opens[j];
        let center = cell_center(c);
        if center.x - ppos.x > ENEMY_CLEARANCE || ppos.x - center.x > ENEMY_CLEARANCE || center.y
            - ppos.y > ENEMY_CLEARANCE || ppos.y - center.y > ENEMY_CLEARANCE {
            proof {
                assert(all.contains(c));
            }
            out.push(c);
        }
        j = j + 1;
    }
    proof {
        if out@.len() > 0 {
            assert(spec_enemy_cell_ok(*lvl, ppos, out@[0]));
        }
        if spec_exists_enemy_cell(*lvl, ppos) {
            let c = choose|c: Coord| spec_enemy_cell_ok(*lvl, ppos, c);
            let t = choose|t: int| 0 <= t < all.len() && all[t] == c;
            assert(spec_clear_of_player(ppos, spec_cell_center(all[t])));
        }
    }
    out
}

/// The mathematical model of a session: what the contracts speak of.
pub struct SessionView {
    pub player: Player,
    pub enemies: Seq<Entity>,
    pub combat: Combat,
    pub golds: Seq<Vec2>,
    pub score: u32,
    pub ticks: u64,
}

impl SessionView {
    pub open spec fn wf(self) -> bool {
        &&& self.player.pos.wf()
        &&& self.combat.wf()
        &&& forall|i: int| 0 <= i < self.enemies.len() ==> (#[trigger] self.enemies[i]).wf()
        &&& forall|i: int| 0 <= i < self.golds.len() ==> (#[trigger] self.golds[i]).wf()
    }
}

/// The deterministic part of one fixed-timestep tick, in the mandated
/// order: timer decay, the death mark, player control, attack entry,
/// player integration, enemy steps, player and enemy tile resolution,
/// attack kills, the knockback gate, gold pickup and the score, then
/// deferred removal of dead enemies. Gold replenishment draws a random
/// cell and is stated separately on `Session::simulate`.
pub open spec fn spec_tick(lvl: Level, s: SessionView, input: TickInput, dt: i64) -> SessionView {
    let c1 = spec_decay(s.combat, dt);
    let p1 = if c1.health == 0 {
        Player { alive: false, ..s.player }
    } else {
        s.player
    };
    let vf = spec_control(p1, c1, input);
    let p2 = Player { facing: vf.1, ..p1 };
    let c2 = spec_try_attack(c1, p2, input.attack);
    let p3 = Player { pos: spec_integrate(p2.pos, vf.0, dt), ..p2 };
    let es1 = spec_enemies_stepped(lvl, s.enemies, p3.pos, dt);
    let p4 = Player { pos: spec_resolve_pos(lvl, p3.pos, PLAYER_SIZE), ..p3 };
    let es2 = spec_enemies_resolved(lvl, es1);
    let es3 = spec_enemies_killed(c2.attack_area, es2);
    let pc = spec_contact_step(p4, c2, s.combat.knockback_timer, es3);
    let golds1 = spec_golds_kept(pc.0.pos, s.golds, s.golds.len() as int);
    let score1 = if golds1.len() < GOLD_TARGET {
        spec_sat_inc32(s.score)
    } else {
        s.score
    };
    SessionView {
        player: pc.0,
        enemies: spec_live(es3, es3.len() as int),
        combat: pc.1,
        golds: golds1,
        score: score1,
        ticks: spec_sat_inc64(s.ticks),
    }
}

/// Why a session could not be built.
#[derive(Clone, Copy, Debug, PartialEq, Eq, Structural)]
pub enum SessionError {
    /// The starting level index does not address a level.
    BadIndex,
    /// The starting level's spawn list places no player. There is no
    /// recovery path for such a level.
    NoPlayerSpawn,
}

/// One play session: the owned aggregate of level selection, player
/// state, the enemy collection, combat timers, gold and score, advanced
/// tick by tick.
pub struct Session {
    pub levels: Vec<Level>,
    pub level_index: usize,
    pub player: Player,
    pub enemies: Vec<Entity>,
    pub combat: Combat,
    pub golds: Vec<Vec2>,
    pub score: u32,
    pub ticks: u64,
}

impl View for Session {
    type V = SessionView;

    open spec fn view(&self) -> SessionView {
        SessionView {
            player: self.player,
            enemies: self.enemies@,
            combat: self.combat,
            golds: self.golds@,
            score: self.score,
            ticks: self.ticks,
        }
    }
}

/// The enemies a level's spawn records place (scanning its first `n`
/// records): one chase enemy per enemy record.
pub open spec fn spec_start_enemies(starts: Seq<(crate::level::EntityType, Vec2)>, n: int) -> Seq<
    Entity,
>
    decreases n,
{
    if n <= 0 {
        Seq::empty()
    } else {
        let prev = spec_start_enemies(starts, n - 1);
        if starts[n - 1].0 is Enemy {
            prev.push(Entity::spec_new_enemy(starts[n - 1].1, MovementPattern::Chase))
        } else {
            prev
        }
    }
}

/// Enemies built from well-formed spawn records are well-formed.
proof fn lemma_start_enemies_wf(starts: Seq<(crate::level::EntityType, Vec2)>, n: int)
    requires
        n <= starts.len(),
        forall|i: int| 0 <= i < starts.len() ==> (#[trigger] starts[i]).1.wf(),
    ensures
        forall|i: int|
            0 <= i < spec_start_enemies(starts, n).len() ==> (#[trigger] spec_start_enemies(
                starts,
                n,
            )[i]).wf(),
    decreases n,
{
    if n > 0 {
        lemma_start_enemies_wf(starts, n - 1);
        let s0 = spec_start_enemies(starts, n - 1);
        let s1 = spec_start_enemies(starts, n);
        assert forall|i: int| 0 <= i < s1.len() implies (#[trigger] s1[i]).wf() by {
            if i < s0.len() {
                assert(s1[i] == s0[i]);
            } else {
                assert(s1[i] == Entity::spec_new_enemy(starts[n - 1].1, MovementPattern::Chase));
            }
        }
    }
}

impl Session {
    /// The level the session is currently playing.
    pub open spec fn spec_level(self) -> Level {
        self.levels@[self.level_index as int]
    }

    pub open spec fn wf(self) -> bool {
        &&& (self.level_index as int) < self.levels@.len()
        &&& forall|i: int| 0 <= i < self.levels@.len() ==> (#[trigger] self.levels@[i]).wf()
        &&& self@.wf()
    }

    /// Build a session on the given levels, entering the chosen one. A
    /// level whose spawn list places no player is refused outright.
    pub fn new(levels: Vec<Level>, level_index: usize) -> (r: Result<Session, SessionError>)
        requires
            forall|i: int| 0 <= i < levels@.len() ==> (#[trigger] levels@[i]).wf(),
        ensures
            r is Err && r->Err_0 == SessionError::BadIndex <==> !((level_index as int)
                < levels@.len()),
            r is Err && r->Err_0 == SessionError::NoPlayerSpawn <==> (level_index as int)
                < levels@.len() && !crate::level::spec_has_player(
                levels@[level_index as int].starts@,
            ),
            r is Ok <==> (level_index as int) < levels@.len() && crate::level::spec_has_player(
                levels@[level_index as int].starts@,
            ),
            r is Ok ==> {
                let s = r->Ok_0;
                let starts = levels@[level_index as int].starts@;
                &&& s.wf()
                &&& s.levels@ == levels@
                &&& s.level_index == level_index
                &&& s.player.pos == starts[crate::level::spec_first_player_from(
                    starts,
                    0,
                )->Some_0].1
                &&& s.player.facing == Direction::South
                &&& s.player.alive
                &&& s.enemies@ == spec_start_enemies(starts, starts.len() as int)
                &&& s.combat == Combat::spec_idle()
                &&& s.golds@ == Seq::<Vec2>::empty()
                &&& s.score == 0
                &&& s.ticks == 0
            },
    {
        if level_index >= levels.len() {
            return Err(SessionError::BadIndex);
        }
        let has_start = levels[level_index].player_start().is_some();
        if !has_start {
            return Err(SessionError::NoPlayerSpawn);
        }
        let mut s = Session {
            levels,
            level_index,
            player: Player { pos: Vec2::zero(), facing: Direction::South, alive: true },
            enemies: Vec::new(),
            combat: Combat::idle(),
            golds: Vec::new(),
            score: 0,
            ticks: 0,
        };
        s.enter_level();
        Ok(s)
    }


    /// Advance the simulation by exactly one fixed-size tick: the
    /// deterministic pipeline of `spec_tick`, plus gold replenishment —
    /// when the remaining gold is below the target, the score rises and
    /// one piece is placed at a random eligible cell (none when no cell
    /// is eligible).
    #[verifier::rlimit(100)]
    pub fn simulate(&mut self, input: &TickInput, dt: i64, rng: &mut rand::rngs::ThreadRng)
        requires
            old(self).wf(),
            input.wf(),
            0 < dt <= SCALE,
            old(self).golds@.len() + 1 <= usize::MAX,
        ensures
            final(self).wf(),
            final(self).levels@ == old(self).levels@,
            final(self).level_index == old(self).level_index,
            ({
                let t = spec_tick(old(self).spec_level(), old(self)@, *input, dt);
                &&& final(self).player == t.player
                &&& final(self).combat == t.combat
                &&& final(self).enemies@ == t.enemies
                &&& final(self).score == t.score
                &&& final(self).ticks == t.ticks
                &&& (t.golds.len() >= GOLD_TARGET ==> final(self).golds@ == t.golds)
                &&& (t.golds.len() < GOLD_TARGET ==> {
                    ||| (final(self).golds@ == t.golds && !spec_exists_gold_cell(
                        old(self).spec_level(),
                        t.player.pos,
                    ))
                    ||| (exists|c: Coord|
                        spec_gold_cell_ok(old(self).spec_level(), t.player.pos, c) && final(self).golds@ == t.golds.push(spec_cell_center(c)))
                })
            }),
    {
        let ghost lvl_g = self.spec_level();
        let ghost s0 = self@;
        proof {
            assert(s0.wf());
        }
        let kb_start = self.combat.knockback_timer;
        let c1 = decay_combat(self.combat, dt);
        let p1 = if c1.health == 0 {
            Player { alive: false, ..self.player }
        } else {
            self.player
        };
        let vf = control_player(&p1, &c1, input);
        let vel = vf.0;
        let p2 = Player { facing: vf.1, ..p1 };
        let c2 = try_attack(c1, &p2, input.attack);
        proof {
            assert(-0x10_0000 <= vel.x <= 0x10_0000 && -0x10_0000 <= vel.y <= 0x10_0000);
            assert(c1.wf());
            assert(c2.wf());
        }
        let p3 = Player { pos: integrate(p2.pos, vel, dt), ..p2 };
        let lvl = &self.levels[self.level_index];
        proof {
            assert(*lvl == lvl_g);
            assert forall|i: int|
                0 <= i < self.enemies@.len() implies (#[trigger] self.enemies@[i]).wf() by {
                assert(self.enemies@[i] == s0.enemies[i]);
            }
        }
        let n = self.enemies.len();
        let mut es1: Vec<Entity> = Vec::new();
        let mut i: usize = 0;
        while i < n
            invariant
                lvl.wf(),
                *lvl == lvl_g,
                n == self.enemies@.len(),
                self.enemies@ == s0.enemies,
                forall|j: int| 0 <= j < n ==> (#[trigger] self.enemies@[j]).wf(),
                p3.pos.wf(),
                0 < dt <= SCALE,
                i <= n,
                es1@.len() == i,
                forall|j: int|
                    0 <= j < i ==> #[trigger] es1@[j] == spec_enemy_step(
                        lvl_g,
                        s0.enemies[j],
                        p3.pos,
                        dt,
                    ),
                forall|j: int| 0 <= j < i ==> (#[trigger] es1@[j]).wf(),
            decreases n - i,
        {
            es1.push(enemy_step(lvl, self.enemies[i], p3.pos, dt));
            i = i + 1;
        }
        proof {
            assert(es1@ =~= spec_enemies_stepped(lvl_g, s0.enemies, p3.pos, dt));
        }
        let p4 = Player { pos: resolve_pos(lvl, p3.pos, PLAYER_SIZE), ..p3 };
        let mut disps: Vec<Vec2> = Vec::new();
        i = 0;
        while i < es1.len()
            invariant
                lvl.wf(),
                *lvl == lvl_g,
                forall|j: int| 0 <= j < es1@.len() ==> (#[trigger] es1@[j]).wf(),
                i <= es1@.len(),
                disps@.len() == i,
                forall|j: int|
                    0 <= j < i ==> #[trigger] disps@[j] == spec_tile_displacement(
                        lvl_g,
                        spec_actor_rect(es1@[j].pos, ENEMY_SIZE),
                    ),
                forall|j: int|
                    0 <= j < i ==> -0x8_0000_0000_0000 <= (#[trigger] disps@[j]).x
                        <= 0x8_0000_0000_0000 && -0x8_0000_0000_0000 <= (disps@[j]).y
                        <= 0x8_0000_0000_0000,
            decreases es1@.len() - i,
        {
            let rct = actor_rect(es1[i].pos, ENEMY_SIZE);
            disps.push(tile_displacement(lvl, &rct));
            i = i + 1;
        }
        let mut es2: Vec<Entity> = Vec::new();
        i = 0;
        while i < es1.len()
            invariant
                lvl.wf(),
                *lvl == lvl_g,
                forall|j: int| 0 <= j < es1@.len() ==> (#[trigger] es1@[j]).wf(),
                disps@.len() == es1@.len(),
                forall|j: int|
                    0 <= j < es1@.len() ==> #[trigger] disps@[j] == spec_tile_displacement(
                        lvl_g,
                        spec_actor_rect(es1@[j].pos, ENEMY_SIZE),
                    ),
                forall|j: int|
                    0 <= j < es1@.len() ==> -0x8_0000_0000_0000 <= (#[trigger] disps@[j]).x
                        <= 0x8_0000_0000_0000 && -0x8_0000_0000_0000 <= (disps@[j]).y
                        <= 0x8_0000_0000_0000,
                i <= es1@.len(),
                es2@.len() == i,
                forall|j: int|
                    0 <= j < i ==> #[trigger] es2@[j] == (Entity {
                        pos: spec_resolve_pos(lvl_g, es1@[j].pos, ENEMY_SIZE),
                        ..es1@[j]
                    }),
                forall|j: int| 0 <= j < i ==> (#[trigger] es2@[j]).wf(),
            decreases es1@.len() - i,
        {
            let e = es1[i];
            let d = disps[i];
            let np = Vec2 { x: clamp_world(e.pos.x + d.x), y: clamp_world(e.pos.y + d.y) };
            es2.push(Entity { pos: np, ..e });
            i = i + 1;
        }
        proof {
            assert(es2@ =~= spec_enemies_resolved(lvl_g, es1@));
        }
        let mut es3: Vec<Entity> = Vec::new();
        i = 0;
        while i < es2.len()
            invariant
                c2.attack_area.wf(),
                forall|j: int| 0 <= j < es2@.len() ==> (#[trigger] es2@[j]).wf(),
                i <= es2@.len(),
                es3@.len() == i,
                forall|j: int|
                    0 <= j < i ==> #[trigger] es3@[j] == spec_attack_kill(
                        c2.attack_area,
                        es2@[j],
                    ),
                forall|j: int| 0 <= j < i ==> (#[trigger] es3@[j]).wf(),
            decreases es2@.len() - i,
        {
            es3.push(attack_kill(&c2.attack_area, es2[i]));
            i = i + 1;
        }
        proof {
            assert(es3@ =~= spec_enemies_killed(c2.attack_area, es2@));
        }
        let prect = actor_rect(p4.pos, PLAYER_SIZE);
        let gate = p4.alive && c2.health > 0 && kb_start == 0;
        let mut hit: Option<usize> = None;
        if gate {
            let mut j: usize = 0;
            while j < es3.len() && hit.is_none()
                invariant
                    prect.wf(),
                    forall|k: int| 0 <= k < es3@.len() ==> (#[trigger] es3@[k]).wf(),
                    j <= es3@.len(),
                    hit is None ==> spec_first_contact_from(prect, es3@, 0)
                        == spec_first_contact_from(prect, es3@, j as int),
                    hit is Some ==> {
                        &&& (hit->Some_0 as int) < es3@.len()
                        &&& spec_first_contact_from(prect, es3@, 0) == Some(hit->Some_0 as int)
                    },
                decreases es3@.len() - j,
            {
                let e = es3[j];
                if e.alive {
                    let er = actor_rect(e.pos, ENEMY_SIZE);
                    if prect.overlap(&er).is_some() {
                        hit = Some(j);
                    }
                }
                j = j + 1;
            }
        }
        let pc = if gate {
            match hit {
                Option::Some(j) => apply_knockback(&p4, c2, es3[j].pos),
                Option::None => (p4, c2),
            }
        } else {
            (p4, c2)
        };
        let p5 = pc.0;
        let c3 = pc.1;
        proof {
            assert((p5, c3) == spec_contact_step(p4, c2, kb_start, es3@));
            assert(c3.wf());
            assert forall|k: int|
                0 <= k < self.golds@.len() implies (#[trigger] self.golds@[k]).wf() by {
                assert(self.golds@[k] == s0.golds[k]);
            }
        }
        let pickup = actor_rect(p5.pos, GOLD_SIZE);
        let mut kept: Vec<Vec2> = Vec::new();
        let gn = self.golds.len();
        let mut gi: usize = 0;
        while gi < gn
            invariant
                pickup.wf(),
                pickup == spec_actor_rect(p5.pos, GOLD_SIZE),
                p5.pos.wf(),
                gn == self.golds@.len(),
                self.golds@ == s0.golds,
                forall|k: int| 0 <= k < gn ==> (#[trigger] self.golds@[k]).wf(),
                gi <= gn,
                kept@ == spec_golds_kept(p5.pos, s0.golds, gi as int),
                kept@.len() <= gi,
                forall|k: int| 0 <= k < kept@.len() ==> (#[trigger] kept@[k]).wf(),
            decreases gn - gi,
        {
            let g = self.golds[gi];
            let gr = actor_rect(g, GOLD_SIZE);
            if pickup.overlap(&gr).is_none() {
                kept.push(g);
            }
            gi = gi + 1;
        }
        let ghost golds_kept = kept@;
        let mut new_score = self.score;
        if kept.len() < GOLD_TARGET {
            new_score = if self.score < u32::MAX {
                self.score + 1
            } else {
                self.score
            };
            let cells = gold_cells(lvl, p5.pos);
            if cells.len() > 0 {
                let idx = rand_below(rng, cells.len());
                let g = cell_center(cells[idx]);
                proof {
                    assert(spec_gold_cell_ok(lvl_g, p5.pos, cells@[idx as int]));
                }
                kept.push(g);
            }
        }
        let mut live: Vec<Entity> = Vec::new();
        i = 0;
        while i < es3.len()
            invariant
                forall|j: int| 0 <= j < es3@.len() ==> (#[trigger] es3@[j]).wf(),
                i <= es3@.len(),
                live@ == spec_live(es3@, i as int),
                forall|j: int| 0 <= j < live@.len() ==> (#[trigger] live@[j]).wf(),
            decreases es3@.len() - i,
        {
            let e = es3[i];
            if e.alive {
                live.push(e);
            }
            i = i + 1;
        }
        let new_ticks = if self.ticks < u64::MAX {
            self.ticks + 1
        } else {
            self.ticks
        };
        self.player = p5;
        self.combat = c3;
        self.enemies = live;
        self.golds = kept;
        self.score = new_score;
        self.ticks = new_ticks;
        proof {
            let t = spec_tick(lvl_g, s0, *input, dt);
            assert(c1 == spec_decay(s0.combat, dt));
            assert(vf == spec_control(p1, c1, *input));
            assert(c2 == spec_try_attack(c1, p2, input.attack));
            assert(p3.pos == spec_integrate(p2.pos, vel, dt));
            assert(p4.pos == spec_resolve_pos(lvl_g, p3.pos, PLAYER_SIZE));
            assert(self.player == t.player);
            assert(self.combat == t.combat);
            assert(self.enemies@ == t.enemies);
            assert(self.score == t.score);
            assert(self.ticks == t.ticks);
            assert(golds_kept == t.golds);
        }
    }

    /// Place up to `count` pieces of gold, each at the center of a random
    /// eligible open cell (never on the player's spot). When no cell is
    /// eligible nothing is placed; the same cell may be drawn repeatedly.
    /// Nothing else changes.
    pub fn spawn_gold(&mut self, count: usize, rng: &mut rand::rngs::ThreadRng)
        requires
            old(self).wf(),
            old(self).golds@.len() + count <= usize::MAX,
        ensures
            final(self).wf(),
            final(self).levels@ == old(self).levels@,
            final(self).level_index == old(self).level_index,
            final(self).player == old(self).player,
            final(self).enemies@ == old(self).enemies@,
            final(self).combat == old(self).combat,
            final(self).score == old(self).score,
            final(self).ticks == old(self).ticks,
            spec_exists_gold_cell(old(self).spec_level(), old(self).player.pos) ==> final(self).golds@.len() == old(self).golds@.len() + count,
            !spec_exists_gold_cell(old(self).spec_level(), old(self).player.pos) ==> final(self).golds@ == old(self).golds@,
            forall|i: int|
                0 <= i < old(self).golds@.len() ==> #[trigger] final(self).golds@[i] == old(self).golds@[i],
            forall|i: int|
                old(self).golds@.len() <= i < final(self).golds@.len() ==> exists|c: Coord|
                    spec_gold_cell_ok(old(self).spec_level(), old(self).player.pos, c)
                        && #[trigger] final(self).golds@[i] == spec_cell_center(c),
    {
        let cells = gold_cells(&self.levels[self.level_index], self.player.pos);
        if cells.len() == 0 {
            return ;
        }
        let ghost lvl = self.spec_level();
        let ghost ppos = self.player.pos;
        let ghost golds0 = self.golds@;
        proof {
            assert(old(self)@.wf());
            assert forall|i: int|
                0 <= i < self.golds@.len() implies (#[trigger] self.golds@[i]).wf() by {
                assert(self.golds@[i] == old(self)@.golds[i]);
            }
        }
        let mut k: usize = 0;
        while k < count
            invariant
                k <= count,
                golds0.len() + count <= usize::MAX,
                cells@.len() > 0,
                forall|i: int| 0 <= i < cells@.len() ==> spec_gold_cell_ok(lvl, ppos, #[trigger] cells@[i]),
                forall|i: int|
                    0 <= i < cells@.len() ==> ((#[trigger] cells@[i]).0 as int) < MAX_GRID && ((
                    cells@[i]).1 as int) < MAX_GRID,
                self.golds@.len() == golds0.len() + k,
                forall|i: int| 0 <= i < golds0.len() ==> #[trigger] self.golds@[i] == golds0[i],
                forall|i: int|
                    golds0.len() <= i < self.golds@.len() ==> exists|c: Coord|
                        spec_gold_cell_ok(lvl, ppos, c) && #[trigger] self.golds@[i]
                            == spec_cell_center(c),
                forall|i: int| 0 <= i < self.golds@.len() ==> (#[trigger] self.golds@[i]).wf(),
                self.levels@ == old(self).levels@,
                self.level_index == old(self).level_index,
                self.player == old(self).player,
                self.enemies@ == old(self).enemies@,
                self.combat == old(self).combat,
                self.score == old(self).score,
                self.ticks == old(self).ticks,
                old(self).wf(),
                lvl == old(self).spec_level(),
                ppos == old(self).player.pos,
                golds0 == old(self).golds@,
            decreases count - k,
        {
            let idx = rand_below(rng, cells.len());
            let g = cell_center(cells[idx]);
            proof {
                assert(spec_gold_cell_ok(lvl, ppos, cells@[idx as int]));
            }
            self.golds.push(g);
            k = k + 1;
        }
        proof {
            assert(old(self)@.wf());
            assert forall|i: int|
                0 <= i < self.enemies@.len() implies (#[trigger] self.enemies@[i]).wf() by {
                assert(self.enemies@[i] == old(self)@.enemies[i]);
            }
        }
    }

    /// Spawn one or two patrol enemies (the count is a random draw) at
    /// the centers of random eligible open cells, each with a random
    /// patrol axis. When no cell is clear of the player nothing spawns.
    /// Nothing else changes.
    pub fn spawn_enemies(&mut self, rng: &mut rand::rngs::ThreadRng)
        requires
            old(self).wf(),
            old(self).enemies@.len() + 2 <= usize::MAX,
        ensures
            final(self).wf(),
            final(self).levels@ == old(self).levels@,
            final(self).level_index == old(self).level_index,
            final(self).player == old(self).player,
            final(self).golds@ == old(self).golds@,
            final(self).combat == old(self).combat,
            final(self).score == old(self).score,
            final(self).ticks == old(self).ticks,
            old(self).enemies@.len() <= final(self).enemies@.len() <= old(self).enemies@.len()
                + 2,
            spec_exists_enemy_cell(old(self).spec_level(), old(self).player.pos) ==> old(self).enemies@.len() + 1 <= final(self).enemies@.len(),
            !spec_exists_enemy_cell(old(self).spec_level(), old(self).player.pos) ==> final(self).enemies@ == old(self).enemies@,
            forall|i: int|
                0 <= i < old(self).enemies@.len() ==> #[trigger] final(self).enemies@[i] == old(self).enemies@[i],
            forall|i: int|
                old(self).enemies@.len() <= i < final(self).enemies@.len()
                    ==> spec_spawned_enemy_ok(
                    old(self).spec_level(),
                    old(self).player.pos,
                    #[trigger] final(self).enemies@[i],
                ),
    {
        let cells = enemy_cells(&self.levels[self.level_index], self.player.pos);
        if cells.len() == 0 {
            return ;
        }
        let ghost lvl = self.spec_level();
        let ghost ppos = self.player.pos;
        let ghost enemies0 = self.enemies@;
        proof {
            assert(old(self)@.wf());
            assert forall|i: int|
                0 <= i < self.enemies@.len() implies (#[trigger] self.enemies@[i]).wf() by {
                assert(self.enemies@[i] == old(self)@.enemies[i]);
            }
        }
        let count = 1 + rand_below(rng, 2);
        let mut k: usize = 0;
        while k < count
            invariant
                k <= count <= 2,
                enemies0.len() + 2 <= usize::MAX,
                cells@.len() > 0,
                forall|i: int|
                    0 <= i < cells@.len() ==> spec_enemy_cell_ok(lvl, ppos, #[trigger] cells@[i]),
                forall|i: int|
                    0 <= i < cells@.len() ==> ((#[trigger] cells@[i]).0 as int) < MAX_GRID && ((
                    cells@[i]).1 as int) < MAX_GRID,
                self.enemies@.len() == enemies0.len() + k,
                forall|i: int| 0 <= i < enemies0.len() ==> #[trigger] self.enemies@[i]
                    == enemies0[i],
                forall|i: int|
                    enemies0.len() <= i < self.enemies@.len() ==> spec_spawned_enemy_ok(
                        lvl,
                        ppos,
                        #[trigger] self.enemies@[i],
                    ),
                forall|i: int| 0 <= i < self.enemies@.len() ==> (#[trigger] self.enemies@[i]).wf(),
                self.levels@ == old(self).levels@,
                self.level_index == old(self).level_index,
                self.player == old(self).player,
                self.golds@ == old(self).golds@,
                self.combat == old(self).combat,
                self.score == old(self).score,
                self.ticks == old(self).ticks,
                old(self).wf(),
                lvl == old(self).spec_level(),
                ppos == old(self).player.pos,
                enemies0 == old(self).enemies@,
            decreases count - k,
        {
            let idx = rand_below(rng, cells.len());
            let pattern = if rand_bool(rng) {
                MovementPattern::Horizontal
            } else {
                MovementPattern::Vertical
            };
            let e = Entity::new_enemy(cell_center(cells[idx]), pattern);
            proof {
                assert(spec_enemy_cell_ok(lvl, ppos, cells@[idx as int]));
            }
            self.enemies.push(e);
            k = k + 1;
        }
        proof {
            assert(old(self)@.wf());
            assert forall|i: int|
                0 <= i < self.golds@.len() implies (#[trigger] self.golds@[i]).wf() by {
                assert(self.golds@[i] == old(self)@.golds[i]);
            }
        }
    }

    /// How many sprites a renderer needs for the whole session: one per
    /// tile cell, one for the player, one per enemy and one per gold.
    pub fn calculate_total_sprites_needed(&self) -> (r: usize)
        requires
            self.wf(),
            self.spec_level().grid.width * self.spec_level().grid.height + 1
                + self.enemies@.len() + self.golds@.len() <= usize::MAX,
        ensures
            r == self.spec_level().grid.width * self.spec_level().grid.height + 1
                + self.enemies@.len() + self.golds@.len(),
    {
        let level_tiles = self.levels[self.level_index].sprite_count();
        let entity_count = 1 + self.enemies.len() + self.golds.len();
        level_tiles + entity_count
    }

    /// Enter the active level: the player moves to the level's player
    /// spawn (when it has one), and the spawn records are consumed into a
    /// fresh enemy collection. Nothing else changes.
    pub fn enter_level(&mut self)
        requires
            old(self).wf(),
        ensures
            final(self).wf(),
            final(self).levels@ == old(self).levels@,
            final(self).level_index == old(self).level_index,
            final(self).combat == old(self).combat,
            final(self).golds@ == old(self).golds@,
            final(self).score == old(self).score,
            final(self).ticks == old(self).ticks,
            final(self).player.facing == old(self).player.facing,
            final(self).player.alive == old(self).player.alive,
            ({
                let starts = old(self).spec_level().starts@;
                &&& crate::level::spec_has_player(starts) ==> final(self).player.pos
                    == starts[crate::level::spec_first_player_from(starts, 0)->Some_0].1
                &&& !crate::level::spec_has_player(starts) ==> final(self).player.pos == old(self).player.pos
                &&& final(self).enemies@ == spec_start_enemies(starts, starts.len() as int)
            }),
    {
        let lvl = &self.levels[self.level_index];
        let ghost starts = lvl.starts@;
        let start = lvl.player_start();
        let mut enemies: Vec<Entity> = Vec::new();
        let n = lvl.starts.len();
        let mut k: usize = 0;
        while k < n
            invariant
                n == lvl.starts@.len(),
                lvl.wf(),
                k <= n,
                enemies@ == spec_start_enemies(lvl.starts@, k as int),
            decreases n - k,
        {
            if matches!(lvl.starts[k].0, crate::level::EntityType::Enemy) {
                enemies.push(Entity::new_enemy(lvl.starts[k].1, MovementPattern::Chase));
            }
            k = k + 1;
        }
        proof {
            if crate::level::spec_has_player(starts) {
                crate::level::lemma_first_player_in_range(starts, 0);
                let j = crate::level::spec_first_player_from(starts, 0)->Some_0;
                assert(starts[j].1.wf());
            }
            lemma_start_enemies_wf(starts, n as int);
        }
        self.enemies = enemies;
        if let Option::Some(pos) = start {
            self.player = Player { pos, ..self.player };
        }
        proof {
            assert forall|i: int|
                0 <= i < self.enemies@.len() implies (#[trigger] self.enemies@[i]).wf() by {
                assert(self.enemies@[i] == spec_start_enemies(starts, starts.len() as int)[i]);
            }
            assert forall|i: int|
                0 <= i < self.golds@.len() implies (#[trigger] self.golds@[i]).wf() by {
                assert(self.golds@ == old(self).golds@);
                assert(old(self)@.golds == old(self).golds@);
                assert(old(self)@.wf());
                assert((old(self)@.golds[i]).wf());
                assert(self.golds@[i] == old(self)@.golds[i]);
            }
        }
    }
}


/// The attack hitbox is never empty, for any position and all four
/// facings.
pub proof fn lemma_attack_rect_nonempty(pos: Vec2, f: Direction)
    ensures
        !spec_attack_rect(pos, f).spec_is_empty(),
{
}

/// The attack-window shape is an invariant of the tick: after any tick
/// the hitbox is non-empty exactly while the attack timer is in the
/// active phase `(ATTACK_COOLDOWN_TIME, ATTACK_MAX_TIME]` — the window
/// opens full, loses its hitbox at the cooldown threshold, and control
/// returns only at zero.
pub proof fn lemma_attack_window_shape(lvl: Level, s: SessionView, input: TickInput, dt: i64)
    requires
        s.wf(),
        0 < dt <= SCALE,
    ensures
        ({
            let t = spec_tick(lvl, s, input, dt);
            &&& 0 <= t.combat.attack_timer <= ATTACK_MAX_TIME
            &&& (t.combat.attack_timer > ATTACK_COOLDOWN_TIME
                <==> !t.combat.attack_area.spec_is_empty())
        }),
{
    let c1 = spec_decay(s.combat, dt);
    assert(c1.wf());
}

/// An attack pressed while idle (both timers spent) by a live player
/// with health left opens the window at full length this very tick, with
/// the hitbox projected along the player's facing at that moment — for
/// all four facings.
pub proof fn lemma_attack_entry(lvl: Level, s: SessionView, input: TickInput, dt: i64)
    requires
        s.wf(),
        0 < dt <= SCALE,
        s.player.alive,
        s.combat.health > 0,
        s.combat.attack_timer <= dt,
        s.combat.knockback_timer <= dt,
        input.attack,
    ensures
        ({
            let t = spec_tick(lvl, s, input, dt);
            let f = spec_facing_from(input.ax, input.ay, s.player.facing);
            &&& t.combat.attack_timer == ATTACK_MAX_TIME
            &&& t.combat.attack_area == spec_attack_rect(s.player.pos, f)
            &&& !t.combat.attack_area.spec_is_empty()
        }),
{
}

/// Knockback idempotence: while the knockback timer runs, renewed
/// overlapping contact with enemies costs no further health; and
/// whenever a tick does change health, it is by exactly one, from a
/// fresh contact episode that arms the timer.
pub proof fn lemma_knockback_idempotent(lvl: Level, s: SessionView, input: TickInput, dt: i64)
    requires
        s.wf(),
    ensures
        s.combat.knockback_timer > 0 ==> spec_tick(lvl, s, input, dt).combat.health
            == s.combat.health,
        ({
            let t = spec_tick(lvl, s, input, dt);
            t.combat.health != s.combat.health ==> {
                &&& t.combat.health == s.combat.health - 1
                &&& t.combat.knockback_timer == KNOCKBACK_TIME
                &&& s.combat.knockback_timer == 0
            }
        }),
{
}

/// With health at zero the tick marks the player not alive and freezes
/// their movement — the velocity is forced to zero, so the position can
/// change only by collision resolution — while the enemies continue to
/// update through their full pipeline.
pub proof fn lemma_dead_player_freezes(lvl: Level, s: SessionView, input: TickInput, dt: i64)
    requires
        s.wf(),
        s.combat.health == 0,
        0 < dt <= SCALE,
    ensures
        ({
            let t = spec_tick(lvl, s, input, dt);
            &&& !t.player.alive
            &&& t.player.facing == s.player.facing
            &&& t.player.pos == spec_resolve_pos(lvl, s.player.pos, PLAYER_SIZE)
            &&& t.combat.health == 0
            &&& t.enemies == spec_live(
                spec_enemies_killed(
                    spec_decay(s.combat, dt).attack_area,
                    spec_enemies_resolved(
                        lvl,
                        spec_enemies_stepped(lvl, s.enemies, s.player.pos, dt),
                    ),
                ),
                s.enemies.len() as int,
            )
        }),
{
    let c1 = spec_decay(s.combat, dt);
    let p1 = Player { alive: false, ..s.player };
    let vf = spec_control(p1, c1, input);
    assert(vf.0 == Vec2::spec_zero());
    assert(div_trunc(0 * dt, SCALE as int) == 0) by {
        assert(0 * dt == 0) by (nonlinear_arith);
        vstd::arithmetic::div_mod::lemma_div_multiples_vanish(0, SCALE as int);
        assert((SCALE as int) * 0 == 0) by (nonlinear_arith);
    }
    assert(spec_integrate(p1.pos, vf.0, dt) == p1.pos);
}

/// Once the player is not alive, no later tick revives them.
pub proof fn lemma_death_is_permanent(lvl: Level, s: SessionView, input: TickInput, dt: i64)
    requires
        !s.player.alive,
    ensures
        !spec_tick(lvl, s, input, dt).player.alive,
{
}

} // verus!
