use tilesim::geom::{Direction, Rect, Vec2};
use tilesim::level::{EntityType, Level, SheetRegion, TileData};
use tilesim::sim::{
    Combat, Entity, MovementPattern, Session, SessionError, TickInput, ATTACK_MAX_TIME,
    KNOCKBACK_TIME, START_HEALTH,
};

const DT: i64 = 128;

fn tile(solid: bool) -> TileData {
    TileData { solid, sheet_region: SheetRegion { sheet: 0, x: 0, y: 0, depth: 16, w: 18, h: 18 } }
}

fn level_from(width: usize, height: usize, data: Vec<u8>, starts: Vec<(EntityType, Vec2)>) -> Level {
    Level::new(String::from("arena"), width, height, data, vec![tile(false), tile(true)], starts)
        .unwrap()
}

/// 5x5, all open, player starting at the center of cell (2,2).
fn open_level() -> Level {
    level_from(5, 5, vec![0; 25], vec![(EntityType::Player, Vec2 { x: 2560, y: 2560 })])
}

/// 5x5, all open but a solid tile at cell (3,2).
fn wall_level() -> Level {
    let mut data = vec![0; 25];
    data[2 * 5 + 3] = 1;
    level_from(5, 5, data, vec![(EntityType::Player, Vec2 { x: 2560, y: 2560 })])
}

/// 40x40, all open: big enough that cells clear of the player exist.
fn big_level() -> Level {
    level_from(40, 40, vec![0; 1600], vec![(EntityType::Player, Vec2 { x: 2560, y: 2560 })])
}

fn session(lvl: Level) -> Session {
    Session::new(vec![lvl], 0).unwrap()
}

fn idle_input() -> TickInput {
    TickInput { ax: 0, ay: 0, attack: false }
}

#[test]
fn session_new_rejects_bad_index() {
    let r = Session::new(vec![open_level()], 1);
    assert!(matches!(r.err(), Some(SessionError::BadIndex)));
}

#[test]
fn session_new_rejects_missing_player() {
    let mut lvl = open_level();
    lvl.starts = vec![(EntityType::Enemy, Vec2 { x: 2560, y: 2560 })];
    let r = Session::new(vec![lvl], 0);
    assert!(matches!(r.err(), Some(SessionError::NoPlayerSpawn)));
}

#[test]
fn session_starts_at_player_spawn() {
    let s = session(open_level());
    assert_eq!(s.player.pos, Vec2 { x: 2560, y: 2560 });
    assert!(s.player.alive);
    assert_eq!(s.combat.health, START_HEALTH);
    assert_eq!(s.combat.attack_timer, 0);
    assert_eq!(s.combat.knockback_timer, 0);
    assert!(s.combat.attack_area.is_empty());
    assert_eq!(s.score, 0);
    assert_eq!(s.ticks, 0);
    assert!(s.enemies.is_empty());
}

#[test]
fn enter_level_consumes_spawn_records() {
    let lvl = level_from(
        5,
        5,
        vec![0; 25],
        vec![
            (EntityType::Player, Vec2 { x: 2560, y: 2560 }),
            (EntityType::Enemy, Vec2 { x: 1536, y: 1536 }),
            (EntityType::Enemy, Vec2 { x: 3584, y: 3584 }),
        ],
    );
    let mut s = session(lvl);
    assert_eq!(s.enemies.len(), 2);
    assert_eq!(s.enemies[0].pos, Vec2 { x: 1536, y: 1536 });
    assert!(matches!(s.enemies[0].pattern, MovementPattern::Chase));
    assert!(s.enemies[0].alive);
    // Re-entering restores the spawn state.
    s.player.pos = Vec2 { x: 1536, y: 2560 };
    s.enemies.clear();
    s.enter_level();
    assert_eq!(s.player.pos, Vec2 { x: 2560, y: 2560 });
    assert_eq!(s.enemies.len(), 2);
}

#[test]
fn tick_counts_up() {
    let mut s = session(open_level());
    let mut rng = rand::thread_rng();
    s.simulate(&idle_input(), DT, &mut rng);
    s.simulate(&idle_input(), DT, &mut rng);
    assert_eq!(s.ticks, 2);
}

#[test]
fn player_moves_by_speed_times_dt() {
    let mut s = session(open_level());
    let mut rng = rand::thread_rng();
    // 5 units/s * (1/8)s = 640 subunits per tick.
    s.simulate(&TickInput { ax: 1, ay: 0, attack: false }, DT, &mut rng);
    assert_eq!(s.player.pos, Vec2 { x: 3200, y: 2560 });
    assert_eq!(s.player.facing, Direction::East);
    s.simulate(&TickInput { ax: 0, ay: -1, attack: false }, DT, &mut rng);
    assert_eq!(s.player.pos, Vec2 { x: 3200, y: 1920 });
    assert_eq!(s.player.facing, Direction::South);
}

#[test]
fn wall_stop() {
    // One tick's unconstrained movement would penetrate the wall tile by
    // 2 subunits; after resolution the penetration on x is exactly 0 and
    // y is unaffected.
    let mut s = session(wall_level());
    s.player.pos = Vec2 { x: 2178, y: 2560 };
    let mut rng = rand::thread_rng();
    s.simulate(&TickInput { ax: 1, ay: 0, attack: false }, DT, &mut rng);
    assert_eq!(s.player.pos, Vec2 { x: 2816, y: 2560 });
    let prect = Rect { x: 2816 - 256, y: 2560 - 256, w: 512, h: 512 };
    let wall = Rect { x: 3072, y: 2048, w: 1024, h: 1024 };
    assert_eq!(prect.overlap(&wall), None);
}

#[test]
fn attack_window_timeline() {
    let mut s = session(open_level());
    let mut rng = rand::thread_rng();
    let press = TickInput { ax: 0, ay: 0, attack: true };
    let push = TickInput { ax: 1, ay: 0, attack: false };
    s.simulate(&press, DT, &mut rng);
    assert_eq!(s.combat.attack_timer, ATTACK_MAX_TIME);
    assert!(!s.combat.attack_area.is_empty());
    // Movement is locked while the timer runs; the hitbox survives only
    // while the timer stays above the cooldown threshold.
    s.simulate(&push, DT, &mut rng);
    assert_eq!(s.combat.attack_timer, 384);
    assert!(!s.combat.attack_area.is_empty());
    assert_eq!(s.player.pos, Vec2 { x: 2560, y: 2560 });
    s.simulate(&push, DT, &mut rng);
    assert_eq!(s.combat.attack_timer, 256);
    assert!(s.combat.attack_area.is_empty());
    assert_eq!(s.player.pos, Vec2 { x: 2560, y: 2560 });
    s.simulate(&push, DT, &mut rng);
    assert_eq!(s.combat.attack_timer, 128);
    assert!(s.combat.attack_area.is_empty());
    assert_eq!(s.player.pos, Vec2 { x: 2560, y: 2560 });
    // The tick that spends the timer also returns control.
    s.simulate(&push, DT, &mut rng);
    assert_eq!(s.combat.attack_timer, 0);
    assert_eq!(s.player.pos, Vec2 { x: 3200, y: 2560 });
}

#[test]
fn repeated_press_does_not_restart_window() {
    let mut s = session(open_level());
    let mut rng = rand::thread_rng();
    let press = TickInput { ax: 0, ay: 0, attack: true };
    s.simulate(&press, DT, &mut rng);
    assert_eq!(s.combat.attack_timer, ATTACK_MAX_TIME);
    s.simulate(&press, DT, &mut rng);
    // A press while attacking is ignored: the timer keeps running down.
    assert_eq!(s.combat.attack_timer, 384);
}

#[test]
fn attack_rect_follows_facing() {
    for (ax, ay, cx, cy) in
        [(1, 0, 3072, 2560), (-1, 0, 2048, 2560), (0, 1, 2560, 3072), (0, -1, 2560, 2048)]
    {
        let mut s = session(open_level());
        let mut rng = rand::thread_rng();
        // One tick of movement sets the facing, the next presses attack.
        s.simulate(&TickInput { ax, ay, attack: false }, DT, &mut rng);
        s.player.pos = Vec2 { x: 2560, y: 2560 };
        s.simulate(&TickInput { ax: 0, ay: 0, attack: true }, DT, &mut rng);
        let area = s.combat.attack_area;
        assert!(!area.is_empty());
        assert_eq!(area, Rect { x: cx - 256, y: cy - 256, w: 512, h: 512 });
    }
}

#[test]
fn enemy_kill() {
    let mut s = session(open_level());
    s.player.facing = Direction::East;
    s.enemies.push(Entity::new_enemy(Vec2 { x: 3072, y: 2560 }, MovementPattern::Chase));
    let mut rng = rand::thread_rng();
    s.simulate(&TickInput { ax: 0, ay: 0, attack: true }, DT, &mut rng);
    // The enemy sat fully inside the freshly-opened attack area: it dies
    // this tick and is removed from the collection.
    assert!(s.enemies.is_empty());
    // And it never hurt the player on the way out.
    assert_eq!(s.combat.health, START_HEALTH);
}

#[test]
fn chase_enemy_steps_toward_player() {
    let mut s = session(open_level());
    s.enemies.push(Entity::new_enemy(Vec2 { x: 1536, y: 2560 }, MovementPattern::Chase));
    let mut rng = rand::thread_rng();
    s.simulate(&idle_input(), DT, &mut rng);
    // 2 units/s * (1/8)s = 256 subunits toward the player on x.
    assert_eq!(s.enemies[0].pos, Vec2 { x: 1792, y: 2560 });
    assert_eq!(s.enemies[0].dir, Vec2 { x: 1, y: 0 });
}

#[test]
fn patrol_enemy_bounces_off_walls() {
    let mut s = session(wall_level());
    // A horizontal patroller touching the wall tile: its next step
    // lands on solid ground, so it reverses and stays.
    s.enemies.push(Entity::new_enemy(Vec2 { x: 2816, y: 2560 }, MovementPattern::Horizontal));
    let mut rng = rand::thread_rng();
    s.simulate(&idle_input(), DT, &mut rng);
    assert_eq!(s.enemies[0].pos, Vec2 { x: 2816, y: 2560 });
    assert_eq!(s.enemies[0].dir, Vec2 { x: -1, y: 0 });
    // Next tick it walks away from the wall.
    s.simulate(&idle_input(), DT, &mut rng);
    assert_eq!(s.enemies[0].pos, Vec2 { x: 2560, y: 2560 });
}

#[test]
fn knockback_on_contact_and_idempotence() {
    let mut s = session(open_level());
    s.player.facing = Direction::South;
    s.enemies.push(Entity::new_enemy(Vec2 { x: 2816, y: 2560 }, MovementPattern::Vertical));
    let mut rng = rand::thread_rng();
    s.simulate(&idle_input(), DT, &mut rng);
    // The enemy stepped up into the player's box: one contact episode
    // costs exactly one health, arms the timer, and the one-time impulse
    // pushes the player away from the enemy.
    assert_eq!(s.combat.health, START_HEALTH - 1);
    assert_eq!(s.combat.knockback_timer, KNOCKBACK_TIME);
    assert_eq!(s.player.pos, Vec2 { x: 2198, y: 2198 });
    // While the timer runs, renewed contact costs nothing further.
    s.simulate(&idle_input(), DT, &mut rng);
    assert_eq!(s.combat.health, START_HEALTH - 1);
    assert_eq!(s.combat.knockback_timer, KNOCKBACK_TIME - DT);
}

#[test]
fn dead_player_freezes_but_enemies_move() {
    let mut s = session(open_level());
    s.combat.health = 0;
    s.enemies.push(Entity::new_enemy(Vec2 { x: 1536, y: 2560 }, MovementPattern::Chase));
    let mut rng = rand::thread_rng();
    s.simulate(&TickInput { ax: 1, ay: 0, attack: true }, DT, &mut rng);
    // Health forced to zero: the player is marked not alive and their
    // movement (and attack) input is ignored from this tick forward,
    // while the enemy keeps updating.
    assert!(!s.player.alive);
    assert_eq!(s.player.pos, Vec2 { x: 2560, y: 2560 });
    assert_eq!(s.combat.attack_timer, 0);
    assert_eq!(s.enemies[0].pos, Vec2 { x: 1792, y: 2560 });
    s.simulate(&TickInput { ax: 1, ay: 0, attack: false }, DT, &mut rng);
    assert!(!s.player.alive);
    assert_eq!(s.player.pos, Vec2 { x: 2560, y: 2560 });
}

#[test]
fn gold_pickup_scores_and_respawns() {
    let mut s = session(open_level());
    s.golds = vec![Vec2 { x: 2560, y: 2560 }, Vec2 { x: 1536, y: 1536 }];
    let mut rng = rand::thread_rng();
    s.simulate(&idle_input(), DT, &mut rng);
    // The gold under the player is collected; the population is below
    // the target, so the score rises and one new piece appears at an
    // open cell's center away from the player.
    assert_eq!(s.score, 1);
    assert_eq!(s.golds.len(), 2);
    assert_eq!(s.golds[0], Vec2 { x: 1536, y: 1536 });
    let fresh = s.golds[1];
    assert_ne!(fresh, s.player.pos);
    assert_eq!(fresh.x % 1024, 512);
    assert_eq!(fresh.y % 1024, 512);
    let lvl = &s.levels[0];
    assert!(!lvl.get_tile(fresh).unwrap().solid);
}

#[test]
fn spawn_enemies_needs_clearance() {
    // On a tiny level every open cell is within the clearance distance
    // of the player: nothing can spawn.
    let mut s = session(open_level());
    let mut rng = rand::thread_rng();
    s.spawn_enemies(&mut rng);
    assert!(s.enemies.is_empty());
}

#[test]
fn spawn_enemies_places_patrollers_far_from_player() {
    let mut s = session(big_level());
    let mut rng = rand::thread_rng();
    s.spawn_enemies(&mut rng);
    assert!(1 <= s.enemies.len() && s.enemies.len() <= 2);
    for e in &s.enemies {
        assert!(e.alive);
        assert!(
            (e.pos.x - s.player.pos.x).abs() > 15 * 1024
                || (e.pos.y - s.player.pos.y).abs() > 15 * 1024
        );
        assert_eq!(e.pos.x % 1024, 512);
        assert_eq!(e.pos.y % 1024, 512);
        match e.pattern {
            MovementPattern::Horizontal => assert_eq!(e.dir, Vec2 { x: 1, y: 0 }),
            MovementPattern::Vertical => assert_eq!(e.dir, Vec2 { x: 0, y: 1 }),
            MovementPattern::Chase => panic!("spawner only places patrollers"),
        }
    }
}

#[test]
fn spawn_gold_fills_open_cells() {
    let mut s = session(big_level());
    let mut rng = rand::thread_rng();
    s.spawn_gold(50, &mut rng);
    assert_eq!(s.golds.len(), 50);
    for g in &s.golds {
        assert_ne!(*g, s.player.pos);
        assert_eq!(g.x % 1024, 512);
        assert_eq!(g.y % 1024, 512);
    }
}

#[test]
fn zero_length_knockback_impulse_is_zero() {
    // An enemy exactly coincident with the player: the knockback
    // direction has zero length and normalizes to the zero vector, so
    // the impulse moves nobody; damage and timer still apply.
    let mut s = session(open_level());
    let mut e = Entity::new_enemy(Vec2 { x: 2560, y: 2560 }, MovementPattern::Horizontal);
    e.dir = Vec2 { x: 0, y: 0 };
    s.enemies.push(e);
    let mut rng = rand::thread_rng();
    s.simulate(&idle_input(), DT, &mut rng);
    assert_eq!(s.combat.health, START_HEALTH - 1);
    assert_eq!(s.combat.knockback_timer, KNOCKBACK_TIME);
    assert_eq!(s.player.pos, Vec2 { x: 2560, y: 2560 });
}

#[test]
fn combat_idle_state() {
    let c = Combat::idle();
    assert_eq!(c.health, START_HEALTH);
    assert_eq!(c.attack_timer, 0);
    assert_eq!(c.knockback_timer, 0);
    assert!(c.attack_area.is_empty());
}

#[test]
fn knockback_forces_backward_movement() {
    let mut s = session(open_level());
    s.player.facing = Direction::East;
    s.enemies.push(Entity::new_enemy(Vec2 { x: 2816, y: 2560 }, MovementPattern::Vertical));
    let mut rng = rand::thread_rng();
    s.simulate(&idle_input(), DT, &mut rng);
    assert_eq!(s.combat.knockback_timer, KNOCKBACK_TIME);
    let after_hit = s.player.pos;
    // While knocked back the player is forced backward (west, away from
    // the east facing) at the knockback speed, whatever the input says:
    // 4 units/s * (1/8)s = 512 subunits per tick.
    s.simulate(&TickInput { ax: 1, ay: 0, attack: false }, DT, &mut rng);
    assert_eq!(s.player.pos, Vec2 { x: after_hit.x - 512, y: after_hit.y });
    assert_eq!(s.player.facing, Direction::East);
}

#[test]
fn two_golds_collected_in_one_tick() {
    let mut s = session(open_level());
    s.golds = vec![
        Vec2 { x: 2560, y: 2560 },
        Vec2 { x: 2660, y: 2560 },
        Vec2 { x: 1536, y: 1536 },
    ];
    let mut rng = rand::thread_rng();
    s.simulate(&idle_input(), DT, &mut rng);
    // Both pieces inside the pickup box go at once; one respawn follows.
    assert_eq!(s.golds.len(), 2);
    assert_eq!(s.golds[0], Vec2 { x: 1536, y: 1536 });
    assert_eq!(s.score, 1);
}

#[test]
fn session_on_second_level() {
    let s = Session::new(vec![wall_level(), open_level()], 1).unwrap();
    assert_eq!(s.level_index, 1);
    assert_eq!(s.player.pos, Vec2 { x: 2560, y: 2560 });
}

#[test]
fn sprite_count_accounts_for_everything() {
    let mut s = session(open_level());
    s.enemies.push(Entity::new_enemy(Vec2 { x: 1536, y: 1536 }, MovementPattern::Chase));
    s.golds = vec![Vec2 { x: 1536, y: 2560 }, Vec2 { x: 3584, y: 2560 }];
    assert_eq!(s.calculate_total_sprites_needed(), 25 + 1 + 1 + 2);
}
