use invaders::components::{
    Direction, EntityKind, EntityRec, Position, PrevPosition, ProjectileSpawner, Renderable,
    Velocity,
};
use invaders::state::{
    GameNetworking, GameState, MainMenu, MenuItem, PlayerInputHandler, Screen,
};
use invaders::store::Store;
use invaders::systems::{
    enemy_collision_detection, player_collision_detection, process_enemies, process_tick,
};

fn rec(kind: EntityKind, x: u16, y: u16, speed: i64, width: u16) -> EntityRec {
    EntityRec {
        kind,
        position: Position { x, y },
        prev_position: PrevPosition { x, y },
        velocity: Velocity { speed, move_accumulator: 0, direction: Direction::Still },
        renderable: Renderable {
            sprite_top: "x",
            sprite_bottom: "x",
            width,
            destroy: false,
            erased: false,
        },
        projectile_spawner: None,
    }
}

fn enemy_with_probability(x: u16, y: u16, probability: u64) -> EntityRec {
    EntityRec {
        projectile_spawner: Some(ProjectileSpawner { probability, projectile_speed: -20_000 }),
        ..rec(EntityKind::Enemy, x, y, 20_000, 5)
    }
}

fn bare_state(world: Store, player_slot: usize) -> GameState {
    GameState {
        world,
        player_lives: 3,
        player_entity: invaders::store::EntityId(player_slot),
        player_projectile_exists: false,
        enemy_direction: Direction::Right,
        score_updated: false,
        score: 0,
        high_score: 0,
        enemy_speed_multiplier: 1000,
        enemy_proj_prob_multiplier: 1000,
        enemy_amount: 30,
        game_over: false,
        game_over_notifier: false,
        paused: false,
        pause_notifier: false,
        restart_notifier: false,
        player_input_handler: PlayerInputHandler {
            player_shoot: false,
            move_player_left: false,
            move_player_right: false,
        },
        main_menu: MainMenu { active_menu_item: MenuItem::PlaySolo, screen: Screen::Game },
        networking: GameNetworking {
            stay_online: false,
            host: false,
            listener_active: false,
            peer: None,
        },
        request_clear_render: false,
    }
}

fn count_kind_slots(gs: &GameState, kind: EntityKind) -> usize {
    let mut n = 0;
    for i in 0..gs.world.slot_count() {
        if let Some(r) = gs.world.slot(i) {
            if r.kind == kind {
                n += 1;
            }
        }
    }
    n
}

#[test]
fn collision_determinism() {
    // Scenario: player projectile at (20, 10), enemy at (18, 10) of width 5
    // resolves as a hit: both flagged destroyed, score up by ten, one fewer
    // enemy remaining.
    let mut world = Store::new();
    world.create(rec(EntityKind::Player, 55, 7, 60_000, 5));
    world.create(enemy_with_probability(18, 10, 0));
    world.create(rec(EntityKind::PlayerProjectile, 20, 10, 60_000, 1));
    let mut gs = bare_state(world, 0);
    gs.player_projectile_exists = true;

    enemy_collision_detection(&mut gs);

    assert_eq!(gs.score, 10);
    assert!(gs.score_updated);
    assert_eq!(gs.enemy_amount, 29);
    assert!(gs.world.slot(1).unwrap().renderable.destroy);
    assert!(gs.world.slot(2).unwrap().renderable.destroy);
    // positions untouched by the resolution
    assert_eq!(gs.world.slot(1).unwrap().position.x, 18);
}

#[test]
fn collision_miss_changes_nothing() {
    // One row off: no hit, no score, nothing flagged.
    let mut world = Store::new();
    world.create(rec(EntityKind::Player, 55, 7, 60_000, 5));
    world.create(enemy_with_probability(18, 11, 0));
    world.create(rec(EntityKind::PlayerProjectile, 20, 10, 60_000, 1));
    let mut gs = bare_state(world, 0);
    gs.player_projectile_exists = true;

    enemy_collision_detection(&mut gs);

    assert_eq!(gs.score, 0);
    assert_eq!(gs.enemy_amount, 30);
    assert!(!gs.world.slot(1).unwrap().renderable.destroy);
    assert!(!gs.world.slot(2).unwrap().renderable.destroy);
}

#[test]
fn wave_exhaustion() {
    // Scenario: one enemy left; a hit escalates the difficulty multipliers
    // (speed by a fifth, probability threefold) and respawns a full wave of
    // thirty at the new difficulty.
    let mut world = Store::new();
    world.create(rec(EntityKind::Player, 55, 7, 60_000, 5));
    world.create(enemy_with_probability(18, 10, 100));
    world.create(rec(EntityKind::PlayerProjectile, 20, 10, 60_000, 1));
    let mut gs = bare_state(world, 0);
    gs.player_projectile_exists = true;
    gs.enemy_amount = 1;

    enemy_collision_detection(&mut gs);

    assert_eq!(gs.enemy_speed_multiplier, 1200);
    assert_eq!(gs.enemy_proj_prob_multiplier, 3000);
    assert_eq!(gs.enemy_amount, 30);
    assert_eq!(gs.world.slot_count(), 33);
    assert_eq!(count_kind_slots(&gs, EntityKind::Enemy), 31);
    // the fresh wave carries the escalated difficulty
    let fresh = gs.world.slot(3).unwrap();
    assert_eq!(fresh.velocity.speed, 24_000);
    assert_eq!(fresh.projectile_spawner.unwrap().probability, 300);
    // the grid anchors at column 6, row 38
    assert_eq!(fresh.position.x, 6);
    assert_eq!(fresh.position.y, 38);
}

#[test]
fn lives_to_gameover() {
    // Scenario: one life left, an enemy projectile overlaps the player's
    // two-row box: the life is gone and the game-over signal raised, and
    // any number of simultaneous overlaps cost exactly that one life.
    let mut world = Store::new();
    world.create(rec(EntityKind::Player, 55, 7, 60_000, 5));
    world.create(rec(EntityKind::EnemyProjectile, 57, 8, -20_000, 1));
    world.create(rec(EntityKind::EnemyProjectile, 58, 8, -20_000, 1));
    let mut gs = bare_state(world, 0);
    gs.player_lives = 1;

    player_collision_detection(&mut gs);

    assert_eq!(gs.player_lives, 0);
    assert!(gs.game_over_notifier);
    assert!(gs.score_updated);
    assert!(gs.world.slot(1).unwrap().renderable.destroy);
    assert!(gs.world.slot(2).unwrap().renderable.destroy);
}

#[test]
fn simultaneous_hits_cost_one_life() {
    let mut world = Store::new();
    world.create(rec(EntityKind::Player, 55, 7, 60_000, 5));
    world.create(rec(EntityKind::EnemyProjectile, 55, 8, -20_000, 1));
    world.create(rec(EntityKind::EnemyProjectile, 60, 8, -20_000, 1));
    let mut gs = bare_state(world, 0);
    gs.player_lives = 3;

    player_collision_detection(&mut gs);

    assert_eq!(gs.player_lives, 2);
    assert!(!gs.game_over_notifier);
}

#[test]
fn certain_fire_chance_fires_every_enemy() {
    // A probability at the full chance scale beats every possible draw, so
    // each enemy fires exactly one projectile this tick.
    let mut world = Store::new();
    world.create(rec(EntityKind::Player, 55, 7, 60_000, 5));
    for col in 0..5u16 {
        world.create(enemy_with_probability(6 + col * 7, 30, 100_000));
    }
    let mut gs = bare_state(world, 0);

    process_enemies(16, &mut gs);

    assert_eq!(count_kind_slots(&gs, EntityKind::EnemyProjectile), 5);
    // fired one row below the enemy, centred on its sprite
    let p = gs.world.slot(6).unwrap();
    assert_eq!(p.kind, EntityKind::EnemyProjectile);
    assert_eq!(p.position.x, 8);
    assert_eq!(p.position.y, 29);
    assert_eq!(p.velocity.speed, -20_000);
}

#[test]
fn zero_fire_chance_never_fires() {
    let mut world = Store::new();
    world.create(rec(EntityKind::Player, 55, 7, 60_000, 5));
    for col in 0..5u16 {
        world.create(enemy_with_probability(6 + col * 7, 30, 0));
    }
    let mut gs = bare_state(world, 0);

    for _ in 0..50 {
        process_enemies(16, &mut gs);
    }
    assert_eq!(count_kind_slots(&gs, EntityKind::EnemyProjectile), 0);
}

#[test]
fn wave_flips_direction_and_drops_at_wall() {
    // An enemy already at the right wall forces the whole flock to turn and
    // step one row down in the same tick.
    let mut world = Store::new();
    world.create(rec(EntityKind::Player, 55, 7, 60_000, 5));
    let mut e = enemy_with_probability(112, 30, 0);
    e.velocity.move_accumulator = 999;
    world.create(e);
    world.create(enemy_with_probability(50, 30, 0));
    let mut gs = bare_state(world, 0);
    gs.enemy_direction = Direction::Right;

    process_enemies(16, &mut gs);

    assert!(matches!(gs.enemy_direction, Direction::Left));
    let wall = gs.world.slot(1).unwrap();
    assert_eq!(wall.position.x, 113);
    assert_eq!(wall.position.y, 29);
    let other = gs.world.slot(2).unwrap();
    assert_eq!(other.position.y, 29);
    assert!(!gs.game_over_notifier);
}

#[test]
fn wave_reaching_danger_row_raises_game_over() {
    let mut world = Store::new();
    world.create(rec(EntityKind::Player, 55, 7, 60_000, 5));
    let mut e = enemy_with_probability(112, 11, 0);
    e.velocity.move_accumulator = 999;
    world.create(e);
    let mut gs = bare_state(world, 0);
    gs.enemy_direction = Direction::Right;

    process_enemies(16, &mut gs);

    assert_eq!(gs.world.slot(1).unwrap().position.y, 10);
    assert!(gs.game_over_notifier);
}

#[test]
fn tick_keeps_accumulators_sub_cell() {
    let mut gs = invaders::systems::restart_world(0);
    for _ in 0..300 {
        process_tick(20, &mut gs).unwrap();
        for i in 0..gs.world.slot_count() {
            if let Some(r) = gs.world.slot(i) {
                assert!(r.velocity.move_accumulator.abs() < 1000);
            }
        }
    }
}
