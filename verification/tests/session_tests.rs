use invaders::components::{Direction, EntityKind};
use invaders::events::{handle_event, GameEvent};
use invaders::session::{
    clamp_dt, connection_action, game_bounds, handle_quit, mark_erased, session_step, NetAction,
};
use invaders::state::{GameNetworking, MenuItem, Screen};
use invaders::store::{EntityId, Store, StoreError};
use invaders::systems::{create_world, process_tick, restart_world};

fn count_kind_slots(gs: &invaders::state::GameState, kind: EntityKind) -> usize {
    let mut n = 0;
    for i in 0..gs.world.slot_count() {
        if let Some(r) = gs.world.slot(i) {
            if r.kind == kind {
                n += 1;
            }
        }
    }
    n
}

#[test]
fn fresh_world_layout() {
    let gs = create_world();
    assert_eq!(gs.world.slot_count(), 31);
    assert_eq!(count_kind_slots(&gs, EntityKind::Player), 1);
    assert_eq!(count_kind_slots(&gs, EntityKind::Enemy), 30);
    assert_eq!(gs.player_lives, 3);
    assert_eq!(gs.score, 0);
    assert_eq!(gs.enemy_amount, 30);
    assert!(matches!(gs.main_menu.screen, Screen::Main));
    let player = gs.world.slot(0).unwrap();
    assert_eq!((player.position.x, player.position.y), (55, 7));
    // the enemy grid: ten columns seven apart, three rows four apart
    let first = gs.world.slot(1).unwrap();
    assert_eq!((first.position.x, first.position.y), (6, 38));
    let last = gs.world.slot(30).unwrap();
    assert_eq!((last.position.x, last.position.y), (69, 30));
}

#[test]
fn single_in_flight_projectile() {
    // Shooting twice in succession never yields two live player
    // projectiles, and the guard flag matches the store's content.
    let mut gs = restart_world(0);
    handle_event(GameEvent::PlayerShoot, &mut gs);
    process_tick(16, &mut gs).unwrap();
    assert_eq!(count_kind_slots(&gs, EntityKind::PlayerProjectile), 1);
    assert!(gs.player_projectile_exists);

    handle_event(GameEvent::PlayerShoot, &mut gs);
    process_tick(16, &mut gs).unwrap();
    process_tick(16, &mut gs).unwrap();
    assert_eq!(count_kind_slots(&gs, EntityKind::PlayerProjectile), 1);
    assert!(gs.player_projectile_exists);
}

#[test]
fn clamp_idempotence() {
    // Holding left from the left wall never drives the player below it;
    // holding right from the right wall never drives it beyond.
    let mut gs = restart_world(0);
    handle_event(GameEvent::MovePlayerLeft, &mut gs);
    for _ in 0..300 {
        process_tick(20, &mut gs).unwrap();
        assert!(gs.world.slot(0).unwrap().position.x >= 2);
    }
    assert_eq!(gs.world.slot(0).unwrap().position.x, 2);

    handle_event(GameEvent::MovePlayerLeftEnd, &mut gs);
    handle_event(GameEvent::MovePlayerRight, &mut gs);
    for _ in 0..600 {
        process_tick(20, &mut gs).unwrap();
        assert!(gs.world.slot(0).unwrap().position.x <= 113);
    }
    assert_eq!(gs.world.slot(0).unwrap().position.x, 113);
}

#[test]
fn destroy_erase_despawn_protocol() {
    // A projectile that flies off the top is flagged for destruction but
    // stays in the store until the renderer acknowledges erasing it.
    let mut gs = restart_world(0);
    handle_event(GameEvent::PlayerShoot, &mut gs);
    process_tick(16, &mut gs).unwrap();
    handle_event(GameEvent::PlayerShootEnd, &mut gs);
    let proj_slot = (0..gs.world.slot_count())
        .find(|&i| {
            gs.world.slot(i).map_or(false, |r| r.kind == EntityKind::PlayerProjectile)
        })
        .unwrap();

    for _ in 0..60 {
        process_tick(20, &mut gs).unwrap();
    }
    let proj = gs.world.slot(proj_slot).unwrap();
    assert!(proj.renderable.destroy, "projectile should have flown off the top");
    assert!(gs.player_projectile_exists, "still tracked while unerased");

    // a few more ticks: never removed before the erase acknowledgement
    for _ in 0..5 {
        process_tick(20, &mut gs).unwrap();
        assert!(gs.world.slot(proj_slot).is_some());
    }

    mark_erased(&mut gs, invaders::store::EntityId(proj_slot));
    assert!(gs.world.slot(proj_slot).unwrap().renderable.erased);
    process_tick(20, &mut gs).unwrap();
    assert!(gs.world.slot(proj_slot).is_none());
    assert!(!gs.player_projectile_exists);

    // and the guard being clear lets a new shot through
    handle_event(GameEvent::PlayerShoot, &mut gs);
    process_tick(16, &mut gs).unwrap();
    assert_eq!(count_kind_slots(&gs, EntityKind::PlayerProjectile), 1);
}

#[test]
fn mark_erased_requires_destroy_flag() {
    let mut gs = restart_world(0);
    let player_id = gs.player_entity;
    mark_erased(&mut gs, player_id);
    assert!(!gs.world.slot(0).unwrap().renderable.erased);
}

#[test]
fn restart_preserves_high_score() {
    // Scenario: score 150 against a high score of 100 at game over; the
    // high score becomes 150 and a restart starts back at zero with the
    // high score retained.
    let mut gs = restart_world(0);
    gs.score = 150;
    gs.high_score = 100;
    gs.game_over_notifier = true;

    let report = session_step(&mut gs, 16).unwrap();
    assert!(report.game_over_shown);
    assert!(report.new_high_score);
    assert!(!report.simulated);
    assert!(gs.game_over);
    assert_eq!(gs.high_score, 150);
    assert_eq!(gs.score, 150);

    handle_event(GameEvent::Restart, &mut gs);
    let report = session_step(&mut gs, 16).unwrap();
    assert!(report.restarted);
    assert_eq!(gs.score, 0);
    assert_eq!(gs.high_score, 150);
    assert!(!gs.game_over);
    assert_eq!(gs.player_lives, 3);
    assert_eq!(gs.world.slot_count(), 31);
}

#[test]
fn game_over_without_new_high_score() {
    let mut gs = restart_world(0);
    gs.score = 50;
    gs.high_score = 100;
    gs.game_over_notifier = true;
    let report = session_step(&mut gs, 16).unwrap();
    assert!(report.game_over_shown);
    assert!(!report.new_high_score);
    assert_eq!(gs.high_score, 100);
}

#[test]
fn pause_halts_simulation() {
    let mut gs = restart_world(0);
    handle_event(GameEvent::Pause, &mut gs);
    assert!(gs.pause_notifier);

    let report = session_step(&mut gs, 16).unwrap();
    assert!(report.pause_toggled);
    assert!(!report.simulated);
    assert!(gs.paused);

    // a paused tick is consumed without simulating
    let before = gs.world.slot_count();
    let report = session_step(&mut gs, 16).unwrap();
    assert!(!report.simulated);
    assert_eq!(gs.world.slot_count(), before);

    handle_event(GameEvent::Pause, &mut gs);
    let report = session_step(&mut gs, 16).unwrap();
    assert!(report.pause_toggled);
    assert!(!gs.paused);
    assert!(report.simulated);
}

#[test]
fn pause_refused_after_game_over() {
    let mut gs = restart_world(0);
    gs.game_over = true;
    handle_event(GameEvent::Pause, &mut gs);
    assert!(!gs.pause_notifier);
}

#[test]
fn menu_screen_skips_simulation() {
    let mut gs = create_world();
    let report = session_step(&mut gs, 16).unwrap();
    assert!(report.menu_screen);
    assert!(!report.simulated);
    assert_eq!(gs.world.slot_count(), 31);
}

#[test]
fn menu_navigation_cycles_and_starts_solo() {
    let mut gs = create_world();
    assert!(matches!(gs.main_menu.active_menu_item, MenuItem::HostGame));
    handle_event(GameEvent::MovePlayerRight, &mut gs);
    assert!(matches!(gs.main_menu.active_menu_item, MenuItem::JoinGame));
    handle_event(GameEvent::MovePlayerRight, &mut gs);
    assert!(matches!(gs.main_menu.active_menu_item, MenuItem::PlaySolo));
    handle_event(GameEvent::MovePlayerLeft, &mut gs);
    assert!(matches!(gs.main_menu.active_menu_item, MenuItem::JoinGame));
    handle_event(GameEvent::MovePlayerLeft, &mut gs);
    assert!(matches!(gs.main_menu.active_menu_item, MenuItem::HostGame));
    handle_event(GameEvent::MovePlayerLeft, &mut gs);
    assert!(matches!(gs.main_menu.active_menu_item, MenuItem::PlaySolo));
    handle_event(GameEvent::PlayerShoot, &mut gs);
    assert!(matches!(gs.main_menu.screen, Screen::Game));
    assert!(gs.request_clear_render);
}

#[test]
fn opposing_keys_resolve_deterministically() {
    let mut gs = restart_world(0);
    handle_event(GameEvent::MovePlayerRight, &mut gs);
    handle_event(GameEvent::MovePlayerLeft, &mut gs);
    assert!(matches!(
        gs.world.slot(0).unwrap().velocity.direction,
        Direction::Left
    ));
    // releasing left while right is still held resumes rightward motion
    handle_event(GameEvent::MovePlayerLeftEnd, &mut gs);
    assert!(matches!(
        gs.world.slot(0).unwrap().velocity.direction,
        Direction::Right
    ));
    handle_event(GameEvent::MovePlayerRightEnd, &mut gs);
    assert!(matches!(
        gs.world.slot(0).unwrap().velocity.direction,
        Direction::Still
    ));
}

#[test]
fn quit_falls_back_to_menu_then_exits() {
    let mut gs = restart_world(0);
    assert!(!handle_quit(&mut gs));
    assert!(matches!(gs.main_menu.screen, Screen::Main));
    assert!(gs.restart_notifier);
    assert!(gs.request_clear_render);
    assert!(handle_quit(&mut gs));
}

#[test]
fn tick_event_alone_requests_simulation() {
    let mut gs = restart_world(0);
    assert!(handle_event(GameEvent::Tick, &mut gs));
    assert!(!handle_event(GameEvent::Quit, &mut gs));
    assert!(!handle_event(GameEvent::ResizeGame, &mut gs));
    assert!(!handle_event(GameEvent::PlayerShoot, &mut gs));
}

#[test]
fn client_connection_recorded() {
    let mut gs = restart_world(0);
    let addr = invaders::state::PeerAddr { ip0: 127, ip1: 0, ip2: 0, ip3: 1, port: 23471 };
    handle_event(GameEvent::ClientConnected(addr), &mut gs);
    assert_eq!(gs.networking.peer, Some(addr));
}

#[test]
fn clamp_dt_window() {
    assert_eq!(clamp_dt(0), 16);
    assert_eq!(clamp_dt(15), 16);
    assert_eq!(clamp_dt(16), 16);
    assert_eq!(clamp_dt(18), 18);
    assert_eq!(clamp_dt(20), 20);
    assert_eq!(clamp_dt(1000), 20);
}

#[test]
fn connection_actions() {
    let mut net = GameNetworking {
        stay_online: false,
        host: false,
        listener_active: false,
        peer: None,
    };
    assert_eq!(connection_action(&net), NetAction::Idle);
    net.listener_active = true;
    assert_eq!(connection_action(&net), NetAction::AbortTask);
    net.stay_online = true;
    assert_eq!(connection_action(&net), NetAction::Idle);
    net.listener_active = false;
    assert_eq!(connection_action(&net), NetAction::SpawnJoinTask);
    net.host = true;
    assert_eq!(connection_action(&net), NetAction::SpawnHostTask);
}

#[test]
fn networking_host_and_reset() {
    let mut net = GameNetworking {
        stay_online: false,
        host: true,
        listener_active: true,
        peer: Some(invaders::state::PeerAddr { ip0: 1, ip1: 2, ip2: 3, ip3: 4, port: 5 }),
    };
    net.host();
    assert!(net.stay_online);
    net.reset();
    assert!(!net.stay_online && !net.host && !net.listener_active && net.peer.is_none());
}

#[test]
fn game_bounds_centred() {
    let (left, right, top, bottom) = game_bounds(140, 50);
    assert_eq!((left, right, top, bottom), (10, 129, 5, 45));
    // a terminal narrower than the playfield pins the frame at zero
    let (left, _, top, _) = game_bounds(100, 30);
    assert_eq!((left, top), (0, 0));
}

#[test]
fn store_destroy_detects_stale_ids() {
    let mut store = Store::new();
    let id = store.create(
        invaders::systems::restart_world(0).world.slot(0).unwrap(),
    );
    assert_eq!(store.destroy(id), Ok(()));
    assert_eq!(store.destroy(id), Err(StoreError::EntityNotFound));
    assert_eq!(store.destroy(EntityId(7)), Err(StoreError::EntityNotFound));
    assert!(store.slot(0).is_none());
    assert_eq!(store.slot_count(), 1);
}
