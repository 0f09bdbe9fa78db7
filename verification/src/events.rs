//! The closed set of discrete input signals the simulation consumes, and
//! the handler that folds one signal into the session state.
//!
//! Movement and shoot signals come in start/end pairs so simultaneous
//! opposing inputs resolve deterministically: releasing one held key resumes
//! whatever the other held key asks for.

use vstd::prelude::*;

use crate::components::Direction;
use crate::components::EntityKind;
use crate::components::EntityRec;
use crate::components::Velocity;
use crate::state::count_kind;
use crate::state::kind_weight;
use crate::state::rec_bounds;
use crate::state::slots_wf;
use crate::state::GameNetworking;
use crate::state::GameState;
use crate::state::MainMenu;
use crate::state::MenuItem;
use crate::state::PeerAddr;
use crate::state::PlayerInputHandler;
use crate::state::Screen;
use crate::store::Store;

verus! {

/// A discrete signal from the input sources: the fixed-interval ticker, the
/// keyboard capture loop, or the peer-connection task.
#[derive(Clone, Copy, PartialEq, Eq, Structural, Debug)]
pub enum GameEvent {
    ResizeGame,
    Tick,
    Quit,
    MovePlayerLeft,
    MovePlayerLeftEnd,
    MovePlayerRight,
    MovePlayerRightEnd,
    PlayerShoot,
    PlayerShootEnd,
    Pause,
    Restart,
    ClientConnected(PeerAddr),
}

/// The menu entry one step to the left of the given one (wrapping).
pub open spec fn menu_cycle_left(m: MenuItem) -> MenuItem {
    match m {
        MenuItem::HostGame => MenuItem::PlaySolo,
        MenuItem::JoinGame => MenuItem::HostGame,
        MenuItem::PlaySolo => MenuItem::JoinGame,
    }
}

/// The menu entry one step to the right of the given one (wrapping).
pub open spec fn menu_cycle_right(m: MenuItem) -> MenuItem {
    match m {
        MenuItem::HostGame => MenuItem::JoinGame,
        MenuItem::JoinGame => MenuItem::PlaySolo,
        MenuItem::PlaySolo => MenuItem::HostGame,
    }
}

/// One store slot after a steering signal: player bundles point in the new
/// direction, everything else is untouched.
pub open spec fn dir_slot(slot: Option<EntityRec>, d: Direction) -> Option<EntityRec> {
    match slot {
        Some(r) => if r.kind is Player {
            Some(EntityRec { velocity: Velocity { direction: d, ..r.velocity }, ..r })
        } else {
            Some(r)
        },
        None => None,
    }
}

/// Points every player entity in the given direction.
fn set_player_directions(d: Direction, world: &mut Store)
    requires
        slots_wf(old(world)@),
    ensures
        final(world)@.len() == old(world)@.len(),
        forall|i: int|
            0 <= i < old(world)@.len() ==> final(world)@[i] == dir_slot(
                #[trigger] old(world)@[i],
                d,
            ),
        slots_wf(final(world)@),
        forall|k: EntityKind| #[trigger] count_kind(final(world)@, k) == count_kind(old(world)@, k),
{
    let ghost s = world@;
    let n = world.slot_count();
    let mut i: usize = 0;
    while i < n
        invariant
            i <= n,
            n == s.len(),
            world@.len() == s.len(),
            slots_wf(s),
            forall|j: int| 0 <= j < i ==> world@[j] == dir_slot(#[trigger] s[j], d),
            forall|j: int| i <= j < n ==> world@[j] == s[j],
        decreases n - i,
    {
        if let Some(rec) = world.slot(i) {
            if rec.kind == EntityKind::Player {
                let steered = EntityRec {
                    velocity: Velocity { direction: d, ..rec.velocity },
                    ..rec
                };
                world.set(i, steered);
            }
        }
        i = i + 1;
    }
    proof {
        assert forall|i2: int| 0 <= i2 < final(world)@.len() implies (
        #[trigger] final(world)@[i2] matches Some(r) ==> r.wf() && rec_bounds(r)) by {
            match s[i2] {
                Some(r0) => {
                    assert(r0.wf() && rec_bounds(r0));
                },
                None => (),
            };
        }
        assert forall|k: EntityKind| #[trigger] count_kind(final(world)@, k) == count_kind(s, k) by {
            assert forall|i2: int| 0 <= i2 < final(world)@.len() implies kind_weight(
                #[trigger] final(world)@[i2],
                k,
            ) == kind_weight(s[i2], k) by {
                match s[i2] {
                    Some(r0) => (),
                    None => (),
                };
            }
            crate::state::lemma_count_kind_congruence(final(world)@, s, k);
        }
    }
}

/// The session change the pause signal makes.
pub open spec fn pause_transition(g0: GameState, g1: GameState) -> bool {
    g1 == (GameState { pause_notifier: g0.pause_notifier || !g0.game_over, ..g0 })
}

/// The session change the restart signal makes.
pub open spec fn restart_transition(g0: GameState, g1: GameState) -> bool {
    g1 == (GameState { restart_notifier: true, ..g0 })
}

/// The session change a fire-key press makes.
pub open spec fn shoot_transition(g0: GameState, g1: GameState) -> bool {
    match g0.main_menu.screen {
        Screen::Main => match g0.main_menu.active_menu_item {
            MenuItem::PlaySolo => g1 == (GameState {
                main_menu: MainMenu { screen: Screen::Game, ..g0.main_menu },
                request_clear_render: true,
                ..g0
            }),
            _ => g1 == g0,
        },
        Screen::Game => g1 == (GameState {
            player_input_handler: PlayerInputHandler {
                player_shoot: true,
                ..g0.player_input_handler
            },
            ..g0
        }),
        _ => g1 == g0,
    }
}

/// The session change a fire-key release makes.
pub open spec fn shoot_end_transition(g0: GameState, g1: GameState) -> bool {
    g1 == (GameState {
        player_input_handler: PlayerInputHandler {
            player_shoot: false,
            ..g0.player_input_handler
        },
        ..g0
    })
}

/// The session change a movement-key press makes; `left` picks the side.
pub open spec fn move_transition(left: bool, g0: GameState, g1: GameState) -> bool {
    match g0.main_menu.screen {
        Screen::Main => g1 == (GameState {
            main_menu: MainMenu {
                active_menu_item: if left {
                    menu_cycle_left(g0.main_menu.active_menu_item)
                } else {
                    menu_cycle_right(g0.main_menu.active_menu_item)
                },
                ..g0.main_menu
            },
            ..g0
        }),
        Screen::Game => {
            &&& g1.world@.len() == g0.world@.len()
            &&& (forall|i: int|
                0 <= i < g0.world@.len() ==> g1.world@[i] == dir_slot(
                    #[trigger] g0.world@[i],
                    if left {
                        Direction::Left
                    } else {
                        Direction::Right
                    },
                ))
            &&& g1 == (GameState {
                world: g1.world,
                player_input_handler: if left {
                    PlayerInputHandler { move_player_left: true, ..g0.player_input_handler }
                } else {
                    PlayerInputHandler { move_player_right: true, ..g0.player_input_handler }
                },
                ..g0
            })
        },
        _ => g1 == g0,
    }
}

/// The session change releasing the left movement key makes: the tracked
/// player resumes whatever the right key still asks for.
pub open spec fn move_left_end_transition(g0: GameState, g1: GameState) -> bool {
    let d = if g0.player_input_handler.move_player_right {
        Direction::Right
    } else {
        Direction::Still
    };
    &&& g1.world@ == g0.world@.update(
        g0.player_entity.0 as int,
        dir_slot(g0.world@[g0.player_entity.0 as int], d),
    )
    &&& g1 == (GameState {
        world: g1.world,
        player_input_handler: PlayerInputHandler {
            move_player_left: false,
            ..g0.player_input_handler
        },
        ..g0
    })
}

/// The session change releasing the right movement key makes: every player
/// resumes whatever the left key still asks for.
pub open spec fn move_right_end_transition(g0: GameState, g1: GameState) -> bool {
    let d = if g0.player_input_handler.move_player_left {
        Direction::Left
    } else {
        Direction::Still
    };
    &&& g1.world@.len() == g0.world@.len()
    &&& (forall|i: int|
        0 <= i < g0.world@.len() ==> g1.world@[i] == dir_slot(#[trigger] g0.world@[i], d))
    &&& g1 == (GameState {
        world: g1.world,
        player_input_handler: PlayerInputHandler {
            move_player_right: false,
            ..g0.player_input_handler
        },
        ..g0
    })
}

/// The session change a recorded peer connection makes.
pub open spec fn connected_transition(addr: PeerAddr, g0: GameState, g1: GameState) -> bool {
    g1 == (GameState {
        networking: GameNetworking { peer: Some(addr), ..g0.networking },
        ..g0
    })
}

/// The pause signal: asks the session to toggle pause, unless the match is
/// already over.
fn on_pause(game_state: &mut GameState)
    requires
        old(game_state).wf(),
    ensures
        final(game_state).wf(),
        pause_transition(*old(game_state), *final(game_state)),
{
    if !game_state.game_over {
        game_state.pause_notifier = true;
    }
}

/// The restart signal: asks the session to rebuild the match.
fn on_restart(game_state: &mut GameState)
    requires
        old(game_state).wf(),
    ensures
        final(game_state).wf(),
        restart_transition(*old(game_state), *final(game_state)),
{
    game_state.restart_notifier = true;
}

/// The fire key pressed: activates the highlighted menu entry on the main
/// menu (only playing solo is wired up), or arms the shoot input in play.
fn on_shoot(game_state: &mut GameState)
    requires
        old(game_state).wf(),
    ensures
        final(game_state).wf(),
        shoot_transition(*old(game_state), *final(game_state)),
{
    match game_state.main_menu.screen {
        Screen::Main => {
            match game_state.main_menu.active_menu_item {
                MenuItem::PlaySolo => {
                    game_state.main_menu.screen = Screen::Game;
                    game_state.request_clear_render = true;
                },
                _ => (),
            }
        },
        Screen::Game => {
            game_state.player_input_handler.player_shoot = true;
        },
        _ => (),
    }
}

/// The fire key released: disarms the shoot input.
fn on_shoot_end(game_state: &mut GameState)
    requires
        old(game_state).wf(),
    ensures
        final(game_state).wf(),
        shoot_end_transition(*old(game_state), *final(game_state)),
{
    game_state.player_input_handler.player_shoot = false;
}

/// A movement key pressed: cycles the menu on the main screen, or tracks
/// the held key and steers every player in play.
#[verifier::rlimit(100)]
fn on_move(left: bool, game_state: &mut GameState)
    requires
        old(game_state).wf(),
    ensures
        final(game_state).wf(),
        move_transition(left, *old(game_state), *final(game_state)),
{
    match game_state.main_menu.screen {
        Screen::Main => {
            game_state.main_menu.active_menu_item = if left {
                match game_state.main_menu.active_menu_item {
                    MenuItem::HostGame => MenuItem::PlaySolo,
                    MenuItem::JoinGame => MenuItem::HostGame,
                    MenuItem::PlaySolo => MenuItem::JoinGame,
                }
            } else {
                match game_state.main_menu.active_menu_item {
                    MenuItem::HostGame => MenuItem::JoinGame,
                    MenuItem::JoinGame => MenuItem::PlaySolo,
                    MenuItem::PlaySolo => MenuItem::HostGame,
                }
            };
        },
        Screen::Game => {
            if left {
                game_state.player_input_handler.move_player_left = true;
                set_player_directions(Direction::Left, &mut game_state.world);
            } else {
                game_state.player_input_handler.move_player_right = true;
                set_player_directions(Direction::Right, &mut game_state.world);
            }
            proof {
                let pidx = game_state.player_entity.0 as int;
                assert(game_state.world@[pidx] == dir_slot(
                    old(game_state).world@[pidx],
                    if left {
                        Direction::Left
                    } else {
                        Direction::Right
                    },
                ));
                assert(old(game_state).wf());
                assert(count_kind(old(game_state).world@, EntityKind::Player) == 1);
                assert(count_kind(game_state.world@, EntityKind::Player) == count_kind(
                    old(game_state).world@,
                    EntityKind::Player,
                ));
                assert(count_kind(game_state.world@, EntityKind::PlayerProjectile) == count_kind(
                    old(game_state).world@,
                    EntityKind::PlayerProjectile,
                ));
                assert(game_state.wf());
            }
        },
        _ => (),
    }
}

/// The left movement key released: drops the held-key mark and steers the
/// tracked player by whatever the right key still asks for.
#[verifier::rlimit(100)]
fn on_move_left_end(game_state: &mut GameState)
    requires
        old(game_state).wf(),
    ensures
        final(game_state).wf(),
        move_left_end_transition(*old(game_state), *final(game_state)),
{
    game_state.player_input_handler.move_player_left = false;
    let d = if game_state.player_input_handler.move_player_right {
        Direction::Right
    } else {
        Direction::Still
    };
    let idx = game_state.player_entity.0;
    let rec = game_state.world.slot(idx).unwrap();
    let steered = EntityRec { velocity: Velocity { direction: d, ..rec.velocity }, ..rec };
    let ghost pre = game_state.world@;
    game_state.world.set(idx, steered);
    proof {
        assert forall|k: EntityKind|
            count_kind(game_state.world@, k) + kind_weight(pre[idx as int], k) == count_kind(
                pre,
                k,
            ) + kind_weight(Some(steered), k) by {
            crate::state::lemma_count_kind_update(pre, idx as int, Some(steered), k);
        }
        assert forall|i2: int| 0 <= i2 < game_state.world@.len() implies (
        #[trigger] game_state.world@[i2] matches Some(r) ==> r.wf() && rec_bounds(r)) by {
            match old(game_state).world@[i2] {
                Some(r0) => {
                    assert(r0.wf() && rec_bounds(r0));
                },
                None => (),
            };
        }
        assert(game_state.world@ == old(game_state).world@.update(
            idx as int,
            dir_slot(old(game_state).world@[idx as int], d),
        ));
        assert(game_state.wf());
    }
}

/// The right movement key released: drops the held-key mark and steers
/// every player by whatever the left key still asks for.
#[verifier::rlimit(100)]
fn on_move_right_end(game_state: &mut GameState)
    requires
        old(game_state).wf(),
    ensures
        final(game_state).wf(),
        move_right_end_transition(*old(game_state), *final(game_state)),
{
    game_state.player_input_handler.move_player_right = false;
    let d = if game_state.player_input_handler.move_player_left {
        Direction::Left
    } else {
        Direction::Still
    };
    set_player_directions(d, &mut game_state.world);
    proof {
        let pidx = game_state.player_entity.0 as int;
        assert(game_state.world@[pidx] == dir_slot(old(game_state).world@[pidx], d));
        assert(count_kind(game_state.world@, EntityKind::Player) == count_kind(
            old(game_state).world@,
            EntityKind::Player,
        ));
        assert(count_kind(game_state.world@, EntityKind::PlayerProjectile) == count_kind(
            old(game_state).world@,
            EntityKind::PlayerProjectile,
        ));
        assert(game_state.wf());
    }
}

/// A peer connection was established: records the peer's address.
fn on_client_connected(addr: PeerAddr, game_state: &mut GameState)
    requires
        old(game_state).wf(),
    ensures
        final(game_state).wf(),
        connected_transition(addr, *old(game_state), *final(game_state)),
{
    game_state.networking.peer = Some(addr);
}

/// Folds one input signal into the session state and says whether a
/// simulation step is now due.
///
/// On the main-menu screen the movement keys cycle the highlighted entry and
/// the fire key activates it (only playing solo is wired up); on the hosting
/// and joining screens gameplay keys do nothing.  In play, movement keys
/// steer the player and are tracked as held keys, the fire key arms the
/// shoot input, pause is refused once the match is over, and a peer
/// connection is recorded for the session.  Only the ticker's signal asks
/// for a simulation step.
pub fn handle_event(event: GameEvent, game_state: &mut GameState) -> (tick: bool)
    requires
        old(game_state).wf(),
    ensures
        final(game_state).wf(),
        tick == (event is Tick),
        ({
            let g0 = *old(game_state);
            let g1 = *final(game_state);
            match event {
                GameEvent::ResizeGame => g1 == g0,
                GameEvent::Tick => g1 == g0,
                GameEvent::Quit => g1 == g0,
                GameEvent::Pause => pause_transition(g0, g1),
                GameEvent::Restart => restart_transition(g0, g1),
                GameEvent::PlayerShoot => shoot_transition(g0, g1),
                GameEvent::PlayerShootEnd => shoot_end_transition(g0, g1),
                GameEvent::MovePlayerLeft => move_transition(true, g0, g1),
                GameEvent::MovePlayerLeftEnd => move_left_end_transition(g0, g1),
                GameEvent::MovePlayerRight => move_transition(false, g0, g1),
                GameEvent::MovePlayerRightEnd => move_right_end_transition(g0, g1),
                GameEvent::ClientConnected(addr) => connected_transition(addr, g0, g1),
            }
        }),
{
    match event {
        GameEvent::ResizeGame => false,
        GameEvent::Tick => true,
        GameEvent::Quit => false,
        GameEvent::Pause => {
            on_pause(game_state);
            false
        },
        GameEvent::Restart => {
            on_restart(game_state);
            false
        },
        GameEvent::PlayerShoot => {
            on_shoot(game_state);
            false
        },
        GameEvent::PlayerShootEnd => {
            on_shoot_end(game_state);
            false
        },
        GameEvent::MovePlayerLeft => {
            on_move(true, game_state);
            false
        },
        GameEvent::MovePlayerLeftEnd => {
            on_move_left_end(game_state);
            false
        },
        GameEvent::MovePlayerRight => {
            on_move(false, game_state);
            false
        },
        GameEvent::MovePlayerRightEnd => {
            on_move_right_end(game_state);
            false
        },
        GameEvent::ClientConnected(addr) => {
            on_client_connected(addr, game_state);
            false
        },
    }
}

} // verus!
