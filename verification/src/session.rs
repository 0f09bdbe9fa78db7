//! The session state machine around the per-tick simulation: notifier
//! handling (pause, game over, restart), the logical-time clamp, the quit
//! path, the networking decision, and the renderer's two entry points into
//! the store (reading is done through the store itself; acknowledging an
//! erased glyph goes through [`mark_erased`]).

use vstd::prelude::*;

use crate::components::EntityKind;
use crate::components::EntityRec;
use crate::components::Renderable;
use crate::state::count_kind;
use crate::state::kind_weight;
use crate::state::rec_bounds;
use crate::state::GameNetworking;
use crate::state::GameState;
use crate::state::MainMenu;
use crate::state::MenuItem;
use crate::state::Screen;
use crate::store::EntityId;
use crate::store::StoreError;
use crate::systems::fresh_match_state;
use crate::systems::process_tick;
use crate::systems::tick_relation;
use crate::systems::restart_world;

verus! {

/// Nominal tick interval in milliseconds (roughly sixty steps a second).
pub const TICK_MS: u64 = 16;

/// Longest logical time one step may cover; a stalled loop catches up at
/// most this much per step instead of jumping.
pub const TICK_CAP_MS: u64 = 20;

/// Playfield width in cells.
pub const SCREEN_WIDTH: u16 = 120;

/// Playfield height in cells.
pub const SCREEN_HEIGHT: u16 = 40;

/// The elapsed real time bounded into the window a simulation step accepts:
/// floored at the nominal interval, capped at the catch-up limit.
pub open spec fn clamped_dt(elapsed_ms: int) -> int {
    if elapsed_ms < TICK_MS {
        TICK_MS as int
    } else if elapsed_ms > TICK_CAP_MS {
        TICK_CAP_MS as int
    } else {
        elapsed_ms
    }
}

/// Bounds the elapsed real time between two steps into the window the
/// simulation accepts as `dt`.
pub fn clamp_dt(elapsed_ms: u64) -> (dt: u64)
    ensures
        dt == clamped_dt(elapsed_ms as int),
        TICK_MS <= dt <= TICK_CAP_MS,
{
    if elapsed_ms < TICK_MS {
        TICK_MS
    } else if elapsed_ms > TICK_CAP_MS {
        TICK_CAP_MS
    } else {
        elapsed_ms
    }
}

/// What one call of [`session_step`] did, for the loop around the library
/// to act on (draw a menu, rebuild the renderer, draw or erase overlays,
/// redraw the world).
#[derive(Clone, Copy, PartialEq, Eq, Structural, Debug)]
pub struct StepReport {
    pub menu_screen: bool,
    pub restarted: bool,
    pub pause_toggled: bool,
    pub game_over_shown: bool,
    pub game_over_hidden: bool,
    pub new_high_score: bool,
    pub simulated: bool,
}

/// The session after consuming a pending pause notifier: pause toggles and
/// the edge-triggered notifier is spent.
pub open spec fn after_pause(g: GameState) -> GameState {
    if g.pause_notifier {
        GameState { paused: !g.paused, pause_notifier: false, ..g }
    } else {
        g
    }
}

/// The session after consuming a pending game-over notifier: the game-over
/// state toggles, the notifier is spent, and on the transition into game
/// over the high score captures the final score.
pub open spec fn after_game_over(g: GameState) -> GameState {
    if g.game_over_notifier {
        if g.game_over {
            GameState { game_over: false, game_over_notifier: false, ..g }
        } else {
            GameState {
                game_over: true,
                game_over_notifier: false,
                high_score: if g.score > g.high_score {
                    g.score
                } else {
                    g.high_score
                },
                ..g
            }
        }
    } else {
        g
    }
}

/// Advances the session by one queued tick signal.
///
/// Away from the game screen nothing is simulated and the loop is told to
/// render the active menu.  On the game screen, a pending restart rebuilds
/// the whole world from scratch, preserving only the high score; otherwise
/// the pause and game-over notifiers are consumed (in that order), and —
/// unless the session is now paused or over — the elapsed time is clamped
/// and one full simulation tick runs.
pub fn session_step(game_state: &mut GameState, elapsed_ms: u64) -> (r: Result<
    StepReport,
    StoreError,
>)
    requires
        old(game_state).wf(),
    ensures
        r is Ok,
        final(game_state).wf(),
        ({
            let g0 = *old(game_state);
            let g1 = *final(game_state);
            let rep = r->Ok_0;
            &&& rep.menu_screen == !(g0.main_menu.screen is Game)
            &&& (!(g0.main_menu.screen is Game) ==> g1 == g0 && rep == (StepReport {
                menu_screen: true,
                restarted: false,
                pause_toggled: false,
                game_over_shown: false,
                game_over_hidden: false,
                new_high_score: false,
                simulated: false,
            }))
            &&& (g0.main_menu.screen is Game ==> {
                &&& rep.restarted == g0.restart_notifier
                &&& (g0.restart_notifier ==> fresh_match_state(
                    g1,
                    g0.high_score as int,
                    MainMenu { active_menu_item: MenuItem::PlaySolo, screen: Screen::Game },
                ) && rep == (StepReport {
                    menu_screen: false,
                    restarted: true,
                    pause_toggled: false,
                    game_over_shown: false,
                    game_over_hidden: false,
                    new_high_score: false,
                    simulated: false,
                }))
                &&& (!g0.restart_notifier ==> {
                    let g2 = after_game_over(after_pause(g0));
                    &&& rep.pause_toggled == g0.pause_notifier
                    &&& rep.game_over_shown == (g0.game_over_notifier && !g0.game_over)
                    &&& rep.game_over_hidden == (g0.game_over_notifier && g0.game_over)
                    &&& rep.new_high_score == (g0.game_over_notifier && !g0.game_over && g0.score
                        > g0.high_score)
                    &&& rep.simulated == !(g2.game_over || g2.paused)
                    &&& ((g2.game_over || g2.paused) ==> g1 == g2)
                    &&& (!(g2.game_over || g2.paused) ==> {
                        &&& tick_relation(g2, g1, clamped_dt(elapsed_ms as int))
                        &&& g1.world@.len() >= g2.world@.len()
                        &&& (forall|i: int|
                            0 <= i < g2.world@.len() && (#[trigger] g2.world@[i]) is Some
                                && g1.world@[i] is None
                                ==> g2.world@[i]->Some_0.renderable.erased)
                        &&& g1.score >= g2.score
                        &&& g1.player_lives <= g2.player_lives
                        &&& g1.high_score == g2.high_score
                        &&& g1 == (GameState {
                            world: g1.world,
                            player_projectile_exists: g1.player_projectile_exists,
                            enemy_direction: g1.enemy_direction,
                            game_over_notifier: g1.game_over_notifier,
                            score: g1.score,
                            score_updated: g1.score_updated,
                            enemy_amount: g1.enemy_amount,
                            enemy_speed_multiplier: g1.enemy_speed_multiplier,
                            enemy_proj_prob_multiplier: g1.enemy_proj_prob_multiplier,
                            player_lives: g1.player_lives,
                            ..g2
                        })
                    })
                })
            })
        }),
{
    let mut report = StepReport {
        menu_screen: false,
        restarted: false,
        pause_toggled: false,
        game_over_shown: false,
        game_over_hidden: false,
        new_high_score: false,
        simulated: false,
    };
    match game_state.main_menu.screen {
        Screen::Game => (),
        _ => {
            report.menu_screen = true;
            return Ok(report);
        },
    }

    if game_state.restart_notifier {
        *game_state = restart_world(game_state.high_score);
        report.restarted = true;
        return Ok(report);
    }

    if game_state.pause_notifier {
        game_state.paused = !game_state.paused;
        game_state.pause_notifier = false;
        report.pause_toggled = true;
    }

    if game_state.game_over_notifier {
        if game_state.game_over {
            game_state.game_over = false;
            report.game_over_hidden = true;
        } else {
            game_state.game_over = true;
            report.game_over_shown = true;
            if game_state.score > game_state.high_score {
                game_state.high_score = game_state.score;
                report.new_high_score = true;
            }
        }
        game_state.game_over_notifier = false;
    }

    if game_state.game_over || game_state.paused {
        return Ok(report);
    }

    proof {
        assert(*game_state == after_game_over(after_pause(*old(game_state))));
    }
    let dt = clamp_dt(elapsed_ms);
    let tick = process_tick(dt, game_state);
    if let Err(e) = tick {
        return Err(e);
    }
    report.simulated = true;
    Ok(report)
}

/// Handles the quit signal: on the main menu the session ends; from any
/// other screen it falls back to the main menu, asking for a full redraw, a
/// world rebuild, and the end of any networking intent.
pub fn handle_quit(game_state: &mut GameState) -> (quit: bool)
    requires
        old(game_state).wf(),
    ensures
        final(game_state).wf(),
        quit == (old(game_state).main_menu.screen is Main),
        old(game_state).main_menu.screen is Main ==> *final(game_state) == *old(game_state),
        !(old(game_state).main_menu.screen is Main) ==> *final(game_state) == (GameState {
            main_menu: MainMenu { screen: Screen::Main, ..old(game_state).main_menu },
            request_clear_render: true,
            restart_notifier: true,
            networking: GameNetworking {
                stay_online: false,
                host: false,
                listener_active: false,
                peer: None,
            },
            ..*old(game_state)
        }),
{
    match game_state.main_menu.screen {
        Screen::Main => true,
        _ => {
            game_state.exit_to_menu();
            false
        },
    }
}

/// What the loop around the library must do about the connection task.
#[derive(Clone, Copy, PartialEq, Eq, Structural, Debug)]
pub enum NetAction {
    Idle,
    AbortTask,
    SpawnHostTask,
    SpawnJoinTask,
}

/// Decides what to do about the out-of-band connection task: abort a
/// running task once the session no longer wants to be online, spawn a
/// hosting or joining task when it does and none runs yet, and otherwise
/// leave things be.  The loop performs the action and mirrors it in
/// `listener_active`.
pub fn connection_action(net: &GameNetworking) -> (a: NetAction)
    ensures
        a == (if !net.stay_online {
            if net.listener_active {
                NetAction::AbortTask
            } else {
                NetAction::Idle
            }
        } else if !net.listener_active {
            if net.host {
                NetAction::SpawnHostTask
            } else {
                NetAction::SpawnJoinTask
            }
        } else {
            NetAction::Idle
        }),
{
    if !net.stay_online {
        if net.listener_active {
            NetAction::AbortTask
        } else {
            NetAction::Idle
        }
    } else if !net.listener_active {
        if net.host {
            NetAction::SpawnHostTask
        } else {
            NetAction::SpawnJoinTask
        }
    } else {
        NetAction::Idle
    }
}

/// The playfield's corners inside a terminal of the given size, centred:
/// left and right columns, top and bottom rows.
pub fn game_bounds(columns: u16, rows: u16) -> (b: (u16, u16, u16, u16))
    ensures
        b.0 == (if columns / 2 >= SCREEN_WIDTH / 2 {
            columns / 2 - SCREEN_WIDTH / 2
        } else {
            0
        }),
        b.1 == columns / 2 + SCREEN_WIDTH / 2 - 1,
        b.2 == (if rows / 2 >= SCREEN_HEIGHT / 2 {
            rows / 2 - SCREEN_HEIGHT / 2
        } else {
            0
        }),
        b.3 == rows / 2 + SCREEN_HEIGHT / 2,
{
    let center_x = columns / 2;
    let center_y = rows / 2;
    let half_w = SCREEN_WIDTH / 2;
    let half_h = SCREEN_HEIGHT / 2;
    let left = if center_x >= half_w {
        center_x - half_w
    } else {
        0
    };
    let right = center_x + half_w - 1;
    let top = if center_y >= half_h {
        center_y - half_h
    } else {
        0
    };
    let bottom = center_y + half_h;
    (left, right, top, bottom)
}

/// The renderer's acknowledgement that it has cleared the glyph of an
/// entity flagged for destruction: only then is the entity marked erased,
/// which is the sole signal that lets the despawn sweeps remove it.  A
/// stale identifier, an empty slot, or an entity not flagged for
/// destruction is left untouched.
pub fn mark_erased(game_state: &mut GameState, id: EntityId)
    requires
        old(game_state).wf(),
    ensures
        final(game_state).wf(),
        ({
            let g0 = *old(game_state);
            let g1 = *final(game_state);
            if id.0 < g0.world@.len() && (g0.world@[id.0 as int] matches Some(r)
                && r.renderable.destroy) {
                let r0 = g0.world@[id.0 as int]->Some_0;
                &&& g1.world@ == g0.world@.update(
                    id.0 as int,
                    Some(
                        EntityRec {
                            renderable: Renderable { erased: true, ..r0.renderable },
                            ..r0
                        },
                    ),
                )
                &&& g1 == (GameState { world: g1.world, ..g0 })
            } else {
                g1 == g0
            }
        }),
{
    if id.0 < game_state.world.slot_count() {
        if let Some(rec) = game_state.world.slot(id.0) {
            if rec.renderable.destroy {
                let acked = EntityRec {
                    renderable: Renderable { erased: true, ..rec.renderable },
                    ..rec
                };
                let ghost pre = game_state.world@;
                game_state.world.set(id.0, acked);
                proof {
                    assert forall|k: EntityKind|
                        count_kind(game_state.world@, k) + kind_weight(pre[id.0 as int], k)
                            == count_kind(pre, k) + kind_weight(Some(acked), k) by {
                        crate::state::lemma_count_kind_update(
                            pre,
                            id.0 as int,
                            Some(acked),
                            k,
                        );
                    }
                    assert forall|i2: int| 0 <= i2 < game_state.world@.len() implies (
                    #[trigger] game_state.world@[i2] matches Some(r) ==> r.wf() && rec_bounds(
                        r,
                    )) by {
                        match pre[i2] {
                            Some(r0) => {
                                assert(r0.wf() && rec_bounds(r0));
                            },
                            None => (),
                        };
                    }
                    assert(game_state.wf());
                }
            }
        }
    }
}

} // verus!
