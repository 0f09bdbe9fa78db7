//! The per-tick simulation systems: world construction, movement, stochastic
//! enemy fire, collision and scoring, and the despawn sweeps.

use vstd::prelude::*;

use crate::components::Direction;
use crate::components::EntityKind;
use crate::components::EntityRec;
use crate::components::Position;
use crate::components::PrevPosition;
use crate::components::ProjectileSpawner;
use crate::components::Renderable;
use crate::components::Velocity;
use crate::state::count_kind;
use crate::state::kind_weight;
use crate::state::lemma_count_kind_push;
use crate::state::rec_bounds;
use crate::state::slots_wf;
use crate::state::GameNetworking;
use crate::state::GameState;
use crate::state::MainMenu;
use crate::state::MenuItem;
use crate::state::PlayerInputHandler;
use crate::state::Screen;
use crate::state::MULT_ONE;
use crate::state::PROB_MULT_LIMIT;
use crate::state::SPEED_MULT_LIMIT;
use crate::state::WAVE_ENEMY_COUNT;
use crate::store::Store;

verus! {

/// Full scale of the per-tick fire chance, in milli-percent: a draw is
/// uniform below this bound, and a probability at or above it fires always.
pub const CHANCE_SCALE: u64 = 100_000;

/// Player speed in milli-cells per second.
pub const PLAYER_SPEED: i64 = 60_000;
/// Player projectile upward speed in milli-cells per second.
pub const PLAYER_PROJ_SPEED: i64 = 60_000;
/// Enemy base speed in cells per second; scaled by the wave multiplier.
pub const ENEMY_BASE_SPEED_CELLS: u64 = 20;
/// Enemy projectile downward speed in milli-cells per second.
pub const ENEMY_PROJ_SPEED: i64 = -20_000;

/// Relies on `rand::random_range`: returns a value drawn uniformly from the
/// given range by the thread-local generator, so every outcome lies strictly
/// below the full chance scale.
#[verifier::external_body]
fn draw_chance_millipct() -> (r: u64)
    ensures
        r < CHANCE_SCALE,
{
    rand::random_range(0..CHANCE_SCALE)
}

/// The player's component bundle at match start.
pub open spec fn player_start_rec() -> EntityRec {
    EntityRec {
        kind: EntityKind::Player,
        position: Position { x: 55, y: 7 },
        prev_position: PrevPosition { x: 55, y: 7 },
        velocity: Velocity { speed: PLAYER_SPEED, move_accumulator: 0, direction: Direction::Still },
        renderable: Renderable {
            sprite_top: "⣆⡜⣛⢣⣠",
            sprite_bottom: "⣿⣿⣿⣿⣿",
            width: 5,
            destroy: false,
            erased: false,
        },
        projectile_spawner: None,
    }
}

/// The enemy bundle spawned at grid column `col` and grid row `row` of a
/// wave carrying the given difficulty multipliers (thousandths).
pub open spec fn spawned_enemy(col: int, row: int, speed_mult: u64, prob_mult: u64) -> EntityRec {
    EntityRec {
        kind: EntityKind::Enemy,
        position: Position { x: (6 + col * 7) as u16, y: (38 - row * 4) as u16 },
        prev_position: PrevPosition { x: (6 + col * 7) as u16, y: (38 - row * 4) as u16 },
        velocity: Velocity {
            speed: (ENEMY_BASE_SPEED_CELLS * speed_mult) as i64,
            move_accumulator: 0,
            direction: Direction::Still,
        },
        renderable: Renderable {
            sprite_top: "⢳⡴⠶⢦⡞",
            sprite_bottom: "⠞⠫⡪⠋⠱",
            width: 5,
            destroy: false,
            erased: false,
        },
        projectile_spawner: Some(ProjectileSpawner {
            probability: prob_mult / 10,
            projectile_speed: ENEMY_PROJ_SPEED,
        }),
    }
}

/// Lays a full wave of enemies out on the fixed grid (ten columns by three
/// rows, seven cells apart per column and four per row), each carrying the
/// wave's current speed and fire-probability multipliers.  Existing slots
/// are untouched; the wave is appended in column-major order.
pub fn spawn_enemies(proj_multiplier: u64, speed_multiplier: u64, world: &mut Store)
    requires
        MULT_ONE <= speed_multiplier <= SPEED_MULT_LIMIT,
        MULT_ONE <= proj_multiplier <= PROB_MULT_LIMIT,
    ensures
        final(world)@.len() == old(world)@.len() + WAVE_ENEMY_COUNT,
        forall|i: int| 0 <= i < old(world)@.len() ==> final(world)@[i] == old(world)@[i],
        forall|j: int|
            0 <= j < WAVE_ENEMY_COUNT ==> #[trigger] final(world)@[old(world)@.len() + j] == Some(
                spawned_enemy(j / 3, j % 3, speed_multiplier, proj_multiplier),
            ),
        forall|k: EntityKind|
            count_kind(final(world)@, k) == count_kind(old(world)@, k) + (
            if k is Enemy {
                WAVE_ENEMY_COUNT as nat
            } else {
                0nat
            }),
{
    let ghost s0 = world@;
    let mut x: u16 = 0;
    while x < 10
        invariant
            x <= 10,
            MULT_ONE <= speed_multiplier <= SPEED_MULT_LIMIT,
            MULT_ONE <= proj_multiplier <= PROB_MULT_LIMIT,
            world@.len() == s0.len() + 3 * x,
            forall|i: int| 0 <= i < s0.len() ==> world@[i] == s0[i],
            forall|j: int|
                0 <= j < 3 * x ==> #[trigger] world@[s0.len() + j] == Some(
                    spawned_enemy(j / 3, j % 3, speed_multiplier, proj_multiplier),
                ),
            forall|k: EntityKind|
                count_kind(world@, k) == count_kind(s0, k) + (
                if k is Enemy {
                    (3 * x) as nat
                } else {
                    0nat
                }),
        decreases 10 - x,
    {
        let mut y: u16 = 0;
        while y < 3
            invariant
                x < 10,
                y <= 3,
                MULT_ONE <= speed_multiplier <= SPEED_MULT_LIMIT,
                MULT_ONE <= proj_multiplier <= PROB_MULT_LIMIT,
                world@.len() == s0.len() + 3 * x + y,
                forall|i: int| 0 <= i < s0.len() ==> world@[i] == s0[i],
                forall|j: int|
                    0 <= j < 3 * x + y ==> #[trigger] world@[s0.len() + j] == Some(
                        spawned_enemy(j / 3, j % 3, speed_multiplier, proj_multiplier),
                    ),
                forall|k: EntityKind|
                    count_kind(world@, k) == count_kind(s0, k) + (
                    if k is Enemy {
                        (3 * x + y) as nat
                    } else {
                        0nat
                    }),
            decreases 3 - y,
        {
            let speed = (ENEMY_BASE_SPEED_CELLS * speed_multiplier) as i64;
            let rec = EntityRec {
                kind: EntityKind::Enemy,
                position: Position { x: 6 + x * 7, y: 38 - y * 4 },
                prev_position: PrevPosition { x: 6 + x * 7, y: 38 - y * 4 },
                velocity: Velocity { speed, move_accumulator: 0, direction: Direction::Still },
                renderable: Renderable {
                    sprite_top: "⢳⡴⠶⢦⡞",
                    sprite_bottom: "⠞⠫⡪⠋⠱",
                    width: 5,
                    destroy: false,
                    erased: false,
                },
                projectile_spawner: Some(ProjectileSpawner {
                    probability: proj_multiplier / 10,
                    projectile_speed: ENEMY_PROJ_SPEED,
                }),
            };
            proof {
                assert(rec == spawned_enemy(x as int, y as int, speed_multiplier, proj_multiplier));
                assert((3 * x + y) / 3 == x as int && (3 * x + y) % 3 == y as int) by (nonlinear_arith)
                    requires 0 <= y < 3, 0 <= x;
                assert forall|k: EntityKind|
                    count_kind(world@.push(Some(rec)), k) == count_kind(world@, k) + kind_weight(
                        Some(rec),
                        k,
                    ) by {
                    lemma_count_kind_push(world@, Some(rec), k);
                }
            }
            world.create(rec);
            y = y + 1;
        }
        x = x + 1;
    }
}

/// One store slot after the player movement pass: player bundles take one
/// integration step, everything else is untouched.
pub open spec fn player_slot_after(slot: Option<EntityRec>, dt_ms: int) -> Option<EntityRec> {
    match slot {
        Some(r) => if r.kind is Player {
            Some(crate::kinematics::player_moved(r, dt_ms))
        } else {
            Some(r)
        },
        None => None,
    }
}

/// Moves every player entity by one integration step of `delta_time_ms`
/// milliseconds: accumulate by the held direction, take out any whole-cell
/// part, and clamp the new column to the playfield bounds.  All other
/// entities, and every entity's kind, are untouched.
pub fn move_player(delta_time_ms: u64, world: &mut Store)
    requires
        delta_time_ms <= crate::kinematics::DT_LIMIT_MS,
        slots_wf(old(world)@),
    ensures
        final(world)@.len() == old(world)@.len(),
        forall|i: int|
            0 <= i < old(world)@.len() ==> final(world)@[i] == player_slot_after(
                #[trigger] old(world)@[i],
                delta_time_ms as int,
            ),
        slots_wf(final(world)@),
        forall|k: EntityKind| #[trigger] count_kind(final(world)@, k) == count_kind(old(world)@, k),
{
    let n = world.slot_count();
    let mut i: usize = 0;
    while i < n
        invariant
            i <= n,
            n == world@.len(),
            world@.len() == old(world)@.len(),
            delta_time_ms <= crate::kinematics::DT_LIMIT_MS,
            slots_wf(old(world)@),
            forall|j: int|
                0 <= j < i ==> world@[j] == player_slot_after(
                    #[trigger] old(world)@[j],
                    delta_time_ms as int,
                ),
            forall|j: int| i <= j < n ==> world@[j] == old(world)@[j],
        decreases n - i,
    {
        if let Some(rec) = world.slot(i) {
            if rec.kind == EntityKind::Player {
                let moved = crate::kinematics::integrate_player(rec, delta_time_ms);
                world.set(i, moved);
            }
        }
        i = i + 1;
    }
    proof {
        assert forall|i2: int| 0 <= i2 < final(world)@.len() implies (
        #[trigger] final(world)@[i2] matches Some(r) ==> r.wf() && rec_bounds(r)) by {
            match old(world)@[i2] {
                Some(r0) => if r0.kind is Player {
                    crate::kinematics::lemma_player_moved_props(r0, delta_time_ms as int);
                },
                None => (),
            }
        }
        assert forall|k: EntityKind| #[trigger]
            count_kind(final(world)@, k) == count_kind(old(world)@, k) by {
            assert forall|i2: int| 0 <= i2 < final(world)@.len() implies kind_weight(
                #[trigger] final(world)@[i2],
                k,
            ) == kind_weight(old(world)@[i2], k) by {}
            crate::state::lemma_count_kind_congruence(final(world)@, old(world)@, k);
        }
    }
}

/// The tracked player's component bundle.
pub open spec fn tracked_player(gs: GameState) -> EntityRec {
    gs.world@[gs.player_entity.0 as int]->Some_0
}

/// Whether a shoot input is pending and allowed: the fire key is held and no
/// player projectile is in flight.
pub open spec fn shoot_pending(gs: GameState) -> bool {
    !gs.player_projectile_exists && gs.player_input_handler.player_shoot
}

/// The bundle of a fresh player projectile fired from player column `px`:
/// centred over the five-cell sprite, at the fixed launch row, flying up.
pub open spec fn player_proj_rec(px: int) -> EntityRec {
    EntityRec {
        kind: EntityKind::PlayerProjectile,
        position: Position { x: (px + 2) as u16, y: 8 },
        prev_position: PrevPosition { x: (px + 2) as u16, y: 8 },
        velocity: Velocity {
            speed: PLAYER_PROJ_SPEED,
            move_accumulator: 0,
            direction: Direction::Still,
        },
        renderable: Renderable {
            sprite_top: "⣿",
            sprite_bottom: "",
            width: 1,
            destroy: false,
            erased: false,
        },
        projectile_spawner: None,
    }
}

/// Spawns the player's projectile on a pending shoot input; refuses while
/// one is already in flight, enforcing the single-shot-in-flight rule.
pub fn spawn_player_projectile(game_state: &mut GameState)
    requires
        old(game_state).wf(),
    ensures
        final(game_state).wf(),
        !shoot_pending(*old(game_state)) ==> *final(game_state) == *old(game_state),
        shoot_pending(*old(game_state)) ==> ({
            let g0 = *old(game_state);
            &&& final(game_state).world@ == g0.world@.push(
                Some(player_proj_rec(tracked_player(g0).position.x as int)),
            )
            &&& *final(game_state) == (GameState {
                world: final(game_state).world,
                player_projectile_exists: true,
                ..g0
            })
        }),
{
    if game_state.player_projectile_exists || !game_state.player_input_handler.player_shoot {
        return ;
    }
    game_state.player_projectile_exists = true;
    let rec = game_state.world.slot(game_state.player_entity.0).unwrap();
    let proj = EntityRec {
        kind: EntityKind::PlayerProjectile,
        position: Position { x: rec.position.x + 2, y: 8 },
        prev_position: PrevPosition { x: rec.position.x + 2, y: 8 },
        velocity: Velocity {
            speed: PLAYER_PROJ_SPEED,
            move_accumulator: 0,
            direction: Direction::Still,
        },
        renderable: Renderable {
            sprite_top: "⣿",
            sprite_bottom: "",
            width: 1,
            destroy: false,
            erased: false,
        },
        projectile_spawner: None,
    };
    proof {
        assert(proj == player_proj_rec(rec.position.x as int));
        assert forall|k: EntityKind|
            count_kind(game_state.world@.push(Some(proj)), k) == count_kind(game_state.world@, k)
                + kind_weight(Some(proj), k) by {
            lemma_count_kind_push(game_state.world@, Some(proj), k);
        }
    }
    game_state.world.create(proj);
}

/// One store slot after the player-projectile pass: a projectile whose glyph
/// the renderer has erased leaves the store, any other projectile takes one
/// integration step, everything else is untouched.
pub open spec fn pp_slot_after(slot: Option<EntityRec>, dt_ms: int) -> Option<EntityRec> {
    match slot {
        Some(r) => if r.kind is PlayerProjectile {
            if r.renderable.erased {
                None
            } else {
                Some(crate::kinematics::player_proj_moved(r, dt_ms))
            }
        } else {
            Some(r)
        },
        None => None,
    }
}

/// Whether the slot sequence holds a player projectile already erased by the
/// renderer.
pub open spec fn has_erased_pp(s: Seq<Option<EntityRec>>) -> bool {
    exists|i: int|
        0 <= i < s.len() && (#[trigger] s[i] matches Some(r) && r.kind is PlayerProjectile
            && r.renderable.erased)
}

/// The store as it stands after the spawn step of the player-projectile
/// pass.
pub open spec fn pp_mid_view(g0: GameState) -> Seq<Option<EntityRec>> {
    if shoot_pending(g0) {
        g0.world@.push(Some(player_proj_rec(tracked_player(g0).position.x as int)))
    } else {
        g0.world@
    }
}

/// The full player-projectile pass of one tick: spawn on a pending shoot
/// input, integrate the projectile's motion, and despawn it once the
/// renderer has acknowledged erasing its glyph — clearing the in-flight
/// guard so the guard always matches the store's content.
pub fn process_player_projectile(delta_time_ms: u64, game_state: &mut GameState) -> (r: Result<
    (),
    crate::store::StoreError,
>)
    requires
        old(game_state).wf(),
        delta_time_ms <= crate::kinematics::DT_LIMIT_MS,
    ensures
        r is Ok,
        final(game_state).wf(),
        pp_pass_rel(*old(game_state), *final(game_state), delta_time_ms as int),
        no_erased_of_kind(final(game_state).world@, EntityKind::PlayerProjectile),
        forall|i: int|
            0 <= i < old(game_state).world@.len() ==> ((#[trigger] final(game_state).world@[i])
                is Some ==> old(game_state).world@[i] is Some && (slot_erased(
                final(game_state).world@[i],
            ) == slot_erased(old(game_state).world@[i]))),
        forall|i: int|
            0 <= i < old(game_state).world@.len() ==> (final(game_state).world@[i] is None && (
            #[trigger] old(game_state).world@[i]) is Some ==> slot_erased(
                old(game_state).world@[i],
            )),
{
    spawn_player_projectile(game_state);
    let ghost mid = game_state.world@;
    let ghost flag_mid = game_state.player_projectile_exists;
    let n = game_state.world.slot_count();
    let mut i: usize = 0;
    while i < n
        invariant
            i <= n,
            n == game_state.world@.len(),
            game_state.world@.len() == mid.len(),
            delta_time_ms <= crate::kinematics::DT_LIMIT_MS,
            slots_wf(mid),
            game_state.player_projectile_exists == flag_mid,
            *game_state == (GameState {
                world: game_state.world,
                player_projectile_exists: game_state.player_projectile_exists,
                ..*old(game_state)
            }),
            forall|j: int|
                0 <= j < i ==> game_state.world@[j] == (match mid[j] {
                    Some(r) => if r.kind is PlayerProjectile {
                        Some(crate::kinematics::player_proj_moved(r, delta_time_ms as int))
                    } else {
                        Some(r)
                    },
                    None => None,
                }),
            forall|j: int| i <= j < n ==> game_state.world@[j] == mid[j],
        decreases n - i,
    {
        if let Some(rec) = game_state.world.slot(i) {
            if rec.kind == EntityKind::PlayerProjectile {
                let moved = crate::kinematics::integrate_player_proj(rec, delta_time_ms);
                game_state.world.set(i, moved);
            }
        }
        i = i + 1;
    }
    let ghost v1 = game_state.world@;
    proof {
        assert forall|k: EntityKind| #[trigger] count_kind(v1, k) == count_kind(mid, k) by {
            assert forall|i2: int| 0 <= i2 < v1.len() implies kind_weight(#[trigger] v1[i2], k)
                == kind_weight(mid[i2], k) by {
                match mid[i2] {
                    Some(r0) => if r0.kind is PlayerProjectile {
                        crate::kinematics::lemma_player_proj_moved_props(
                            r0,
                            delta_time_ms as int,
                        );
                    },
                    None => (),
                }
            }
            crate::state::lemma_count_kind_congruence(v1, mid, k);
        }
    }
    let mut j: usize = 0;
    let mut cleared = false;
    while j < n
        invariant
            j <= n,
            n == game_state.world@.len(),
            game_state.world@.len() == v1.len(),
            v1.len() == mid.len(),
            forall|i2: int|
                0 <= i2 < v1.len() ==> v1[i2] == (match mid[i2] {
                    Some(r) => if r.kind is PlayerProjectile {
                        Some(crate::kinematics::player_proj_moved(r, delta_time_ms as int))
                    } else {
                        Some(r)
                    },
                    None => None,
                }),
            forall|i2: int|
                0 <= i2 < j ==> game_state.world@[i2] == (match v1[i2] {
                    Some(r) => if r.kind is PlayerProjectile && r.renderable.erased {
                        None::<EntityRec>
                    } else {
                        Some(r)
                    },
                    None => None,
                }),
            forall|i2: int| j <= i2 < n ==> game_state.world@[i2] == v1[i2],
            count_kind(v1, EntityKind::PlayerProjectile) == (if flag_mid {
                1nat
            } else {
                0nat
            }),
            count_kind(game_state.world@, EntityKind::PlayerProjectile) + (if cleared {
                1nat
            } else {
                0nat
            }) == count_kind(v1, EntityKind::PlayerProjectile),
            forall|k: EntityKind|
                k !is PlayerProjectile ==> #[trigger] count_kind(game_state.world@, k)
                    == count_kind(v1, k),
            cleared == exists|i2: int|
                0 <= i2 < j && (#[trigger] v1[i2] matches Some(r) && r.kind is PlayerProjectile
                    && r.renderable.erased),
            game_state.player_projectile_exists == (flag_mid && !cleared),
            *game_state == (GameState {
                world: game_state.world,
                player_projectile_exists: game_state.player_projectile_exists,
                ..*old(game_state)
            }),
        decreases n - j,
    {
        if let Some(rec) = game_state.world.slot(j) {
            if rec.kind == EntityKind::PlayerProjectile && rec.renderable.erased {
                let ghost pre = game_state.world@;
                proof {
                    crate::state::lemma_count_kind_lower_bound(
                        pre,
                        EntityKind::PlayerProjectile,
                        j as int,
                    );
                }
                game_state.world.clear_slot(j);
                game_state.player_projectile_exists = false;
                cleared = true;
                proof {
                    assert forall|k: EntityKind|
                        count_kind(game_state.world@, k) + kind_weight(pre[j as int], k)
                            == count_kind(pre, k) + kind_weight(None::<EntityRec>, k) by {
                        crate::state::lemma_count_kind_update(
                            pre,
                            j as int,
                            None::<EntityRec>,
                            k,
                        );
                    }
                    assert forall|k: EntityKind| k !is PlayerProjectile implies #[trigger]
                        count_kind(game_state.world@, k) == count_kind(v1, k) by {
                        assert(kind_weight(pre[j as int], k) == 0);
                        assert(count_kind(pre, k) == count_kind(v1, k));
                    }
                }
            }
        }
        j = j + 1;
    }
    proof {
        let g0 = *old(game_state);
        let dt = delta_time_ms as int;
        assert forall|i2: int| 0 <= i2 < mid.len() implies final(game_state).world@[i2]
            == pp_slot_after(#[trigger] mid[i2], dt) by {
            match mid[i2] {
                Some(r0) => if r0.kind is PlayerProjectile {
                    crate::kinematics::lemma_player_proj_moved_props(r0, dt);
                },
                None => (),
            }
        }
        if cleared {
            assert(has_erased_pp(mid));
        }
        if has_erased_pp(mid) {
            let w = choose|i2: int|
                0 <= i2 < mid.len() && (#[trigger] mid[i2] matches Some(r)
                    && r.kind is PlayerProjectile && r.renderable.erased);
            assert(v1[w] matches Some(r) && r.kind is PlayerProjectile && r.renderable.erased) by {
                match mid[w] {
                    Some(r0) => {
                        crate::kinematics::lemma_player_proj_moved_props(r0, dt);
                    },
                    None => (),
                }
            }
            assert(cleared);
        }
        assert forall|i2: int| 0 <= i2 < final(game_state).world@.len() implies (
        #[trigger] final(game_state).world@[i2] matches Some(r) ==> r.wf() && rec_bounds(r)) by {
            match mid[i2] {
                Some(r0) => {
                    if r0.kind is PlayerProjectile {
                        crate::kinematics::lemma_player_proj_moved_props(r0, dt);
                    }
                    assert(r0.wf() && rec_bounds(r0));
                },
                None => (),
            }
        }
        assert(no_erased_of_kind(final(game_state).world@, EntityKind::PlayerProjectile)) by {
            assert forall|i2: int|
                0 <= i2 < final(game_state).world@.len() implies !(
            #[trigger] final(game_state).world@[i2] matches Some(r) && r.kind
                == EntityKind::PlayerProjectile && r.renderable.erased) by {
                lemma_pp_slot_erase(mid[i2], dt);
            }
        }
        assert forall|i2: int| 0 <= i2 < g0.world@.len() implies ((
        #[trigger] final(game_state).world@[i2]) is Some ==> g0.world@[i2] is Some && (slot_erased(
            final(game_state).world@[i2],
        ) == slot_erased(g0.world@[i2]))) && (final(game_state).world@[i2] is None && g0.world@[i2]
            is Some ==> slot_erased(g0.world@[i2])) by {
            lemma_pp_slot_erase(mid[i2], dt);
        }
    }
    Ok(())
}

/// The opposite horizontal direction; a stopped flock stays stopped.
pub open spec fn flip_direction(d: Direction) -> Direction {
    match d {
        Direction::Right => Direction::Left,
        Direction::Left => Direction::Right,
        Direction::Still => Direction::Still,
    }
}

/// The bundle of the projectile an enemy fires: one row below the enemy
/// (never leaving the playfield), centred on its sprite, flying down at the
/// enemy's configured projectile speed.
pub open spec fn fired_projectile(e: EntityRec) -> EntityRec {
    EntityRec {
        kind: EntityKind::EnemyProjectile,
        position: Position {
            x: (e.position.x + 2) as u16,
            y: if e.position.y > 0 {
                (e.position.y - 1) as u16
            } else {
                0u16
            },
        },
        prev_position: PrevPosition {
            x: (e.position.x + 2) as u16,
            y: if e.position.y > 0 {
                (e.position.y - 1) as u16
            } else {
                0u16
            },
        },
        velocity: Velocity {
            speed: e.projectile_spawner->Some_0.projectile_speed,
            move_accumulator: 0,
            direction: Direction::Still,
        },
        renderable: Renderable {
            sprite_top: "",
            sprite_bottom: "⣿",
            width: 1,
            destroy: false,
            erased: false,
        },
        projectile_spawner: None,
    }
}

/// Whether a sequence of per-slot fire decisions is one the stochastic
/// trigger can produce: only enemies fire, an enemy whose chance is at or
/// above the full scale always fires, and one with zero chance never does.
pub open spec fn fire_decisions_ok(s: Seq<Option<EntityRec>>, fired: Seq<bool>) -> bool {
    &&& fired.len() == s.len()
    &&& forall|i: int|
        0 <= i < s.len() && #[trigger] fired[i] ==> (s[i] matches Some(r) && r.kind is Enemy)
    &&& forall|i: int|
        0 <= i < s.len() ==> ((#[trigger] s[i] matches Some(r) && r.kind is Enemy
            && r.projectile_spawner->Some_0.probability >= CHANCE_SCALE) ==> fired[i])
    &&& forall|i: int|
        0 <= i < s.len() ==> ((#[trigger] s[i] matches Some(r) && r.kind is Enemy
            && r.projectile_spawner->Some_0.probability == 0) ==> !fired[i])
}

/// The projectiles fired this tick, in slot order, given the per-slot fire
/// decisions.
pub open spec fn fired_tail(s: Seq<Option<EntityRec>>, fired: Seq<bool>) -> Seq<EntityRec>
    decreases s.len(),
{
    if s.len() == 0 || fired.len() != s.len() {
        Seq::empty()
    } else {
        fired_tail(s.drop_last(), fired.drop_last()) + (if fired.last() {
            seq![fired_projectile(s.last()->Some_0)]
        } else {
            Seq::empty()
        })
    }
}

/// Every projectile of a fired tail comes from some live enemy slot.
pub proof fn lemma_fired_tail_elements(s: Seq<Option<EntityRec>>, fired: Seq<bool>)
    requires
        fire_decisions_ok(s, fired),
    ensures
        forall|j: int|
            0 <= j < fired_tail(s, fired).len() ==> exists|i: int|
                0 <= i < s.len() && (#[trigger] s[i] matches Some(r) && r.kind is Enemy && #[trigger]
                fired_tail(s, fired)[j] == fired_projectile(r)),
    decreases s.len(),
{
    if s.len() > 0 {
        assert(fire_decisions_ok(s.drop_last(), fired.drop_last()));
        lemma_fired_tail_elements(s.drop_last(), fired.drop_last());
        let t = fired_tail(s, fired);
        let tp = fired_tail(s.drop_last(), fired.drop_last());
        assert forall|j: int| 0 <= j < t.len() implies exists|i: int|
            0 <= i < s.len() && (#[trigger] s[i] matches Some(r) && r.kind is Enemy && #[trigger] t[j]
                == fired_projectile(r)) by {
            if j < tp.len() {
                let i0 = choose|i: int|
                    0 <= i < s.drop_last().len() && (#[trigger] s.drop_last()[i] matches Some(r)
                        && r.kind is Enemy && tp[j] == fired_projectile(r));
                assert(s[i0] matches Some(r) && r.kind is Enemy && t[j] == fired_projectile(r));
            } else {
                let i0 = s.len() - 1;
                assert(s[i0] matches Some(r) && r.kind is Enemy && t[j] == fired_projectile(r));
            }
        }
    }
}

/// One store slot after the enemy pass: enemy bundles take one integration
/// step under the flock direction and, when the wave ran into a wall this
/// tick, step one row down; everything else is untouched.
pub open spec fn enemy_slot_after(
    slot: Option<EntityRec>,
    flock: Direction,
    dt_ms: int,
    hit: bool,
) -> Option<EntityRec> {
    match slot {
        Some(r) => if r.kind is Enemy {
            if hit {
                Some(
                    crate::kinematics::enemy_stepped_down(
                        crate::kinematics::enemy_moved(r, flock, dt_ms),
                    ),
                )
            } else {
                Some(crate::kinematics::enemy_moved(r, flock, dt_ms))
            }
        } else {
            Some(r)
        },
        None => None,
    }
}

/// Whether any enemy of the wave runs into a side wall this tick.
pub open spec fn wave_hits_wall(s: Seq<Option<EntityRec>>, flock: Direction, dt_ms: int) -> bool {
    exists|i: int|
        0 <= i < s.len() && (#[trigger] s[i] matches Some(r) && r.kind is Enemy
            && crate::kinematics::enemy_hits_wall(r, flock, dt_ms))
}

/// Whether stepping the wave one row down leaves some enemy at or below the
/// player's danger row, which ends the match.
pub open spec fn enemy_low_after_drop(s: Seq<Option<EntityRec>>) -> bool {
    exists|i: int|
        0 <= i < s.len() && (#[trigger] s[i] matches Some(r) && r.kind is Enemy && (
        if r.position.y > 0 {
            r.position.y - 1
        } else {
            0
        }) <= crate::kinematics::ENEMY_DANGER_Y)
}

/// One store slot after the enemy movement step alone.
pub open spec fn moved_enemy_slot(slot: Option<EntityRec>, flock: Direction, dt_ms: int) -> Option<
    EntityRec,
> {
    match slot {
        Some(r) => if r.kind is Enemy {
            Some(crate::kinematics::enemy_moved(r, flock, dt_ms))
        } else {
            Some(r)
        },
        None => None,
    }
}

/// One store slot after the wave's wall-hit row drop alone.
pub open spec fn dropped_enemy_slot(slot: Option<EntityRec>) -> Option<EntityRec> {
    match slot {
        Some(r) => if r.kind is Enemy {
            Some(crate::kinematics::enemy_stepped_down(r))
        } else {
            Some(r)
        },
        None => None,
    }
}

/// Rolls every enemy's stochastic fire chance at its current (pre-move)
/// position and returns the projectiles to spawn, in slot order, together
/// with the per-slot fire decisions the rolls produced.
fn roll_enemy_fire(world: &Store) -> (r: (Vec<EntityRec>, Ghost<Seq<bool>>))
    requires
        slots_wf(world@),
    ensures
        fire_decisions_ok(world@, r.1@),
        r.0@ == fired_tail(world@, r.1@),
{
    let ghost s = world@;
    let n = world.slot_count();
    let mut to_spawn: Vec<EntityRec> = Vec::new();
    let ghost mut fired: Seq<bool> = Seq::empty();
    let mut i: usize = 0;
    while i < n
        invariant
            i <= n,
            n == s.len(),
            world@ == s,
            slots_wf(s),
            fired.len() == i,
            fire_decisions_ok(s.subrange(0, i as int), fired),
            to_spawn@ == fired_tail(s.subrange(0, i as int), fired),
        decreases n - i,
    {
        let ghost s_pre = s.subrange(0, i as int);
        let ghost fired_pre = fired;
        let ghost spawn_pre = to_spawn@;
        if let Some(rec) = world.slot(i) {
            if rec.kind == EntityKind::Enemy {
                proof {
                    assert(s[i as int] matches Some(r) && r.wf() && rec_bounds(r));
                }
                let spawner = rec.projectile_spawner.unwrap();
                let chance = draw_chance_millipct();
                if spawner.probability > chance {
                    let py: u16 = if rec.position.y > 0 {
                        rec.position.y - 1
                    } else {
                        0
                    };
                    let proj = EntityRec {
                        kind: EntityKind::EnemyProjectile,
                        position: Position { x: rec.position.x + 2, y: py },
                        prev_position: PrevPosition { x: rec.position.x + 2, y: py },
                        velocity: Velocity {
                            speed: spawner.projectile_speed,
                            move_accumulator: 0,
                            direction: Direction::Still,
                        },
                        renderable: Renderable {
                            sprite_top: "",
                            sprite_bottom: "⣿",
                            width: 1,
                            destroy: false,
                            erased: false,
                        },
                        projectile_spawner: None,
                    };
                    proof {
                        assert(proj == fired_projectile(rec));
                    }
                    to_spawn.push(proj);
                    proof {
                        fired = fired.push(true);
                    }
                } else {
                    proof {
                        fired = fired.push(false);
                    }
                }
            } else {
                proof {
                    fired = fired.push(false);
                }
            }
        } else {
            proof {
                fired = fired.push(false);
            }
        }
        proof {
            let s_cur = s.subrange(0, i as int + 1);
            assert(s_cur.drop_last() =~= s_pre);
            assert(fired.drop_last() =~= fired_pre);
            assert(s_cur.last() == s[i as int]);
            if fired.last() {
                assert(to_spawn@ =~= spawn_pre + seq![fired_projectile(s[i as int]->Some_0)]);
            }
            assert(to_spawn@ == fired_tail(s_cur, fired));
        }
        i = i + 1;
    }
    proof {
        assert(s.subrange(0, n as int) =~= s);
    }
    (to_spawn, Ghost(fired))
}

/// Advances every enemy one integration step under the flock direction and
/// reports whether any of them ran into a side wall.
fn move_enemy_wave(delta_time_ms: u64, flock: Direction, world: &mut Store) -> (hit: bool)
    requires
        slots_wf(old(world)@),
        delta_time_ms <= crate::kinematics::DT_LIMIT_MS,
    ensures
        final(world)@.len() == old(world)@.len(),
        forall|i: int|
            0 <= i < old(world)@.len() ==> final(world)@[i] == moved_enemy_slot(
                #[trigger] old(world)@[i],
                flock,
                delta_time_ms as int,
            ),
        hit == wave_hits_wall(old(world)@, flock, delta_time_ms as int),
        slots_wf(final(world)@),
        forall|k: EntityKind| #[trigger] count_kind(final(world)@, k) == count_kind(old(world)@, k),
{
    let ghost s = world@;
    let n = world.slot_count();
    let mut wall_hit = false;
    let mut i: usize = 0;
    while i < n
        invariant
            i <= n,
            n == s.len(),
            world@.len() == s.len(),
            slots_wf(s),
            delta_time_ms <= crate::kinematics::DT_LIMIT_MS,
            forall|j: int|
                0 <= j < i ==> world@[j] == moved_enemy_slot(
                    #[trigger] s[j],
                    flock,
                    delta_time_ms as int,
                ),
            forall|j: int| i <= j < n ==> world@[j] == s[j],
            wall_hit == exists|j: int|
                0 <= j < i && (#[trigger] s[j] matches Some(r) && r.kind is Enemy
                    && crate::kinematics::enemy_hits_wall(r, flock, delta_time_ms as int)),
        decreases n - i,
    {
        if let Some(rec) = world.slot(i) {
            if rec.kind == EntityKind::Enemy {
                proof {
                    assert(s[i as int] matches Some(r) && r.wf());
                }
                let moved_hit = crate::kinematics::integrate_enemy(rec, flock, delta_time_ms);
                world.set(i, moved_hit.0);
                if moved_hit.1 {
                    wall_hit = true;
                }
            }
        }
        i = i + 1;
    }
    proof {
        assert forall|i2: int| 0 <= i2 < final(world)@.len() implies (
        #[trigger] final(world)@[i2] matches Some(r) ==> r.wf() && rec_bounds(r)) by {
            match s[i2] {
                Some(r0) => {
                    if r0.kind is Enemy {
                        crate::kinematics::lemma_enemy_moved_props(
                            r0,
                            flock,
                            delta_time_ms as int,
                        );
                    }
                    assert(r0.wf() && rec_bounds(r0));
                },
                None => (),
            }
        }
        assert forall|k: EntityKind| #[trigger] count_kind(final(world)@, k) == count_kind(s, k) by {
            assert forall|i2: int| 0 <= i2 < final(world)@.len() implies kind_weight(
                #[trigger] final(world)@[i2],
                k,
            ) == kind_weight(s[i2], k) by {
                match s[i2] {
                    Some(r0) => if r0.kind is Enemy {
                        crate::kinematics::lemma_enemy_moved_props(
                            r0,
                            flock,
                            delta_time_ms as int,
                        );
                    },
                    None => (),
                }
            }
            crate::state::lemma_count_kind_congruence(final(world)@, s, k);
        }
    }
    wall_hit
}

/// Appends the projectiles the wave fired this tick to the store, in order.
fn append_projectiles(to_spawn: &Vec<EntityRec>, world: &mut Store)
    requires
        slots_wf(old(world)@),
        forall|j: int|
            0 <= j < to_spawn@.len() ==> (#[trigger] to_spawn@[j]).wf() && to_spawn@[j].kind
                is EnemyProjectile,
    ensures
        final(world)@.len() == old(world)@.len() + to_spawn@.len(),
        forall|i: int| 0 <= i < old(world)@.len() ==> final(world)@[i] == old(world)@[i],
        forall|j: int|
            0 <= j < to_spawn@.len() ==> #[trigger] final(world)@[old(world)@.len() + j] == Some(
                to_spawn@[j],
            ),
        slots_wf(final(world)@),
        forall|k: EntityKind|
            k !is EnemyProjectile ==> #[trigger] count_kind(final(world)@, k) == count_kind(
                old(world)@,
                k,
            ),
{
    let ghost s = world@;
    let m = to_spawn.len();
    let mut t: usize = 0;
    while t < m
        invariant
            t <= m,
            m == to_spawn@.len(),
            slots_wf(s),
            forall|j: int|
                0 <= j < m ==> (#[trigger] to_spawn@[j]).wf() && to_spawn@[j].kind
                    is EnemyProjectile,
            world@.len() == s.len() + t,
            forall|j: int| 0 <= j < s.len() ==> world@[j] == s[j],
            forall|j: int| 0 <= j < t ==> #[trigger] world@[s.len() + j] == Some(to_spawn@[j]),
            forall|k: EntityKind|
                k !is EnemyProjectile ==> #[trigger] count_kind(world@, k) == count_kind(s, k),
        decreases m - t,
    {
        let rec = to_spawn[t];
        let ghost pre = world@;
        world.create(rec);
        proof {
            assert forall|k: EntityKind|
                count_kind(world@, k) == count_kind(pre, k) + kind_weight(Some(rec), k) by {
                lemma_count_kind_push(pre, Some(rec), k);
            }
        }
        t = t + 1;
    }
    proof {
        assert forall|i2: int| 0 <= i2 < final(world)@.len() implies (
        #[trigger] final(world)@[i2] matches Some(r) ==> r.wf() && rec_bounds(r)) by {
            if i2 >= s.len() {
                let j = i2 - s.len();
                assert(final(world)@[s.len() + j] == Some(to_spawn@[j]));
                assert(to_spawn@[j].wf() && to_spawn@[j].kind is EnemyProjectile);
            } else {
                assert(final(world)@[i2] == s[i2]);
                match s[i2] {
                    Some(r0) => {
                        assert(r0.wf() && rec_bounds(r0));
                    },
                    None => (),
                }
            }
        }
    }
}

/// Steps every enemy one row down after a wall hit, recording each pre-drop
/// row for the eraser, and reports whether some enemy now sits at or below
/// the danger row.
fn drop_enemy_wave(world: &mut Store) -> (low: bool)
    requires
        slots_wf(old(world)@),
    ensures
        final(world)@.len() == old(world)@.len(),
        forall|i: int|
            0 <= i < old(world)@.len() ==> final(world)@[i] == dropped_enemy_slot(
                #[trigger] old(world)@[i],
            ),
        low == enemy_low_after_drop(old(world)@),
        slots_wf(final(world)@),
        forall|k: EntityKind| #[trigger] count_kind(final(world)@, k) == count_kind(old(world)@, k),
{
    let ghost s = world@;
    let n = world.slot_count();
    let mut low = false;
    let mut i: usize = 0;
    while i < n
        invariant
            i <= n,
            n == s.len(),
            world@.len() == s.len(),
            slots_wf(s),
            forall|j: int| 0 <= j < i ==> world@[j] == dropped_enemy_slot(#[trigger] s[j]),
            forall|j: int| i <= j < n ==> world@[j] == s[j],
            low == exists|j: int|
                0 <= j < i && (#[trigger] s[j] matches Some(r) && r.kind is Enemy && (
                if r.position.y > 0 {
                    r.position.y - 1
                } else {
                    0
                }) <= crate::kinematics::ENEMY_DANGER_Y),
        decreases n - i,
    {
        let slot_i = world.slot(i);
        match slot_i {
            Some(rec) => {
                if rec.kind == EntityKind::Enemy {
                    let stepped = crate::kinematics::step_down_enemy(rec);
                    world.set(i, stepped);
                    if stepped.position.y <= crate::kinematics::ENEMY_DANGER_Y {
                        low = true;
                        proof {
                            assert(s[i as int] matches Some(r) && r.kind is Enemy && (
                            if r.position.y > 0 {
                                r.position.y - 1
                            } else {
                                0
                            }) <= crate::kinematics::ENEMY_DANGER_Y);
                        }
                    } else {
                        proof {
                            assert(!(s[i as int] matches Some(r) && r.kind is Enemy && (
                            if r.position.y > 0 {
                                r.position.y - 1
                            } else {
                                0
                            }) <= crate::kinematics::ENEMY_DANGER_Y));
                        }
                    }
                } else {
                    proof {
                        assert(!(s[i as int] matches Some(r) && r.kind is Enemy && (
                        if r.position.y > 0 {
                            r.position.y - 1
                        } else {
                            0
                        }) <= crate::kinematics::ENEMY_DANGER_Y));
                    }
                }
            },
            None => {
                proof {
                    assert(!(s[i as int] matches Some(r) && r.kind is Enemy && (
                    if r.position.y > 0 {
                        r.position.y - 1
                    } else {
                        0
                    }) <= crate::kinematics::ENEMY_DANGER_Y));
                }
            },
        }
        i = i + 1;
    }
    proof {
        assert forall|i2: int| 0 <= i2 < final(world)@.len() implies (
        #[trigger] final(world)@[i2] matches Some(r) ==> r.wf() && rec_bounds(r)) by {
            match s[i2] {
                Some(r0) => {
                    assert(r0.wf() && rec_bounds(r0));
                },
                None => (),
            }
        }
        assert forall|k: EntityKind| #[trigger] count_kind(final(world)@, k) == count_kind(s, k) by {
            assert forall|i2: int| 0 <= i2 < final(world)@.len() implies kind_weight(
                #[trigger] final(world)@[i2],
                k,
            ) == kind_weight(s[i2], k) by {}
            crate::state::lemma_count_kind_congruence(final(world)@, s, k);
        }
    }
    low
}

/// The enemy pass of one tick: each enemy independently rolls its stochastic
/// fire chance (at its pre-move position), the whole wave advances under the
/// shared flock direction, fired projectiles join the store, and when any
/// enemy ran into a side wall the flock direction flips and every enemy
/// steps one row down — ending the match if that leaves an enemy at the
/// player's danger row.
///
/// The fire rolls are the one stochastic input, so the contract fixes the
/// result for every possible decision sequence: only enemies fire, a chance
/// at or above the full scale always fires, a zero chance never does, and
/// everything else this pass does is a function of those decisions.
#[verifier::rlimit(60)]
pub fn process_enemies(delta_time_ms: u64, game_state: &mut GameState)
    requires
        old(game_state).wf(),
        delta_time_ms <= crate::kinematics::DT_LIMIT_MS,
    ensures
        final(game_state).wf(),
        enemy_pass_rel(*old(game_state), *final(game_state), delta_time_ms as int),
        no_erased_of_kind(old(game_state).world@, EntityKind::PlayerProjectile)
            ==> no_erased_of_kind(final(game_state).world@, EntityKind::PlayerProjectile),
        forall|i: int|
            0 <= i < old(game_state).world@.len() ==> ((#[trigger] final(game_state).world@[i])
                is Some ==> old(game_state).world@[i] is Some && (slot_erased(
                final(game_state).world@[i],
            ) == slot_erased(old(game_state).world@[i]))),
        forall|i: int|
            0 <= i < old(game_state).world@.len() ==> (final(game_state).world@[i] is None && (
            #[trigger] old(game_state).world@[i]) is Some ==> slot_erased(
                old(game_state).world@[i],
            )),
{
    let ghost s = game_state.world@;
    let ghost dt = delta_time_ms as int;
    let dir0 = game_state.enemy_direction;

    let rolled = roll_enemy_fire(&game_state.world);
    let to_spawn = rolled.0;
    let ghost fired = rolled.1@;

    let wall_hit = move_enemy_wave(delta_time_ms, dir0, &mut game_state.world);
    let ghost v_moved = game_state.world@;

    proof {
        lemma_fired_tail_elements(s, fired);
        assert forall|j: int| 0 <= j < to_spawn@.len() implies (#[trigger] to_spawn@[j]).wf()
            && to_spawn@[j].kind is EnemyProjectile by {
            let w = choose|i2: int|
                0 <= i2 < s.len() && (#[trigger] s[i2] matches Some(r) && r.kind is Enemy
                    && #[trigger] fired_tail(s, fired)[j] == fired_projectile(r));
            assert(s[w] matches Some(r) && r.wf());
        }
    }
    append_projectiles(&to_spawn, &mut game_state.world);
    let ghost v_app = game_state.world@;

    if wall_hit {
        game_state.enemy_direction = match dir0 {
            Direction::Right => Direction::Left,
            Direction::Left => Direction::Right,
            Direction::Still => Direction::Still,
        };
        let low = drop_enemy_wave(&mut game_state.world);
        if low {
            game_state.game_over_notifier = true;
        }
        proof {
            let hit = wave_hits_wall(s, dir0, dt);
            assert(hit);
            if enemy_low_after_drop(v_app) {
                let j = choose|j: int|
                    0 <= j < v_app.len() && (#[trigger] v_app[j] matches Some(r) && r.kind is Enemy
                        && (if r.position.y > 0 {
                        r.position.y - 1
                    } else {
                        0
                    }) <= crate::kinematics::ENEMY_DANGER_Y);
                if j < s.len() {
                    match s[j] {
                        Some(r0) => if r0.kind is Enemy {
                            crate::kinematics::lemma_enemy_moved_props(r0, dir0, dt);
                        },
                        None => (),
                    }
                    assert(enemy_low_after_drop(s));
                } else {
                    let j2 = j - s.len();
                    assert(v_app[s.len() + j2] == Some(to_spawn@[j2]));
                }
            }
            if enemy_low_after_drop(s) {
                let j = choose|j: int|
                    0 <= j < s.len() && (#[trigger] s[j] matches Some(r) && r.kind is Enemy && (
                    if r.position.y > 0 {
                        r.position.y - 1
                    } else {
                        0
                    }) <= crate::kinematics::ENEMY_DANGER_Y);
                match s[j] {
                    Some(r0) => if r0.kind is Enemy {
                        crate::kinematics::lemma_enemy_moved_props(r0, dir0, dt);
                    },
                    None => (),
                }
                assert(v_app[j] matches Some(r) && r.kind is Enemy && (if r.position.y > 0 {
                    r.position.y - 1
                } else {
                    0
                }) <= crate::kinematics::ENEMY_DANGER_Y);
                assert(enemy_low_after_drop(v_app));
            }
        }
    } else {
        proof {
            assert(!wave_hits_wall(s, dir0, dt));
        }
    }

    proof {
        let g0 = *old(game_state);
        let hit = wave_hits_wall(s, dir0, dt);
        let w = final(game_state).world@;

        assert forall|i2: int| 0 <= i2 < s.len() implies w[i2] == enemy_slot_after(
            #[trigger] s[i2],
            dir0,
            dt,
            hit,
        ) by {
            match s[i2] {
                Some(r0) => if r0.kind is Enemy {
                    crate::kinematics::lemma_enemy_moved_props(r0, dir0, dt);
                },
                None => (),
            }
        }

        assert(fire_decisions_ok(s, fired));
        assert(w.len() == s.len() + fired_tail(s, fired).len());
        assert forall|j: int| 0 <= j < fired_tail(s, fired).len() implies w[s.len() + j] == Some(
            #[trigger] fired_tail(s, fired)[j],
        ) by {
            assert(v_app[s.len() + j] == Some(to_spawn@[j]));
            assert(to_spawn@[j].kind is EnemyProjectile);
            if wall_hit {
                assert(w[s.len() + j] == dropped_enemy_slot(v_app[s.len() + j]));
            }
        }
        assert(count_kind(w, EntityKind::Player) == count_kind(s, EntityKind::Player));
        assert(count_kind(w, EntityKind::PlayerProjectile) == count_kind(
            s,
            EntityKind::PlayerProjectile,
        ));
        assert(w[g0.player_entity.0 as int] == s[g0.player_entity.0 as int]);
        assert forall|i2: int| 0 <= i2 < s.len() implies ((#[trigger] w[i2]) is Some ==> s[i2]
            is Some && (slot_erased(w[i2]) == slot_erased(s[i2]))) && (w[i2] is None && s[i2]
            is Some ==> slot_erased(s[i2])) by {
            lemma_enemy_slot_erase(s[i2], dir0, dt, hit);
        }
        if no_erased_of_kind(s, EntityKind::PlayerProjectile) {
            assert(no_erased_of_kind(w, EntityKind::PlayerProjectile)) by {
                assert forall|i2: int|
                    0 <= i2 < w.len() implies !(#[trigger] w[i2] matches Some(r) && r.kind
                    == EntityKind::PlayerProjectile && r.renderable.erased) by {
                    if i2 < s.len() {
                        lemma_enemy_slot_erase(s[i2], dir0, dt, hit);
                        match s[i2] {
                            Some(r0) => (),
                            None => (),
                        };
                    } else {
                        let j = i2 - s.len();
                        assert(w[s.len() + j] == Some(fired_tail(s, fired)[j]));
                        assert(to_spawn@[j].kind is EnemyProjectile);
                    }
                }
            }
        }
    }
}

/// One store slot after the enemy-projectile pass: a projectile whose glyph
/// the renderer has erased leaves the store, any other enemy projectile
/// takes one integration step, everything else is untouched.
pub open spec fn ep_slot_after(slot: Option<EntityRec>, dt_ms: int) -> Option<EntityRec> {
    match slot {
        Some(r) => if r.kind is EnemyProjectile {
            if r.renderable.erased {
                None
            } else {
                Some(crate::kinematics::enemy_proj_moved(r, dt_ms))
            }
        } else {
            Some(r)
        },
        None => None,
    }
}

/// The enemy-projectile pass of one tick: every enemy projectile moves one
/// integration step down the playfield, and any projectile whose glyph the
/// renderer has acknowledged erasing is despawned.
pub fn process_enemy_projectiles(delta_time_ms: u64, game_state: &mut GameState) -> (r: Result<
    (),
    crate::store::StoreError,
>)
    requires
        old(game_state).wf(),
        delta_time_ms <= crate::kinematics::DT_LIMIT_MS,
    ensures
        r is Ok,
        final(game_state).wf(),
        ep_pass_rel(*old(game_state), *final(game_state), delta_time_ms as int),
        no_erased_of_kind(old(game_state).world@, EntityKind::PlayerProjectile)
            ==> no_erased_of_kind(final(game_state).world@, EntityKind::PlayerProjectile),
        forall|i: int|
            0 <= i < old(game_state).world@.len() ==> ((#[trigger] final(game_state).world@[i])
                is Some ==> old(game_state).world@[i] is Some && (slot_erased(
                final(game_state).world@[i],
            ) == slot_erased(old(game_state).world@[i]))),
        forall|i: int|
            0 <= i < old(game_state).world@.len() ==> (final(game_state).world@[i] is None && (
            #[trigger] old(game_state).world@[i]) is Some ==> slot_erased(
                old(game_state).world@[i],
            )),
{
    let ghost s = game_state.world@;
    let n = game_state.world.slot_count();
    let mut i: usize = 0;
    while i < n
        invariant
            i <= n,
            n == s.len(),
            game_state.world@.len() == s.len(),
            slots_wf(s),
            delta_time_ms <= crate::kinematics::DT_LIMIT_MS,
            forall|j: int|
                0 <= j < i ==> game_state.world@[j] == (match #[trigger] s[j] {
                    Some(r) => if r.kind is EnemyProjectile {
                        Some(crate::kinematics::enemy_proj_moved(r, delta_time_ms as int))
                    } else {
                        Some(r)
                    },
                    None => None,
                }),
            forall|j: int| i <= j < n ==> game_state.world@[j] == s[j],
            *game_state == (GameState { world: game_state.world, ..*old(game_state) }),
        decreases n - i,
    {
        if let Some(rec) = game_state.world.slot(i) {
            if rec.kind == EntityKind::EnemyProjectile {
                proof {
                    assert(s[i as int] matches Some(r) && r.wf());
                }
                let moved = crate::kinematics::integrate_enemy_proj(rec, delta_time_ms);
                game_state.world.set(i, moved);
            }
        }
        i = i + 1;
    }
    let ghost v1 = game_state.world@;
    proof {
        assert forall|k: EntityKind| #[trigger] count_kind(v1, k) == count_kind(s, k) by {
            assert forall|i2: int| 0 <= i2 < v1.len() implies kind_weight(#[trigger] v1[i2], k)
                == kind_weight(s[i2], k) by {
                match s[i2] {
                    Some(r0) => if r0.kind is EnemyProjectile {
                        crate::kinematics::lemma_enemy_proj_moved_props(r0, delta_time_ms as int);
                    },
                    None => (),
                };
            }
            crate::state::lemma_count_kind_congruence(v1, s, k);
        }
    }
    let mut j: usize = 0;
    while j < n
        invariant
            j <= n,
            n == v1.len(),
            game_state.world@.len() == v1.len(),
            v1.len() == s.len(),
            slots_wf(s),
            delta_time_ms <= crate::kinematics::DT_LIMIT_MS,
            forall|i2: int|
                0 <= i2 < v1.len() ==> v1[i2] == (match #[trigger] s[i2] {
                    Some(r) => if r.kind is EnemyProjectile {
                        Some(crate::kinematics::enemy_proj_moved(r, delta_time_ms as int))
                    } else {
                        Some(r)
                    },
                    None => None,
                }),
            forall|i2: int|
                0 <= i2 < j ==> game_state.world@[i2] == (match #[trigger] v1[i2] {
                    Some(r) => if r.kind is EnemyProjectile && r.renderable.erased {
                        None::<EntityRec>
                    } else {
                        Some(r)
                    },
                    None => None,
                }),
            forall|i2: int| j <= i2 < n ==> game_state.world@[i2] == v1[i2],
            forall|k: EntityKind|
                k !is EnemyProjectile ==> #[trigger] count_kind(game_state.world@, k) == count_kind(
                    v1,
                    k,
                ),
            *game_state == (GameState { world: game_state.world, ..*old(game_state) }),
        decreases n - j,
    {
        if let Some(rec) = game_state.world.slot(j) {
            if rec.kind == EntityKind::EnemyProjectile && rec.renderable.erased {
                let ghost pre = game_state.world@;
                game_state.world.clear_slot(j);
                proof {
                    assert forall|k: EntityKind|
                        count_kind(game_state.world@, k) + kind_weight(pre[j as int], k)
                            == count_kind(pre, k) + kind_weight(None::<EntityRec>, k) by {
                        crate::state::lemma_count_kind_update(pre, j as int, None::<EntityRec>, k);
                    }
                    assert forall|k: EntityKind| k !is EnemyProjectile implies #[trigger]
                        count_kind(game_state.world@, k) == count_kind(v1, k) by {
                        assert(kind_weight(pre[j as int], k) == 0);
                        assert(count_kind(pre, k) == count_kind(v1, k));
                    }
                }
            }
        }
        j = j + 1;
    }
    proof {
        let dt = delta_time_ms as int;
        assert forall|i2: int| 0 <= i2 < s.len() implies final(game_state).world@[i2]
            == ep_slot_after(#[trigger] s[i2], dt) by {
            match s[i2] {
                Some(r0) => if r0.kind is EnemyProjectile {
                    crate::kinematics::lemma_enemy_proj_moved_props(r0, dt);
                },
                None => (),
            }
        }
        assert forall|i2: int| 0 <= i2 < final(game_state).world@.len() implies (
        #[trigger] final(game_state).world@[i2] matches Some(r) ==> r.wf() && rec_bounds(r)) by {
            match s[i2] {
                Some(r0) => {
                    if r0.kind is EnemyProjectile {
                        crate::kinematics::lemma_enemy_proj_moved_props(r0, dt);
                    }
                    assert(r0.wf() && rec_bounds(r0));
                },
                None => (),
            }
        }
        assert forall|i2: int| 0 <= i2 < s.len() implies ((#[trigger] final(game_state).world@[i2]) is Some ==> s[i2] is Some && (slot_erased(final(game_state).world@[i2])
            == slot_erased(s[i2]))) && (final(game_state).world@[i2] is None && s[i2] is Some
            ==> slot_erased(s[i2])) by {
            lemma_ep_slot_erase(s[i2], dt);
        }
        if no_erased_of_kind(s, EntityKind::PlayerProjectile) {
            assert(no_erased_of_kind(final(game_state).world@, EntityKind::PlayerProjectile)) by {
                assert forall|i2: int|
                    0 <= i2 < final(game_state).world@.len() implies !(#[trigger] final(game_state).world@[i2] matches Some(r) && r.kind == EntityKind::PlayerProjectile
                    && r.renderable.erased) by {
                    lemma_ep_slot_erase(s[i2], dt);
                    match s[i2] {
                        Some(r0) => (),
                        None => (),
                    };
                }
            }
        }
    }
    Ok(())
}

/// Whether no live entity of kind `k` stands erased in the slot sequence.
pub open spec fn no_erased_of_kind(s: Seq<Option<EntityRec>>, k: EntityKind) -> bool {
    forall|i: int|
        0 <= i < s.len() ==> !(#[trigger] s[i] matches Some(r) && r.kind == k
            && r.renderable.erased)
}

/// The general cleanup sweep at the end of a tick: every entity whose glyph
/// the renderer has acknowledged erasing is removed from the store,
/// whatever its kind.  An entity is only ever erased after being flagged for
/// destruction, so nothing leaves the store before the renderer has seen its
/// destroy flag.
pub fn entity_cleanup(world: &mut Store) -> (r: Result<(), crate::store::StoreError>)
    requires
        slots_wf(old(world)@),
    ensures
        r is Ok,
        final(world)@.len() == old(world)@.len(),
        forall|i: int|
            0 <= i < old(world)@.len() ==> final(world)@[i] == (match #[trigger] old(world)@[i] {
                Some(r0) => if r0.renderable.erased {
                    None::<EntityRec>
                } else {
                    Some(r0)
                },
                None => None,
            }),
        slots_wf(final(world)@),
        forall|k: EntityKind|
            no_erased_of_kind(old(world)@, k) ==> #[trigger] count_kind(final(world)@, k)
                == count_kind(old(world)@, k),
{
    let ghost s = world@;
    let n = world.slot_count();
    let mut i: usize = 0;
    while i < n
        invariant
            i <= n,
            n == s.len(),
            world@.len() == s.len(),
            slots_wf(s),
            forall|j: int|
                0 <= j < i ==> world@[j] == (match #[trigger] s[j] {
                    Some(r0) => if r0.renderable.erased {
                        None::<EntityRec>
                    } else {
                        Some(r0)
                    },
                    None => None,
                }),
            forall|j: int| i <= j < n ==> world@[j] == s[j],
        decreases n - i,
    {
        if let Some(rec) = world.slot(i) {
            if rec.renderable.erased {
                world.clear_slot(i);
            }
        }
        i = i + 1;
    }
    proof {
        assert forall|i2: int| 0 <= i2 < final(world)@.len() implies (
        #[trigger] final(world)@[i2] matches Some(r) ==> r.wf() && rec_bounds(r)) by {
            match s[i2] {
                Some(r0) => {
                    assert(r0.wf() && rec_bounds(r0));
                },
                None => (),
            };
        }
        assert forall|k: EntityKind| no_erased_of_kind(s, k) implies #[trigger] count_kind(
            final(world)@,
            k,
        ) == count_kind(s, k) by {
            assert forall|i2: int| 0 <= i2 < final(world)@.len() implies kind_weight(
                #[trigger] final(world)@[i2],
                k,
            ) == kind_weight(s[i2], k) by {
                match s[i2] {
                    Some(r0) => (),
                    None => (),
                };
            }
            crate::state::lemma_count_kind_congruence(final(world)@, s, k);
        }
    }
    Ok(())
}

/// Fixed score awarded for each enemy hit.
pub const HIT_SCORE: i32 = 10;

/// The axis-aligned box-vs-point test of the player projectile against an
/// enemy: inside the enemy's sprite width on the same row.
pub open spec fn hit_test(q: Position, e: EntityRec) -> bool {
    &&& q.x >= e.position.x
    &&& q.x <= e.position.x + e.renderable.width
    &&& q.y == e.position.y
}

/// The slot of the single player projectile, where one exists.
pub open spec fn pp_index(s: Seq<Option<EntityRec>>) -> int {
    choose|i: int|
        0 <= i < s.len() && (#[trigger] s[i] matches Some(r) && r.kind is PlayerProjectile)
}

/// The position of the single player projectile.
pub open spec fn pp_pos(s: Seq<Option<EntityRec>>) -> Position {
    s[pp_index(s)]->Some_0.position
}

/// The wave-and-score tally the collision resolver folds over the enemies.
pub struct WaveTally {
    pub score: int,
    pub amount: int,
    pub speed_mult: int,
    pub prob_mult: int,
    pub respawn: bool,
}

/// The enemy speed multiplier after one wave is cleared: a fifth more,
/// capped so the speed computation stays in range.
pub open spec fn bump_speed_mult(m: int) -> int {
    if m * 1200 / 1000 <= SPEED_MULT_LIMIT {
        m * 1200 / 1000
    } else {
        SPEED_MULT_LIMIT as int
    }
}

/// The fire-probability multiplier after one wave is cleared: three times
/// as much, capped far beyond a certain per-tick shot.
pub open spec fn bump_prob_mult(m: int) -> int {
    if m * 3 <= PROB_MULT_LIMIT {
        m * 3
    } else {
        PROB_MULT_LIMIT as int
    }
}

/// The score after one enemy hit: the fixed increment, saturating at the
/// scoreboard's capacity.
pub open spec fn score_after_hit(x: int) -> int {
    if x + HIT_SCORE <= i32::MAX {
        x + HIT_SCORE
    } else {
        i32::MAX as int
    }
}

/// The tally after one enemy hit: score up, and either one fewer enemy
/// remaining or — when that was the wave's last enemy — escalated
/// difficulty and a full wave owed.
pub open spec fn hit_step(t: WaveTally) -> WaveTally {
    WaveTally {
        score: score_after_hit(t.score),
        amount: if t.amount == 1 {
            WAVE_ENEMY_COUNT as int
        } else {
            t.amount - 1
        },
        speed_mult: if t.amount == 1 {
            bump_speed_mult(t.speed_mult)
        } else {
            t.speed_mult
        },
        prob_mult: if t.amount == 1 {
            bump_prob_mult(t.prob_mult)
        } else {
            t.prob_mult
        },
        respawn: t.respawn || t.amount == 1,
    }
}

/// The tally after resolving, in slot order from slot `i` on, every enemy
/// the projectile at `q` overlaps.
pub open spec fn resolve_hits(
    s: Seq<Option<EntityRec>>,
    q: Position,
    i: int,
    t: WaveTally,
) -> WaveTally
    decreases s.len() - i,
{
    if i < 0 || i >= s.len() {
        t
    } else {
        let t2 = if s[i] matches Some(r) && r.kind is Enemy && hit_test(q, r) {
            hit_step(t)
        } else {
            t
        };
        resolve_hits(s, q, i + 1, t2)
    }
}

/// Whether the projectile at `q` overlaps any enemy of the slot sequence.
pub open spec fn any_enemy_hit(s: Seq<Option<EntityRec>>, q: Position) -> bool {
    exists|i: int|
        0 <= i < s.len() && (#[trigger] s[i] matches Some(r) && r.kind is Enemy && hit_test(q, r))
}

/// One store slot after the projectile-vs-enemy resolution: overlapped
/// enemies are flagged for destruction, and so is the projectile itself
/// when it hit anything; everything else is untouched.
pub open spec fn enemy_hit_slot_after(
    slot: Option<EntityRec>,
    q: Position,
    hit_any: bool,
) -> Option<EntityRec> {
    match slot {
        Some(r) => if r.kind is Enemy && hit_test(q, r) {
            Some(EntityRec { renderable: Renderable { destroy: true, ..r.renderable }, ..r })
        } else if r.kind is PlayerProjectile && hit_any {
            Some(EntityRec { renderable: Renderable { destroy: true, ..r.renderable }, ..r })
        } else {
            Some(r)
        },
        None => None,
    }
}

/// The initial tally of one resolution pass, taken from the session.
pub open spec fn start_tally(gs: GameState) -> WaveTally {
    WaveTally {
        score: gs.score as int,
        amount: gs.enemy_amount as int,
        speed_mult: gs.enemy_speed_multiplier as int,
        prob_mult: gs.enemy_proj_prob_multiplier as int,
        respawn: false,
    }
}

/// Resolves the player projectile against every enemy, using a snapshot of
/// positions from the start of the pass: each overlapped enemy is flagged
/// for destruction and scores the fixed increment, the wave's remaining
/// count falls, and clearing the wave escalates both difficulty multipliers
/// and spawns a full fresh wave at the new difficulty.
#[verifier::rlimit(60)]
pub fn enemy_collision_detection(game_state: &mut GameState)
    requires
        old(game_state).wf(),
    ensures
        final(game_state).wf(),
        collision_pass_rel(*old(game_state), *final(game_state)),
        no_erased_of_kind(old(game_state).world@, EntityKind::PlayerProjectile)
            ==> no_erased_of_kind(final(game_state).world@, EntityKind::PlayerProjectile),
        forall|i: int|
            0 <= i < old(game_state).world@.len() ==> ((#[trigger] final(game_state).world@[i])
                is Some ==> old(game_state).world@[i] is Some && (slot_erased(
                final(game_state).world@[i],
            ) == slot_erased(old(game_state).world@[i]))),
        forall|i: int|
            0 <= i < old(game_state).world@.len() ==> (final(game_state).world@[i] is None && (
            #[trigger] old(game_state).world@[i]) is Some ==> slot_erased(
                old(game_state).world@[i],
            )),
{
    if !game_state.player_projectile_exists {
        return ;
    }
    let ghost s = game_state.world@;
    let ghost t0 = start_tally(*game_state);
    let n = game_state.world.slot_count();

    let mut proj_idx: usize = 0;
    let mut found = false;
    let mut qx: u16 = 0;
    let mut qy: u16 = 0;
    let mut i: usize = 0;
    while i < n
        invariant
            i <= n,
            n == s.len(),
            game_state.world@ == s,
            old(game_state).wf(),
            *game_state == *old(game_state),
            found ==> proj_idx < n,
            found ==> (s[proj_idx as int] matches Some(r) && r.kind is PlayerProjectile && qx
                == r.position.x && qy == r.position.y),
            !found ==> forall|j: int|
                0 <= j < i ==> !(#[trigger] s[j] matches Some(r) && r.kind is PlayerProjectile),
        decreases n - i,
    {
        if !found {
            if let Some(rec) = game_state.world.slot(i) {
                if rec.kind == EntityKind::PlayerProjectile {
                    found = true;
                    proj_idx = i;
                    qx = rec.position.x;
                    qy = rec.position.y;
                }
            }
        }
        i = i + 1;
    }
    proof {
        if !found {
            let wit: int = crate::state::lemma_count_kind_nonzero(s, EntityKind::PlayerProjectile);
            assert(!(s[wit] is Some));
        }
        crate::state::lemma_count_kind_unique(
            s,
            EntityKind::PlayerProjectile,
            proj_idx as int,
            pp_index(s),
        );
        assert(qx == pp_pos(s).x && qy == pp_pos(s).y);
    }
    let ghost q = pp_pos(s);

    let mut score = game_state.score;
    let mut amount = game_state.enemy_amount;
    let mut smult = game_state.enemy_speed_multiplier;
    let mut pmult = game_state.enemy_proj_prob_multiplier;
    let mut respawn = false;
    let mut hit_any = false;
    i = 0;
    while i < n
        invariant
            i <= n,
            n == s.len(),
            game_state.world@.len() == s.len(),
            old(game_state).wf(),
            q == pp_pos(s),
            qx == q.x,
            qy == q.y,
            resolve_hits(s, q, 0, t0) == resolve_hits(
                s,
                q,
                i as int,
                WaveTally {
                    score: score as int,
                    amount: amount as int,
                    speed_mult: smult as int,
                    prob_mult: pmult as int,
                    respawn,
                },
            ),
            0 <= score,
            1 <= amount <= WAVE_ENEMY_COUNT,
            MULT_ONE <= smult <= SPEED_MULT_LIMIT,
            MULT_ONE <= pmult <= PROB_MULT_LIMIT,
            hit_any == exists|j: int|
                0 <= j < i && (#[trigger] s[j] matches Some(r) && r.kind is Enemy && hit_test(
                    q,
                    r,
                )),
            forall|j: int|
                0 <= j < i ==> game_state.world@[j] == (match #[trigger] s[j] {
                    Some(r) => if r.kind is Enemy && hit_test(q, r) {
                        Some(
                            EntityRec {
                                renderable: Renderable { destroy: true, ..r.renderable },
                                ..r
                            },
                        )
                    } else {
                        Some(r)
                    },
                    None => None,
                }),
            forall|j: int| i <= j < n ==> game_state.world@[j] == s[j],
            *game_state == (GameState { world: game_state.world, ..*old(game_state) }),
        decreases n - i,
    {
        if let Some(rec) = game_state.world.slot(i) {
            if rec.kind == EntityKind::Enemy {
                let within = qx >= rec.position.x && (qx as u32) <= (rec.position.x as u32) + (
                rec.renderable.width as u32) && qy == rec.position.y;
                if within {
                    proof {
                        assert(s[i as int] matches Some(r) && r.kind is Enemy && hit_test(q, r));
                    }
                    let hit_rec = EntityRec {
                        renderable: Renderable { destroy: true, ..rec.renderable },
                        ..rec
                    };
                    game_state.world.set(i, hit_rec);
                    score = if score <= i32::MAX - HIT_SCORE {
                        score + HIT_SCORE
                    } else {
                        i32::MAX
                    };
                    if amount == 1 {
                        let cand = smult * 1200 / 1000;
                        smult = if cand <= SPEED_MULT_LIMIT {
                            cand
                        } else {
                            SPEED_MULT_LIMIT
                        };
                        let candp = pmult * 3;
                        pmult = if candp <= PROB_MULT_LIMIT {
                            candp
                        } else {
                            PROB_MULT_LIMIT
                        };
                        amount = WAVE_ENEMY_COUNT;
                        respawn = true;
                    } else {
                        amount = amount - 1;
                    }
                    hit_any = true;
                } else {
                    proof {
                        assert(!(s[i as int] matches Some(r) && r.kind is Enemy && hit_test(
                            q,
                            r,
                        )));
                    }
                }
            }
        }
        i = i + 1;
    }
    game_state.score = score;
    game_state.enemy_amount = amount;
    game_state.enemy_speed_multiplier = smult;
    game_state.enemy_proj_prob_multiplier = pmult;
    if hit_any {
        game_state.score_updated = true;
        let pp = game_state.world.slot(proj_idx).unwrap();
        let destroyed = EntityRec {
            renderable: Renderable { destroy: true, ..pp.renderable },
            ..pp
        };
        game_state.world.set(proj_idx, destroyed);
    }
    let ghost v_marked = game_state.world@;
    proof {
        assert forall|i2: int| 0 <= i2 < s.len() implies v_marked[i2] == enemy_hit_slot_after(
            #[trigger] s[i2],
            q,
            hit_any,
        ) by {
            if i2 != proj_idx as int {
                match s[i2] {
                    Some(r0) => if r0.kind is PlayerProjectile {
                        crate::state::lemma_count_kind_unique(
                            s,
                            EntityKind::PlayerProjectile,
                            i2,
                            proj_idx as int,
                        );
                    },
                    None => (),
                };
            }
        }
        assert forall|k: EntityKind| #[trigger] count_kind(v_marked, k) == count_kind(s, k) by {
            assert forall|i2: int| 0 <= i2 < v_marked.len() implies kind_weight(
                #[trigger] v_marked[i2],
                k,
            ) == kind_weight(s[i2], k) by {
                match s[i2] {
                    Some(r0) => (),
                    None => (),
                };
            }
            crate::state::lemma_count_kind_congruence(v_marked, s, k);
        }
        assert forall|i2: int| 0 <= i2 < v_marked.len() implies (
        #[trigger] v_marked[i2] matches Some(r) ==> r.wf() && rec_bounds(r)) by {
            match s[i2] {
                Some(r0) => {
                    assert(r0.wf() && rec_bounds(r0));
                },
                None => (),
            };
        }
    }
    if respawn {
        spawn_enemies(pmult, smult, &mut game_state.world);
        proof {
            assert forall|i2: int| 0 <= i2 < final(game_state).world@.len() implies (
            #[trigger] final(game_state).world@[i2] matches Some(r) ==> r.wf() && rec_bounds(
                r,
            )) by {
                if i2 >= s.len() {
                    let j = i2 - s.len();
                    assert(final(game_state).world@[s.len() + j] == Some(
                        spawned_enemy(j / 3, j % 3, smult, pmult),
                    ));
                    assert(0 <= j / 3 <= 9 && 0 <= j % 3 <= 2);
                } else {
                    assert(final(game_state).world@[i2] == v_marked[i2]);
                }
            }
        }
    }
    proof {
        let q2 = pp_pos(s);
        let ha = any_enemy_hit(s, q2);
        assert forall|i2: int| 0 <= i2 < s.len() implies ((#[trigger] final(game_state).world@[i2]) is Some ==> s[i2] is Some && (slot_erased(final(game_state).world@[i2])
            == slot_erased(s[i2]))) && (final(game_state).world@[i2] is None && s[i2] is Some
            ==> slot_erased(s[i2])) by {
            lemma_enemy_hit_slot_erase(s[i2], q2, ha);
        }
        if no_erased_of_kind(s, EntityKind::PlayerProjectile) {
            assert(no_erased_of_kind(final(game_state).world@, EntityKind::PlayerProjectile)) by {
                assert forall|i2: int|
                    0 <= i2 < final(game_state).world@.len() implies !(#[trigger] final(game_state).world@[i2] matches Some(r) && r.kind == EntityKind::PlayerProjectile
                    && r.renderable.erased) by {
                    if i2 < s.len() {
                        lemma_enemy_hit_slot_erase(s[i2], q2, ha);
                        match s[i2] {
                            Some(r0) => (),
                            None => (),
                        };
                    } else {
                        let j = i2 - s.len();
                        assert(final(game_state).world@[s.len() + j] == Some(
                            spawned_enemy(j / 3, j % 3, smult, pmult),
                        ));
                    }
                }
            }
        }
    }
}

/// The box-vs-point test of an enemy projectile against the player's
/// five-cell box, one row above the projectile (the sprite is two rows
/// tall).
pub open spec fn player_hit_test(p: Position, r: EntityRec) -> bool {
    &&& r.position.x >= p.x
    &&& r.position.x <= p.x + 5
    &&& p.y + 1 == r.position.y
}

/// One store slot after the projectile-vs-player resolution: enemy
/// projectiles overlapping the player are flagged for destruction.
pub open spec fn player_hit_slot_after(slot: Option<EntityRec>, p: Position) -> Option<EntityRec> {
    match slot {
        Some(r) => if r.kind is EnemyProjectile && player_hit_test(p, r) {
            Some(EntityRec { renderable: Renderable { destroy: true, ..r.renderable }, ..r })
        } else {
            Some(r)
        },
        None => None,
    }
}

/// Whether any enemy projectile overlaps the player's box.
pub open spec fn any_player_hit(s: Seq<Option<EntityRec>>, p: Position) -> bool {
    exists|i: int|
        0 <= i < s.len() && (#[trigger] s[i] matches Some(r) && r.kind is EnemyProjectile
            && player_hit_test(p, r))
}

/// Resolves every enemy projectile against the player's box.  Any number of
/// simultaneous overlaps cost exactly one life — loss is tick-granular —
/// and each overlapping projectile is flagged for destruction; when the
/// last life is gone the game-over signal is raised.
pub fn player_collision_detection(game_state: &mut GameState)
    requires
        old(game_state).wf(),
    ensures
        final(game_state).wf(),
        player_hit_pass_rel(*old(game_state), *final(game_state)),
        no_erased_of_kind(old(game_state).world@, EntityKind::PlayerProjectile)
            ==> no_erased_of_kind(final(game_state).world@, EntityKind::PlayerProjectile),
        forall|i: int|
            0 <= i < old(game_state).world@.len() ==> ((#[trigger] final(game_state).world@[i])
                is Some ==> old(game_state).world@[i] is Some && (slot_erased(
                final(game_state).world@[i],
            ) == slot_erased(old(game_state).world@[i]))),
        forall|i: int|
            0 <= i < old(game_state).world@.len() ==> (final(game_state).world@[i] is None && (
            #[trigger] old(game_state).world@[i]) is Some ==> slot_erased(
                old(game_state).world@[i],
            )),
{
    let ghost s = game_state.world@;
    let player = game_state.world.slot(game_state.player_entity.0).unwrap();
    let px = player.position.x;
    let py = player.position.y;
    let ghost p = tracked_player(*old(game_state)).position;
    let n = game_state.world.slot_count();
    let mut player_hit = false;
    let mut i: usize = 0;
    while i < n
        invariant
            i <= n,
            n == s.len(),
            game_state.world@.len() == s.len(),
            old(game_state).wf(),
            p == tracked_player(*old(game_state)).position,
            px == p.x,
            py == p.y,
            player_hit == exists|j: int|
                0 <= j < i && (#[trigger] s[j] matches Some(r) && r.kind is EnemyProjectile
                    && player_hit_test(p, r)),
            forall|j: int|
                0 <= j < i ==> game_state.world@[j] == player_hit_slot_after(#[trigger] s[j], p),
            forall|j: int| i <= j < n ==> game_state.world@[j] == s[j],
            *game_state == (GameState { world: game_state.world, ..*old(game_state) }),
        decreases n - i,
    {
        if let Some(rec) = game_state.world.slot(i) {
            if rec.kind == EntityKind::EnemyProjectile {
                let within = rec.position.x >= px && (rec.position.x as u32) <= (px as u32) + 5
                    && (py as u32) + 1 == (rec.position.y as u32);
                if within {
                    proof {
                        assert(s[i as int] matches Some(r) && r.kind is EnemyProjectile
                            && player_hit_test(p, r));
                    }
                    let hit_rec = EntityRec {
                        renderable: Renderable { destroy: true, ..rec.renderable },
                        ..rec
                    };
                    game_state.world.set(i, hit_rec);
                    player_hit = true;
                } else {
                    proof {
                        assert(!(s[i as int] matches Some(r) && r.kind is EnemyProjectile
                            && player_hit_test(p, r)));
                    }
                }
            }
        }
        i = i + 1;
    }
    if player_hit {
        game_state.player_lives = if game_state.player_lives > 0 {
            game_state.player_lives - 1
        } else {
            0
        };
        game_state.score_updated = true;
        if game_state.player_lives == 0 {
            game_state.game_over_notifier = true;
        }
    }
    proof {
        assert forall|k: EntityKind| #[trigger] count_kind(final(game_state).world@, k)
            == count_kind(s, k) by {
            assert forall|i2: int| 0 <= i2 < s.len() implies kind_weight(
                #[trigger] final(game_state).world@[i2],
                k,
            ) == kind_weight(s[i2], k) by {
                match s[i2] {
                    Some(r0) => (),
                    None => (),
                };
            }
            crate::state::lemma_count_kind_congruence(final(game_state).world@, s, k);
        }
        assert forall|i2: int| 0 <= i2 < s.len() implies (
        #[trigger] final(game_state).world@[i2] matches Some(r) ==> r.wf() && rec_bounds(r)) by {
            match s[i2] {
                Some(r0) => {
                    assert(r0.wf() && rec_bounds(r0));
                },
                None => (),
            };
        }
        assert forall|i2: int| 0 <= i2 < s.len() implies ((#[trigger] final(game_state).world@[i2]) is Some ==> s[i2] is Some && (slot_erased(final(game_state).world@[i2])
            == slot_erased(s[i2]))) && (final(game_state).world@[i2] is None && s[i2] is Some
            ==> slot_erased(s[i2])) by {
            lemma_player_hit_slot_erase(s[i2], p);
        }
        if no_erased_of_kind(s, EntityKind::PlayerProjectile) {
            assert(no_erased_of_kind(final(game_state).world@, EntityKind::PlayerProjectile)) by {
                assert forall|i2: int|
                    0 <= i2 < final(game_state).world@.len() implies !(#[trigger] final(game_state).world@[i2] matches Some(r) && r.kind == EntityKind::PlayerProjectile
                    && r.renderable.erased) by {
                    lemma_player_hit_slot_erase(s[i2], p);
                    match s[i2] {
                        Some(r0) => (),
                        None => (),
                    };
                }
            }
        }
    }
}

/// Whether a slot holds an entity whose glyph the renderer has erased.
pub open spec fn slot_erased(slot: Option<EntityRec>) -> bool {
    slot matches Some(r) && r.renderable.erased
}

/// The player pass never despawns a slot and never touches the erased flag.
pub proof fn lemma_player_slot_erase(slot: Option<EntityRec>, dt_ms: int)
    requires
        slot matches Some(r) ==> r.wf(),
        0 <= dt_ms <= crate::kinematics::DT_LIMIT_MS,
    ensures
        player_slot_after(slot, dt_ms) is Some <==> slot is Some,
        slot_erased(player_slot_after(slot, dt_ms)) == slot_erased(slot),
{
    match slot {
        Some(r0) => if r0.kind is Player {
            crate::kinematics::lemma_player_moved_props(r0, dt_ms);
        },
        None => (),
    }
}

/// The player-projectile pass despawns only erased slots and never touches
/// the erased flag of a survivor.
pub proof fn lemma_pp_slot_erase(slot: Option<EntityRec>, dt_ms: int)
    requires
        slot matches Some(r) ==> r.wf(),
        0 <= dt_ms <= crate::kinematics::DT_LIMIT_MS,
    ensures
        pp_slot_after(slot, dt_ms) is None && slot is Some ==> slot_erased(slot),
        pp_slot_after(slot, dt_ms) is Some ==> slot is Some && slot_erased(
            pp_slot_after(slot, dt_ms),
        ) == slot_erased(slot),
{
    match slot {
        Some(r0) => if r0.kind is PlayerProjectile {
            crate::kinematics::lemma_player_proj_moved_props(r0, dt_ms);
        },
        None => (),
    }
}

/// The enemy pass never despawns a slot and never touches the erased flag.
pub proof fn lemma_enemy_slot_erase(slot: Option<EntityRec>, flock: Direction, dt_ms: int, hit: bool)
    requires
        slot matches Some(r) ==> r.wf(),
        0 <= dt_ms <= crate::kinematics::DT_LIMIT_MS,
    ensures
        enemy_slot_after(slot, flock, dt_ms, hit) is Some <==> slot is Some,
        slot_erased(enemy_slot_after(slot, flock, dt_ms, hit)) == slot_erased(slot),
{
    match slot {
        Some(r0) => if r0.kind is Enemy {
            crate::kinematics::lemma_enemy_moved_props(r0, flock, dt_ms);
        },
        None => (),
    }
}

/// The projectile-vs-enemy resolution never despawns a slot and only sets
/// destroy flags, never erased ones.
pub proof fn lemma_enemy_hit_slot_erase(slot: Option<EntityRec>, q: Position, hit_any: bool)
    ensures
        enemy_hit_slot_after(slot, q, hit_any) is Some <==> slot is Some,
        slot_erased(enemy_hit_slot_after(slot, q, hit_any)) == slot_erased(slot),
{
}

/// The enemy-projectile pass despawns only erased slots and never touches
/// the erased flag of a survivor.
pub proof fn lemma_ep_slot_erase(slot: Option<EntityRec>, dt_ms: int)
    requires
        slot matches Some(r) ==> r.wf(),
        0 <= dt_ms <= crate::kinematics::DT_LIMIT_MS,
    ensures
        ep_slot_after(slot, dt_ms) is None && slot is Some ==> slot_erased(slot),
        ep_slot_after(slot, dt_ms) is Some ==> slot is Some && slot_erased(
            ep_slot_after(slot, dt_ms),
        ) == slot_erased(slot),
{
    match slot {
        Some(r0) => if r0.kind is EnemyProjectile {
            crate::kinematics::lemma_enemy_proj_moved_props(r0, dt_ms);
        },
        None => (),
    }
}

/// The projectile-vs-player resolution never despawns a slot and only sets
/// destroy flags, never erased ones.
pub proof fn lemma_player_hit_slot_erase(slot: Option<EntityRec>, p: Position)
    ensures
        player_hit_slot_after(slot, p) is Some <==> slot is Some,
        slot_erased(player_hit_slot_after(slot, p)) == slot_erased(slot),
{
}

/// The player movement pass as a relation between session states: every
/// player bundle takes one integration step, nothing else changes.
pub open spec fn move_pass_rel(g0: GameState, g1: GameState, dt_ms: int) -> bool {
    &&& g1.world@.len() == g0.world@.len()
    &&& (forall|i: int|
        0 <= i < g0.world@.len() ==> g1.world@[i] == player_slot_after(
            #[trigger] g0.world@[i],
            dt_ms,
        ))
    &&& g1 == (GameState { world: g1.world, ..g0 })
}

/// The player-projectile pass as a relation between session states: spawn
/// on a pending shoot input, integrate, despawn the renderer-erased
/// projectile, and keep the in-flight guard equal to the store's content.
pub open spec fn pp_pass_rel(g0: GameState, g1: GameState, dt_ms: int) -> bool {
    let mid = pp_mid_view(g0);
    &&& g1.world@.len() == mid.len()
    &&& (forall|i: int|
        0 <= i < mid.len() ==> g1.world@[i] == pp_slot_after(#[trigger] mid[i], dt_ms))
    &&& g1.player_projectile_exists == ((g0.player_projectile_exists || shoot_pending(g0))
        && !has_erased_pp(mid))
    &&& g1 == (GameState {
        world: g1.world,
        player_projectile_exists: g1.player_projectile_exists,
        ..g0
    })
}

/// The enemy pass as a relation between session states, for some admissible
/// sequence of stochastic fire decisions: the wave advances under the flock
/// direction (stepping down and turning on a wall hit), the fired
/// projectiles are appended in slot order, and reaching the danger row
/// raises the game-over signal.
pub open spec fn enemy_pass_rel(g0: GameState, g1: GameState, dt_ms: int) -> bool {
    let s = g0.world@;
    let hit = wave_hits_wall(s, g0.enemy_direction, dt_ms);
    &&& g1.world@.len() >= s.len()
    &&& (forall|i: int|
        0 <= i < s.len() ==> g1.world@[i] == enemy_slot_after(
            #[trigger] s[i],
            g0.enemy_direction,
            dt_ms,
            hit,
        ))
    &&& exists|fired: Seq<bool>|
        {
            &&& #[trigger] fire_decisions_ok(s, fired)
            &&& g1.world@.len() == s.len() + fired_tail(s, fired).len()
            &&& forall|j: int|
                0 <= j < fired_tail(s, fired).len() ==> g1.world@[s.len() + j] == Some(
                    #[trigger] fired_tail(s, fired)[j],
                )
        }
    &&& g1.enemy_direction == (if hit {
        flip_direction(g0.enemy_direction)
    } else {
        g0.enemy_direction
    })
    &&& g1.game_over_notifier == (g0.game_over_notifier || (hit && enemy_low_after_drop(s)))
    &&& g1 == (GameState {
        world: g1.world,
        enemy_direction: g1.enemy_direction,
        game_over_notifier: g1.game_over_notifier,
        ..g0
    })
}

/// The projectile-vs-enemy resolution as a relation between session states:
/// with no projectile in flight nothing changes; otherwise overlapped
/// enemies and the projectile are flagged, the tally fold fixes score, wave
/// count and multipliers, and a cleared wave respawns in full.
pub open spec fn collision_pass_rel(g0: GameState, g1: GameState) -> bool {
    if !g0.player_projectile_exists {
        g1 == g0
    } else {
        let s = g0.world@;
        let q = pp_pos(s);
        let t = resolve_hits(s, q, 0, start_tally(g0));
        let hit_any = any_enemy_hit(s, q);
        &&& g1.score == t.score
        &&& g1.enemy_amount == t.amount
        &&& g1.enemy_speed_multiplier == t.speed_mult
        &&& g1.enemy_proj_prob_multiplier == t.prob_mult
        &&& g1.score_updated == (g0.score_updated || hit_any)
        &&& g1.world@.len() == s.len() + (if t.respawn {
            WAVE_ENEMY_COUNT as int
        } else {
            0
        })
        &&& (forall|i: int|
            0 <= i < s.len() ==> g1.world@[i] == enemy_hit_slot_after(
                #[trigger] s[i],
                q,
                hit_any,
            ))
        &&& (t.respawn ==> forall|j: int|
            0 <= j < WAVE_ENEMY_COUNT ==> #[trigger] g1.world@[s.len() + j] == Some(
                spawned_enemy(j / 3, j % 3, t.speed_mult as u64, t.prob_mult as u64),
            ))
        &&& g1 == (GameState {
            world: g1.world,
            score: g1.score,
            score_updated: g1.score_updated,
            enemy_amount: g1.enemy_amount,
            enemy_speed_multiplier: g1.enemy_speed_multiplier,
            enemy_proj_prob_multiplier: g1.enemy_proj_prob_multiplier,
            ..g0
        })
    }
}

/// The enemy-projectile pass as a relation between session states: every
/// enemy projectile takes one integration step and the renderer-erased ones
/// despawn; nothing else changes.
pub open spec fn ep_pass_rel(g0: GameState, g1: GameState, dt_ms: int) -> bool {
    &&& g1.world@.len() == g0.world@.len()
    &&& (forall|i: int|
        0 <= i < g0.world@.len() ==> g1.world@[i] == ep_slot_after(
            #[trigger] g0.world@[i],
            dt_ms,
        ))
    &&& g1 == (GameState { world: g1.world, ..g0 })
}

/// The projectile-vs-player resolution as a relation between session
/// states: overlapping enemy projectiles are flagged, any number of
/// simultaneous overlaps cost exactly one life, and losing the last life
/// raises the game-over signal.
pub open spec fn player_hit_pass_rel(g0: GameState, g1: GameState) -> bool {
    let s = g0.world@;
    let p = tracked_player(g0).position;
    let hit = any_player_hit(s, p);
    &&& g1.world@.len() == s.len()
    &&& (forall|i: int|
        0 <= i < s.len() ==> g1.world@[i] == player_hit_slot_after(#[trigger] s[i], p))
    &&& g1.player_lives == (if hit {
        if g0.player_lives > 0 {
            (g0.player_lives - 1) as u16
        } else {
            0u16
        }
    } else {
        g0.player_lives
    })
    &&& g1.score_updated == (g0.score_updated || hit)
    &&& g1.game_over_notifier == (g0.game_over_notifier || (hit && (if g0.player_lives > 0 {
        g0.player_lives - 1
    } else {
        0
    }) == 0))
    &&& g1 == (GameState {
        world: g1.world,
        player_lives: g1.player_lives,
        score_updated: g1.score_updated,
        game_over_notifier: g1.game_over_notifier,
        ..g0
    })
}

/// The cleanup sweep as a relation between session states: every
/// renderer-erased entity leaves the store, nothing else changes.
pub open spec fn cleanup_pass_rel(g0: GameState, g1: GameState) -> bool {
    &&& g1.world@.len() == g0.world@.len()
    &&& (forall|i: int|
        0 <= i < g0.world@.len() ==> g1.world@[i] == (match #[trigger] g0.world@[i] {
            Some(r0) => if r0.renderable.erased {
                None::<EntityRec>
            } else {
                Some(r0)
            },
            None => None,
        }))
    &&& g1 == (GameState { world: g1.world, ..g0 })
}

/// The last two passes of a tick, from the state after the
/// projectile-vs-player resolution.
pub open spec fn tick_from_player_hit(g5: GameState, gz: GameState) -> bool {
    exists|g6: GameState| #[trigger] player_hit_pass_rel(g5, g6) && cleanup_pass_rel(g6, gz)
}

/// The tick's tail from the state after the projectile-vs-enemy resolution.
pub open spec fn tick_from_collision(g4: GameState, gz: GameState, dt_ms: int) -> bool {
    exists|g5: GameState| #[trigger] ep_pass_rel(g4, g5, dt_ms) && tick_from_player_hit(g5, gz)
}

/// The tick's tail from the state after the enemy pass.
pub open spec fn tick_from_enemies(g3: GameState, gz: GameState, dt_ms: int) -> bool {
    exists|g4: GameState| #[trigger] collision_pass_rel(g3, g4) && tick_from_collision(
        g4,
        gz,
        dt_ms,
    )
}

/// The tick's tail from the state after the player-projectile pass.
pub open spec fn tick_from_pp(g2: GameState, gz: GameState, dt_ms: int) -> bool {
    exists|g3: GameState| #[trigger] enemy_pass_rel(g2, g3, dt_ms) && tick_from_enemies(
        g3,
        gz,
        dt_ms,
    )
}

/// The tick's tail from the state after the player movement pass.
pub open spec fn tick_from_move(g1: GameState, gz: GameState, dt_ms: int) -> bool {
    exists|g2: GameState| #[trigger] pp_pass_rel(g1, g2, dt_ms) && tick_from_pp(g2, gz, dt_ms)
}

/// One whole tick as a relation between session states: the composition of
/// the seven passes, in the fixed order the session prescribes — player
/// movement, the player-projectile pass, the enemy pass, the
/// projectile-vs-enemy resolution, the enemy-projectile pass, the
/// projectile-vs-player resolution, and the cleanup sweep — through the
/// intermediate states they produce.  The enemy pass's stochastic fire
/// decisions are the one free choice inside the relation.
pub open spec fn tick_relation(g0: GameState, gz: GameState, dt_ms: int) -> bool {
    exists|g1: GameState| #[trigger] move_pass_rel(g0, g1, dt_ms) && tick_from_move(
        g1,
        gz,
        dt_ms,
    )
}

/// The score tally never goes down, and stays within the scoreboard's
/// capacity.
pub proof fn lemma_resolve_hits_score_monotone(
    s: Seq<Option<EntityRec>>,
    q: Position,
    i: int,
    t: WaveTally,
)
    requires
        t.score <= i32::MAX,
    ensures
        resolve_hits(s, q, i, t).score >= t.score,
        resolve_hits(s, q, i, t).score <= i32::MAX,
    decreases s.len() - i,
{
    if i < 0 || i >= s.len() {
    } else {
        let t2 = if s[i] matches Some(r) && r.kind is Enemy && hit_test(q, r) {
            hit_step(t)
        } else {
            t
        };
        lemma_resolve_hits_score_monotone(s, q, i + 1, t2);
    }
}

/// One full simulation tick, in the fixed order the session prescribes:
/// player movement, the player-projectile pass (spawn, move, despawn), the
/// enemy pass (fire, move, wall response), projectile-vs-enemy resolution,
/// the enemy-projectile pass, projectile-vs-player resolution, and the
/// final cleanup sweep of renderer-acknowledged entities.
///
/// Across the whole tick: the session invariant is preserved — in
/// particular the accumulator of every stored velocity stays sub-cell and
/// the single-projectile guard keeps matching the store — no entity leaves
/// the store unless the renderer had already acknowledged erasing it, the
/// score never goes down, at most one life is lost, and a raised game-over
/// signal stays raised.
#[verifier::rlimit(100)]
pub fn process_tick(delta_time: u64, game_state: &mut GameState) -> (r: Result<
    (),
    crate::store::StoreError,
>)
    requires
        old(game_state).wf(),
        delta_time <= crate::kinematics::DT_LIMIT_MS,
    ensures
        r is Ok,
        final(game_state).wf(),
        tick_relation(*old(game_state), *final(game_state), delta_time as int),
        final(game_state).world@.len() >= old(game_state).world@.len(),
        forall|i: int|
            0 <= i < old(game_state).world@.len() && (#[trigger] old(game_state).world@[i]) is Some
                && final(game_state).world@[i] is None ==> old(
                game_state,
            ).world@[i]->Some_0.renderable.erased,
        final(game_state).score >= old(game_state).score,
        final(game_state).player_lives <= old(game_state).player_lives,
        old(game_state).game_over_notifier ==> final(game_state).game_over_notifier,
        final(game_state).high_score == old(game_state).high_score,
        *final(game_state) == (GameState {
            world: final(game_state).world,
            player_projectile_exists: final(game_state).player_projectile_exists,
            enemy_direction: final(game_state).enemy_direction,
            game_over_notifier: final(game_state).game_over_notifier,
            score: final(game_state).score,
            score_updated: final(game_state).score_updated,
            enemy_amount: final(game_state).enemy_amount,
            enemy_speed_multiplier: final(game_state).enemy_speed_multiplier,
            enemy_proj_prob_multiplier: final(game_state).enemy_proj_prob_multiplier,
            player_lives: final(game_state).player_lives,
            ..*old(game_state)
        }),
{
    let ghost g0 = *old(game_state);
    let ghost dt = delta_time as int;

    move_player(delta_time, &mut game_state.world);
    proof {
        match g0.world@[g0.player_entity.0 as int] {
            Some(p0) => {
                crate::kinematics::lemma_player_moved_props(p0, dt);
            },
            None => (),
        }
        assert(game_state.wf());
    }
    let ghost g1 = *game_state;

    let r1 = process_player_projectile(delta_time, game_state);
    if let Err(e) = r1 {
        return Err(e);
    }
    let ghost g2 = *game_state;

    process_enemies(delta_time, game_state);
    let ghost g3 = *game_state;

    enemy_collision_detection(game_state);
    let ghost g4 = *game_state;
    proof {
        if g3.player_projectile_exists {
            lemma_resolve_hits_score_monotone(g3.world@, pp_pos(g3.world@), 0, start_tally(g3));
        }
    }

    let r2 = process_enemy_projectiles(delta_time, game_state);
    if let Err(e) = r2 {
        return Err(e);
    }
    let ghost g5 = *game_state;

    player_collision_detection(game_state);
    let ghost g6 = *game_state;
    proof {
        assert(no_erased_of_kind(g6.world@, EntityKind::PlayerProjectile));
        assert(no_erased_of_kind(g6.world@, EntityKind::Player)) by {
            assert forall|i: int|
                0 <= i < g6.world@.len() implies !(#[trigger] g6.world@[i] matches Some(r)
                && r.kind is Player && r.renderable.erased) by {
                match g6.world@[i] {
                    Some(r0) => if r0.kind is Player {
                        crate::state::lemma_count_kind_unique(
                            g6.world@,
                            EntityKind::Player,
                            i,
                            g6.player_entity.0 as int,
                        );
                    },
                    None => (),
                };
            }
        }
    }

    let r3 = entity_cleanup(&mut game_state.world);
    if let Err(e) = r3 {
        return Err(e);
    }
    proof {
        assert(game_state.wf());
        assert forall|i: int|
            0 <= i < g0.world@.len() && (#[trigger] g0.world@[i]) is Some && final(game_state).world@[i] is None implies g0.world@[i]->Some_0.renderable.erased by {
            lemma_player_slot_erase(g0.world@[i], dt);
            assert(g1.world@[i] == player_slot_after(g0.world@[i], dt));
        }
        let gz = *final(game_state);
        assert(move_pass_rel(g0, g1, dt));
        assert(cleanup_pass_rel(g6, gz));
        assert(player_hit_pass_rel(g5, g6));
        assert(tick_from_player_hit(g5, gz));
        assert(ep_pass_rel(g4, g5, dt));
        assert(tick_from_collision(g4, gz, dt));
        assert(collision_pass_rel(g3, g4));
        assert(tick_from_enemies(g3, gz, dt));
        assert(enemy_pass_rel(g2, g3, dt));
        assert(tick_from_pp(g2, gz, dt));
        assert(pp_pass_rel(g1, g2, dt));
        assert(tick_from_move(g1, gz, dt));
        assert(tick_relation(g0, gz, dt));
    }
    Ok(())
}

/// What a freshly constructed match looks like: the player at its start
/// cell, one full wave at base difficulty, three lives, a clean score and
/// flag set, and the given high score and menu state carried in.
pub open spec fn fresh_match_state(gs: GameState, high: int, menu: MainMenu) -> bool {
    &&& gs.world@.len() == 1 + WAVE_ENEMY_COUNT
    &&& gs.world@[0] == Some(player_start_rec())
    &&& gs.player_entity.0 == 0
    &&& forall|j: int|
        0 <= j < WAVE_ENEMY_COUNT ==> #[trigger] gs.world@[1 + j] == Some(
            spawned_enemy(j / 3, j % 3, MULT_ONE, MULT_ONE),
        )
    &&& gs.player_lives == 3
    &&& gs.player_projectile_exists == false
    &&& gs.enemy_direction is Right
    &&& gs.score_updated == true
    &&& gs.score == 0
    &&& gs.high_score == high
    &&& gs.enemy_speed_multiplier == MULT_ONE
    &&& gs.enemy_proj_prob_multiplier == MULT_ONE
    &&& gs.enemy_amount == WAVE_ENEMY_COUNT
    &&& gs.game_over == false
    &&& gs.game_over_notifier == false
    &&& gs.paused == false
    &&& gs.pause_notifier == false
    &&& gs.restart_notifier == false
    &&& gs.player_input_handler == (PlayerInputHandler {
        player_shoot: false,
        move_player_left: false,
        move_player_right: false,
    })
    &&& gs.main_menu == menu
    &&& gs.networking == (GameNetworking {
        stay_online: false,
        host: false,
        listener_active: false,
        peer: None,
    })
    &&& gs.request_clear_render == false
}

/// Builds the entity store and session scalars of a new match.
fn new_match(high_score: i32, menu: MainMenu) -> (gs: GameState)
    requires
        high_score >= 0,
    ensures
        gs.wf(),
        fresh_match_state(gs, high_score as int, menu),
{
    let mut world = Store::new();
    let player = EntityRec {
        kind: EntityKind::Player,
        position: Position { x: 55, y: 7 },
        prev_position: PrevPosition { x: 55, y: 7 },
        velocity: Velocity { speed: PLAYER_SPEED, move_accumulator: 0, direction: Direction::Still },
        renderable: Renderable {
            sprite_top: "⣆⡜⣛⢣⣠",
            sprite_bottom: "⣿⣿⣿⣿⣿",
            width: 5,
            destroy: false,
            erased: false,
        },
        projectile_spawner: None,
    };
    proof {
        assert(player == player_start_rec());
        assert forall|k: EntityKind|
            count_kind(world@.push(Some(player)), k) == count_kind(world@, k) + kind_weight(
                Some(player),
                k,
            ) by {
            lemma_count_kind_push(world@, Some(player), k);
        }
    }
    let player_entity = world.create(player);
    spawn_enemies(MULT_ONE, MULT_ONE, &mut world);
    let gs = GameState {
        world,
        player_lives: 3,
        player_entity,
        player_projectile_exists: false,
        enemy_direction: Direction::Right,
        score_updated: true,
        score: 0,
        high_score,
        enemy_speed_multiplier: MULT_ONE,
        enemy_proj_prob_multiplier: MULT_ONE,
        enemy_amount: WAVE_ENEMY_COUNT,
        game_over: false,
        game_over_notifier: false,
        paused: false,
        pause_notifier: false,
        restart_notifier: false,
        player_input_handler: PlayerInputHandler {
            player_shoot: false,
            move_player_left: false,
            move_player_right: false,
        },
        main_menu: menu,
        networking: GameNetworking {
            stay_online: false,
            host: false,
            listener_active: false,
            peer: None,
        },
        request_clear_render: false,
    };
    proof {
        let s = gs.world@;
        assert forall|i: int| 0 <= i < s.len() implies (#[trigger] s[i] matches Some(r) ==> r.wf()
            && rec_bounds(r)) by {
            if i > 0 {
                assert(s[1 + (i - 1)] == Some(
                    spawned_enemy((i - 1) / 3, (i - 1) % 3, MULT_ONE, MULT_ONE),
                ));
            }
        }
    }
    gs
}

/// Creates the world of a brand-new session: a fresh match showing the main
/// menu with the host entry highlighted and no high score yet.
pub fn create_world() -> (gs: GameState)
    ensures
        gs.wf(),
        fresh_match_state(
            gs,
            0,
            MainMenu { active_menu_item: MenuItem::HostGame, screen: Screen::Main },
        ),
{
    new_match(0, MainMenu { active_menu_item: MenuItem::HostGame, screen: Screen::Main })
}

/// Rebuilds the entire world for a restarted match, preserving only the
/// running high score; play resumes immediately on the game screen.
pub fn restart_world(high_score: i32) -> (gs: GameState)
    requires
        high_score >= 0,
    ensures
        gs.wf(),
        fresh_match_state(
            gs,
            high_score as int,
            MainMenu { active_menu_item: MenuItem::PlaySolo, screen: Screen::Game },
        ),
{
    new_match(
        high_score,
        MainMenu { active_menu_item: MenuItem::PlaySolo, screen: Screen::Game },
    )
}

} // verus!
