//! Per-tick movement integration.
//!
//! Every moving entity carries a fixed-point accumulator of sub-cell
//! displacement.  A tick adds `speed * dt` (in milli-cells) to the
//! accumulator; once the accumulator reaches a whole cell, the whole-cell
//! part becomes a discrete move and only the fractional remainder is carried
//! forward.  Nothing is ever discarded, so average velocity over many ticks
//! converges to the nominal speed even though positions are integers.

use vstd::prelude::*;

use crate::components::Direction;
use crate::components::EntityRec;
use crate::components::Position;
use crate::components::PrevPosition;
use crate::components::Velocity;
use crate::components::MILLIS_PER_CELL;
use crate::components::SPEED_LIMIT;
use vstd::arithmetic::div_mod::lemma_fundamental_div_mod;
use vstd::arithmetic::div_mod::lemma_mod_division_less_than_divisor;

verus! {

/// Leftmost cell the player may occupy.
pub const PLAYER_MIN_X: u16 = 2;
/// Rightmost cell the player may occupy.
pub const PLAYER_MAX_X: u16 = 113;
/// Lowest row of a player projectile; below this it is clamped.
pub const PLAYER_PROJ_MIN_Y: u16 = 2;
/// Highest row of any projectile; a player projectile beyond it flies off.
pub const PROJ_MAX_Y: u16 = 39;
/// An enemy projectile below this row leaves the playfield.
pub const ENEMY_PROJ_MIN_Y: u16 = 6;
/// An enemy whose move would land left of this column is clamped to the wall.
pub const ENEMY_MIN_TARGET_X: u16 = 3;
/// An enemy whose move would land right of this column is clamped to the wall.
pub const ENEMY_MAX_TARGET_X: u16 = 112;
/// Column an enemy is clamped to after hitting the left wall.
pub const ENEMY_LEFT_WALL_X: u16 = 2;
/// Column an enemy is clamped to after hitting the right wall.
pub const ENEMY_RIGHT_WALL_X: u16 = 113;
/// Row at or below which a descending enemy wave ends the match.
pub const ENEMY_DANGER_Y: u16 = 10;

/// Longest logical time step accepted by the integrator, in milliseconds.
pub const DT_LIMIT_MS: u64 = 1000;

/// Milli-cells of displacement accumulated by `speed` over `dt_ms`,
/// truncated toward zero.
pub open spec fn scaled_delta_spec(speed: int, dt_ms: int) -> int {
    if speed >= 0 {
        (speed * dt_ms) / (MILLIS_PER_CELL as int)
    } else {
        -(((-speed) * dt_ms) / (MILLIS_PER_CELL as int))
    }
}

/// Whole cells contained in an accumulator total, truncated toward zero.
pub open spec fn whole_steps(total: int) -> int {
    if total >= 0 {
        total / (MILLIS_PER_CELL as int)
    } else {
        -((-total) / (MILLIS_PER_CELL as int))
    }
}

/// Sub-cell remainder of an accumulator total after its whole cells are
/// taken out; same sign as the total, strictly below one cell in magnitude.
pub open spec fn accum_rest(total: int) -> int {
    if total >= 0 {
        total % (MILLIS_PER_CELL as int)
    } else {
        -((-total) % (MILLIS_PER_CELL as int))
    }
}

/// Splitting an accumulator total into whole cells and remainder is exact:
/// the two parts recombine to the total and the remainder is sub-cell.
pub proof fn lemma_split_is_exact(total: int)
    ensures
        MILLIS_PER_CELL * whole_steps(total) + accum_rest(total) == total,
        -(MILLIS_PER_CELL - 1) <= accum_rest(total) <= MILLIS_PER_CELL - 1,
        total >= 0 ==> whole_steps(total) >= 0 && accum_rest(total) >= 0,
        total <= 0 ==> whole_steps(total) <= 0 && accum_rest(total) <= 0,
{
    let m = MILLIS_PER_CELL as int;
    if total >= 0 {
        lemma_fundamental_div_mod(total, m);
        lemma_mod_division_less_than_divisor(total, m);
        assert(total / m >= 0) by (nonlinear_arith)
            requires total >= 0, m > 0;
    } else {
        lemma_fundamental_div_mod(-total, m);
        lemma_mod_division_less_than_divisor(-total, m);
        assert((-total) / m >= 0) by (nonlinear_arith)
            requires -total >= 0, m > 0;
    }
}

/// Splits an accumulator total into whole cells and the carried remainder.
pub fn split_whole_cells(total: i64) -> (r: (i64, i64))
    requires
        -0x7fff_ffff_ffff_0000 <= total <= 0x7fff_ffff_ffff_0000,
    ensures
        r.0 == whole_steps(total as int),
        r.1 == accum_rest(total as int),
{
    proof {
        lemma_split_is_exact(total as int);
    }
    if total >= 0 {
        (total / 1000, total % 1000)
    } else {
        let mag = -total;
        (-(mag / 1000), -(mag % 1000))
    }
}

/// Milli-cells of displacement accumulated over one step.
pub fn scaled_delta(speed: i64, dt_ms: u64) -> (d: i64)
    requires
        -SPEED_LIMIT <= speed <= SPEED_LIMIT,
        dt_ms <= DT_LIMIT_MS,
    ensures
        d == scaled_delta_spec(speed as int, dt_ms as int),
        -SPEED_LIMIT <= d <= SPEED_LIMIT,
{
    let dt = dt_ms as i64;
    proof {
        let m = MILLIS_PER_CELL as int;
        if speed >= 0 {
            lemma_fundamental_div_mod(speed * dt, m);
            lemma_mod_division_less_than_divisor(speed * dt, m);
            assert(speed * dt >= 0 && speed * dt <= SPEED_LIMIT * (MILLIS_PER_CELL as int))
                by (nonlinear_arith)
                requires 0 <= speed <= SPEED_LIMIT, 0 <= dt <= MILLIS_PER_CELL;
        } else {
            lemma_fundamental_div_mod((-speed) * dt, m);
            lemma_mod_division_less_than_divisor((-speed) * dt, m);
            assert((-speed) * dt >= 0 && (-speed) * dt <= SPEED_LIMIT * (MILLIS_PER_CELL as int))
                by (nonlinear_arith)
                requires 0 < -speed <= SPEED_LIMIT, 0 <= dt <= MILLIS_PER_CELL;
        }
    }
    if speed >= 0 {
        (speed * dt) / 1000
    } else {
        -(((-speed) * dt) / 1000)
    }
}

/// Accumulator total reached by a direction-controlled entity over one step:
/// the carried accumulator plus signed displacement, or zero when stopped
/// (a stopped entity never creeps from a residual accumulator).
pub open spec fn dir_total(vel: Velocity, dt_ms: int) -> int {
    match vel.direction {
        Direction::Right => vel.move_accumulator + scaled_delta_spec(vel.speed as int, dt_ms),
        Direction::Left => vel.move_accumulator - scaled_delta_spec(vel.speed as int, dt_ms),
        Direction::Still => 0,
    }
}

/// Accumulator total reached by an entity that accumulates unconditionally
/// by its signed speed (projectiles).
pub open spec fn free_total(vel: Velocity, dt_ms: int) -> int {
    vel.move_accumulator + scaled_delta_spec(vel.speed as int, dt_ms)
}

/// Accumulator total reached by an enemy, whose direction is the wave's
/// shared flock direction rather than a per-entity one.
pub open spec fn enemy_total(vel: Velocity, flock: Direction, dt_ms: int) -> int {
    match flock {
        Direction::Right => vel.move_accumulator + scaled_delta_spec(vel.speed as int, dt_ms),
        Direction::Left => vel.move_accumulator - scaled_delta_spec(vel.speed as int, dt_ms),
        Direction::Still => 0,
    }
}

/// Whether an accumulator total amounts to less than one whole cell, in
/// which case the step moves nothing and only carries the total forward.
pub open spec fn sub_cell(total: int) -> bool {
    -(MILLIS_PER_CELL - 1) <= total <= MILLIS_PER_CELL - 1
}

/// The player after one integration step: accumulate by direction, then move
/// the whole-cell part along x, clamped to the playfield bounds.
pub open spec fn player_moved(rec: EntityRec, dt_ms: int) -> EntityRec {
    let total = dir_total(rec.velocity, dt_ms);
    if sub_cell(total) {
        EntityRec {
            velocity: Velocity { move_accumulator: total as i64, ..rec.velocity },
            ..rec
        }
    } else {
        let target = rec.position.x + whole_steps(total);
        let nx: u16 = if target < PLAYER_MIN_X {
            PLAYER_MIN_X
        } else if target > PLAYER_MAX_X {
            PLAYER_MAX_X
        } else {
            target as u16
        };
        EntityRec {
            position: Position { x: nx, y: rec.position.y },
            prev_position: PrevPosition { x: rec.position.x, y: rec.prev_position.y },
            velocity: Velocity { move_accumulator: accum_rest(total) as i64, ..rec.velocity },
            ..rec
        }
    }
}

/// A player projectile after one integration step: accumulate by its signed
/// speed, move the whole-cell part along y; clamp at the bottom, and flag
/// for destruction past the top of the playfield (position unchanged there,
/// so the glyph can still be erased where it was).
pub open spec fn player_proj_moved(rec: EntityRec, dt_ms: int) -> EntityRec {
    let total = free_total(rec.velocity, dt_ms);
    if sub_cell(total) {
        EntityRec {
            velocity: Velocity { move_accumulator: total as i64, ..rec.velocity },
            ..rec
        }
    } else {
        let target = rec.position.y + whole_steps(total);
        let moved = EntityRec {
            prev_position: PrevPosition { x: rec.prev_position.x, y: rec.position.y },
            velocity: Velocity { move_accumulator: accum_rest(total) as i64, ..rec.velocity },
            ..rec
        };
        if target < PLAYER_PROJ_MIN_Y {
            EntityRec {
                position: Position { x: rec.position.x, y: PLAYER_PROJ_MIN_Y },
                ..moved
            }
        } else if target > PROJ_MAX_Y {
            EntityRec {
                renderable: crate::components::Renderable { destroy: true, ..rec.renderable },
                ..moved
            }
        } else {
            EntityRec {
                position: Position { x: rec.position.x, y: target as u16 },
                ..moved
            }
        }
    }
}

/// An enemy after one integration step along x under the flock direction:
/// whole-cell moves are clamped to the walls, and reaching a wall raises the
/// wave's wall-hit signal (see `enemy_hits_wall`).
pub open spec fn enemy_moved(rec: EntityRec, flock: Direction, dt_ms: int) -> EntityRec {
    let total = enemy_total(rec.velocity, flock, dt_ms);
    if sub_cell(total) {
        EntityRec {
            velocity: Velocity { move_accumulator: total as i64, ..rec.velocity },
            ..rec
        }
    } else {
        let target = rec.position.x + whole_steps(total);
        let nx: u16 = if target < ENEMY_MIN_TARGET_X {
            ENEMY_LEFT_WALL_X
        } else if target > ENEMY_MAX_TARGET_X {
            ENEMY_RIGHT_WALL_X
        } else {
            target as u16
        };
        EntityRec {
            position: Position { x: nx, y: rec.position.y },
            prev_position: PrevPosition { x: rec.position.x, y: rec.position.y },
            velocity: Velocity { move_accumulator: accum_rest(total) as i64, ..rec.velocity },
            ..rec
        }
    }
}

/// Whether one enemy's integration step ran into a side wall.
pub open spec fn enemy_hits_wall(rec: EntityRec, flock: Direction, dt_ms: int) -> bool {
    let total = enemy_total(rec.velocity, flock, dt_ms);
    !sub_cell(total) && {
        let target = rec.position.x + whole_steps(total);
        target < ENEMY_MIN_TARGET_X || target > ENEMY_MAX_TARGET_X
    }
}

/// An enemy projectile after one integration step: accumulate by its signed
/// speed, move the whole-cell part along y, and flag for destruction outside
/// the playfield band (position unchanged there).
pub open spec fn enemy_proj_moved(rec: EntityRec, dt_ms: int) -> EntityRec {
    let total = free_total(rec.velocity, dt_ms);
    if sub_cell(total) {
        EntityRec {
            velocity: Velocity { move_accumulator: total as i64, ..rec.velocity },
            ..rec
        }
    } else {
        let target = rec.position.y + whole_steps(total);
        let moved = EntityRec {
            prev_position: PrevPosition { x: rec.prev_position.x, y: rec.position.y },
            velocity: Velocity { move_accumulator: accum_rest(total) as i64, ..rec.velocity },
            ..rec
        };
        if target < ENEMY_PROJ_MIN_Y || target > PROJ_MAX_Y {
            EntityRec {
                renderable: crate::components::Renderable { destroy: true, ..rec.renderable },
                ..moved
            }
        } else {
            EntityRec {
                position: Position { x: rec.position.x, y: target as u16 },
                ..moved
            }
        }
    }
}

/// An enemy after the wave's wall-hit response: one row down (never below
/// row zero), recording the pre-move row for the eraser.
pub open spec fn enemy_stepped_down(rec: EntityRec) -> EntityRec {
    EntityRec {
        position: Position {
            x: rec.position.x,
            y: if rec.position.y > 0 { (rec.position.y - 1) as u16 } else { 0u16 },
        },
        prev_position: PrevPosition { x: rec.prev_position.x, y: rec.position.y },
        ..rec
    }
}

/// One executable integration step of the player; computes exactly
/// [`player_moved`].
pub fn integrate_player(rec: EntityRec, dt_ms: u64) -> (r: EntityRec)
    requires
        rec.velocity.wf(),
        dt_ms <= DT_LIMIT_MS,
    ensures
        r == player_moved(rec, dt_ms as int),
{
    let vel = rec.velocity;
    let total: i64 = match vel.direction {
        Direction::Right => vel.move_accumulator + scaled_delta(vel.speed, dt_ms),
        Direction::Left => vel.move_accumulator - scaled_delta(vel.speed, dt_ms),
        Direction::Still => 0,
    };
    if total >= MILLIS_PER_CELL || total <= -MILLIS_PER_CELL {
        let (steps, rest) = split_whole_cells(total);
        let target: i64 = rec.position.x as i64 + steps;
        let nx: u16 = if target < PLAYER_MIN_X as i64 {
            PLAYER_MIN_X
        } else if target > PLAYER_MAX_X as i64 {
            PLAYER_MAX_X
        } else {
            target as u16
        };
        EntityRec {
            position: Position { x: nx, y: rec.position.y },
            prev_position: PrevPosition { x: rec.position.x, y: rec.prev_position.y },
            velocity: Velocity { move_accumulator: rest, ..vel },
            ..rec
        }
    } else {
        EntityRec { velocity: Velocity { move_accumulator: total, ..vel }, ..rec }
    }
}

/// One executable integration step of a player projectile; computes exactly
/// [`player_proj_moved`].
pub fn integrate_player_proj(rec: EntityRec, dt_ms: u64) -> (r: EntityRec)
    requires
        rec.velocity.wf(),
        dt_ms <= DT_LIMIT_MS,
    ensures
        r == player_proj_moved(rec, dt_ms as int),
{
    let vel = rec.velocity;
    let total: i64 = vel.move_accumulator + scaled_delta(vel.speed, dt_ms);
    if total >= MILLIS_PER_CELL || total <= -MILLIS_PER_CELL {
        let (steps, rest) = split_whole_cells(total);
        let target: i64 = rec.position.y as i64 + steps;
        let moved = EntityRec {
            prev_position: PrevPosition { x: rec.prev_position.x, y: rec.position.y },
            velocity: Velocity { move_accumulator: rest, ..vel },
            ..rec
        };
        if target < PLAYER_PROJ_MIN_Y as i64 {
            EntityRec { position: Position { x: rec.position.x, y: PLAYER_PROJ_MIN_Y }, ..moved }
        } else if target > PROJ_MAX_Y as i64 {
            EntityRec {
                renderable: crate::components::Renderable { destroy: true, ..rec.renderable },
                ..moved
            }
        } else {
            EntityRec { position: Position { x: rec.position.x, y: target as u16 }, ..moved }
        }
    } else {
        EntityRec { velocity: Velocity { move_accumulator: total, ..vel }, ..rec }
    }
}

/// One executable integration step of an enemy under the flock direction;
/// computes exactly [`enemy_moved`] and reports a wall hit per
/// [`enemy_hits_wall`].
pub fn integrate_enemy(rec: EntityRec, flock: Direction, dt_ms: u64) -> (r: (EntityRec, bool))
    requires
        rec.velocity.wf(),
        dt_ms <= DT_LIMIT_MS,
    ensures
        r.0 == enemy_moved(rec, flock, dt_ms as int),
        r.1 == enemy_hits_wall(rec, flock, dt_ms as int),
{
    let vel = rec.velocity;
    let total: i64 = match flock {
        Direction::Right => vel.move_accumulator + scaled_delta(vel.speed, dt_ms),
        Direction::Left => vel.move_accumulator - scaled_delta(vel.speed, dt_ms),
        Direction::Still => 0,
    };
    if total >= MILLIS_PER_CELL || total <= -MILLIS_PER_CELL {
        let (steps, rest) = split_whole_cells(total);
        let target: i64 = rec.position.x as i64 + steps;
        let hit = target < ENEMY_MIN_TARGET_X as i64 || target > ENEMY_MAX_TARGET_X as i64;
        let nx: u16 = if target < ENEMY_MIN_TARGET_X as i64 {
            ENEMY_LEFT_WALL_X
        } else if target > ENEMY_MAX_TARGET_X as i64 {
            ENEMY_RIGHT_WALL_X
        } else {
            target as u16
        };
        (
            EntityRec {
                position: Position { x: nx, y: rec.position.y },
                prev_position: PrevPosition { x: rec.position.x, y: rec.position.y },
                velocity: Velocity { move_accumulator: rest, ..vel },
                ..rec
            },
            hit,
        )
    } else {
        (EntityRec { velocity: Velocity { move_accumulator: total, ..vel }, ..rec }, false)
    }
}

/// One executable integration step of an enemy projectile; computes exactly
/// [`enemy_proj_moved`].
pub fn integrate_enemy_proj(rec: EntityRec, dt_ms: u64) -> (r: EntityRec)
    requires
        rec.velocity.wf(),
        dt_ms <= DT_LIMIT_MS,
    ensures
        r == enemy_proj_moved(rec, dt_ms as int),
{
    let vel = rec.velocity;
    let total: i64 = vel.move_accumulator + scaled_delta(vel.speed, dt_ms);
    if total >= MILLIS_PER_CELL || total <= -MILLIS_PER_CELL {
        let (steps, rest) = split_whole_cells(total);
        let target: i64 = rec.position.y as i64 + steps;
        let moved = EntityRec {
            prev_position: PrevPosition { x: rec.prev_position.x, y: rec.position.y },
            velocity: Velocity { move_accumulator: rest, ..vel },
            ..rec
        };
        if target < ENEMY_PROJ_MIN_Y as i64 || target > PROJ_MAX_Y as i64 {
            EntityRec {
                renderable: crate::components::Renderable { destroy: true, ..rec.renderable },
                ..moved
            }
        } else {
            EntityRec { position: Position { x: rec.position.x, y: target as u16 }, ..moved }
        }
    } else {
        EntityRec { velocity: Velocity { move_accumulator: total, ..vel }, ..rec }
    }
}

/// The executable wall-hit response of one enemy; computes exactly
/// [`enemy_stepped_down`].
pub fn step_down_enemy(rec: EntityRec) -> (r: EntityRec)
    ensures
        r == enemy_stepped_down(rec),
{
    let ny: u16 = if rec.position.y > 0 {
        rec.position.y - 1
    } else {
        0
    };
    EntityRec {
        position: Position { x: rec.position.x, y: ny },
        prev_position: PrevPosition { x: rec.prev_position.x, y: rec.position.y },
        ..rec
    }
}

/// Clamp idempotence of the player step: everything but position, previous
/// position and accumulator is carried through, the accumulator stays
/// sub-cell, and a player inside the side bounds never leaves them — moving
/// left from the leftmost cell, or right from the rightmost, any number of
/// times stays clamped there.
pub proof fn lemma_player_moved_props(rec: EntityRec, dt_ms: int)
    requires
        rec.wf(),
        0 <= dt_ms <= DT_LIMIT_MS,
    ensures
        player_moved(rec, dt_ms).wf(),
        player_moved(rec, dt_ms).kind == rec.kind,
        player_moved(rec, dt_ms).renderable == rec.renderable,
        player_moved(rec, dt_ms).projectile_spawner == rec.projectile_spawner,
        player_moved(rec, dt_ms).position.y == rec.position.y,
        PLAYER_MIN_X <= rec.position.x <= PLAYER_MAX_X ==> PLAYER_MIN_X <= player_moved(
            rec,
            dt_ms,
        ).position.x <= PLAYER_MAX_X,
{
    lemma_split_is_exact(dir_total(rec.velocity, dt_ms));
}

/// The player projectile step keeps its bundle well formed: kind and spawner
/// are carried through, the accumulator stays sub-cell, the column never
/// changes, and the destroy flag only ever switches on.
pub proof fn lemma_player_proj_moved_props(rec: EntityRec, dt_ms: int)
    requires
        rec.wf(),
        0 <= dt_ms <= DT_LIMIT_MS,
    ensures
        player_proj_moved(rec, dt_ms).wf(),
        player_proj_moved(rec, dt_ms).kind == rec.kind,
        player_proj_moved(rec, dt_ms).projectile_spawner == rec.projectile_spawner,
        player_proj_moved(rec, dt_ms).position.x == rec.position.x,
        player_proj_moved(rec, dt_ms).renderable.erased == rec.renderable.erased,
        rec.renderable.destroy ==> player_proj_moved(rec, dt_ms).renderable.destroy,
        player_proj_moved(rec, dt_ms).renderable.width == rec.renderable.width,
{
    lemma_split_is_exact(free_total(rec.velocity, dt_ms));
}

/// The enemy step keeps its bundle well formed: kind and spawner are carried
/// through, the accumulator stays sub-cell, the row never changes, and an
/// enemy inside the side walls never leaves them.
pub proof fn lemma_enemy_moved_props(rec: EntityRec, flock: Direction, dt_ms: int)
    requires
        rec.wf(),
        0 <= dt_ms <= DT_LIMIT_MS,
    ensures
        enemy_moved(rec, flock, dt_ms).wf(),
        enemy_moved(rec, flock, dt_ms).kind == rec.kind,
        enemy_moved(rec, flock, dt_ms).renderable == rec.renderable,
        enemy_moved(rec, flock, dt_ms).projectile_spawner == rec.projectile_spawner,
        enemy_moved(rec, flock, dt_ms).position.y == rec.position.y,
        ENEMY_LEFT_WALL_X <= rec.position.x <= ENEMY_RIGHT_WALL_X ==> ENEMY_LEFT_WALL_X
            <= enemy_moved(rec, flock, dt_ms).position.x <= ENEMY_RIGHT_WALL_X,
{
    lemma_split_is_exact(enemy_total(rec.velocity, flock, dt_ms));
}

/// The enemy projectile step keeps its bundle well formed, carries kind and
/// spawner through, never changes the column, and only ever switches the
/// destroy flag on.
pub proof fn lemma_enemy_proj_moved_props(rec: EntityRec, dt_ms: int)
    requires
        rec.wf(),
        0 <= dt_ms <= DT_LIMIT_MS,
    ensures
        enemy_proj_moved(rec, dt_ms).wf(),
        enemy_proj_moved(rec, dt_ms).kind == rec.kind,
        enemy_proj_moved(rec, dt_ms).projectile_spawner == rec.projectile_spawner,
        enemy_proj_moved(rec, dt_ms).position.x == rec.position.x,
        enemy_proj_moved(rec, dt_ms).renderable.erased == rec.renderable.erased,
        rec.renderable.destroy ==> enemy_proj_moved(rec, dt_ms).renderable.destroy,
{
    lemma_split_is_exact(free_total(rec.velocity, dt_ms));
}

/// Accumulated whole-cell displacement after `n` ticks of fixed `dt` and
/// `speed`, starting from an empty accumulator (unconditional accumulation).
pub open spec fn ticks_steps(n: nat, speed: int, dt_ms: int) -> int
    decreases n,
{
    if n == 0 {
        0
    } else {
        ticks_steps((n - 1) as nat, speed, dt_ms) + whole_steps(
            ticks_acc((n - 1) as nat, speed, dt_ms) + scaled_delta_spec(speed, dt_ms),
        )
    }
}

/// Accumulator carried after `n` ticks of fixed `dt` and `speed`, starting
/// from an empty accumulator.
pub open spec fn ticks_acc(n: nat, speed: int, dt_ms: int) -> int
    decreases n,
{
    if n == 0 {
        0
    } else {
        accum_rest(ticks_acc((n - 1) as nat, speed, dt_ms) + scaled_delta_spec(speed, dt_ms))
    }
}

/// Average-speed convergence: over any number of ticks of fixed `dt` and
/// `speed`, the integrator's net whole-cell displacement stays within one
/// cell of the nominal displacement `speed * dt * n` (here in milli-cells,
/// `n * scaled_delta_spec(speed, dt_ms)`), because the sub-cell remainder is
/// always carried, never discarded.  The carried remainder itself stays
/// strictly below one cell in magnitude after every tick.
pub proof fn lemma_average_speed_convergence(n: nat, speed: int, dt_ms: int)
    ensures
        MILLIS_PER_CELL * ticks_steps(n, speed, dt_ms) + ticks_acc(n, speed, dt_ms) == n
            * scaled_delta_spec(speed, dt_ms),
        -(MILLIS_PER_CELL - 1) <= ticks_acc(n, speed, dt_ms) <= MILLIS_PER_CELL - 1,
    decreases n,
{
    let d = scaled_delta_spec(speed, dt_ms);
    if n == 0 {
    } else {
        lemma_average_speed_convergence((n - 1) as nat, speed, dt_ms);
        lemma_split_is_exact(ticks_acc((n - 1) as nat, speed, dt_ms) + d);
        assert(n * d == (n - 1) * d + d) by (nonlinear_arith);
    }
}

} // verus!
