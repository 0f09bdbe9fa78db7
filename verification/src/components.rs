//! Components carried by every simulation entity.
//!
//! Fractional motion is represented in fixed point: one playfield cell is
//! `MILLIS_PER_CELL` milli-units, speeds are milli-cells per second, and the
//! per-entity `move_accumulator` carries the sub-cell remainder between ticks.

use vstd::prelude::*;

verus! {

/// Milli-units that make up one whole playfield cell.
pub const MILLIS_PER_CELL: i64 = 1000;

/// Largest speed magnitude (milli-cells per second) any entity may carry.
pub const SPEED_LIMIT: i64 = 1_000_000_000;

/// Horizontal movement direction of a direction-controlled entity.
#[derive(Clone, Copy, PartialEq, Eq, Structural, Debug)]
pub enum Direction {
    Right,
    Left,
    Still,
}

/// Current integer cell coordinates, bounded by the playfield.
#[derive(Clone, Copy, PartialEq, Eq, Structural, Debug)]
pub struct Position {
    pub x: u16,
    pub y: u16,
}

/// Coordinates as of the previous tick in which this entity made a whole-cell
/// move; the renderer erases the prior glyph there.
#[derive(Clone, Copy, PartialEq, Eq, Structural, Debug)]
pub struct PrevPosition {
    pub x: u16,
    pub y: u16,
}

/// Speed and carried fractional displacement of a moving entity.
///
/// `speed` is in milli-cells per second (signed); `move_accumulator` holds the
/// milli-cell remainder carried between ticks and stays strictly below one
/// cell in magnitude after every integration step.
#[derive(Clone, Copy, PartialEq, Eq, Structural, Debug)]
pub struct Velocity {
    pub speed: i64,
    pub move_accumulator: i64,
    pub direction: Direction,
}

impl Velocity {
    /// Numeric bounds every stored velocity satisfies.
    pub open spec fn wf(self) -> bool {
        &&& -SPEED_LIMIT <= self.speed <= SPEED_LIMIT
        &&& -(MILLIS_PER_CELL - 1) <= self.move_accumulator <= MILLIS_PER_CELL - 1
    }
}

/// Glyphs and lifecycle flags the renderer needs for one entity.
///
/// `destroy` marks the entity as no longer part of the simulation but still
/// on screen; the renderer acknowledges clearing the glyph by setting
/// `erased`, and only then may the entity leave the store.
#[derive(Clone, Copy, Debug)]
pub struct Renderable {
    pub sprite_top: &'static str,
    pub sprite_bottom: &'static str,
    pub width: u16,
    pub destroy: bool,
    pub erased: bool,
}

/// Stochastic fire data attached to enemies.
///
/// `probability` is the per-tick fire chance in milli-percent (100_000 is a
/// certain shot); `projectile_speed` is the spawned projectile's vertical
/// speed in milli-cells per second.
#[derive(Clone, Copy, PartialEq, Eq, Structural, Debug)]
pub struct ProjectileSpawner {
    pub probability: u64,
    pub projectile_speed: i64,
}

impl ProjectileSpawner {
    /// Numeric bounds every stored spawner satisfies.
    pub open spec fn wf(self) -> bool {
        &&& self.probability <= 100_000_000
        &&& -SPEED_LIMIT <= self.projectile_speed <= SPEED_LIMIT
    }
}

/// The closed set of entity-kind tags; an entity's behaviour is determined
/// entirely by which tag it carries.
#[derive(Clone, Copy, PartialEq, Eq, Structural, Debug)]
pub enum EntityKind {
    Player,
    CoPlayer,
    PlayerProjectile,
    CoPlayerProjectile,
    Enemy,
    EnemyProjectile,
}

/// The full component bundle of one entity.
#[derive(Clone, Copy, Debug)]
pub struct EntityRec {
    pub kind: EntityKind,
    pub position: Position,
    pub prev_position: PrevPosition,
    pub velocity: Velocity,
    pub renderable: Renderable,
    pub projectile_spawner: Option<ProjectileSpawner>,
}

impl EntityRec {
    /// Well-formedness of one stored bundle: numeric bounds hold, exactly the
    /// enemies carry a fire spawner, and an erased glyph was first flagged for
    /// destruction.
    pub open spec fn wf(self) -> bool {
        &&& self.velocity.wf()
        &&& (self.projectile_spawner is Some <==> self.kind is Enemy)
        &&& (self.projectile_spawner matches Some(sp) ==> sp.wf())
        &&& (self.renderable.erased ==> self.renderable.destroy)
    }
}

} // verus!
