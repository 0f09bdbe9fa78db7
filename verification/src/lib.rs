//! Simulation engine for a fixed-step terminal arcade shooter.
//!
//! The crate owns the entity store, the per-tick movement integrator, the
//! spawn/despawn lifecycle, the collision and scoring resolver, and the
//! session state machine.  Rendering, keyboard capture and network plumbing
//! live outside the library and talk to it through plain values: the library
//! hands out per-entity snapshots after each tick and receives discrete input
//! events.
//!
//! All sub-cell motion is carried in fixed-point milli-cells (one cell is
//! 1000 milli-units), so every position and velocity update is exact integer
//! arithmetic.

pub mod components;
pub mod events;
pub mod kinematics;
pub mod session;
pub mod state;
pub mod store;
pub mod systems;
