//! An artificial-life simulation on a bounded grid.
//!
//! Cells live on the interior of a rectangular dish. Each cell carries a
//! fixed-length program of genes and executes one gene per tick; it can move,
//! share energy with kin, reproduce, synthesize resources and attack rivals.
//! The [`world::World`] advances every cell exactly once per tick.
//!
//! Resources are fixed-point quantities: one whole unit is
//! [`consts::UNIT`] raw steps.

pub mod amount;
pub mod cell;
pub mod client;
pub mod consts;
pub mod etc;
pub mod genome;
pub mod math;
pub mod random;
pub mod traits;
pub mod world;
