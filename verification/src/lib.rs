//! Core logic of a small 2D platformer, verified with Verus.
//!
//! The crate models the gameplay rules that sit between the host engine's
//! input, physics and rendering layers: translating held keys and contact
//! state into a movement intent, integrating that intent into a velocity,
//! keeping a per-entity ledger of collected items, decaying one consumable
//! item on a countdown, and deciding what the HUD widgets must show.
//!
//! All world quantities (velocities, offsets, tuning coefficients) are held
//! in a fixed-point representation of thousandths, so every rule is exact
//! integer arithmetic with a proved contract.  The engine-facing glue (input
//! sampling, physics queries, widget spawning) lives outside this crate and
//! exchanges plain values with it.

pub mod assets;
pub mod buff;
pub mod fixed;
pub mod items;
pub mod level;
pub mod movement;
pub mod player;
pub mod ui;

use vstd::prelude::*;

verus! {

} // verus!
