//! A command pipeline for a live set of parametric shapes.
//!
//! A scripting thread issues shape-lifecycle commands through a bounded
//! channel; the render loop drains the channel once per frame, resolves the
//! 128-bit identifiers that the script holds into handles of the shape store,
//! applies the commands, and advances the reveal and morph animation of every
//! live shape.
//!
//! The library never computes with coordinates itself. A point is a value of
//! a type parameter `P`, and every operation that needs arithmetic on points
//! takes it as a function argument; the contracts relate the stored points to
//! the results of those functions.

pub mod channel;
pub mod command;
pub mod overlay;
pub mod registry;
pub mod reload;
pub mod sampling;
pub mod scene;
pub mod shape;
pub mod store;

use vstd::prelude::*;

verus! {

/// The sample count of every built-in outline, and the number of frames that
/// a reveal or a morph takes.
pub const RESOLUTION: usize = 400;

/// The identifier under which the scripting side knows a shape.
pub type ExternalId = u128;

/// The reference to a shape record inside the store.
pub type Handle = usize;

} // verus!
