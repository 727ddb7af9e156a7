//! Which parts of the coordinate overlay are drawn.

use vstd::prelude::*;

verus! {

/// The coordinate axes that are drawn.
#[derive(Clone, Copy, Debug, PartialEq, Eq)]
pub struct AxesConfig {
    pub x: bool,
    pub y: bool,
    pub z: bool,
}

impl Default for AxesConfig {
    /// All three axes.
    fn default() -> (r: Self)
        ensures
            r == (AxesConfig { x: true, y: true, z: true }),
    {
        AxesConfig { x: true, y: true, z: true }
    }
}

/// The grid planes that are drawn.
#[derive(Clone, Copy, Debug, PartialEq, Eq)]
pub struct PlanesConfig {
    pub xy: bool,
    pub xz: bool,
    pub yz: bool,
}

impl Default for PlanesConfig {
    /// The ground plane only.
    fn default() -> (r: Self)
        ensures
            r == (PlanesConfig { xy: false, xz: true, yz: false }),
    {
        PlanesConfig { xy: false, xz: true, yz: false }
    }
}

} // verus!
