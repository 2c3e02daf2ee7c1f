//! Startup configuration of the physics simulation.
//!
//! The demo runs without global gravity and with a physics scale of one, so
//! that one world unit is one pixel.  The configuration itself is owned by
//! the physics plugin; this module fixes the values this layer is expected
//! to set once at startup.

use vstd::prelude::*;

verus! {

/// The physics settings this layer controls: a global gravity vector and
/// the scale between world units and physics units.
#[derive(Clone, Copy, PartialEq, Eq, Structural, Debug)]
pub struct PhysicsConfig {
    pub gravity_x: i64,
    pub gravity_y: i64,
    pub scale: u32,
}

/// Configures the physics simulation for the demo: gravity off, scale one.
pub fn setup_physics(configuration: &mut PhysicsConfig)
    ensures
        final(configuration).gravity_x == 0,
        final(configuration).gravity_y == 0,
        final(configuration).scale == 1,
{
    configuration.gravity_x = 0;
    configuration.gravity_y = 0;
    configuration.scale = 1;
}

} // verus!
