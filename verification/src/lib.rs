//! Verified core of a click-to-shoot demo: converting cursor positions to
//! world coordinates through the camera transform, deciding when a click
//! spawns a projectile, and sweeping out projectiles whose lifetime has
//! elapsed.  Rendering, input delivery and physics simulation belong to the
//! host engine and are wired up outside this crate.

pub mod aim;
pub mod camera;
pub mod frames;
pub mod physics;
pub mod projectiles;
