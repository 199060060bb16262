//! The discrete core of a Monte Carlo path tracer.
//!
//! A path tracer spends its time in floating-point geometry, but what it
//! decides is discrete: which of several intersections is the one the ray
//! sees, when a path stops and why, and where in the picture each scanline
//! belongs. This crate holds those decisions, each with a contract that
//! Verus proves. The geometry and the colours stay with the caller.
//!
//! * [`path`]: the life of one light path, from the first intersection test
//!   to escape, absorption or the end of the bounce budget.
//! * [`hit`]: which root of a sphere's quadratic is the hit, and which hit
//!   of a scene is the closest.
//! * [`key`]: positions along a ray as ordered integers.
//! * [`image`]: the grid of pixels, computed one scanline per parallel task.
//! * [`channel`]: the names of the three slots of a colour or a vector.

pub mod channel;
pub mod hit;
pub mod image;
pub mod key;
pub mod path;
