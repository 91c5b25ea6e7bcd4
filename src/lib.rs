//! A tick-driven simulation of bouncing balls under gravity inside a
//! resizable, movable viewport.
//!
//! All quantities are fixed-point integers: one unit of length, velocity or
//! time is [`fixed::UNIT`] steps, so the physics is exact integer arithmetic
//! whose rounding is stated in the contracts.

pub mod fixed;
pub mod physics;
pub mod viewport;
pub mod world;
pub mod laws;
