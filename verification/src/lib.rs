//! Load-reactive RGB lighting library.
//!
//! Turns smoothed CPU/GPU utilization signals into per-LED color
//! assignments for a set of RGB controllers, and models the lifecycle of
//! the control loop that drives them.

pub mod color;
pub mod control;
pub mod dispatch;
pub mod sampler;
