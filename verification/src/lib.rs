//! Runtime core of a minimal real-time 3D viewer: an edge-triggered
//! input-action layer, and the state that drives the GPU-facing renderer.
//!
//! The windowing loop, the camera's floating-point matrix math and the
//! actual GPU submission live outside this crate; everything here is the
//! logic they consult, with contracts.

pub mod gfx;
pub mod input;
