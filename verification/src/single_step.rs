//! Single-step integrators: each sample is computed from the previous one
//! alone.

pub mod eiler;
pub mod runge;
