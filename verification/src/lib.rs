//! Verified core of a terminal plotter for numerical integration.
pub mod adapter;
pub mod area;
pub mod fixed;
pub mod focus;
pub mod lines;
pub mod sample;
pub mod session;
