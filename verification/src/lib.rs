//! Escape-time fractal rendering core.
//!
//! The crate holds the integer side of a fractal renderer: how a frame of
//! RGBA bytes is laid out, how a pixel is found and painted, how long an orbit
//! is followed before it counts as escaped, and when a view has to be drawn
//! again. The arithmetic on plane coordinates is the caller's: it comes in as
//! closures over a number type that the crate never looks into.

pub mod geometry;
pub mod render;
pub mod view;
pub mod escape;
pub mod control;
