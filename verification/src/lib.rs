//! Stroke geometry engine for a freehand screen-drawing overlay.
//!
//! The engine turns a stream of pointer events into a triangulated,
//! variable-width line mesh held in a single growable vertex buffer,
//! together with a circular cursor reticle, an undo stack and the
//! current drawing settings.  All coordinates are kept in fixed-point
//! normalized device coordinates so that every computation is exact
//! integer arithmetic.

pub mod engine;
pub mod fixed;
pub mod geom;
pub mod laws;
pub mod model;
pub mod trig;
