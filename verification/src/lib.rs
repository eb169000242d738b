//! Cohen-Sutherland clipping of a line segment against an axis-aligned window.
//!
//! The executable part of the crate is the part of the algorithm that is
//! decided on region codes. [`outcode`] classifies a point from its
//! comparisons with the four bounds of the window, and [`engine`] says what
//! to do next with the two codes of a segment: accept it, reject it, or move
//! one endpoint to a bound. Coordinates never enter the executable code. A
//! caller compares them, does the interpolation that a clip step asks for,
//! and reports the code of the point it obtained.
//!
//! [`geometry`] gives the codes and actions their meaning in the plane, in
//! exact arithmetic, and defines the clip that results when every crossing is
//! exact. [`laws`] proves of that clip that it is the part of the segment in
//! the window, and what follows from that.

pub mod engine;
pub mod geometry;
pub mod laws;
mod lemmas;
pub mod outcode;
