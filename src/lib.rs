//! Verified building blocks of a small ray tracer: the integer side of
//! image encoding, the frame sequencing of animations, the ordering and
//! hit-selection rule over ray intersections, and the index algebra of
//! square matrices.

pub mod animator;
pub mod canvas;
pub mod decimal;
pub mod intersections;
pub mod matrix;
pub mod pixels;
pub mod zequality;
