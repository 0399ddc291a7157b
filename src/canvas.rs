//! A rectangular pixel buffer and its encodings as PPM text and PNG.

pub mod to_png;
pub mod to_ppm;
pub mod to_rgba32;
pub mod vcanvas;

pub use to_ppm::ToPPM;
pub use vcanvas::VCanvas;
