//! Pixel colors, frame-buffer filling and escape-time bookkeeping for a
//! fractal viewer.
pub mod color;
pub mod frame;
pub mod escape;
