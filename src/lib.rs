//! Escape-time rendering of the Mandelbrot set.
//!
//! The floating-point orbit arithmetic and the mapping of pixels onto the
//! complex plane live with the caller; this library owns the decisions of the
//! escape-time loop (`escape`) and the encoding of divergence indices into an
//! RGBA pixel buffer (`frame`).
pub mod escape;
pub mod frame;
