//! Escape-time rendering of the Mandelbrot set as ASCII shading.
//!
//! The library holds the integer and symbolic core of the renderer: the
//! shading policy, the iteration controller of the escape-time test, the
//! row-major sweep that assembles a frame, and the decisions of the
//! interactive loop. The floating-point arithmetic of the complex plane is
//! supplied by the caller.
pub mod escape;
pub mod interaction;
pub mod render;
pub mod shading;
