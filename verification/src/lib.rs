//! A minimal raster drawing harness: an offscreen RGBA frame buffer with
//! pixel and rectangle drawing primitives, and a render-loop driver that
//! decides, for each host tick and key event, what the host must do next.
//!
//! The frame buffer logic is verified here; the host surface (a canvas
//! element, its 2D context, the animation scheduler and the keyboard event
//! source) lives outside the library and is driven through the actions that
//! the driver hands back.

pub mod canvas;
pub mod driver;
