//! Verified core of a streamline renderer: the discrete raster logic
//! (pixel classification, clamping, bounding boxes) and the frame-buffer
//! compositing rules used when antialiased primitives are stamped onto
//! a pixel buffer.

pub mod draw;
pub mod frame;
pub mod raster;
pub mod vector_field;

pub use frame::Frame;
pub use frame::Rgb;
pub use raster::rangify;
pub use raster::Raster;
