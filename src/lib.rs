//! Pixel buffers that can be filled row by row and blitted onto a native surface.
//!
//! A buffer is laid out exactly like the native bitmaps of the platform its surface
//! belongs to, padding and row order included, but its public row order is always
//! top-down: logical row 0 is the visual top of the image.
mod buffer;
mod format;
mod layout;
mod pixel;
mod platform;
mod typed;

pub use buffer::{BlitRect, PixelBuffer};
pub use format::{
    spliced, PixelBufferCreationError, PixelBufferFormat, PixelBufferFormatSupported,
    PixelBufferFormatType,
};
pub use layout::BufferLayout;
pub use pixel::{BGR, BGRA, RGB, RGBA};
pub use platform::{fits_in_memory, Platform, SurfaceHandle};
pub use typed::{
    lemma_typed_write_then_raw_read, pixel_bytes, PixelBufferTyped, PixelRow, PixelRowMut,
};
