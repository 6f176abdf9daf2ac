use vstd::prelude::*;

use crate::format::PixelBufferFormatType;
use crate::layout::BufferLayout;

verus! {

/// A windowing platform whose native bitmaps a pixel buffer is laid out like.
#[derive(Debug, Clone, Copy, PartialEq, Eq, Hash, Structural)]
pub enum Platform {
    /// Device-independent bitmaps: bottom-up rows, each padded to a multiple of 4 bytes.
    Windows,
    /// Canvas image data: top-down rows of RGBA pixels with no padding.
    Web,
}

/// The surface a buffer is bound to and blitted onto.
#[derive(Debug, Clone, Copy, PartialEq, Eq, Hash, Structural)]
pub enum SurfaceHandle {
    /// A Win32 window, by its `HWND`.
    Windows { hwnd: usize },
    /// A canvas element, by the id in its `data-raw-handle` attribute.
    Web { id: u32 },
}

impl SurfaceHandle {
    pub open spec fn spec_platform(self) -> Platform {
        match self {
            SurfaceHandle::Windows { .. } => Platform::Windows,
            SurfaceHandle::Web { .. } => Platform::Web,
        }
    }

    /// The platform the surface belongs to.
    pub fn platform(&self) -> (r: Platform)
        ensures
            r == self.spec_platform(),
    {
        match self {
            SurfaceHandle::Windows { .. } => Platform::Windows,
            SurfaceHandle::Web { .. } => Platform::Web,
        }
    }
}

/// Whether a `width` by `height` buffer of any format fits in the address space.
pub open spec fn fits_in_memory(width: u32, height: u32) -> bool {
    &&& 4 * width as int + 3 <= usize::MAX
    &&& (4 * width as int + 3) * height as int <= usize::MAX
}

impl Platform {
    pub open spec fn spec_supports(self, format: PixelBufferFormatType) -> bool {
        match self {
            Platform::Windows => format == PixelBufferFormatType::BGR || format
                == PixelBufferFormatType::BGRA,
            Platform::Web => format == PixelBufferFormatType::RGBA,
        }
    }

    pub open spec fn spec_native_format(self) -> PixelBufferFormatType {
        match self {
            Platform::Windows => PixelBufferFormatType::BGRA,
            Platform::Web => PixelBufferFormatType::RGBA,
        }
    }

    pub open spec fn spec_bottom_up(self) -> bool {
        self == Platform::Windows
    }

    /// The byte distance between rows of a native bitmap of this platform.
    pub open spec fn spec_row_stride(self, width: u32, height: u32, format: PixelBufferFormatType) -> nat {
        let pixel_len = width as nat * format.spec_bytes_per_pixel();
        if self == Platform::Windows && width > 0 && height > 0 {
            ((pixel_len + 3) / 4 * 4) as nat
        } else {
            pixel_len
        }
    }

    /// The layout of a native bitmap of this platform.
    pub open spec fn spec_layout(self, width: u32, height: u32, format: PixelBufferFormatType) -> BufferLayout {
        BufferLayout {
            width,
            height,
            format,
            row_stride: self.spec_row_stride(width, height, format) as usize,
            bottom_up: self.spec_bottom_up(),
        }
    }

    /// Whether the platform's bitmaps can store `format` natively.
    pub fn supports(self, format: PixelBufferFormatType) -> (r: bool)
        ensures
            r == self.spec_supports(format),
    {
        match self {
            Platform::Windows => match format {
                PixelBufferFormatType::BGR | PixelBufferFormatType::BGRA => true,
                _ => false,
            },
            Platform::Web => match format {
                PixelBufferFormatType::RGBA => true,
                _ => false,
            },
        }
    }

    /// The format the platform's windows display without conversion.
    pub fn native_format(self) -> (r: PixelBufferFormatType)
        ensures
            r == self.spec_native_format(),
            self.spec_supports(r),
    {
        match self {
            Platform::Windows => PixelBufferFormatType::BGRA,
            Platform::Web => PixelBufferFormatType::RGBA,
        }
    }

    /// Whether the platform stores the visual bottom row first.
    pub fn bottom_up(self) -> (r: bool)
        ensures
            r == self.spec_bottom_up(),
    {
        match self {
            Platform::Windows => true,
            Platform::Web => false,
        }
    }

    /// The layout of a `width` by `height` bitmap of `format` on this platform.
    pub fn layout(self, width: u32, height: u32, format: PixelBufferFormatType) -> (r: BufferLayout)
        requires
            fits_in_memory(width, height),
        ensures
            r == self.spec_layout(width, height, format),
            r.wf(),
    {
        let pixel_len = width as usize * format.bytes_per_pixel();
        let row_stride = match self {
            Platform::Windows => {
                if width > 0 && height > 0 {
                    (pixel_len + 3) / 4 * 4
                } else {
                    pixel_len
                }
            },
            Platform::Web => pixel_len,
        };
        let r = BufferLayout { width, height, format, row_stride, bottom_up: self.bottom_up() };
        proof {
            let w = width as int;
            let h = height as int;
            assert(row_stride <= 4 * w + 3);
            if r.has_storage() {
                assert(row_stride * h <= (4 * w + 3) * h) by (nonlinear_arith)
                    requires
                        0 <= row_stride <= 4 * w + 3,
                        0 <= h,
                ;
            }
        }
        r
    }

    /// A bitmap laid out by any platform has the width and height asked for, its rows
    /// are at least as long as their pixel data, and it fits in memory.
    pub proof fn lemma_layout_dimensions(self, width: u32, height: u32, format: PixelBufferFormatType)
        requires
            fits_in_memory(width, height),
        ensures
            self.spec_layout(width, height, format).width == width,
            self.spec_layout(width, height, format).height == height,
            self.spec_layout(width, height, format).format == format,
            self.spec_layout(width, height, format).row_stride >= width as nat
                * format.spec_bytes_per_pixel(),
            self.spec_layout(width, height, format).wf(),
    {
        let pl = width as nat * format.spec_bytes_per_pixel();
        let st = self.spec_row_stride(width, height, format);
        assert(pl <= st <= 4 * width + 3);
        if width > 0 && height > 0 {
            assert(st * height <= (4 * width as int + 3) * height) by (nonlinear_arith)
                requires
                    0 <= st <= 4 * width as int + 3,
                    0 <= height,
            ;
        }
    }
}

} // verus!
