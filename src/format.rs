use vstd::prelude::*;

use crate::platform::Platform;

verus! {

/// Why a pixel buffer could not be created.
#[derive(Debug, Clone, Copy, PartialEq, Eq, Structural)]
pub enum PixelBufferCreationError {
    /// The platform cannot store the requested pixel format natively.
    FormatNotSupported,
}

/// The channel layout of a pixel: one byte per channel, in the order of the name.
#[derive(Debug, Clone, Copy, PartialEq, Eq, Hash, Structural)]
pub enum PixelBufferFormatType {
    BGR,
    BGRA,
    RGB,
    RGBA,
}

impl PixelBufferFormatType {
    /// Number of channels, which is also the number of bytes of one pixel.
    pub open spec fn spec_bytes_per_pixel(self) -> nat {
        match self {
            PixelBufferFormatType::BGR | PixelBufferFormatType::RGB => 3,
            PixelBufferFormatType::BGRA | PixelBufferFormatType::RGBA => 4,
        }
    }

    /// The channel bytes of the pixel of color (r, g, b), in this format's order,
    /// with the alpha channel (where there is one) fully opaque.
    pub open spec fn spec_rgb_bytes(self, r: u8, g: u8, b: u8) -> Seq<u8> {
        match self {
            PixelBufferFormatType::BGR => seq![b, g, r],
            PixelBufferFormatType::BGRA => seq![b, g, r, 255u8],
            PixelBufferFormatType::RGB => seq![r, g, b],
            PixelBufferFormatType::RGBA => seq![r, g, b, 255u8],
        }
    }

    /// The channel bytes of the default pixel: opaque black.
    pub open spec fn spec_default_bytes(self) -> Seq<u8> {
        self.spec_rgb_bytes(0, 0, 0)
    }

    /// The total number of bytes in an individual pixel.
    pub fn bytes_per_pixel(self) -> (r: usize)
        ensures
            r == self.spec_bytes_per_pixel(),
    {
        match self {
            PixelBufferFormatType::BGR | PixelBufferFormatType::RGB => 3,
            PixelBufferFormatType::BGRA | PixelBufferFormatType::RGBA => 4,
        }
    }

    /// The total number of bits in an individual pixel; always a multiple of 8.
    pub fn bits_per_pixel(self) -> (r: usize)
        ensures
            r == 8 * self.spec_bytes_per_pixel(),
    {
        8 * self.bytes_per_pixel()
    }
}

/// The bytes of `raw` with the `src.len()` bytes from `start` on replaced by `src`.
pub open spec fn spliced(raw: Seq<u8>, start: int, src: Seq<u8>) -> Seq<u8> {
    raw.subrange(0, start) + src + raw.subrange(start + src.len(), raw.len() as int)
}

/// A pixel type whose memory is exactly its channel bytes, in a fixed order.
pub trait PixelBufferFormat: Sized + Copy {
    /// The format this pixel type is laid out in.
    spec fn spec_format_type() -> PixelBufferFormatType;

    /// The channel bytes of the pixel, in the format's declared order.
    spec fn spec_channels(self) -> Seq<u8>;

    /// A pixel is its channel bytes: there are as many as the format has channels,
    /// and two pixels with the same bytes are the same pixel.
    proof fn lemma_channels(self, other: Self)
        ensures
            self.spec_channels().len() == Self::spec_format_type().spec_bytes_per_pixel(),
            self.spec_channels() == other.spec_channels() ==> self == other,
    ;

    /// The format this pixel type is laid out in.
    fn format_type() -> (r: PixelBufferFormatType)
        ensures
            r == Self::spec_format_type(),
    ;

    /// The default pixel: opaque black.
    fn default_pixel() -> (p: Self)
        ensures
            p.spec_channels() == Self::spec_format_type().spec_default_bytes(),
    ;

    /// The pixel of color (r, g, b), opaque where the format has an alpha channel.
    fn from_rgb(r: u8, g: u8, b: u8) -> (p: Self)
        ensures
            p.spec_channels() == Self::spec_format_type().spec_rgb_bytes(r, g, b),
    ;

    /// Reads the pixel whose channel bytes start at `raw[start]`.
    fn read_from(raw: &[u8], start: usize) -> (p: Self)
        requires
            start + Self::spec_format_type().spec_bytes_per_pixel() <= raw@.len(),
        ensures
            p.spec_channels() == raw@.subrange(
                start as int,
                start + Self::spec_format_type().spec_bytes_per_pixel(),
            ),
    ;

    /// Writes the pixel's channel bytes into `raw` from `raw[start]` on.
    fn write_to(self, raw: &mut [u8], start: usize)
        requires
            start + Self::spec_format_type().spec_bytes_per_pixel() <= old(raw)@.len(),
        ensures
            final(raw)@ == spliced(old(raw)@, start as int, self.spec_channels()),
    ;
}

/// A pixel format that some platform stores natively.
pub trait PixelBufferFormatSupported: PixelBufferFormat {
    /// The platform whose bitmaps store this format.
    spec fn spec_platform() -> Platform;

    proof fn lemma_supported()
        ensures
            Self::spec_platform().spec_supports(Self::spec_format_type()),
    ;
}

} // verus!
