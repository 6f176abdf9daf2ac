use vstd::prelude::*;

use crate::format::{spliced, PixelBufferFormat, PixelBufferFormatSupported, PixelBufferFormatType};
use crate::platform::Platform;

verus! {

/// A pixel stored as blue, green and red bytes, in that order.
#[derive(Debug, Clone, Copy, PartialEq, Eq, Hash, PartialOrd, Ord, Structural)]
pub struct BGR {
    pub b: u8,
    pub g: u8,
    pub r: u8,
}

impl BGR {
    pub fn new(b: u8, g: u8, r: u8) -> (p: BGR)
        ensures
            p == (BGR { b, g, r }),
    {
        BGR { b, g, r }
    }
}

impl Default for BGR {
    fn default() -> (p: BGR)
        ensures
            p == (BGR { b: 0, g: 0, r: 0 }),
    {
        BGR { b: 0, g: 0, r: 0 }
    }
}

impl PixelBufferFormat for BGR {
    open spec fn spec_format_type() -> PixelBufferFormatType {
        PixelBufferFormatType::BGR
    }

    open spec fn spec_channels(self) -> Seq<u8> {
        seq![self.b, self.g, self.r]
    }

    proof fn lemma_channels(self, other: Self) {
        if self.spec_channels() == other.spec_channels() {
            assert(self.spec_channels()[0] == other.spec_channels()[0]);
            assert(self.spec_channels()[1] == other.spec_channels()[1]);
            assert(self.spec_channels()[2] == other.spec_channels()[2]);
        }
    }

    fn format_type() -> (r: PixelBufferFormatType) {
        PixelBufferFormatType::BGR
    }

    fn default_pixel() -> (p: Self) {
        let p = BGR { b: 0, g: 0, r: 0 };
        assert(p.spec_channels() =~= Self::spec_format_type().spec_default_bytes());
        p
    }

    fn from_rgb(r: u8, g: u8, b: u8) -> (p: Self) {
        let p = BGR { b, g, r };
        assert(p.spec_channels() =~= Self::spec_format_type().spec_rgb_bytes(r, g, b));
        p
    }

    fn read_from(raw: &[u8], start: usize) -> (p: Self) {
        let p = BGR { b: raw[start], g: raw[start + 1], r: raw[start + 2] };
        assert(p.spec_channels() =~= raw@.subrange(start as int, start + 3));
        p
    }

    fn write_to(self, raw: &mut [u8], start: usize) {
        raw[start] = self.b;
        raw[start + 1] = self.g;
        raw[start + 2] = self.r;
        assert(raw@ =~= spliced(old(raw)@, start as int, self.spec_channels()));
    }
}

/// A pixel stored as blue, green, red and alpha bytes, in that order.
#[derive(Debug, Clone, Copy, PartialEq, Eq, Hash, PartialOrd, Ord, Structural)]
pub struct BGRA {
    pub b: u8,
    pub g: u8,
    pub r: u8,
    pub a: u8,
}

impl BGRA {
    pub fn new(b: u8, g: u8, r: u8, a: u8) -> (p: BGRA)
        ensures
            p == (BGRA { b, g, r, a }),
    {
        BGRA { b, g, r, a }
    }
}

impl Default for BGRA {
    fn default() -> (p: BGRA)
        ensures
            p == (BGRA { b: 0, g: 0, r: 0, a: 255 }),
    {
        BGRA { b: 0, g: 0, r: 0, a: 255 }
    }
}

impl PixelBufferFormat for BGRA {
    open spec fn spec_format_type() -> PixelBufferFormatType {
        PixelBufferFormatType::BGRA
    }

    open spec fn spec_channels(self) -> Seq<u8> {
        seq![self.b, self.g, self.r, self.a]
    }

    proof fn lemma_channels(self, other: Self) {
        if self.spec_channels() == other.spec_channels() {
            assert(self.spec_channels()[0] == other.spec_channels()[0]);
            assert(self.spec_channels()[1] == other.spec_channels()[1]);
            assert(self.spec_channels()[2] == other.spec_channels()[2]);
            assert(self.spec_channels()[3] == other.spec_channels()[3]);
        }
    }

    fn format_type() -> (r: PixelBufferFormatType) {
        PixelBufferFormatType::BGRA
    }

    fn default_pixel() -> (p: Self) {
        let p = BGRA { b: 0, g: 0, r: 0, a: 255 };
        assert(p.spec_channels() =~= Self::spec_format_type().spec_default_bytes());
        p
    }

    fn from_rgb(r: u8, g: u8, b: u8) -> (p: Self) {
        let p = BGRA { b, g, r, a: 255 };
        assert(p.spec_channels() =~= Self::spec_format_type().spec_rgb_bytes(r, g, b));
        p
    }

    fn read_from(raw: &[u8], start: usize) -> (p: Self) {
        let p = BGRA { b: raw[start], g: raw[start + 1], r: raw[start + 2], a: raw[start + 3] };
        assert(p.spec_channels() =~= raw@.subrange(start as int, start + 4));
        p
    }

    fn write_to(self, raw: &mut [u8], start: usize) {
        raw[start] = self.b;
        raw[start + 1] = self.g;
        raw[start + 2] = self.r;
        raw[start + 3] = self.a;
        assert(raw@ =~= spliced(old(raw)@, start as int, self.spec_channels()));
    }
}

/// A pixel stored as red, green and blue bytes, in that order.
#[derive(Debug, Clone, Copy, PartialEq, Eq, Hash, PartialOrd, Ord, Structural)]
pub struct RGB {
    pub r: u8,
    pub g: u8,
    pub b: u8,
}

impl RGB {
    pub fn new(r: u8, g: u8, b: u8) -> (p: RGB)
        ensures
            p == (RGB { r, g, b }),
    {
        RGB { r, g, b }
    }
}

impl Default for RGB {
    fn default() -> (p: RGB)
        ensures
            p == (RGB { r: 0, g: 0, b: 0 }),
    {
        RGB { r: 0, g: 0, b: 0 }
    }
}

impl PixelBufferFormat for RGB {
    open spec fn spec_format_type() -> PixelBufferFormatType {
        PixelBufferFormatType::RGB
    }

    open spec fn spec_channels(self) -> Seq<u8> {
        seq![self.r, self.g, self.b]
    }

    proof fn lemma_channels(self, other: Self) {
        if self.spec_channels() == other.spec_channels() {
            assert(self.spec_channels()[0] == other.spec_channels()[0]);
            assert(self.spec_channels()[1] == other.spec_channels()[1]);
            assert(self.spec_channels()[2] == other.spec_channels()[2]);
        }
    }

    fn format_type() -> (r: PixelBufferFormatType) {
        PixelBufferFormatType::RGB
    }

    fn default_pixel() -> (p: Self) {
        let p = RGB { r: 0, g: 0, b: 0 };
        assert(p.spec_channels() =~= Self::spec_format_type().spec_default_bytes());
        p
    }

    fn from_rgb(r: u8, g: u8, b: u8) -> (p: Self) {
        let p = RGB { r, g, b };
        assert(p.spec_channels() =~= Self::spec_format_type().spec_rgb_bytes(r, g, b));
        p
    }

    fn read_from(raw: &[u8], start: usize) -> (p: Self) {
        let p = RGB { r: raw[start], g: raw[start + 1], b: raw[start + 2] };
        assert(p.spec_channels() =~= raw@.subrange(start as int, start + 3));
        p
    }

    fn write_to(self, raw: &mut [u8], start: usize) {
        raw[start] = self.r;
        raw[start + 1] = self.g;
        raw[start + 2] = self.b;
        assert(raw@ =~= spliced(old(raw)@, start as int, self.spec_channels()));
    }
}

/// A pixel stored as red, green, blue and alpha bytes, in that order.
#[derive(Debug, Clone, Copy, PartialEq, Eq, Hash, PartialOrd, Ord, Structural)]
pub struct RGBA {
    pub r: u8,
    pub g: u8,
    pub b: u8,
    pub a: u8,
}

impl RGBA {
    pub fn new(r: u8, g: u8, b: u8, a: u8) -> (p: RGBA)
        ensures
            p == (RGBA { r, g, b, a }),
    {
        RGBA { r, g, b, a }
    }
}

impl Default for RGBA {
    fn default() -> (p: RGBA)
        ensures
            p == (RGBA { r: 0, g: 0, b: 0, a: 255 }),
    {
        RGBA { r: 0, g: 0, b: 0, a: 255 }
    }
}

impl PixelBufferFormat for RGBA {
    open spec fn spec_format_type() -> PixelBufferFormatType {
        PixelBufferFormatType::RGBA
    }

    open spec fn spec_channels(self) -> Seq<u8> {
        seq![self.r, self.g, self.b, self.a]
    }

    proof fn lemma_channels(self, other: Self) {
        if self.spec_channels() == other.spec_channels() {
            assert(self.spec_channels()[0] == other.spec_channels()[0]);
            assert(self.spec_channels()[1] == other.spec_channels()[1]);
            assert(self.spec_channels()[2] == other.spec_channels()[2]);
            assert(self.spec_channels()[3] == other.spec_channels()[3]);
        }
    }

    fn format_type() -> (r: PixelBufferFormatType) {
        PixelBufferFormatType::RGBA
    }

    fn default_pixel() -> (p: Self) {
        let p = RGBA { r: 0, g: 0, b: 0, a: 255 };
        assert(p.spec_channels() =~= Self::spec_format_type().spec_default_bytes());
        p
    }

    fn from_rgb(r: u8, g: u8, b: u8) -> (p: Self) {
        let p = RGBA { r, g, b, a: 255 };
        assert(p.spec_channels() =~= Self::spec_format_type().spec_rgb_bytes(r, g, b));
        p
    }

    fn read_from(raw: &[u8], start: usize) -> (p: Self) {
        let p = RGBA { r: raw[start], g: raw[start + 1], b: raw[start + 2], a: raw[start + 3] };
        assert(p.spec_channels() =~= raw@.subrange(start as int, start + 4));
        p
    }

    fn write_to(self, raw: &mut [u8], start: usize) {
        raw[start] = self.r;
        raw[start + 1] = self.g;
        raw[start + 2] = self.b;
        raw[start + 3] = self.a;
        assert(raw@ =~= spliced(old(raw)@, start as int, self.spec_channels()));
    }
}

/// A pixel is its channel bytes, in order: converting leaves every byte as it is.
impl From<[u8; 3]> for BGR {
    fn from(a: [u8; 3]) -> BGR {
        BGR { b: a[0], g: a[1], r: a[2] }
    }
}

impl vstd::std_specs::convert::FromSpecImpl<[u8; 3]> for BGR {
    open spec fn obeys_from_spec() -> bool {
        true
    }

    open spec fn from_spec(v: [u8; 3]) -> BGR {
        BGR { b: v@[0], g: v@[1], r: v@[2] }
    }
}

impl From<BGR> for [u8; 3] {
    fn from(p: BGR) -> [u8; 3] {
        [p.b, p.g, p.r]
    }
}

impl vstd::std_specs::convert::FromSpecImpl<BGR> for [u8; 3] {
    open spec fn obeys_from_spec() -> bool {
        true
    }

    open spec fn from_spec(p: BGR) -> [u8; 3] {
        [p.b, p.g, p.r]
    }
}

/// A pixel is its channel bytes, in order: converting leaves every byte as it is.
impl From<[u8; 4]> for BGRA {
    fn from(a: [u8; 4]) -> BGRA {
        BGRA { b: a[0], g: a[1], r: a[2], a: a[3] }
    }
}

impl vstd::std_specs::convert::FromSpecImpl<[u8; 4]> for BGRA {
    open spec fn obeys_from_spec() -> bool {
        true
    }

    open spec fn from_spec(v: [u8; 4]) -> BGRA {
        BGRA { b: v@[0], g: v@[1], r: v@[2], a: v@[3] }
    }
}

impl From<BGRA> for [u8; 4] {
    fn from(p: BGRA) -> [u8; 4] {
        [p.b, p.g, p.r, p.a]
    }
}

impl vstd::std_specs::convert::FromSpecImpl<BGRA> for [u8; 4] {
    open spec fn obeys_from_spec() -> bool {
        true
    }

    open spec fn from_spec(p: BGRA) -> [u8; 4] {
        [p.b, p.g, p.r, p.a]
    }
}

/// A pixel is its channel bytes, in order: converting leaves every byte as it is.
impl From<[u8; 3]> for RGB {
    fn from(a: [u8; 3]) -> RGB {
        RGB { r: a[0], g: a[1], b: a[2] }
    }
}

impl vstd::std_specs::convert::FromSpecImpl<[u8; 3]> for RGB {
    open spec fn obeys_from_spec() -> bool {
        true
    }

    open spec fn from_spec(v: [u8; 3]) -> RGB {
        RGB { r: v@[0], g: v@[1], b: v@[2] }
    }
}

impl From<RGB> for [u8; 3] {
    fn from(p: RGB) -> [u8; 3] {
        [p.r, p.g, p.b]
    }
}

impl vstd::std_specs::convert::FromSpecImpl<RGB> for [u8; 3] {
    open spec fn obeys_from_spec() -> bool {
        true
    }

    open spec fn from_spec(p: RGB) -> [u8; 3] {
        [p.r, p.g, p.b]
    }
}

/// A pixel is its channel bytes, in order: converting leaves every byte as it is.
impl From<[u8; 4]> for RGBA {
    fn from(a: [u8; 4]) -> RGBA {
        RGBA { r: a[0], g: a[1], b: a[2], a: a[3] }
    }
}

impl vstd::std_specs::convert::FromSpecImpl<[u8; 4]> for RGBA {
    open spec fn obeys_from_spec() -> bool {
        true
    }

    open spec fn from_spec(v: [u8; 4]) -> RGBA {
        RGBA { r: v@[0], g: v@[1], b: v@[2], a: v@[3] }
    }
}

impl From<RGBA> for [u8; 4] {
    fn from(p: RGBA) -> [u8; 4] {
        [p.r, p.g, p.b, p.a]
    }
}

impl vstd::std_specs::convert::FromSpecImpl<RGBA> for [u8; 4] {
    open spec fn obeys_from_spec() -> bool {
        true
    }

    open spec fn from_spec(p: RGBA) -> [u8; 4] {
        [p.r, p.g, p.b, p.a]
    }
}

impl PixelBufferFormatSupported for BGR {
    open spec fn spec_platform() -> Platform {
        Platform::Windows
    }

    proof fn lemma_supported() {
    }
}

impl PixelBufferFormatSupported for BGRA {
    open spec fn spec_platform() -> Platform {
        Platform::Windows
    }

    proof fn lemma_supported() {
    }
}

impl PixelBufferFormatSupported for RGBA {
    open spec fn spec_platform() -> Platform {
        Platform::Web
    }

    proof fn lemma_supported() {
    }
}

} // verus!
