use vstd::prelude::*;

use core::marker::PhantomData;

use crate::buffer::{BlitRect, PixelBuffer};
use crate::layout::BufferLayout;
use crate::format::{
    spliced, PixelBufferCreationError, PixelBufferFormat, PixelBufferFormatSupported,
    PixelBufferFormatType,
};
use crate::platform::{fits_in_memory, SurfaceHandle};

verus! {

/// The pixels of one row, read in place from the buffer's bytes.
pub struct PixelRow<'a, P: PixelBufferFormat> {
    /// The row's bytes; a whole number of pixels.
    pub bytes: &'a [u8],
    pub format: PhantomData<P>,
}

/// The pixels of one row, read and written in place in the buffer's bytes.
pub struct PixelRowMut<'a, P: PixelBufferFormat> {
    /// The row's bytes; a whole number of pixels.
    pub bytes: &'a mut [u8],
    pub format: PhantomData<P>,
}

/// The channel bytes of pixel `j` of a row whose bytes are `bytes`.
pub open spec fn pixel_bytes(bytes: Seq<u8>, format: PixelBufferFormatType, j: int) -> Seq<u8> {
    let n = format.spec_bytes_per_pixel() as int;
    bytes.subrange(j * n, j * n + n)
}

/// Bytes per pixel of format `P`.
fn pixel_size<P: PixelBufferFormat>() -> (r: usize)
    ensures
        r == P::spec_format_type().spec_bytes_per_pixel(),
{
    P::format_type().bytes_per_pixel()
}

impl<'a, P: PixelBufferFormat> PixelRow<'a, P> {
    /// Views `raw` as pixels of format `P`, in place; its length must be a whole
    /// number of pixels.
    pub fn from_raw_slice(raw: &'a [u8]) -> (r: PixelRow<'a, P>)
        requires
            raw@.len() % P::spec_format_type().spec_bytes_per_pixel() == 0,
        ensures
            r.bytes@ == raw@,
    {
        PixelRow { bytes: raw, format: PhantomData }
    }

    /// The bytes the pixels are read from.
    pub fn to_raw_slice(&self) -> (r: &'a [u8])
        ensures
            r@ == self.bytes@,
    {
        self.bytes
    }

    /// The number of pixels in the row.
    pub fn len(&self) -> (r: usize)
        ensures
            r == self.bytes@.len() / P::spec_format_type().spec_bytes_per_pixel(),
    {
        self.bytes.len() / pixel_size::<P>()
    }

    /// Pixel `j` of the row; `None` past its end.
    pub fn get(&self, j: usize) -> (r: Option<P>)
        ensures
            r is Some <==> j < self.bytes@.len() / P::spec_format_type().spec_bytes_per_pixel(),
            r matches Some(p) ==> p.spec_channels() == pixel_bytes(
                self.bytes@,
                P::spec_format_type(),
                j as int,
            ),
    {
        let n = pixel_size::<P>();
        if j >= self.bytes.len() / n {
            return None;
        }
        proof {
            lemma_pixel_in_row(self.bytes@.len() as int, n as int, j as int);
        }
        Some(P::read_from(self.bytes, j * n))
    }
}

impl<'a, P: PixelBufferFormat> PixelRowMut<'a, P> {
    /// Views `raw` as pixels of format `P`, in place; its length must be a whole
    /// number of pixels.
    pub fn from_raw_slice_mut(raw: &'a mut [u8]) -> (r: PixelRowMut<'a, P>)
        requires
            old(raw)@.len() % P::spec_format_type().spec_bytes_per_pixel() == 0,
        ensures
            r.bytes@ == old(raw)@,
            final(r.bytes)@ == final(raw)@,
    {
        PixelRowMut { bytes: raw, format: PhantomData }
    }

    /// The bytes the pixels are read from and written to.
    pub fn to_raw_slice_mut(self) -> (r: &'a mut [u8])
        ensures
            r@ == old(self.bytes)@,
            final(r)@ == final(self.bytes)@,
    {
        self.bytes
    }

    /// The number of pixels in the row.
    pub fn len(&self) -> (r: usize)
        ensures
            r == old(self.bytes)@.len() / P::spec_format_type().spec_bytes_per_pixel(),
    {
        self.bytes.len() / pixel_size::<P>()
    }

    /// Pixel `j` of the row; `None` past its end.
    pub fn get(&self, j: usize) -> (r: Option<P>)
        ensures
            r is Some <==> j < old(self.bytes)@.len() / P::spec_format_type().spec_bytes_per_pixel(),
            r matches Some(p) ==> p.spec_channels() == pixel_bytes(
                old(self.bytes)@,
                P::spec_format_type(),
                j as int,
            ),
    {
        let n = pixel_size::<P>();
        if j >= self.bytes.len() / n {
            return None;
        }
        proof {
            lemma_pixel_in_row(self.bytes@.len() as int, n as int, j as int);
        }
        Some(P::read_from(self.bytes, j * n))
    }

    /// Writes `p` as pixel `j` of the row: its channel bytes, in the format's order,
    /// replace the bytes of that pixel in the buffer.
    pub fn set(&mut self, j: usize, p: P)
        requires
            j < old(self).bytes@.len() / P::spec_format_type().spec_bytes_per_pixel(),
        ensures
            final(self).bytes@ == spliced(
                old(self).bytes@,
                j * P::spec_format_type().spec_bytes_per_pixel(),
                p.spec_channels(),
            ),
            final(final(self).bytes)@ == final(old(self).bytes)@,
    {
        let n = pixel_size::<P>();
        let len = self.bytes.len();
        proof {
            lemma_pixel_in_row(len as int, n as int, j as int);
        }
        p.write_to(self.bytes, j * n);
    }
}

/// Pixel `j` of a row of `len` bytes lies inside it when `j < len / n`.
proof fn lemma_pixel_in_row(len: int, n: int, j: int)
    requires
        0 < n,
        0 <= len,
        0 <= j < len / n,
    ensures
        0 <= j * n,
        j * n + n <= len,
{
    assert(j * n + n <= (len / n) * n) by (nonlinear_arith)
        requires
            0 < n,
            j < len / n,
    ;
    assert((len / n) * n <= len) by (nonlinear_arith)
        requires
            0 < n,
            0 <= len,
    ;
    assert(0 <= j * n) by (nonlinear_arith)
        requires
            0 < n,
            0 <= j,
    ;
}

/// A buffer of pixels with a statically-checked pixel format.
///
/// It is a `PixelBuffer` of format `P` and nothing more: its rows are read and
/// written as pixels of type `P` in place in the same bytes.
pub struct PixelBufferTyped<P: PixelBufferFormat> {
    p: PixelBuffer,
    _format: PhantomData<P>,
}

impl<P: PixelBufferFormat> PixelBufferTyped<P> {
    /// The byte buffer underneath.
    pub closed spec fn spec_raw(&self) -> PixelBuffer {
        self.p
    }

    pub open spec fn wf(&self) -> bool {
        &&& self.spec_raw().wf()
        &&& self.spec_raw().spec_layout().format == P::spec_format_type()
    }

    /// What a buffer fresh from `new` is: laid out as the window's platform lays out
    /// a `width` by `height` bitmap of `P`, bound to the window, every byte zero.
    pub open spec fn spec_created(&self, width: u32, height: u32, window: SurfaceHandle) -> bool {
        &&& self.wf()
        &&& self.spec_raw().spec_layout() == window.spec_platform().spec_layout(
            width,
            height,
            P::spec_format_type(),
        )
        &&& self.spec_raw().spec_surface() == window
        &&& self.spec_raw().spec_bytes() == Seq::new(
            self.spec_raw().spec_layout().spec_storage_len(),
            |k: int| 0u8,
        )
    }

    /// Initializes a new pixel buffer.
    ///
    /// Returns `Err` if the window's platform doesn't support the pixel format `P`.
    pub fn new(width: u32, height: u32, window: &SurfaceHandle) -> (r: Result<
        PixelBufferTyped<P>,
        PixelBufferCreationError,
    >)
        requires
            fits_in_memory(width, height),
        ensures
            r is Ok <==> window.spec_platform().spec_supports(P::spec_format_type()),
            r matches Ok(b) ==> b.spec_created(width, height, *window),
            r matches Err(e) ==> e == PixelBufferCreationError::FormatNotSupported,
    {
        match PixelBuffer::new(width, height, P::format_type(), window) {
            Ok(p) => Ok(PixelBufferTyped { p, _format: PhantomData }),
            Err(e) => Err(e),
        }
    }

    /// Initializes a new pixel buffer on a window of the platform that stores `P`
    /// natively, which cannot fail.
    pub fn new_supported(width: u32, height: u32, window: &SurfaceHandle) -> (r: PixelBufferTyped<P>) where
        P: PixelBufferFormatSupported,
        requires
            fits_in_memory(width, height),
            window.spec_platform() == P::spec_platform(),
        ensures
            r.spec_created(width, height, *window),
    {
        proof {
            P::lemma_supported();
        }
        match Self::new(width, height, window) {
            Ok(b) => b,
            Err(_) => vstd::pervasive::unreached(),
        }
    }

    /// Gets the pixels of the row at the given height, counted from the top; `None`
    /// past the last row.
    pub fn row(&self, row: u32) -> (r: Option<PixelRow<'_, P>>)
        requires
            self.wf(),
        ensures
            r is Some <==> row < self.spec_raw().spec_layout().spec_row_count(),
            r matches Some(v) ==> v.bytes@ == self.spec_raw().spec_row(row as int),
    {
        match self.p.row(row) {
            Some(bytes) => Some(PixelRow { bytes, format: PhantomData }),
            None => None,
        }
    }

    /// Mutably gets the pixels of the row at the given height, counted from the top;
    /// `None` past the last row. What is written through it lands in that row.
    pub fn row_mut(&mut self, row: u32) -> (r: Option<PixelRowMut<'_, P>>)
        requires
            old(self).wf(),
        ensures
            r is Some <==> row < old(self).spec_raw().spec_layout().spec_row_count(),
            final(self).spec_raw().spec_layout() == old(self).spec_raw().spec_layout(),
            final(self).spec_raw().spec_surface() == old(self).spec_raw().spec_surface(),
            r matches Some(v) ==> {
                &&& v.bytes@ == old(self).spec_raw().spec_row(row as int)
                &&& final(self).spec_raw().spec_bytes() == old(
                    self,
                ).spec_raw().spec_layout().with_row(
                    old(self).spec_raw().spec_bytes(),
                    row as int,
                    final(v.bytes)@,
                )
                &&& final(v.bytes)@.len() == v.bytes@.len() ==> {
                    &&& final(self).wf()
                    &&& final(self).spec_raw().spec_row(row as int) == final(v.bytes)@
                    &&& forall|j: int|
                        0 <= j < old(self).spec_raw().spec_layout().spec_row_count() && j != row
                            ==> final(self).spec_raw().spec_row(j) == old(self).spec_raw().spec_row(j)
                }
            },
            r is None ==> final(self).spec_raw().spec_bytes() == old(self).spec_raw().spec_bytes(),
    {
        match self.p.row_mut(row) {
            Some(bytes) => Some(PixelRowMut { bytes, format: PhantomData }),
            None => None,
        }
    }

    /// Iterates through the pixels of all rows, top to bottom.
    pub fn rows(&self) -> (r: Vec<PixelRow<'_, P>>)
        requires
            self.wf(),
        ensures
            r@.len() == self.spec_raw().spec_layout().spec_row_count(),
            forall|i: int| 0 <= i < r@.len() ==> (#[trigger] r@[i]).bytes@ == self.spec_raw().spec_row(i),
    {
        let raw = self.p.rows();
        let mut out: Vec<PixelRow<'_, P>> = Vec::new();
        let mut i: usize = 0;
        while i < raw.len()
            invariant
                i <= raw@.len(),
                raw@.len() == self.spec_raw().spec_layout().spec_row_count(),
                forall|j: int| 0 <= j < raw@.len() ==> (#[trigger] raw@[j])@ == self.spec_raw().spec_row(j),
                out@.len() == i,
                forall|j: int| 0 <= j < i ==> (#[trigger] out@[j]).bytes@ == self.spec_raw().spec_row(j),
            decreases raw@.len() - i,
        {
            out.push(PixelRow { bytes: raw[i], format: PhantomData });
            i = i + 1;
        }
        out
    }

    /// Mutably iterates through the pixels of all rows, top to bottom. The rows are
    /// the buffer's own memory: what is written through them lands in the buffer.
    pub fn rows_mut(&mut self) -> (r: Vec<PixelRowMut<'_, P>>)
        requires
            old(self).wf(),
        ensures
            r@.len() == old(self).spec_raw().spec_layout().spec_row_count(),
            forall|i: int| 0 <= i < r@.len() ==> r@[i].bytes@ == old(self).spec_raw().spec_row(i),
            final(self).spec_raw().spec_layout() == old(self).spec_raw().spec_layout(),
            final(self).spec_raw().spec_surface() == old(self).spec_raw().spec_surface(),
            final(self).spec_raw().spec_bytes() == old(self).spec_raw().spec_layout().storage_rows(
                old(self).spec_raw().spec_bytes(),
                Seq::new(r@.len(), |i: int| final(r@[i].bytes)@),
                0,
                r@.len() as int,
            ),
            (forall|i: int|
                0 <= i < r@.len() ==> final(r@[i].bytes)@.len() == old(
                    self,
                ).spec_raw().spec_layout().spec_pixel_len()) ==> {
                &&& final(self).wf()
                &&& forall|i: int|
                    0 <= i < r@.len() ==> final(self).spec_raw().spec_row(i) == final(r@[i].bytes)@
            },
    {
        let mut raw = self.p.rows_mut();
        let ghost rows = raw@;
        let ghost n = rows.len();
        // `raw` is emptied from the back into `reversed`, then `reversed` from the
        // back into `out`, which puts the rows back in order.
        let mut reversed: Vec<&mut [u8]> = Vec::new();
        while raw.len() > 0
            invariant
                n == rows.len(),
                raw@.len() + reversed@.len() == n,
                forall|j: int|
                    0 <= j < raw@.len() ==> raw@[j]@ == rows[j]@ && final(raw@[j])@ == final(rows[j])@,
                forall|j: int|
                    0 <= j < reversed@.len() ==> reversed@[j]@ == rows[n - 1 - j]@ && final(reversed@[j])@
                        == final(rows[n - 1 - j])@,
            decreases raw@.len(),
        {
            match raw.pop() {
                Some(row) => reversed.push(row),
                None => {},
            }
        }
        let mut out: Vec<PixelRowMut<'_, P>> = Vec::new();
        while reversed.len() > 0
            invariant
                n == rows.len(),
                reversed@.len() + out@.len() == n,
                forall|j: int|
                    0 <= j < reversed@.len() ==> reversed@[j]@ == rows[n - 1 - j]@ && final(reversed@[j])@
                        == final(rows[n - 1 - j])@,
                forall|j: int|
                    0 <= j < out@.len() ==> out@[j].bytes@ == rows[j]@ 
                        && final(out@[j].bytes)@ == final(rows[j])@,
            decreases reversed@.len(),
        {
            match reversed.pop() {
                Some(bytes) => out.push(PixelRowMut { bytes, format: PhantomData }),
                None => {},
            }
        }
        proof {
            let written = Seq::new(n, |i: int| final(out@[i].bytes)@);
            assert(written =~= Seq::new(n, |i: int| final(rows[i])@));
            assert(forall|j: int|
                #![trigger written[j]]
                #![trigger final(out@[j].bytes)@]
                0 <= j < written.len() ==> written[j] == final(out@[j].bytes)@);
        }
        out
    }

    /// The byte buffer underneath.
    pub fn raw(&self) -> (r: &PixelBuffer)
        ensures
            *r == self.spec_raw(),
    {
        &self.p
    }

    /// Blits the pixel buffer's contents onto `window`; see `PixelBuffer::blit`.
    pub fn blit<E, F>(&self, window: &SurfaceHandle, native_copy: F) -> (r: Result<(), E>) where
        F: FnOnce(&PixelBuffer, BlitRect) -> Result<(), E>,
        requires
            *window == self.spec_raw().spec_surface(),
            self.spec_raw().spec_layout().has_storage() ==> native_copy.requires(
                (&self.spec_raw(), BlitRect::spec_whole(self.spec_raw().spec_layout())),
            ),
        ensures
            !self.spec_raw().spec_layout().has_storage() ==> r is Ok,
            self.spec_raw().spec_layout().has_storage() ==> native_copy.ensures(
                (&self.spec_raw(), BlitRect::spec_whole(self.spec_raw().spec_layout())),
                r,
            ),
    {
        self.p.blit(window, native_copy)
    }

    /// Blits a subsection of the pixel buffer onto `window`; see `PixelBuffer::blit_rect`.
    pub fn blit_rect<E, F>(
        &self,
        src_pos: (u32, u32),
        dst_pos: (u32, u32),
        blit_size: (u32, u32),
        window: &SurfaceHandle,
        native_copy: F,
    ) -> (r: Result<(), E>) where F: FnOnce(&PixelBuffer, BlitRect) -> Result<(), E>,
        requires
            *window == self.spec_raw().spec_surface(),
            self.spec_raw().spec_layout().has_storage() ==> native_copy.requires(
                (&self.spec_raw(), BlitRect::spec_from(src_pos, dst_pos, blit_size)),
            ),
        ensures
            !self.spec_raw().spec_layout().has_storage() ==> r is Ok,
            self.spec_raw().spec_layout().has_storage() ==> native_copy.ensures(
                (&self.spec_raw(), BlitRect::spec_from(src_pos, dst_pos, blit_size)),
                r,
            ),
    {
        self.p.blit_rect(src_pos, dst_pos, blit_size, window, native_copy)
    }

    /// The total number of bits in an individual pixel; always a multiple of 8.
    pub fn bits_per_pixel(&self) -> (r: usize)
        ensures
            r == 8 * self.spec_raw().spec_layout().format.spec_bytes_per_pixel(),
    {
        self.p.bits_per_pixel()
    }

    /// The total number of bytes in an individual pixel.
    pub fn bytes_per_pixel(&self) -> (r: usize)
        ensures
            r == self.spec_raw().spec_layout().format.spec_bytes_per_pixel(),
    {
        self.p.bytes_per_pixel()
    }

    /// The width, in pixels, of the pixel buffer.
    pub fn width(&self) -> (r: u32)
        ensures
            r == self.spec_raw().spec_layout().width,
    {
        self.p.width()
    }

    /// The length, in bytes, of a single row of the pixel buffer, padding included.
    pub fn row_len(&self) -> (r: usize)
        ensures
            r == self.spec_raw().spec_layout().row_stride,
    {
        self.p.row_len()
    }

    /// The height, in pixels, of the pixel buffer.
    pub fn height(&self) -> (r: u32)
        ensures
            r == self.spec_raw().spec_layout().height,
    {
        self.p.height()
    }
}

/// Writing pixel `p` as pixel `j` of logical row `i` through a typed row view, then
/// reading row `i` through the raw byte view, gives back `p`'s channel bytes in the
/// format's declared order, at that pixel's place in the row.
pub proof fn lemma_typed_write_then_raw_read<P: PixelBufferFormat>(
    layout: BufferLayout,
    bytes: Seq<u8>,
    i: int,
    j: int,
    p: P,
)
    requires
        layout.wf(),
        layout.format == P::spec_format_type(),
        bytes.len() == layout.spec_storage_len(),
        0 <= i < layout.spec_row_count(),
        0 <= j < layout.width,
    ensures
        ({
            let n = layout.format.spec_bytes_per_pixel() as int;
            let written = spliced(layout.row_of(bytes, i), j * n, p.spec_channels());
            pixel_bytes(layout.row_of(layout.with_row(bytes, i, written), i), layout.format, j)
                == p.spec_channels()
        }),
{
    let n = layout.format.spec_bytes_per_pixel() as int;
    let row = layout.row_of(bytes, i);
    layout.lemma_row_in_storage(i);
    p.lemma_channels(p);
    assert(j * n + n <= layout.width * n) by (nonlinear_arith)
        requires
            j < layout.width,
            0 <= n,
    ;
    assert(0 <= j * n) by (nonlinear_arith)
        requires
            0 <= j,
            0 <= n,
    ;
    let written = spliced(row, j * n, p.spec_channels());
    assert(written.len() == row.len());
    layout.lemma_write_row_then_read(bytes, i, written, i);
    assert(pixel_bytes(written, layout.format, j) =~= p.spec_channels());
}

} // verus!
