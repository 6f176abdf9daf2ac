use vstd::prelude::*;
use vstd::slice::slice_subrange;

use crate::format::{PixelBufferCreationError, PixelBufferFormatType};
use crate::layout::BufferLayout;
use crate::platform::{fits_in_memory, SurfaceHandle};

verus! {

/// A rectangle of a pixel buffer to copy onto its surface, in pixels.
#[derive(Debug, Clone, Copy, PartialEq, Eq, Hash, Structural)]
pub struct BlitRect {
    pub src_x: u32,
    pub src_y: u32,
    pub dst_x: u32,
    pub dst_y: u32,
    pub width: u32,
    pub height: u32,
}

impl BlitRect {
    pub open spec fn spec_from(src_pos: (u32, u32), dst_pos: (u32, u32), size: (u32, u32)) -> BlitRect {
        BlitRect {
            src_x: src_pos.0,
            src_y: src_pos.1,
            dst_x: dst_pos.0,
            dst_y: dst_pos.1,
            width: size.0,
            height: size.1,
        }
    }

    /// The whole of a buffer laid out as `layout`, copied to the surface's origin.
    pub open spec fn spec_whole(layout: BufferLayout) -> BlitRect {
        BlitRect::spec_from((0, 0), (0, 0), (layout.width, layout.height))
    }
}

/// A buffer of pixels that can be blitted onto a window.
///
/// The buffer's origin is its top-left corner: logical row 0 is the top of the
/// image, whichever order the platform's bitmaps store rows in.
pub struct PixelBuffer {
    layout: BufferLayout,
    storage: Vec<u8>,
    surface: SurfaceHandle,
}

impl PixelBuffer {
    /// The layout of the native bitmap the buffer mirrors.
    pub closed spec fn spec_layout(&self) -> BufferLayout {
        self.layout
    }

    /// All of the buffer's storage, in the platform's row order, padding included.
    pub closed spec fn spec_bytes(&self) -> Seq<u8> {
        self.storage@
    }

    /// The surface the buffer was created for.
    pub closed spec fn spec_surface(&self) -> SurfaceHandle {
        self.surface
    }

    /// The layout is sound and the storage holds exactly the bytes it calls for.
    pub open spec fn wf(&self) -> bool {
        &&& self.spec_layout().wf()
        &&& self.spec_bytes().len() == self.spec_layout().spec_storage_len()
    }

    /// The pixel bytes of logical row `i`.
    pub open spec fn spec_row(&self, i: int) -> Seq<u8> {
        self.spec_layout().row_of(self.spec_bytes(), i)
    }

    /// Initializes a new pixel buffer bound to `window`, laid out as that window's
    /// platform lays out its bitmaps, with every byte zero.
    ///
    /// Returns `Err` if the platform doesn't support the requested pixel format.
    pub fn new(width: u32, height: u32, format: PixelBufferFormatType, window: &SurfaceHandle) -> (r:
        Result<PixelBuffer, PixelBufferCreationError>)
        requires
            fits_in_memory(width, height),
        ensures
            r is Ok <==> window.spec_platform().spec_supports(format),
            r matches Ok(b) ==> {
                &&& b.wf()
                &&& b.spec_layout() == window.spec_platform().spec_layout(width, height, format)
                &&& b.spec_surface() == *window
                &&& b.spec_bytes() == Seq::new(b.spec_layout().spec_storage_len(), |k: int| 0u8)
            },
            r matches Err(e) ==> e == PixelBufferCreationError::FormatNotSupported,
    {
        let platform = window.platform();
        if !platform.supports(format) {
            return Err(PixelBufferCreationError::FormatNotSupported);
        }
        let layout = platform.layout(width, height, format);
        let len: usize = if width > 0 && height > 0 {
            layout.row_stride * height as usize
        } else {
            0
        };
        let storage: Vec<u8> = vec![0u8; len];
        let b = PixelBuffer { layout, storage, surface: *window };
        assert(b.spec_bytes() =~= Seq::new(b.spec_layout().spec_storage_len(), |k: int| 0u8));
        Ok(b)
    }

    /// The layout of the native bitmap the buffer mirrors.
    pub fn layout(&self) -> (r: BufferLayout)
        ensures
            r == self.spec_layout(),
    {
        self.layout
    }

    /// The surface the buffer was created for.
    pub fn surface(&self) -> (r: SurfaceHandle)
        ensures
            r == self.spec_surface(),
    {
        self.surface
    }

    /// The buffer's pixel format.
    pub fn format(&self) -> (r: PixelBufferFormatType)
        ensures
            r == self.spec_layout().format,
    {
        self.layout.format
    }

    /// The total number of bits in an individual pixel; always a multiple of 8.
    pub fn bits_per_pixel(&self) -> (r: usize)
        ensures
            r == 8 * self.spec_layout().format.spec_bytes_per_pixel(),
    {
        self.layout.format.bits_per_pixel()
    }

    /// The total number of bytes in an individual pixel.
    pub fn bytes_per_pixel(&self) -> (r: usize)
        ensures
            r == self.spec_layout().format.spec_bytes_per_pixel(),
    {
        self.layout.format.bytes_per_pixel()
    }

    /// The width, in pixels, of the pixel buffer.
    pub fn width(&self) -> (r: u32)
        ensures
            r == self.spec_layout().width,
    {
        self.layout.width
    }

    /// The length, in bytes, of a single row of the pixel buffer, padding included.
    pub fn row_len(&self) -> (r: usize)
        ensures
            r == self.spec_layout().row_stride,
    {
        self.layout.row_stride
    }

    /// The height, in pixels, of the pixel buffer.
    pub fn height(&self) -> (r: u32)
        ensures
            r == self.spec_layout().height,
    {
        self.layout.height
    }

    /// All of the buffer's storage, in the platform's row order, padding included.
    pub fn bytes(&self) -> (r: &[u8])
        ensures
            r@ == self.spec_bytes(),
    {
        self.storage.as_slice()
    }

    /// Mutable access to all of the buffer's storage, in the platform's row order.
    pub fn bytes_mut(&mut self) -> (r: &mut [u8])
        ensures
            r@ == old(self).spec_bytes(),
            final(self).spec_bytes() == final(r)@,
            final(self).spec_layout() == old(self).spec_layout(),
            final(self).spec_surface() == old(self).spec_surface(),
    {
        self.storage.as_mut_slice()
    }

    /// Gets the pixel bytes of the row at the given height, counted from the top;
    /// `None` past the last row.
    pub fn row(&self, row: u32) -> (r: Option<&[u8]>)
        requires
            self.wf(),
        ensures
            r is Some <==> row < self.spec_layout().spec_row_count(),
            r matches Some(s) ==> s@ == self.spec_row(row as int),
    {
        if row >= self.row_count() {
            return None;
        }
        let start = self.layout.row_start(row);
        let end = start + self.layout.pixel_len();
        Some(slice_subrange(self.storage.as_slice(), start, end))
    }

    /// Mutably gets the pixel bytes of the row at the given height, counted from the
    /// top; `None` past the last row. What is written through it lands in that row.
    pub fn row_mut(&mut self, row: u32) -> (r: Option<&mut [u8]>)
        requires
            old(self).wf(),
        ensures
            r is Some <==> row < old(self).spec_layout().spec_row_count(),
            final(self).spec_layout() == old(self).spec_layout(),
            final(self).spec_surface() == old(self).spec_surface(),
            r matches Some(s) ==> {
                &&& s@ == old(self).spec_row(row as int)
                &&& final(self).spec_bytes() == old(self).spec_layout().with_row(
                    old(self).spec_bytes(),
                    row as int,
                    final(s)@,
                )
                &&& final(s)@.len() == s@.len() ==> {
                    &&& final(self).wf()
                    &&& final(self).spec_row(row as int) == final(s)@
                    &&& forall|j: int|
                        0 <= j < old(self).spec_layout().spec_row_count() && j != row
                            ==> final(self).spec_row(j) == old(self).spec_row(j)
                }
            },
            r is None ==> final(self).spec_bytes() == old(self).spec_bytes(),
    {
        if row >= self.row_count() {
            return None;
        }
        let start = self.layout.row_start(row);
        let len = self.layout.pixel_len();
        let ghost layout = self.layout;
        let ghost before = self.storage@;
        let all = self.storage.as_mut_slice();
        let (_front, tail) = all.split_at_mut(start);
        let (pixels, _padding_and_rest) = tail.split_at_mut(len);
        proof {
            assert(pixels@ =~= layout.row_of(before, row as int));
            lemma_row_written_back(layout, before, row as int, final(pixels)@);
            assert(pixels@.len() == layout.spec_pixel_len());
            assert(after_borrow(self).spec_bytes() == layout.with_row(
                before,
                row as int,
                final(pixels)@,
            ));
        }
        Some(pixels)
    }

    /// Iterates through all rows in the pixel buffer, top to bottom.
    pub fn rows(&self) -> (r: Vec<&[u8]>)
        requires
            self.wf(),
        ensures
            r@.len() == self.spec_layout().spec_row_count(),
            forall|i: int| 0 <= i < r@.len() ==> (#[trigger] r@[i])@ == self.spec_row(i),
    {
        let n = self.row_count();
        let mut out: Vec<&[u8]> = Vec::new();
        let mut i: u32 = 0;
        while i < n
            invariant
                self.wf(),
                n == self.spec_layout().spec_row_count(),
                i <= n,
                out@.len() == i,
                forall|j: int| 0 <= j < i ==> (#[trigger] out@[j])@ == self.spec_row(j),
            decreases n - i,
        {
            let start = self.layout.row_start(i);
            let end = start + self.layout.pixel_len();
            out.push(slice_subrange(self.storage.as_slice(), start, end));
            i = i + 1;
        }
        out
    }

    /// Mutably iterates through all rows in the pixel buffer, top to bottom. The rows
    /// are the buffer's own memory: what is written through them lands in the buffer.
    pub fn rows_mut(&mut self) -> (r: Vec<&mut [u8]>)
        requires
            old(self).wf(),
        ensures
            r@.len() == old(self).spec_layout().spec_row_count(),
            forall|i: int| 0 <= i < r@.len() ==> r@[i]@ == old(self).spec_row(i),
            final(self).spec_layout() == old(self).spec_layout(),
            final(self).spec_surface() == old(self).spec_surface(),
            final(self).spec_bytes() == old(self).spec_layout().storage_rows(
                old(self).spec_bytes(),
                Seq::new(r@.len(), |i: int| final(r@[i])@),
                0,
                r@.len() as int,
            ),
            (forall|i: int|
                0 <= i < r@.len() ==> final(r@[i])@.len() == old(self).spec_layout().spec_pixel_len())
                ==> {
                &&& final(self).wf()
                &&& forall|i: int| 0 <= i < r@.len() ==> final(self).spec_row(i) == final(r@[i])@
            },
    {
        let ghost layout = self.layout;
        let ghost bytes = self.storage@;
        let r = split_rows(self.layout, self.storage.as_mut_slice());
        proof {
            let written = Seq::new(r@.len(), |i: int| final(r@[i])@);
            assert(forall|j: int|
                #![trigger written[j]]
                #![trigger final(r@[j])@]
                0 <= j < written.len() ==> written[j] == final(r@[j])@);
            layout.lemma_written_views_then_read(bytes, written);
        }
        r
    }

    /// Blits the pixel buffer's contents onto `window`, at its top-left corner.
    ///
    /// `window` must be the surface the buffer was created for. A buffer without
    /// pixels has nothing to copy: it returns `Ok` and leaves `native_copy` uncalled.
    /// Otherwise `native_copy` is called once, with the buffer and the whole of it as
    /// the rectangle, and what it returns is returned.
    pub fn blit<E, F>(&self, window: &SurfaceHandle, native_copy: F) -> (r: Result<(), E>) where
        F: FnOnce(&PixelBuffer, BlitRect) -> Result<(), E>,
        requires
            *window == self.spec_surface(),
            self.spec_layout().has_storage() ==> native_copy.requires(
                (self, BlitRect::spec_whole(self.spec_layout())),
            ),
        ensures
            !self.spec_layout().has_storage() ==> r is Ok,
            self.spec_layout().has_storage() ==> native_copy.ensures(
                (self, BlitRect::spec_whole(self.spec_layout())),
                r,
            ),
    {
        self.blit_rect((0, 0), (0, 0), (self.layout.width, self.layout.height), window, native_copy)
    }

    /// Blits a `blit_size` rectangle of the buffer, from `src_pos` in it, onto `window`
    /// at `dst_pos`.
    ///
    /// `window` must be the surface the buffer was created for. A buffer without
    /// pixels has nothing to copy: it returns `Ok` and leaves `native_copy` uncalled.
    /// Otherwise `native_copy` is called once, with the buffer and the rectangle, and
    /// what it returns is returned.
    pub fn blit_rect<E, F>(
        &self,
        src_pos: (u32, u32),
        dst_pos: (u32, u32),
        blit_size: (u32, u32),
        window: &SurfaceHandle,
        native_copy: F,
    ) -> (r: Result<(), E>) where F: FnOnce(&PixelBuffer, BlitRect) -> Result<(), E>,
        requires
            *window == self.spec_surface(),
            self.spec_layout().has_storage() ==> native_copy.requires(
                (self, BlitRect::spec_from(src_pos, dst_pos, blit_size)),
            ),
        ensures
            !self.spec_layout().has_storage() ==> r is Ok,
            self.spec_layout().has_storage() ==> native_copy.ensures(
                (self, BlitRect::spec_from(src_pos, dst_pos, blit_size)),
                r,
            ),
    {
        if self.layout.width == 0 || self.layout.height == 0 {
            return Ok(());
        }
        let rect = BlitRect {
            src_x: src_pos.0,
            src_y: src_pos.1,
            dst_x: dst_pos.0,
            dst_y: dst_pos.1,
            width: blit_size.0,
            height: blit_size.1,
        };
        native_copy(self, rect)
    }

    /// The number of rows the buffer exposes: its height, or zero when it has no pixels.
    pub fn row_count(&self) -> (r: u32)
        ensures
            r == self.spec_layout().spec_row_count(),
    {
        if self.layout.width > 0 && self.layout.height > 0 {
            self.layout.height
        } else {
            0
        }
    }
}

/// After logical row `i` of `bytes` is replaced by a full row `data`, that row reads
/// `data` and every other row reads as before.
proof fn lemma_row_written_back(layout: BufferLayout, bytes: Seq<u8>, i: int, data: Seq<u8>)
    requires
        layout.wf(),
        bytes.len() == layout.spec_storage_len(),
        0 <= i < layout.spec_row_count(),
    ensures
        data.len() == layout.spec_pixel_len() ==> {
            &&& layout.with_row(bytes, i, data).len() == bytes.len()
            &&& layout.row_of(layout.with_row(bytes, i, data), i) == data
            &&& forall|j: int|
                0 <= j < layout.spec_row_count() && j != i ==> layout.row_of(
                    layout.with_row(bytes, i, data),
                    j,
                ) == layout.row_of(bytes, j)
        },
{
    if data.len() == layout.spec_pixel_len() {
        layout.lemma_write_row_then_read(bytes, i, data, i);
        assert forall|j: int| 0 <= j < layout.spec_row_count() && j != i implies layout.row_of(
            layout.with_row(bytes, i, data),
            j,
        ) == layout.row_of(bytes, j) by {
            layout.lemma_write_row_then_read(bytes, i, data, j);
        }
    }
}

/// Splits `storage`, laid out as `layout`, into the pixel bytes of its rows, in
/// logical (top-down) order.
fn split_rows(layout: BufferLayout, storage: &mut [u8]) -> (r: Vec<&mut [u8]>)
    requires
        layout.wf(),
        old(storage)@.len() == layout.spec_storage_len(),
    ensures
        r@.len() == layout.spec_row_count(),
        forall|i: int| 0 <= i < r@.len() ==> r@[i]@ == layout.row_of(old(storage)@, i),
        final(storage)@ == layout.storage_rows(
            old(storage)@,
            Seq::new(r@.len(), |i: int| final(r@[i])@),
            0,
            r@.len() as int,
        ),
{
    let ghost bytes = storage@;
    let n: u32 = if layout.width > 0 && layout.height > 0 {
        layout.height
    } else {
        0
    };
    let s = layout.row_stride;
    let pl = layout.pixel_len();
    let mut rest: &mut [u8] = &mut *storage;
    let mut out: Vec<&mut [u8]> = Vec::new();
    let mut i: u32 = 0;
    while i < n
        invariant
            layout.wf(),
            bytes.len() == layout.spec_storage_len(),
            n == layout.spec_row_count(),
            s == layout.row_stride,
            pl == layout.spec_pixel_len(),
            i <= n,
            out@.len() == i,
            forall|j: int| 0 <= j < i ==> out@[j]@ == layout.row_of(bytes, j),
            !layout.bottom_up ==> rest@ == bytes.subrange(i * s, n * s),
            !layout.bottom_up ==> after_borrow(storage)@ == layout.storage_rows(
                bytes,
                Seq::new(i as nat, |j: int| final(out@[j])@),
                0,
                i as int,
            ) + final(rest)@,
            layout.bottom_up ==> rest@ == bytes.subrange(0, (n - i) * s),
            layout.bottom_up ==> after_borrow(storage)@ == final(rest)@ + layout.storage_rows(
                bytes,
                Seq::new(i as nat, |j: int| final(out@[j])@),
                n - i,
                n as int,
            ),
        decreases n - i,
    {
        proof {
            layout.lemma_row_in_storage(i as int);
            assert((n - i - 1) * s + s == (n - i) * s) by (nonlinear_arith);
            assert(i * s + s == (i + 1) * s) by (nonlinear_arith);
            assert(n * s == layout.spec_storage_len()) by (nonlinear_arith)
                requires
                    n == layout.height,
                    layout.spec_storage_len() == s * layout.height,
            ;
            assert((i + 1) * s <= n * s) by (nonlinear_arith)
                requires
                    i < n,
                    0 <= s,
            ;
            assert(0 <= i * s) by (nonlinear_arith)
                requires
                    0 <= i,
                    0 <= s,
            ;
            assert((n - i) * s <= n * s) by (nonlinear_arith)
                requires
                    i <= n,
                    0 <= s,
            ;
            assert(0 <= (n - i - 1) * s) by (nonlinear_arith)
                requires
                    i < n,
                    0 <= s,
            ;
        }
        let ghost out_before = out@;
        let ghost f_before = Seq::new(i as nat, |j: int| final(out_before[j])@);
        if !layout.bottom_up {
            let (chunk, tail) = rest.split_at_mut(s);
            let (pixels, _padding) = chunk.split_at_mut(pl);
            proof {
                assert(pixels@ =~= layout.row_of(bytes, i as int));
            }
            out.push(pixels);
            rest = tail;
            proof {
                let f_after = Seq::new((i + 1) as nat, |j: int| final(out@[j])@);
                layout.lemma_storage_rows_frame(bytes, f_before, f_after, 0, i as int);
                assert(rest@ =~= bytes.subrange((i + 1) * s, n * s));
            }
        } else {
            let at = rest.len() - s;
            let (front, chunk) = rest.split_at_mut(at);
            let (pixels, _padding) = chunk.split_at_mut(pl);
            proof {
                assert(pixels@ =~= layout.row_of(bytes, i as int));
            }
            out.push(pixels);
            rest = front;
            proof {
                let f_after = Seq::new((i + 1) as nat, |j: int| final(out@[j])@);
                let p = n - i - 1;
                layout.lemma_storage_rows_frame(bytes, f_before, f_after, p + 1, n as int);
                layout.lemma_storage_rows_prepend(bytes, f_after, p, n as int);
                assert(rest@ =~= bytes.subrange(0, (n - (i + 1)) * s));
            }
        }
        i = i + 1;
    }
    out
}

} // verus!
