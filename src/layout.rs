use vstd::prelude::*;

use crate::format::PixelBufferFormatType;

verus! {

/// How a native bitmap lays out its rows in memory.
///
/// Rows are `row_stride` bytes apart; the first `width * bytes_per_pixel` bytes of a
/// row are its pixels and the rest is padding. A bottom-up bitmap stores the visual
/// bottom row first. A bitmap with no pixels holds no storage at all.
#[derive(Debug, Clone, Copy, PartialEq, Eq, Structural)]
pub struct BufferLayout {
    pub width: u32,
    pub height: u32,
    pub format: PixelBufferFormatType,
    pub row_stride: usize,
    pub bottom_up: bool,
}

impl BufferLayout {
    /// Bytes of pixel data in one row, padding excluded.
    pub open spec fn spec_pixel_len(self) -> nat {
        self.width as nat * self.format.spec_bytes_per_pixel()
    }

    /// Whether the bitmap holds any storage: it does when neither side is zero.
    pub open spec fn has_storage(self) -> bool {
        self.width > 0 && self.height > 0
    }

    /// The number of rows that the buffer exposes.
    pub open spec fn spec_row_count(self) -> nat {
        if self.has_storage() {
            self.height as nat
        } else {
            0
        }
    }

    /// The number of bytes of storage.
    pub open spec fn spec_storage_len(self) -> nat {
        if self.has_storage() {
            self.row_stride as nat * self.height as nat
        } else {
            0
        }
    }

    /// Rows are long enough for their pixels, and the storage fits in memory.
    pub open spec fn wf(self) -> bool {
        &&& self.spec_pixel_len() <= self.row_stride
        &&& self.spec_storage_len() <= usize::MAX
    }

    /// Where in storage the logical (top-down) row `i` is kept.
    pub open spec fn spec_physical_row(self, i: int) -> int {
        if self.bottom_up {
            self.height - 1 - i
        } else {
            i
        }
    }

    /// The offset of the first byte of logical row `i`.
    pub open spec fn spec_row_start(self, i: int) -> int {
        self.spec_physical_row(i) * self.row_stride
    }

    /// The pixel bytes of logical row `i` in `bytes`.
    pub open spec fn row_of(self, bytes: Seq<u8>, i: int) -> Seq<u8> {
        bytes.subrange(self.spec_row_start(i), self.spec_row_start(i) + self.spec_pixel_len())
    }

    /// `bytes` with the pixel bytes of logical row `i` replaced by `data`.
    pub open spec fn with_row(self, bytes: Seq<u8>, i: int, data: Seq<u8>) -> Seq<u8> {
        let start = self.spec_row_start(i);
        bytes.subrange(0, start) + data + bytes.subrange(start + self.spec_pixel_len(), bytes.len() as int)
    }

    /// `bytes` after writing `rows[0]` to logical row 0, then `rows[1]` to row 1, and so on.
    pub open spec fn with_rows(self, bytes: Seq<u8>, rows: Seq<Seq<u8>>) -> Seq<u8>
        decreases rows.len(),
    {
        if rows.len() == 0 {
            bytes
        } else {
            self.with_row(
                self.with_rows(bytes, rows.drop_last()),
                rows.len() - 1,
                rows.last(),
            )
        }
    }

    /// Storage row `p` holding `pixels`, followed by the padding it has in `bytes`.
    pub open spec fn storage_row(self, bytes: Seq<u8>, p: int, pixels: Seq<u8>) -> Seq<u8> {
        pixels + bytes.subrange(p * self.row_stride + self.spec_pixel_len(), (p + 1) * self.row_stride)
    }

    /// Storage rows `lo` to `hi - 1` in storage order, each holding the pixels that
    /// `rows` gives for the logical row kept there, and the padding it has in `bytes`.
    pub open spec fn storage_rows(self, bytes: Seq<u8>, rows: Seq<Seq<u8>>, lo: int, hi: int) -> Seq<u8>
        decreases hi - lo,
    {
        if hi <= lo {
            Seq::empty()
        } else {
            self.storage_rows(bytes, rows, lo, hi - 1) + self.storage_row(
                bytes,
                hi - 1,
                rows[self.spec_physical_row(hi - 1)],
            )
        }
    }

    pub(crate) proof fn lemma_storage_rows_prepend(self, bytes: Seq<u8>, rows: Seq<Seq<u8>>, lo: int, hi: int)
        requires
            lo < hi,
        ensures
            self.storage_rows(bytes, rows, lo, hi) == self.storage_row(
                bytes,
                lo,
                rows[self.spec_physical_row(lo)],
            ) + self.storage_rows(bytes, rows, lo + 1, hi),
        decreases hi - lo,
    {
        let first = self.storage_row(bytes, lo, rows[self.spec_physical_row(lo)]);
        let last = self.storage_row(bytes, hi - 1, rows[self.spec_physical_row(hi - 1)]);
        if lo + 1 < hi {
            self.lemma_storage_rows_prepend(bytes, rows, lo, hi - 1);
            let mid = self.storage_rows(bytes, rows, lo + 1, hi - 1);
            assert(self.storage_rows(bytes, rows, lo + 1, hi) == mid + last);
            assert((first + mid) + last =~= first + (mid + last));
        } else {
            assert(self.storage_rows(bytes, rows, lo, hi - 1) =~= Seq::<u8>::empty());
            assert(self.storage_rows(bytes, rows, lo + 1, hi) =~= Seq::<u8>::empty());
            assert(self.storage_rows(bytes, rows, lo, hi) =~= first + Seq::<u8>::empty());
        }
    }

    pub(crate) proof fn lemma_storage_rows_frame(
        self,
        bytes: Seq<u8>,
        rows: Seq<Seq<u8>>,
        other: Seq<Seq<u8>>,
        lo: int,
        hi: int,
    )
        requires
            forall|p: int|
                lo <= p < hi ==> rows[self.spec_physical_row(p)] == other[self.spec_physical_row(p)],
        ensures
            self.storage_rows(bytes, rows, lo, hi) == self.storage_rows(bytes, other, lo, hi),
        decreases hi - lo,
    {
        if lo < hi {
            self.lemma_storage_rows_frame(bytes, rows, other, lo, hi - 1);
        }
    }

    /// When every row handed in is a full row, the storage rebuilt from them holds
    /// each of them as its logical row.
    pub proof fn lemma_storage_rows_read(self, bytes: Seq<u8>, rows: Seq<Seq<u8>>, k: int)
        requires
            self.wf(),
            self.has_storage(),
            0 <= k <= self.height,
            bytes.len() == self.spec_storage_len(),
            rows.len() == self.height,
            forall|j: int| 0 <= j < rows.len() ==> (#[trigger] rows[j]).len() == self.spec_pixel_len(),
        ensures
            self.storage_rows(bytes, rows, 0, k).len() == k * self.row_stride,
            forall|p: int|
                0 <= p < k ==> self.storage_rows(bytes, rows, 0, k).subrange(
                    p * self.row_stride,
                    p * self.row_stride + self.spec_pixel_len(),
                ) == rows[self.spec_physical_row(p)],
        decreases k,
    {
        let s = self.row_stride as int;
        let pl = self.spec_pixel_len() as int;
        if k > 0 {
            self.lemma_storage_rows_read(bytes, rows, k - 1);
            let prev = self.storage_rows(bytes, rows, 0, k - 1);
            let cur = self.storage_rows(bytes, rows, 0, k);
            assert(k * s <= self.height * s) by (nonlinear_arith)
                requires
                    k <= self.height,
                    0 <= s,
            ;
            assert((k - 1) * s + s == k * s) by (nonlinear_arith);
            assert forall|p: int| 0 <= p < k implies cur.subrange(p * s, p * s + pl) == rows[self.spec_physical_row(p)] by {
                if p < k - 1 {
                    assert(p * s + s <= (k - 1) * s) by (nonlinear_arith)
                        requires
                            p < k - 1,
                            0 <= s,
                    ;
                    assert(0 <= p * s) by (nonlinear_arith)
                        requires
                            0 <= p,
                            0 <= s,
                    ;
                    assert(cur.subrange(p * s, p * s + pl) =~= prev.subrange(p * s, p * s + pl));
                } else {
                    let j = self.spec_physical_row(p);
                    assert(0 <= j < rows.len());
                    assert(cur.subrange(p * s, p * s + pl) =~= rows[j]);
                }
            }
        }
    }

    /// Rows handed out as live views and written through: once every view still has a
    /// full row's length, reading any logical row of the storage they leave behind
    /// gives what was written through the view of that row, and the storage keeps
    /// its size.
    pub proof fn lemma_written_views_then_read(self, bytes: Seq<u8>, written: Seq<Seq<u8>>)
        requires
            self.wf(),
            bytes.len() == self.spec_storage_len(),
            written.len() == self.spec_row_count(),
        ensures
            (forall|j: int| 0 <= j < written.len() ==> (#[trigger] written[j]).len() == self.spec_pixel_len())
                ==> {
                &&& self.storage_rows(bytes, written, 0, written.len() as int).len() == bytes.len()
                &&& forall|i: int|
                    0 <= i < written.len() ==> self.row_of(
                        self.storage_rows(bytes, written, 0, written.len() as int),
                        i,
                    ) == written[i]
            },
    {
        if forall|j: int| 0 <= j < written.len() ==> (#[trigger] written[j]).len() == self.spec_pixel_len() {
            if self.has_storage() {
                let h = self.height as int;
                self.lemma_storage_rows_read(bytes, written, h);
                assert(self.spec_storage_len() == h * self.row_stride) by (nonlinear_arith)
                    requires
                        self.spec_storage_len() == self.row_stride * h,
                ;
                assert forall|i: int| 0 <= i < written.len() implies self.row_of(
                    self.storage_rows(bytes, written, 0, written.len() as int),
                    i,
                ) == written[i] by {
                    self.lemma_row_in_storage(i);
                    let p = self.spec_physical_row(i);
                    assert(self.spec_physical_row(p) == i);
                }
            }
        }
    }

    /// Bytes of pixel data in one row, padding excluded.
    pub fn pixel_len(&self) -> (r: usize)
        requires
            self.wf(),
        ensures
            r == self.spec_pixel_len(),
    {
        self.width as usize * self.format.bytes_per_pixel()
    }

    /// The storage row that holds logical row `row`.
    pub fn physical_row(&self, row: u32) -> (r: u32)
        requires
            row < self.height,
        ensures
            r == self.spec_physical_row(row as int),
    {
        if self.bottom_up {
            self.height - 1 - row
        } else {
            row
        }
    }

    /// The offset of the first byte of logical row `row`.
    pub fn row_start(&self, row: u32) -> (r: usize)
        requires
            self.wf(),
            row < self.spec_row_count(),
        ensures
            r == self.spec_row_start(row as int),
            r + self.spec_pixel_len() <= self.spec_storage_len(),
    {
        proof {
            self.lemma_row_in_storage(row as int);
        }
        self.physical_row(row) as usize * self.row_stride
    }

    /// Each exposed row lies inside the storage.
    pub proof fn lemma_row_in_storage(self, i: int)
        requires
            self.wf(),
            0 <= i < self.spec_row_count(),
        ensures
            0 <= self.spec_physical_row(i) < self.height,
            0 <= self.spec_row_start(i),
            self.spec_row_start(i) + self.spec_pixel_len() <= self.spec_storage_len(),
    {
        let p = self.spec_physical_row(i);
        let s = self.row_stride as int;
        let h = self.height as int;
        assert(0 <= p * s) by (nonlinear_arith)
            requires
                0 <= p,
                0 <= s,
        ;
        assert(p * s + s <= h * s) by (nonlinear_arith)
            requires
                0 <= p < h,
                0 <= s,
        ;
    }

    /// Two different exposed rows do not share a byte.
    pub proof fn lemma_rows_disjoint(self, i: int, j: int)
        requires
            self.wf(),
            0 <= i < self.spec_row_count(),
            0 <= j < self.spec_row_count(),
            i != j,
        ensures
            self.spec_row_start(i) + self.spec_pixel_len() <= self.spec_row_start(j)
                || self.spec_row_start(j) + self.spec_pixel_len() <= self.spec_row_start(i),
    {
        let pi = self.spec_physical_row(i);
        let pj = self.spec_physical_row(j);
        let s = self.row_stride as int;
        if pi < pj {
            assert(pi * s + s <= pj * s) by (nonlinear_arith)
                requires
                    pi < pj,
                    0 <= s,
            ;
        } else {
            assert(pj * s + s <= pi * s) by (nonlinear_arith)
                requires
                    pj < pi,
                    0 <= s,
            ;
        }
    }

    /// Writing one row changes that row to what was written and leaves every other
    /// row, and the storage size, as they were: whichever order the rows are stored in.
    pub proof fn lemma_write_row_then_read(self, bytes: Seq<u8>, i: int, data: Seq<u8>, j: int)
        requires
            self.wf(),
            bytes.len() == self.spec_storage_len(),
            0 <= i < self.spec_row_count(),
            0 <= j < self.spec_row_count(),
            data.len() == self.spec_pixel_len(),
        ensures
            self.with_row(bytes, i, data).len() == bytes.len(),
            self.row_of(self.with_row(bytes, i, data), j) == if i == j {
                data
            } else {
                self.row_of(bytes, j)
            },
    {
        self.lemma_row_in_storage(i);
        self.lemma_row_in_storage(j);
        let nb = self.with_row(bytes, i, data);
        if i == j {
            assert(self.row_of(nb, j) =~= data);
        } else {
            self.lemma_rows_disjoint(i, j);
            assert(self.row_of(nb, j) =~= self.row_of(bytes, j));
        }
    }

    /// Writing rows 0 to n - 1 in turn, then reading any logical row back, gives what
    /// was written to it, or what it held before where nothing was.
    pub proof fn lemma_write_rows_then_read(self, bytes: Seq<u8>, rows: Seq<Seq<u8>>, j: int)
        requires
            self.wf(),
            bytes.len() == self.spec_storage_len(),
            rows.len() <= self.spec_row_count(),
            forall|k: int| 0 <= k < rows.len() ==> (#[trigger] rows[k]).len() == self.spec_pixel_len(),
            0 <= j < self.spec_row_count(),
        ensures
            self.with_rows(bytes, rows).len() == bytes.len(),
            self.row_of(self.with_rows(bytes, rows), j) == if j < rows.len() {
                rows[j]
            } else {
                self.row_of(bytes, j)
            },
        decreases rows.len(),
    {
        if rows.len() > 0 {
            let prev = rows.drop_last();
            self.lemma_write_rows_then_read(bytes, prev, j);
            let n = rows.len() - 1;
            self.lemma_write_row_then_read(self.with_rows(bytes, prev), n, rows.last(), j);
        }
    }
}

} // verus!
