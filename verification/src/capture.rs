//! Pixel rows of captured frames: removing row padding, packing strided
//! rows, copying rows into a strided frame, and compacting indexed readbacks.

use vstd::prelude::*;

verus! {

/// The pixel layout of a GPU readback.
#[derive(Clone, Copy, Debug, PartialEq, Eq, Structural)]
pub enum ReadbackPixelFormat {
    /// Four bytes per pixel, blue, green, red, alpha.
    Bgra,
    /// Four bytes per pixel whose red channel holds a palette index.
    IndexedRgba8,
}

impl ReadbackPixelFormat {
    /// Bytes in one unpadded row of `width` pixels.
    pub fn row_bytes(self, width: u32) -> (n: usize)
        requires
            4 * width <= usize::MAX,
        ensures
            n == 4 * width,
    {
        match self {
            ReadbackPixelFormat::Bgra => width as usize * 4,
            ReadbackPixelFormat::IndexedRgba8 => width as usize * 4,
        }
    }

    /// The readback holds BGRA pixels.
    pub fn is_bgra(self) -> (r: bool)
        ensures
            r == (self == ReadbackPixelFormat::Bgra),
    {
        match self {
            ReadbackPixelFormat::Bgra => true,
            ReadbackPixelFormat::IndexedRgba8 => false,
        }
    }
}

/// The rows of `data` cut into chunks of `aligned` bytes, at most `rows` of
/// them, each cut down to its first `row_bytes` bytes, joined.
pub open spec fn unpadded_rows(data: Seq<u8>, aligned: nat, row_bytes: nat, rows: nat) -> Seq<u8>
    decreases rows,
{
    if rows == 0 || data.len() == 0 || aligned == 0 {
        Seq::empty()
    } else {
        let chunk = if aligned <= data.len() {
            aligned as int
        } else {
            data.len() as int
        };
        let kept = if row_bytes <= chunk {
            row_bytes as int
        } else {
            chunk
        };
        data.take(kept) + unpadded_rows(data.skip(chunk), aligned, row_bytes, (rows - 1) as nat)
    }
}

/// Removes the padding a GPU copy adds after each row: splits `data` into
/// chunks of `aligned_row_bytes` bytes, keeps the first `height` chunks and of
/// each its first `row_bytes` bytes.
pub fn strip_row_padding(data: &[u8], aligned_row_bytes: usize, row_bytes: usize, height: u32) -> (out: Vec<u8>)
    requires
        aligned_row_bytes > 0,
    ensures
        out@ == unpadded_rows(data@, aligned_row_bytes as nat, row_bytes as nat, height as nat),
{
    let n = data.len();
    let mut out: Vec<u8> = Vec::new();
    let mut pos: usize = 0;
    let mut left: u32 = height;
    assert(data@.skip(0) =~= data@);
    assert(out@ + unpadded_rows(data@, aligned_row_bytes as nat, row_bytes as nat, height as nat)
        =~= unpadded_rows(data@, aligned_row_bytes as nat, row_bytes as nat, height as nat));
    while left > 0 && pos < n
        invariant
            pos <= n,
            n == data@.len(),
            aligned_row_bytes > 0,
            out@ + unpadded_rows(data@.skip(pos as int), aligned_row_bytes as nat, row_bytes as nat, left as nat)
                == unpadded_rows(data@, aligned_row_bytes as nat, row_bytes as nat, height as nat),
        decreases left,
    {
        let ghost rest = data@.skip(pos as int);
        let chunk = if aligned_row_bytes <= n - pos {
            aligned_row_bytes
        } else {
            n - pos
        };
        let kept = if row_bytes <= chunk {
            row_bytes
        } else {
            chunk
        };
        let ghost before = out@;
        let mut k: usize = 0;
        while k < kept
            invariant
                k <= kept,
                pos + kept <= n,
                n == data@.len(),
                out@ == before + data@.subrange(pos as int, pos + k),
            decreases kept - k,
        {
            out.push(data[pos + k]);
            assert(data@.subrange(pos as int, pos + k + 1) =~= data@.subrange(pos as int, pos + k).push(
                data@[pos + k],
            ));
            k = k + 1;
        }
        assert(rest.take(kept as int) =~= data@.subrange(pos as int, pos + kept));
        assert(rest.skip(chunk as int) =~= data@.skip(pos + chunk));
        assert(out@ + unpadded_rows(data@.skip(pos + chunk), aligned_row_bytes as nat, row_bytes as nat, (left - 1) as nat)
            =~= before + unpadded_rows(rest, aligned_row_bytes as nat, row_bytes as nat, left as nat));
        pos = pos + chunk;
        left = left - 1;
    }
    assert(unpadded_rows(data@.skip(pos as int), aligned_row_bytes as nat, row_bytes as nat, left as nat)
        =~= Seq::<u8>::empty());
    assert(out@ + Seq::<u8>::empty() =~= out@);
    out
}

/// Rows `0..rows` of `data`, each `row_bytes` bytes long and `stride` bytes
/// after the one before, joined.
pub open spec fn packed_rows(data: Seq<u8>, stride: nat, row_bytes: nat, rows: nat) -> Seq<u8>
    decreases rows,
{
    if rows == 0 {
        Seq::empty()
    } else {
        let start = (rows - 1) * stride;
        packed_rows(data, stride, row_bytes, (rows - 1) as nat) + data.subrange(start as int, start + row_bytes)
    }
}

/// The strided rows lie inside `len` bytes.
pub open spec fn rows_fit(len: nat, stride: nat, row_bytes: nat, rows: nat) -> bool {
    rows == 0 || (rows - 1) * stride + row_bytes <= len
}

proof fn lemma_row_start_bound(y: nat, rows: nat, stride: nat, row_bytes: nat, len: nat)
    requires
        y < rows,
        rows_fit(len, stride, row_bytes, rows),
    ensures
        y * stride + row_bytes <= len,
{
    assert(y * stride <= (rows - 1) * stride) by (nonlinear_arith)
        requires
            y <= rows - 1,
    ;
}

/// Copies the first `4 * width` bytes of each of `height` rows that lie
/// `stride` bytes apart in `data` into one tightly packed buffer.
pub fn tightly_packed_rgba(data: &[u8], stride: usize, width: u32, height: u32) -> (out: Vec<u8>)
    requires
        4 * width <= usize::MAX,
        rows_fit(data@.len(), stride as nat, 4 * width as nat, height as nat),
    ensures
        out@ == packed_rows(data@, stride as nat, 4 * width as nat, height as nat),
{
    let row_bytes = width as usize * 4;
    let total = data.len();
    let mut out: Vec<u8> = Vec::new();
    let mut y: usize = 0;
    while y < height as usize
        invariant
            y <= height,
            total == data@.len(),
            row_bytes == 4 * width,
            rows_fit(data@.len(), stride as nat, row_bytes as nat, height as nat),
            out@ == packed_rows(data@, stride as nat, row_bytes as nat, y as nat),
        decreases height - y,
    {
        proof {
            lemma_row_start_bound(y as nat, height as nat, stride as nat, row_bytes as nat, data@.len());
        }
        let start = y * stride;
        let ghost before = out@;
        let mut k: usize = 0;
        while k < row_bytes
            invariant
                k <= row_bytes,
                total == data@.len(),
                start + row_bytes <= data@.len(),
                out@ == before + data@.subrange(start as int, start + k),
            decreases row_bytes - k,
        {
            out.push(data[start + k]);
            assert(data@.subrange(start as int, start + k + 1) =~= data@.subrange(start as int, start + k).push(
                data@[start + k],
            ));
            k = k + 1;
        }
        y = y + 1;
    }
    out
}

/// Copies `height` packed BGRA rows of `width` pixels from `source` into
/// `destination`, whose rows lie `stride` bytes apart; the padding of each
/// destination row is left as it was.
pub fn copy_bgra_into_frame(source: &[u8], destination: &mut [u8], stride: usize, width: u32, height: u32)
    requires
        4 * width <= usize::MAX,
        4 * width <= stride,
        4 * width * height <= source@.len(),
        rows_fit(old(destination)@.len(), stride as nat, 4 * width as nat, height as nat),
    ensures
        final(destination)@.len() == old(destination)@.len(),
        forall|y: int, x: int|
            0 <= y < height && 0 <= x < 4 * width ==> #[trigger] final(destination)@[y * stride + x]
                == source@[y * (4 * width) + x],
        forall|i: int|
            0 <= i < old(destination)@.len() && (i / (stride as int) >= height || i % (stride as int) >= 4
                * width) ==> #[trigger] final(destination)@[i] == old(destination)@[i],
{
    let row_bytes = width as usize * 4;
    let ghost orig = destination@;
    let src_len = source.len();
    let dst_len = destination.len();
    let mut y: usize = 0;
    while y < height as usize
        invariant
            y <= height,
            src_len == source@.len(),
            dst_len == orig.len(),
            row_bytes == 4 * width,
            row_bytes <= stride,
            row_bytes * height <= source@.len(),
            destination@.len() == orig.len(),
            rows_fit(orig.len(), stride as nat, row_bytes as nat, height as nat),
            forall|yy: int, x: int|
                0 <= yy < y && 0 <= x < row_bytes ==> #[trigger] destination@[yy * stride + x]
                    == source@[yy * row_bytes + x],
            forall|i: int|
                0 <= i < orig.len() && (i / (stride as int) >= y || i % (stride as int) >= row_bytes)
                    ==> #[trigger] destination@[i] == orig[i],
        decreases height - y,
    {
        proof {
            lemma_row_start_bound(y as nat, height as nat, stride as nat, row_bytes as nat, orig.len());
            assert(y * row_bytes + row_bytes <= row_bytes * height) by (nonlinear_arith)
                requires
                    y < height,
            ;
        }
        let dst_start = y * stride;
        let src_start = y * row_bytes;
        let mut x: usize = 0;
        while x < row_bytes
            invariant
                x <= row_bytes,
                y < height,
                src_len == source@.len(),
                dst_len == orig.len(),
                row_bytes <= stride,
                dst_start == y * stride,
                src_start == y * row_bytes,
                dst_start + row_bytes <= orig.len(),
                src_start + row_bytes <= source@.len(),
                destination@.len() == orig.len(),
                forall|yy: int, xx: int|
                    0 <= yy < y && 0 <= xx < row_bytes ==> #[trigger] destination@[yy * stride + xx]
                        == source@[yy * row_bytes + xx],
                forall|xx: int| 0 <= xx < x ==> #[trigger] destination@[dst_start + xx] == source@[src_start + xx],
                forall|i: int|
                    0 <= i < orig.len() && (i / (stride as int) > y || i % (stride as int) >= row_bytes || (i
                        / (stride as int) == y && i % (stride as int) >= x)) ==> #[trigger] destination@[i]
                        == orig[i],
            decreases row_bytes - x,
        {
            let byte = source[src_start + x];
            destination[dst_start + x] = byte;
            proof {
                assert forall|yy: int, xx: int|
                    0 <= yy < y && 0 <= xx < row_bytes implies #[trigger] destination@[yy * stride + xx]
                        == source@[yy * row_bytes + xx] by {
                    assert(yy * stride + xx < y * stride) by (nonlinear_arith)
                        requires
                            yy < y,
                            xx < row_bytes,
                            row_bytes <= stride,
                    ;
                }
                assert forall|i: int|
                    0 <= i < orig.len() && (i / (stride as int) > y || i % (stride as int) >= row_bytes || (i
                        / (stride as int) == y && i % (stride as int) >= x + 1)) implies #[trigger] destination@[i]
                        == orig[i] by {
                    let q = i / (stride as int);
                    let r = i % (stride as int);
                    assert(i == q * stride + r && 0 <= r < stride) by (nonlinear_arith)
                        requires
                            stride > 0,
                            q == i / (stride as int),
                            r == i % (stride as int),
                    ;
                    if i == dst_start + x {
                        assert(q == y && r == x) by (nonlinear_arith)
                            requires
                                i == q * stride + r,
                                0 <= r < stride,
                                i == y * stride + x,
                                x < stride,
                        ;
                    }
                }
            }
            x = x + 1;
        }
        proof {
            assert forall|yy: int, xx: int|
                0 <= yy < y + 1 && 0 <= xx < row_bytes implies #[trigger] destination@[yy * stride + xx]
                    == source@[yy * row_bytes + xx] by {
                if yy == y {
                    assert(destination@[dst_start + xx] == source@[src_start + xx]);
                }
            }
            assert forall|i: int|
                0 <= i < orig.len() && (i / (stride as int) >= y + 1 || i % (stride as int) >= row_bytes)
                    implies #[trigger] destination@[i] == orig[i] by {
                if i % (stride as int) < row_bytes {
                    assert(i / (stride as int) > y);
                }
            }
        }
        y = y + 1;
    }
}

/// The palette indices of an indexed RGBA8 readback: the first byte of each
/// four-byte pixel, for at most `width * height` pixels.
pub fn compact_indexed_rgba8(pixels: &[u8], width: u32, height: u32) -> (indexed: Vec<u8>)
    requires
        width * height <= usize::MAX,
    ensures
        indexed@.len() == if width * height <= pixels@.len() / 4 {
            width * height
        } else {
            (pixels@.len() / 4) as int
        },
        forall|k: int| 0 <= k < indexed@.len() ==> #[trigger] indexed@[k] == pixels@[4 * k],
{
    let pixel_count = width as usize * height as usize;
    let total = pixels.len();
    let available = total / 4;
    let count = if pixel_count <= available {
        pixel_count
    } else {
        available
    };
    let mut indexed: Vec<u8> = Vec::new();
    let mut k: usize = 0;
    while k < count
        invariant
            k <= count,
            available == pixels@.len() / 4,
            total == pixels@.len(),
            count <= available,
            indexed@.len() == k,
            forall|j: int| 0 <= j < k ==> #[trigger] indexed@[j] == pixels@[4 * j],
        decreases count - k,
    {
        assert(4 * k + 4 <= pixels@.len()) by (nonlinear_arith)
            requires
                k < available,
                available == pixels@.len() / 4,
        ;
        indexed.push(pixels[4 * k]);
        k = k + 1;
    }
    indexed
}

proof fn lemma_packed_rows_first(data: Seq<u8>, stride: nat, row_bytes: nat, rows: nat)
    requires
        rows > 0,
        row_bytes <= stride,
        rows * stride <= data.len(),
    ensures
        packed_rows(data, stride, row_bytes, rows) == data.take(row_bytes as int) + packed_rows(
            data.skip(stride as int),
            stride,
            row_bytes,
            (rows - 1) as nat,
        ),
    decreases rows,
{
    if rows == 1 {
        assert(data.subrange(0, row_bytes as int) =~= data.take(row_bytes as int));
        assert(packed_rows(data.skip(stride as int), stride, row_bytes, 0) =~= Seq::<u8>::empty());
        assert(packed_rows(data, stride, row_bytes, 0) =~= Seq::<u8>::empty());
    } else {
        let r = (rows - 1) as nat;
        assert(r * stride <= rows * stride) by (nonlinear_arith)
            requires
                r <= rows,
        ;
        lemma_packed_rows_first(data, stride, row_bytes, r);
        let rest = data.skip(stride as int);
        let start = (rows - 1) * stride;
        assert(start == stride + (r - 1) * stride) by (nonlinear_arith)
            requires
                start == (rows - 1) * stride,
                r == rows - 1,
                r >= 1,
        ;
        assert(start + row_bytes <= data.len()) by (nonlinear_arith)
            requires
                start == (rows - 1) * stride,
                rows * stride <= data.len(),
                row_bytes <= stride,
        ;
        assert(rest.subrange((r - 1) * stride, (r - 1) * stride + row_bytes) =~= data.subrange(
            start,
            start + row_bytes,
        ));
        assert(packed_rows(rest, stride, row_bytes, r) == packed_rows(rest, stride, row_bytes, (r - 1) as nat)
            + rest.subrange((r - 1) * stride, (r - 1) * stride + row_bytes));
        assert(packed_rows(data, stride, row_bytes, rows) =~= data.take(row_bytes as int) + packed_rows(
            rest,
            stride,
            row_bytes,
            r,
        ));
    }
}

/// When `data` holds `rows` whole rows of `aligned` bytes and each row keeps
/// `row_bytes` of them, removing the row padding and packing the strided
/// rows give the same bytes.
pub proof fn lemma_unpadded_rows_are_packed_rows(data: Seq<u8>, aligned: nat, row_bytes: nat, rows: nat)
    requires
        0 < aligned,
        row_bytes <= aligned,
        rows * aligned <= data.len(),
    ensures
        unpadded_rows(data, aligned, row_bytes, rows) == packed_rows(data, aligned, row_bytes, rows),
    decreases rows,
{
    if rows == 0 {
    } else if data.len() == 0 {
        assert(rows * aligned > 0) by (nonlinear_arith)
            requires
                rows > 0,
                aligned > 0,
        ;
    } else {
        let r = (rows - 1) as nat;
        assert(aligned <= data.len() && r * aligned <= data.len() - aligned) by (nonlinear_arith)
            requires
                rows * aligned <= data.len(),
                r == rows - 1,
                rows >= 1,
        ;
        lemma_unpadded_rows_are_packed_rows(data.skip(aligned as int), aligned, row_bytes, r);
        lemma_packed_rows_first(data, aligned, row_bytes, rows);
    }
}

/// Packing the strided rows of a frame whose `rows` rows hold, at the start
/// of each, the matching row of the packed `source` gives back those packed
/// rows: what `copy_bgra_into_frame` writes, `tightly_packed_rgba` reads.
pub proof fn lemma_packed_rows_of_copied_frame(
    frame: Seq<u8>,
    source: Seq<u8>,
    stride: nat,
    row_bytes: nat,
    rows: nat,
)
    requires
        row_bytes <= stride,
        row_bytes * rows <= source.len(),
        rows_fit(frame.len(), stride, row_bytes, rows),
        forall|y: int, x: int|
            0 <= y < rows && 0 <= x < row_bytes ==> #[trigger] frame[y * stride + x] == source[y * row_bytes + x],
    ensures
        packed_rows(frame, stride, row_bytes, rows) == source.take((row_bytes * rows) as int),
    decreases rows,
{
    if rows == 0 {
        assert(source.take(0) =~= Seq::<u8>::empty());
    } else {
        let r = (rows - 1) as nat;
        assert(row_bytes * r <= row_bytes * rows && row_bytes * rows == row_bytes * r + row_bytes) by (nonlinear_arith)
            requires
                r == rows - 1,
        ;
        if r > 0 {
            assert((r - 1) * stride + row_bytes <= (rows - 1) * stride + row_bytes) by (nonlinear_arith)
                requires
                    r == rows - 1,
                    r >= 1,
            ;
        }
        lemma_packed_rows_of_copied_frame(frame, source, stride, row_bytes, r);
        let start = r * stride;
        assert forall|x: int| 0 <= x < row_bytes implies #[trigger] frame.subrange(start as int, (start + row_bytes) as int)[x]
            == source.take((row_bytes * rows) as int)[row_bytes * r + x] by {
            assert(frame[r * stride + x] == source[r * row_bytes + x]);
            assert(r * row_bytes == row_bytes * r) by (nonlinear_arith);
        }
        assert(source.take((row_bytes * rows) as int) =~= source.take((row_bytes * r) as int) + frame.subrange(
            start as int,
            (start + row_bytes) as int,
        ));
    }
}

} // verus!
