//! Building the grayscale pixel buffer from per-pixel escape counts.
//!
//! The buffer is row-major, each pixel contributing three identical bytes
//! (the intensity replicated across the R, G and B channels). Two
//! strategies produce it: a sequential pass over the grid, and a
//! row-parallel pass whose rows are reassembled in row-index order. Both
//! are pinned to the same mathematical byte sequence, `image_bytes`.

use vstd::prelude::*;

use crate::escape::MAX_ITER;
use crate::escape::intensity;
use crate::escape::intensity_spec;
use rayon::iter::IntoParallelIterator;
use rayon::iter::ParallelIterator;

verus! {

/// Every count is within the iteration cap.
pub open spec fn counts_ok(counts: Seq<usize>) -> bool {
    forall|p: int| 0 <= p < counts.len() ==> counts[p] <= MAX_ITER
}

/// The full image: byte `i` is the intensity of pixel `i / 3`, so each
/// pixel occupies three consecutive equal bytes, pixels in row-major
/// order (pixel `y * width + x` is column `x` of row `y`).
pub open spec fn image_bytes(counts: Seq<usize>, width: nat, height: nat) -> Seq<u8> {
    Seq::new(3 * width * height, |i: int| intensity_spec(counts[i / 3] as nat) as u8)
}

/// The bytes of row `y` alone: three equal bytes per column, left to right.
pub open spec fn row_bytes(counts: Seq<usize>, width: nat, y: nat) -> Seq<u8> {
    Seq::new(3 * width, |i: int| intensity_spec(counts[y * width + i / 3] as nat) as u8)
}

/// Renders one row of the image from the escape counts.
pub fn render_row(width: usize, y: usize, counts: &Vec<usize>) -> (row: Vec<u8>)
    requires
        y * width + width <= counts.len(),
        counts_ok(counts@),
    ensures
        row@ == row_bytes(counts@, width as nat, y as nat),
{
    let base: usize = y * width;
    let mut row: Vec<u8> = Vec::new();
    let mut x: usize = 0;
    while x < width
        invariant
            x <= width,
            base == y * width,
            base + width <= counts.len(),
            counts_ok(counts@),
            row@.len() == 3 * x,
            forall|i: int|
                0 <= i < row@.len() ==> row@[i] == intensity_spec(
                    counts@[y * width + i / 3] as nat,
                ) as u8,
        decreases width - x,
    {
        let b = intensity(counts[base + x]);
        row.push(b);
        row.push(b);
        row.push(b);
        proof {
            let l: int = 3 * (x as int);
            assert(l / 3 == x as int && (l + 1) / 3 == x as int && (l + 2) / 3 == x as int)
                by (nonlinear_arith)
                requires
                    l == 3 * (x as int),
            ;
        }
        x = x + 1;
    }
    proof {
        assert(row@ =~= row_bytes(counts@, width as nat, y as nat));
    }
    row
}

/// Renders the whole image in one sequential row-major pass: for each row
/// `y` from the top of the buffer, each column `x` left to right, the
/// count's intensity byte is appended three times.
pub fn render_sequential(width: usize, height: usize, counts: &Vec<usize>) -> (pixels: Vec<u8>)
    requires
        counts.len() == width * height,
        counts_ok(counts@),
    ensures
        pixels@ == image_bytes(counts@, width as nat, height as nat),
        pixels@.len() == 3 * width * height,
{
    let mut pixels: Vec<u8> = Vec::new();
    let mut p: usize = 0;
    let mut y: usize = 0;
    while y < height
        invariant
            y <= height,
            p == y * width,
            counts.len() == width * height,
            counts_ok(counts@),
            pixels@.len() == 3 * p,
            forall|i: int|
                0 <= i < pixels@.len() ==> pixels@[i] == intensity_spec(
                    counts@[i / 3] as nat,
                ) as u8,
        decreases height - y,
    {
        let mut x: usize = 0;
        while x < width
            invariant
                x <= width,
                y < height,
                p == y * width + x,
                counts.len() == width * height,
                counts_ok(counts@),
                pixels@.len() == 3 * p,
                forall|i: int|
                    0 <= i < pixels@.len() ==> pixels@[i] == intensity_spec(
                        counts@[i / 3] as nat,
                    ) as u8,
            decreases width - x,
        {
            proof {
                assert(y * width + x < width * height) by (nonlinear_arith)
                    requires
                        0 <= x < width,
                        0 <= y < height,
                ;
            }
            let b = intensity(counts[p]);
            pixels.push(b);
            pixels.push(b);
            pixels.push(b);
            proof {
                let l: int = 3 * (p as int);
                assert(l / 3 == p as int && (l + 1) / 3 == p as int && (l + 2) / 3 == p as int)
                    by (nonlinear_arith)
                    requires
                        l == 3 * (p as int),
                ;
            }
            p = p + 1;
            x = x + 1;
        }
        proof {
            assert((y + 1) * width == y * width + width) by (nonlinear_arith);
        }
        y = y + 1;
    }
    proof {
        assert(3 * ((height as int) * (width as int)) == 3 * (width as int) * (height as int))
            by (nonlinear_arith);
        assert(pixels@ =~= image_bytes(counts@, width as nat, height as nat));
    }
    pixels
}

/// Relies on rayon: `(0..height).into_par_iter().map(..).collect::<Vec<_>>()`
/// over the indexed range iterator yields one element per row index, in
/// row-index order regardless of which worker computed which row or when
/// it finished; each element is what the verified `render_row` returned
/// for that index, so its contract gives each element's bytes.
#[verifier::external_body]
fn rows_in_parallel(width: usize, height: usize, counts: &Vec<usize>) -> (rows: Vec<Vec<u8>>)
    requires
        counts.len() == width * height,
        counts_ok(counts@),
    ensures
        rows@.len() == height,
        forall|j: int|
            0 <= j < height ==> rows@[j]@ == row_bytes(counts@, width as nat, j as nat),
{
    (0..height).into_par_iter().map(|y| render_row(width, y, counts)).collect()
}

/// Renders the whole image with one unit of work per row, distributed
/// across worker threads, the finished rows concatenated in row-index
/// order. The output is proved byte-identical to `render_sequential`:
/// both equal `image_bytes` of the same counts.
pub fn render_parallel(width: usize, height: usize, counts: &Vec<usize>) -> (pixels: Vec<u8>)
    requires
        counts.len() == width * height,
        counts_ok(counts@),
    ensures
        pixels@ == image_bytes(counts@, width as nat, height as nat),
        pixels@.len() == 3 * width * height,
{
    let rows = rows_in_parallel(width, height, counts);
    let mut pixels: Vec<u8> = Vec::new();
    let mut y: usize = 0;
    while y < height
        invariant
            y <= height,
            rows@.len() == height,
            counts.len() == width * height,
            forall|j: int|
                0 <= j < height ==> rows@[j]@ == row_bytes(counts@, width as nat, j as nat),
            pixels@.len() == 3 * (y * width),
            forall|i: int|
                0 <= i < pixels@.len() ==> pixels@[i] == intensity_spec(
                    counts@[i / 3] as nat,
                ) as u8,
        decreases height - y,
    {
        let row_len: usize = rows[y].len();
        proof {
            assert(rows@[y as int]@.len() == 3 * width);
        }
        let mut k: usize = 0;
        while k < row_len
            invariant
                k <= row_len,
                y < height,
                row_len == 3 * width,
                rows@.len() == height,
                rows@[y as int]@ == row_bytes(counts@, width as nat, y as nat),
                pixels@.len() == 3 * (y * width) + k,
                forall|i: int|
                    0 <= i < pixels@.len() ==> pixels@[i] == intensity_spec(
                        counts@[i / 3] as nat,
                    ) as u8,
            decreases row_len - k,
        {
            let b = rows[y][k];
            pixels.push(b);
            proof {
                let l: int = 3 * ((y as int) * (width as int)) + k as int;
                assert(l / 3 == (y as int) * (width as int) + (k as int) / 3)
                    by (nonlinear_arith)
                    requires
                        0 <= k,
                        0 <= (y as int) * (width as int),
                        l == 3 * ((y as int) * (width as int)) + k as int,
                ;
                assert(pixels@[l] == intensity_spec(counts@[l / 3] as nat) as u8);
            }
            k = k + 1;
        }
        proof {
            assert(3 * ((y + 1) * width) == 3 * (y * width) + 3 * width) by (nonlinear_arith);
        }
        y = y + 1;
    }
    proof {
        assert(3 * ((height as int) * (width as int)) == 3 * (width as int) * (height as int))
            by (nonlinear_arith);
        assert(pixels@ =~= image_bytes(counts@, width as nat, height as nat));
    }
    pixels
}

/// Law: determinism across strategies — any buffer the sequential
/// renderer may return and any buffer the parallel renderer may return,
/// for the same counts and dimensions, are byte-identical, because both
/// postconditions pin the buffer to the one sequence `image_bytes`.
pub proof fn lemma_strategies_agree(
    sequential: Seq<u8>,
    parallel: Seq<u8>,
    counts: Seq<usize>,
    width: nat,
    height: nat,
)
    requires
        sequential == image_bytes(counts, width, height),
        parallel == image_bytes(counts, width, height),
    ensures
        sequential == parallel,
{
}

/// Law: buffer size — the image always holds exactly width × height × 3
/// bytes, whatever the counts.
pub proof fn lemma_buffer_size(counts: Seq<usize>, width: nat, height: nat)
    ensures
        image_bytes(counts, width, height).len() == width * height * 3,
{
    assert(3 * width * height == width * height * 3) by (nonlinear_arith);
}

/// Law: grayscale — the three bytes emitted for any pixel are equal.
pub proof fn lemma_grayscale(counts: Seq<usize>, width: nat, height: nat, p: int)
    requires
        0 <= p < width * height,
    ensures
        image_bytes(counts, width, height)[3 * p] == image_bytes(counts, width, height)[3 * p
            + 1],
        image_bytes(counts, width, height)[3 * p + 1] == image_bytes(counts, width, height)[3 * p
            + 2],
{
    assert(3 * p + 2 < 3 * width * height) by (nonlinear_arith)
        requires
            0 <= p < width * height,
    ;
    assert((3 * p) / 3 == p && (3 * p + 1) / 3 == p && (3 * p + 2) / 3 == p) by (nonlinear_arith);
}

/// Law: bounds — a pixel's byte is 0 exactly when that pixel's escape
/// count reached the iteration cap. (Every byte lies in [0, 255] by
/// `lemma_intensity_range` and the byte type itself.)
pub proof fn lemma_black_iff_capped(counts: Seq<usize>, width: nat, height: nat, p: int)
    requires
        0 <= p < width * height,
        counts.len() == width * height,
        counts_ok(counts),
    ensures
        image_bytes(counts, width, height)[3 * p] == 0 <==> counts[p] == MAX_ITER,
{
    assert(3 * p + 2 < 3 * width * height) by (nonlinear_arith)
        requires
            0 <= p < width * height,
    ;
    assert((3 * p) / 3 == p) by (nonlinear_arith);
    crate::escape::lemma_intensity_range(counts[p] as nat);
}

/// Law: row-major addressing — channel `ch` of the pixel at column `x`
/// of row `y` is byte `3 * (y * width + x) + ch` of the buffer, and it
/// holds exactly that pixel's intensity.
pub proof fn lemma_row_major(
    counts: Seq<usize>,
    width: nat,
    height: nat,
    x: int,
    y: int,
    ch: int,
)
    requires
        0 <= x < width,
        0 <= y < height,
        0 <= ch < 3,
    ensures
        image_bytes(counts, width, height)[3 * (y * width + x) + ch] == intensity_spec(
            counts[y * width + x] as nat,
        ) as u8,
{
    let p: int = y * (width as int) + x;
    assert(0 <= p && 3 * p + ch < 3 * width * height) by (nonlinear_arith)
        requires
            0 <= x < width,
            0 <= y < height,
            0 <= ch < 3,
            p == y * (width as int) + x,
    ;
    assert((3 * p + ch) / 3 == p) by (nonlinear_arith)
        requires
            0 <= ch < 3,
            0 <= p,
    ;
}

/// Law: ordered recombination — row `y` of the image occupies the
/// contiguous byte range [3·width·y, 3·width·(y+1)) and equals the bytes
/// the row renderer is specified to produce for `y`; concatenating the
/// rows in row-index order therefore rebuilds the image exactly.
pub proof fn lemma_rows_partition_image(counts: Seq<usize>, width: nat, height: nat, y: int)
    requires
        0 <= y < height,
    ensures
        image_bytes(counts, width, height).subrange(3 * width * y, 3 * width * (y + 1))
            == row_bytes(counts, width, y as nat),
{
    assert(0 <= 3 * width * y && 3 * width * (y + 1) <= 3 * width * height && 3 * width * y + 3
        * width == 3 * width * (y + 1)) by (nonlinear_arith)
        requires
            0 <= y < height,
    ;
    let img = image_bytes(counts, width, height);
    let sub = img.subrange(3 * width * y, 3 * width * (y + 1));
    let row = row_bytes(counts, width, y as nat);
    assert forall|i: int| 0 <= i < sub.len() implies sub[i] == row[i] by {
        assert((3 * (width as int) * y + i) / 3 == y * (width as int) + i / 3)
            by (nonlinear_arith)
            requires
                0 <= i,
                0 <= y,
        ;
    }
    assert(sub =~= row);
}

} // verus!
