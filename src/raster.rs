//! The order in which the pixels of an image are rendered and emitted:
//! rows from the highest row index down to row 0, and within a row the
//! columns from left to right.
use vstd::prelude::*;
use vstd::arithmetic::div_mod::{lemma_fundamental_div_mod, lemma_fundamental_div_mod_converse};

verus! {

/// Column `i` and row `j` of a pixel; row 0 is the bottom of the image.
#[derive(Clone, Copy, Debug, PartialEq, Eq, Structural)]
pub struct PixelCoord {
    pub i: u32,
    pub j: u32,
}

/// Column of the `k`-th pixel emitted for an image `width` pixels wide.
pub open spec fn scan_column(width: int, k: int) -> int {
    k % width
}

/// Row of the `k`-th pixel emitted for an image `width` by `height`.
pub open spec fn scan_row(width: int, height: int, k: int) -> int {
    height - 1 - k / width
}

/// Position in the emitted sequence of the pixel in column `i`, row `j`.
pub open spec fn scan_index(width: int, height: int, i: int, j: int) -> int {
    (height - 1 - j) * width + i
}

/// The emission order visits each pixel exactly once: every position below
/// `width * height` holds a pixel of the image, whose own position is that one,
/// and every pixel of the image has a position below `width * height`, which
/// holds that pixel.
pub proof fn lemma_scan_is_bijective(width: int, height: int)
    requires
        width > 0,
        height > 0,
    ensures
        forall|k: int|
            #![trigger scan_column(width, k)]
            0 <= k < width * height ==> {
                let i = scan_column(width, k);
                let j = scan_row(width, height, k);
                &&& 0 <= i < width
                &&& 0 <= j < height
                &&& scan_index(width, height, i, j) == k
            },
        forall|i: int, j: int|
            #![trigger scan_index(width, height, i, j)]
            0 <= i < width && 0 <= j < height ==> {
                let k = scan_index(width, height, i, j);
                &&& 0 <= k < width * height
                &&& scan_column(width, k) == i
                &&& scan_row(width, height, k) == j
            },
{
    assert forall|k: int|
        #![trigger scan_column(width, k)]
        0 <= k < width * height implies {
            let i = scan_column(width, k);
            let j = scan_row(width, height, k);
            &&& 0 <= i < width
            &&& 0 <= j < height
            &&& scan_index(width, height, i, j) == k
        } by {
        lemma_fundamental_div_mod(k, width);
        let q = k / width;
        assert(0 <= q < height) by (nonlinear_arith)
            requires
                0 <= k < width * height,
                k == width * q + k % width,
                0 <= k % width < width,
                width > 0,
        ;
        assert((height - 1 - (height - 1 - q)) * width == width * q) by (nonlinear_arith);
    }
    assert forall|i: int, j: int|
        #![trigger scan_index(width, height, i, j)]
        0 <= i < width && 0 <= j < height implies {
            let k = scan_index(width, height, i, j);
            &&& 0 <= k < width * height
            &&& scan_column(width, k) == i
            &&& scan_row(width, height, k) == j
        } by {
        let r = height - 1 - j;
        let k = r * width + i;
        lemma_fundamental_div_mod_converse(k, width, r, i);
        assert(0 <= k < width * height) by (nonlinear_arith)
            requires
                k == r * width + i,
                0 <= r < height,
                0 <= i < width,
        ;
    }
}

/// The pixels of a `width` by `height` image in the order in which they are
/// rendered and emitted: position `k` holds column `k % width` of row
/// `height - 1 - k / width`.
pub fn scan_order(width: u32, height: u32) -> (order: Vec<PixelCoord>)
    requires
        width * height <= usize::MAX,
    ensures
        order.len() == width * height,
        forall|k: int|
            0 <= k < order.len() ==> order[k].i == scan_column(width as int, k) && order[k].j
                == scan_row(width as int, height as int, k),
{
    let mut order: Vec<PixelCoord> = Vec::new();
    let mut rows: u32 = 0;
    while rows < height
        invariant
            rows <= height,
            width * height <= usize::MAX,
            order.len() == rows * width,
            forall|k: int|
                0 <= k < order.len() ==> order[k].i == scan_column(width as int, k) && order[k].j
                    == scan_row(width as int, height as int, k),
        decreases height - rows,
    {
        let j: u32 = height - 1 - rows;
        let mut i: u32 = 0;
        while i < width
            invariant
                rows < height,
                j == height - 1 - rows,
                i <= width,
                width * height <= usize::MAX,
                order.len() == rows * width + i,
                forall|k: int|
                    0 <= k < order.len() ==> order[k].i == scan_column(width as int, k)
                        && order[k].j == scan_row(width as int, height as int, k),
            decreases width - i,
        {
            proof {
                assert(rows * width + i < width * height) by (nonlinear_arith)
                    requires
                        rows < height,
                        i < width,
                ;
                let k = rows * width + i;
                lemma_fundamental_div_mod_converse(k as int, width as int, rows as int, i as int);
            }
            order.push(PixelCoord { i, j });
            i = i + 1;
        }
        assert(rows * width + width == (rows + 1) * width) by (nonlinear_arith);
        rows = rows + 1;
    }
    assert(rows * width == width * height) by (nonlinear_arith)
        requires
            rows == height,
    ;
    order
}

} // verus!
