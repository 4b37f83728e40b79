//! The dense integer sample matrix and the as-square-as-possible shape used
//! for audio data.

use vstd::prelude::*;

verus! {

/// A dense, row-major rectangular grid of `height * width` integer cells,
/// each holding one packed channel value or one audio sample.
pub struct Matrix {
    pub height: usize,
    pub width: usize,
    pub cells: Vec<i32>,
}

/// Row `i`, column `j` of a grid of width `w` sits at this cell index.
pub open spec fn cell_index(i: int, j: int, w: int) -> int {
    i * w + j
}

pub proof fn lemma_cell_index_bound(i: int, j: int, h: int, w: int)
    by (nonlinear_arith)
    requires
        0 <= i < h,
        0 <= j < w,
    ensures
        0 <= cell_index(i, j, w) < h * w,
        j <= cell_index(i, j, w),
{
}

pub proof fn lemma_cell_index_injective(i1: int, j1: int, i2: int, j2: int, w: int)
    by (nonlinear_arith)
    requires
        0 <= i1,
        0 <= j1 < w,
        0 <= i2,
        0 <= j2 < w,
        cell_index(i1, j1, w) == cell_index(i2, j2, w),
    ensures
        i1 == i2 && j1 == j2,
{
}

impl Matrix {
    /// The cell vector holds exactly one entry per grid position.
    pub open spec fn wf(&self) -> bool {
        self.cells.len() == self.height * self.width
    }

    /// The cell in row `i`, column `j`.
    pub open spec fn at(&self, i: int, j: int) -> i32 {
        self.cells[cell_index(i, j, self.width as int)]
    }

    /// A matrix of the given shape with every cell zero.
    pub fn zeros(height: usize, width: usize) -> (m: Matrix)
        requires
            height * width <= usize::MAX,
        ensures
            m.wf(),
            m.height == height,
            m.width == width,
            forall|i: int, j: int|
                0 <= i < height && 0 <= j < width ==> m.at(i, j) == 0,
    {
        assert(height * width >= 0) by (nonlinear_arith);
        let n: usize = height * width;
        let mut cells: Vec<i32> = Vec::new();
        let mut k: usize = 0;
        while k < n
            invariant
                cells.len() == k,
                k <= n,
                forall|t: int| 0 <= t < k ==> cells[t] == 0,
            decreases n - k,
        {
            cells.push(0);
            k = k + 1;
        }
        let m = Matrix { height, width, cells };
        assert forall|i: int, j: int|
            0 <= i < height && 0 <= j < width implies m.at(i, j) == 0 by {
            lemma_cell_index_bound(i, j, height as int, width as int);
        }
        m
    }

    /// Reads one cell.
    pub fn get(&self, i: usize, j: usize) -> (r: i32)
        requires
            self.wf(),
            i < self.height,
            j < self.width,
        ensures
            r == self.at(i as int, j as int),
    {
        proof {
            lemma_cell_index_bound(i as int, j as int, self.height as int, self.width as int);
        }
        self.cells[i * self.width + j]
    }

    /// Writes one cell, leaving every other cell unchanged.
    pub fn set(&mut self, i: usize, j: usize, v: i32)
        requires
            old(self).wf(),
            i < old(self).height,
            j < old(self).width,
        ensures
            final(self).wf(),
            final(self).height == old(self).height,
            final(self).width == old(self).width,
            final(self).at(i as int, j as int) == v,
            forall|i2: int, j2: int|
                0 <= i2 < old(self).height && 0 <= j2 < old(self).width && !(i2 == i && j2 == j)
                    ==> final(self).at(i2, j2) == old(self).at(i2, j2),
    {
        proof {
            lemma_cell_index_bound(i as int, j as int, self.height as int, self.width as int);
        }
        let idx: usize = i * self.width + j;
        self.cells.set(idx, v);
        assert forall|i2: int, j2: int|
            0 <= i2 < old(self).height && 0 <= j2 < old(self).width && !(i2 == i as int && j2
                == j as int) implies final(self).at(i2, j2) == old(self).at(i2, j2) by {
            lemma_cell_index_bound(i2, j2, old(self).height as int, old(self).width as int);
            if cell_index(i2, j2, old(self).width as int) == idx {
                lemma_cell_index_injective(i2, j2, i as int, j as int, old(self).width as int);
            }
        }
    }
}

impl Matrix {
    /// Writes the 2x2 block whose corner is row `2*i`, column `2*j`, leaving
    /// every cell outside the block unchanged.
    pub fn set_block(&mut self, i: usize, j: usize, c00: i32, c10: i32, c01: i32, c11: i32)
        requires
            old(self).wf(),
            2 * i + 1 < old(self).height,
            2 * j + 1 < old(self).width,
        ensures
            final(self).wf(),
            final(self).height == old(self).height,
            final(self).width == old(self).width,
            final(self).at(2 * i, 2 * j) == c00,
            final(self).at(2 * i + 1, 2 * j) == c10,
            final(self).at(2 * i, 2 * j + 1) == c01,
            final(self).at(2 * i + 1, 2 * j + 1) == c11,
            forall|i2: int, j2: int|
                #![trigger final(self).at(i2, j2)]
                0 <= i2 < old(self).height && 0 <= j2 < old(self).width && !(2 * i <= i2 <= 2 * i
                    + 1 && 2 * j <= j2 <= 2 * j + 1) ==> final(self).at(i2, j2) == old(self).at(
                    i2,
                    j2,
                ),
    {
        self.set(2 * i, 2 * j, c00);
        self.set(2 * i + 1, 2 * j, c10);
        self.set(2 * i, 2 * j + 1, c01);
        self.set(2 * i + 1, 2 * j + 1, c11);
    }
}

/// Whether `r` is the nearest integer to the square root of `n`, rounding
/// half away from zero.
pub open spec fn is_rounded_sqrt(n: int, r: int) -> bool {
    if n == 0 {
        r == 0
    } else {
        r >= 1 && r * r - r + 1 <= n <= r * r + r
    }
}

/// Whether `cols` is the column count paired with `rows` for `n` samples:
/// the ceiling of `n / rows`, or zero for an empty stream.
pub open spec fn is_sound_cols(n: int, rows: int, cols: int) -> bool {
    if rows == 0 {
        cols == 0
    } else {
        cols == (n + rows - 1) / rows
    }
}

/// The floor of the square root, by binary search.
fn isqrt64(n: u64) -> (s: u64)
    ensures
        (s as int) * (s as int) <= n as int,
        (n as int) < ((s as int) + 1) * ((s as int) + 1),
        s <= 0x1_0000_0000,
{
    if n == 0 {
        return 0;
    }
    let mut lo: u64 = 0;
    let mut hi: u64 = 0x1_0000_0000;
    assert((n as int) < (hi as int) * (hi as int)) by (nonlinear_arith)
        requires
            n <= 0xffff_ffff_ffff_ffff,
            hi == 0x1_0000_0000,
    ;
    while lo + 1 < hi
        invariant
            lo < hi <= 0x1_0000_0000,
            (lo as int) * (lo as int) <= n as int,
            (n as int) < (hi as int) * (hi as int),
        decreases hi - lo,
    {
        let mid: u64 = lo + (hi - lo) / 2;
        assert((mid as u128) * (mid as u128) <= 0x1_0000_0000 * 0x1_0000_0000) by (nonlinear_arith)
            requires
                mid <= 0x1_0000_0000,
        ;
        let m2: u128 = (mid as u128) * (mid as u128);
        if m2 <= n as u128 {
            lo = mid;
        } else {
            hi = mid;
        }
    }
    lo
}

/// The matrix shape for `n` audio samples: `rows` is the rounded square root
/// of `n` and `cols` the ceiling of `n / rows`, so the grid is as square as
/// possible while holding every sample.
pub fn sound_dims(n: u64) -> (d: (u64, u64))
    ensures
        is_rounded_sqrt(n as int, d.0 as int),
        is_sound_cols(n as int, d.0 as int, d.1 as int),
        n as int <= (d.0 as int) * (d.1 as int),
        n >= 1 ==> (d.1 as int) <= n as int,
        n >= 1 ==> (d.0 as int) <= n as int,
        d.0 >= 1 ==> (d.0 as int) * (d.1 as int) <= n as int + (d.0 as int) - 1,
{
    if n == 0 {
        return (0, 0);
    }
    let s: u64 = isqrt64(n);
    let ghost si = s as int;
    let ghost ni = n as int;
    let rows: u64 = if n - s * s > s {
        assert(s < 0x1_0000_0000);
        s + 1
    } else {
        s
    };
    proof {
        if ni - si * si > si {
            assert(is_rounded_sqrt(ni, si + 1)) by (nonlinear_arith)
                requires
                    si * si <= ni < (si + 1) * (si + 1),
                    ni - si * si > si,
                    ni >= 1,
            ;
        } else {
            assert(is_rounded_sqrt(ni, si)) by (nonlinear_arith)
                requires
                    si * si <= ni < (si + 1) * (si + 1),
                    ni - si * si <= si,
                    ni >= 1,
                    si >= 0,
            ;
        }
    }
    let ghost ri = rows as int;
    assert(rows >= 1);
    let c128: u128 = ((n as u128) + (rows as u128) - 1) / (rows as u128);
    proof {
        assert(c128 as int == (ni + ri - 1) / ri);
        assert((ni + ri - 1) / ri <= ni && ni <= ri * ((ni + ri - 1) / ri) && ri * ((ni + ri - 1)
            / ri) <= ni + ri - 1) by (nonlinear_arith)
            requires
                1 <= ri,
                1 <= ni,
        ;
        assert(ri <= ni) by (nonlinear_arith)
            requires
                1 <= ri,
                ri * ri - ri + 1 <= ni,
        ;
    }
    let cols: u64 = c128 as u64;
    (rows, cols)
}

} // verus!
