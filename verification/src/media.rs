//! The raw media values the codec exchanges with its callers: decoded pixel
//! grids and PCM sample buffers.

use vstd::prelude::*;
use crate::aggregate::{Rgb, Rgba};
use crate::matrix::{cell_index, lemma_cell_index_bound, lemma_cell_index_injective};

verus! {

/// A row-major grid of RGBA pixels.
pub struct ImageRgba {
    pub height: usize,
    pub width: usize,
    pub pixels: Vec<Rgba>,
}

/// A row-major grid of RGB pixels.
pub struct ImageRgb {
    pub height: usize,
    pub width: usize,
    pub pixels: Vec<Rgb>,
}

/// A PCM sample buffer at one of the supported bit depths, mirroring the
/// payload shapes a WAV container can carry.
pub enum SoundData {
    Eight(Vec<u8>),
    Sixteen(Vec<i16>),
    TwentyFour(Vec<i32>),
    Empty,
}

impl ImageRgba {
    /// The pixel vector holds exactly one entry per grid position.
    pub open spec fn wf(&self) -> bool {
        self.pixels.len() == self.height * self.width
    }

    /// The pixel in row `i`, column `j`.
    pub open spec fn at(&self, i: int, j: int) -> Rgba {
        self.pixels[cell_index(i, j, self.width as int)]
    }

    /// Wraps a row-major pixel vector of the right length.
    pub fn from_pixels(height: usize, width: usize, pixels: Vec<Rgba>) -> (img: ImageRgba)
        requires
            pixels.len() == height * width,
        ensures
            img.wf(),
            img.height == height,
            img.width == width,
            img.pixels == pixels,
    {
        ImageRgba { height, width, pixels }
    }

    /// A grid with every pixel equal to `fill`.
    pub fn filled(height: usize, width: usize, fill: Rgba) -> (img: ImageRgba)
        requires
            height * width <= usize::MAX,
        ensures
            img.wf(),
            img.height == height,
            img.width == width,
            forall|i: int, j: int|
                0 <= i < height && 0 <= j < width ==> img.at(i, j) == fill,
    {
        assert(height * width >= 0) by (nonlinear_arith);
        let n: usize = height * width;
        let mut pixels: Vec<Rgba> = Vec::new();
        let mut k: usize = 0;
        while k < n
            invariant
                pixels.len() == k,
                k <= n,
                forall|t: int| 0 <= t < k ==> pixels[t] == fill,
            decreases n - k,
        {
            pixels.push(fill);
            k = k + 1;
        }
        let img = ImageRgba { height, width, pixels };
        assert forall|i: int, j: int|
            0 <= i < height && 0 <= j < width implies img.at(i, j) == fill by {
            lemma_cell_index_bound(i, j, height as int, width as int);
        }
        img
    }

    /// Reads one pixel.
    pub fn get(&self, i: usize, j: usize) -> (p: Rgba)
        requires
            self.wf(),
            i < self.height,
            j < self.width,
        ensures
            p == self.at(i as int, j as int),
    {
        proof {
            lemma_cell_index_bound(i as int, j as int, self.height as int, self.width as int);
        }
        self.pixels[i * self.width + j]
    }

    /// Writes one pixel, leaving every other pixel unchanged.
    pub fn set(&mut self, i: usize, j: usize, p: Rgba)
        requires
            old(self).wf(),
            i < old(self).height,
            j < old(self).width,
        ensures
            final(self).wf(),
            final(self).height == old(self).height,
            final(self).width == old(self).width,
            final(self).at(i as int, j as int) == p,
            forall|i2: int, j2: int|
                0 <= i2 < old(self).height && 0 <= j2 < old(self).width && !(i2 == i && j2 == j)
                    ==> final(self).at(i2, j2) == old(self).at(i2, j2),
    {
        proof {
            lemma_cell_index_bound(i as int, j as int, self.height as int, self.width as int);
        }
        let idx: usize = i * self.width + j;
        self.pixels.set(idx, p);
        assert forall|i2: int, j2: int|
            0 <= i2 < old(self).height && 0 <= j2 < old(self).width && !(i2 == i as int && j2
                == j as int) implies final(self).at(i2, j2) == old(self).at(i2, j2) by {
            lemma_cell_index_bound(i2, j2, old(self).height as int, old(self).width as int);
            if cell_index(i2, j2, old(self).width as int) == idx {
                lemma_cell_index_injective(i2, j2, i as int, j as int, old(self).width as int);
            }
        }
    }
}

impl ImageRgb {
    /// The pixel vector holds exactly one entry per grid position.
    pub open spec fn wf(&self) -> bool {
        self.pixels.len() == self.height * self.width
    }

    /// The pixel in row `i`, column `j`.
    pub open spec fn at(&self, i: int, j: int) -> Rgb {
        self.pixels[cell_index(i, j, self.width as int)]
    }

    /// Wraps a row-major pixel vector of the right length.
    pub fn from_pixels(height: usize, width: usize, pixels: Vec<Rgb>) -> (img: ImageRgb)
        requires
            pixels.len() == height * width,
        ensures
            img.wf(),
            img.height == height,
            img.width == width,
            img.pixels == pixels,
    {
        ImageRgb { height, width, pixels }
    }

    /// A grid with every pixel equal to `fill`.
    pub fn filled(height: usize, width: usize, fill: Rgb) -> (img: ImageRgb)
        requires
            height * width <= usize::MAX,
        ensures
            img.wf(),
            img.height == height,
            img.width == width,
            forall|i: int, j: int|
                0 <= i < height && 0 <= j < width ==> img.at(i, j) == fill,
    {
        assert(height * width >= 0) by (nonlinear_arith);
        let n: usize = height * width;
        let mut pixels: Vec<Rgb> = Vec::new();
        let mut k: usize = 0;
        while k < n
            invariant
                pixels.len() == k,
                k <= n,
                forall|t: int| 0 <= t < k ==> pixels[t] == fill,
            decreases n - k,
        {
            pixels.push(fill);
            k = k + 1;
        }
        let img = ImageRgb { height, width, pixels };
        assert forall|i: int, j: int|
            0 <= i < height && 0 <= j < width implies img.at(i, j) == fill by {
            lemma_cell_index_bound(i, j, height as int, width as int);
        }
        img
    }

    /// Reads one pixel.
    pub fn get(&self, i: usize, j: usize) -> (p: Rgb)
        requires
            self.wf(),
            i < self.height,
            j < self.width,
        ensures
            p == self.at(i as int, j as int),
    {
        proof {
            lemma_cell_index_bound(i as int, j as int, self.height as int, self.width as int);
        }
        self.pixels[i * self.width + j]
    }

    /// Writes one pixel, leaving every other pixel unchanged.
    pub fn set(&mut self, i: usize, j: usize, p: Rgb)
        requires
            old(self).wf(),
            i < old(self).height,
            j < old(self).width,
        ensures
            final(self).wf(),
            final(self).height == old(self).height,
            final(self).width == old(self).width,
            final(self).at(i as int, j as int) == p,
            forall|i2: int, j2: int|
                0 <= i2 < old(self).height && 0 <= j2 < old(self).width && !(i2 == i && j2 == j)
                    ==> final(self).at(i2, j2) == old(self).at(i2, j2),
    {
        proof {
            lemma_cell_index_bound(i as int, j as int, self.height as int, self.width as int);
        }
        let idx: usize = i * self.width + j;
        self.pixels.set(idx, p);
        assert forall|i2: int, j2: int|
            0 <= i2 < old(self).height && 0 <= j2 < old(self).width && !(i2 == i as int && j2
                == j as int) implies final(self).at(i2, j2) == old(self).at(i2, j2) by {
            lemma_cell_index_bound(i2, j2, old(self).height as int, old(self).width as int);
            if cell_index(i2, j2, old(self).width as int) == idx {
                lemma_cell_index_injective(i2, j2, i as int, j as int, old(self).width as int);
            }
        }
    }
}

} // verus!
