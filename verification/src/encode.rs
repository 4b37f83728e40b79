//! The encode-side logic: the compression policy that resolves a triplet
//! count, the selection of factor triplets out of a factorization, and the
//! serialization of the container header and triplet stream.

use vstd::prelude::*;
use crate::aggregate::{agg_rgb_bits, agg_rgba_bits, bits_of_i32, Aggregator};
use crate::format::{
    dims_bytes, header_bytes, lemma_scalars32_bytes_take, lemma_scalars64_bytes_take,
    lemma_triplets32_bytes_take, lemma_triplets64_bytes_take, scalars32_bytes, scalars64_bytes,
    triplets32_bytes, triplets32_wf, triplets64_bytes, triplets64_wf, u32_be_bytes, u64_be_bytes,
    AudioHeader, FileHeader,
};
use crate::matrix::{is_rounded_sqrt, is_sound_cols, lemma_cell_index_bound, sound_dims, Matrix};
use crate::media::{ImageRgb, ImageRgba};
use crate::write::ByteWriter;
use crate::Error;

verus! {

/// An ordered run of factor triplets: each entry is a weight, the left
/// vector and the right vector, every scalar carried as its IEEE-754 bit
/// pattern (`u32` for single precision, `u64` for double).
pub type SVDVectors<T> = Vec<(T, Vec<T>, Vec<T>)>;

/// The rule that maps desired output size to a concrete triplet count.
#[derive(Debug, Clone, Copy, PartialEq, Eq, Structural)]
pub enum CompressionPolicy {
    /// Keep exactly this many triplets.
    Number(usize),
    /// Aim at this percentage of the original file's byte size.
    Ratio(u8),
}

impl CompressionPolicy {
    pub fn with_number(n: usize) -> (p: CompressionPolicy)
        ensures
            p == CompressionPolicy::Number(n),
    {
        CompressionPolicy::Number(n)
    }

    pub fn with_ratio_percentage(r: u8) -> (p: CompressionPolicy)
        ensures
            p == CompressionPolicy::Ratio(r),
    {
        CompressionPolicy::Ratio(r)
    }
}

/// The immutable configuration threaded through an encode, decode or reduce
/// call. The zero-convergence tolerance of the factorization primitive is not
/// part of it: that value never reaches the verified logic.
#[derive(Debug, Clone, Copy)]
pub struct Options {
    pub policy: CompressionPolicy,
    pub use_f64: bool,
    pub n_iter: usize,
    pub original_file_size: u64,
    pub use_aggregate: bool,
    pub aggregator: Option<Aggregator>,
    pub with_alpha: bool,
    pub is_wav: bool,
    pub is_reduce: bool,
    pub bits_per_sample: Option<u16>,
}

/// How many bytes one stored scalar takes in the chosen precision.
pub open spec fn scalar_bytes(use_f64: bool) -> int {
    if use_f64 {
        8
    } else {
        4
    }
}

/// How many bytes one stored triplet takes: the weight plus one scalar per
/// row and one per column.
pub open spec fn vector_bytes(use_f64: bool, h: int, w: int) -> int {
    scalar_bytes(use_f64) * (1 + h + w)
}

/// The triplet count a ratio policy resolves to:
/// `round(r/100 * size / vector_bytes)`, rounding half away from zero.
pub open spec fn ratio_count(r: int, size: int, use_f64: bool, h: int, w: int) -> int {
    (2 * r * size + 100 * vector_bytes(use_f64, h, w)) / (200 * vector_bytes(use_f64, h, w))
}

/// What a configuration's policy resolves to for the given dimensions: the
/// concrete count, or the error a count of zero is rejected with.
pub open spec fn policy_count(o: Options, h: int, w: int) -> Result<usize, Error> {
    match o.policy {
        CompressionPolicy::Number(n) => if n == 0 {
            Result::<usize, Error>::Err(Error::NTooSmall)
        } else {
            Result::<usize, Error>::Ok(n)
        },
        CompressionPolicy::Ratio(r) => {
            let c = ratio_count(r as int, o.original_file_size as int, o.use_f64, h, w);
            if c <= 0 {
                Result::<usize, Error>::Err(Error::RatioTooRestrictive)
            } else if c > usize::MAX {
                Result::<usize, Error>::Ok(usize::MAX)
            } else {
                Result::<usize, Error>::Ok(c as usize)
            }
        },
    }
}

impl Options {
    /// The default configuration: a 25% ratio policy, double precision,
    /// the bit-interleaving aggregation scheme, no alpha output.
    pub fn default() -> (o: Options)
        ensures
            o.policy == CompressionPolicy::Ratio(25),
            o.use_f64,
            o.n_iter == 0,
            o.original_file_size == 0,
            o.use_aggregate,
            o.aggregator == Some(Aggregator::One(crate::aggregate::Aggregator1)),
            !o.with_alpha,
            !o.is_wav,
            !o.is_reduce,
            o.bits_per_sample == Option::<u16>::None,
    {
        Options {
            policy: CompressionPolicy::with_ratio_percentage(25),
            use_f64: true,
            n_iter: 0,
            original_file_size: 0,
            use_aggregate: true,
            aggregator: Some(Aggregator::One(crate::aggregate::Aggregator1)),
            with_alpha: false,
            is_wav: false,
            is_reduce: false,
            bits_per_sample: None,
        }
    }

    /// Resolves the policy to a concrete triplet count for a matrix of the
    /// given dimensions. A fixed count of zero and a ratio that rounds to
    /// zero are rejected, never clamped upward.
    pub fn n_with(&self, h: usize, w: usize) -> (res: Result<usize, Error>)
        ensures
            res == policy_count(*self, h as int, w as int),
    {
        match self.policy {
            CompressionPolicy::Number(n) => {
                if n == 0 {
                    Err(Error::NTooSmall)
                } else {
                    Ok(n)
                }
            },
            CompressionPolicy::Ratio(r) => {
                let sb: u128 = if self.use_f64 {
                    8
                } else {
                    4
                };
                let t: u128 = 1 + h as u128 + w as u128;
                assert(t <= 0x2_0000_0000_0000_0000) by {
                    assert(h <= usize::MAX && w <= usize::MAX);
                };
                assert(sb * t <= 8 * 0x2_0000_0000_0000_0000 && sb * t >= 4) by (nonlinear_arith)
                    requires
                        4 <= sb <= 8,
                        1 <= t <= 0x2_0000_0000_0000_0000,
                ;
                let vb: u128 = sb * t;
                assert(2 * (r as u128) * (self.original_file_size as u128) <= 2 * 255
                    * 0xffff_ffff_ffff_ffff) by (nonlinear_arith)
                    requires
                        r <= 255,
                        self.original_file_size <= 0xffff_ffff_ffff_ffff,
                ;
                let num: u128 = 2 * (r as u128) * (self.original_file_size as u128);
                let c: u128 = (num + 100 * vb) / (200 * vb);
                if c == 0 {
                    Err(Error::RatioTooRestrictive)
                } else if c > usize::MAX as u128 {
                    Ok(usize::MAX)
                } else {
                    Ok(c as usize)
                }
            },
        }
    }
}

/// Builds the sample matrix of an RGBA image. With an aggregation scheme the
/// matrix matches the pixel grid and each cell carries one packed pixel;
/// without one, each pixel spreads over a 2x2 block of a doubled grid.
pub fn image_matrix_rgba(img: &ImageRgba, aggregator: &Option<Aggregator>) -> (m: Matrix)
    requires
        img.wf(),
        aggregator.is_some() ==> img.height * img.width <= usize::MAX,
        aggregator.is_none() ==> 2 * img.height <= usize::MAX && 2 * img.width <= usize::MAX && (2
            * img.height) * (2 * img.width) <= usize::MAX,
    ensures
        m.wf(),
        match aggregator {
            Some(ag) => {
                &&& m.height == img.height
                &&& m.width == img.width
                &&& forall|i: int, j: int|
                    #![trigger m.at(i, j)]
                    0 <= i < img.height && 0 <= j < img.width ==> bits_of_i32(m.at(i, j))
                        == agg_rgba_bits(*ag, img.at(i, j))
            },
            None => {
                &&& m.height == 2 * img.height
                &&& m.width == 2 * img.width
                &&& forall|i: int, j: int|
                    #![trigger img.at(i, j)]
                    0 <= i < img.height && 0 <= j < img.width ==> m.at(2 * i, 2 * j) == img.at(
                        i,
                        j,
                    ).r as i32 && m.at(2 * i + 1, 2 * j) == img.at(i, j).g as i32 && m.at(
                        2 * i,
                        2 * j + 1,
                    ) == img.at(i, j).b as i32 && m.at(2 * i + 1, 2 * j + 1) == img.at(i, j).a as i32
            },
        },
{
    match aggregator {
        Some(ag) => {
            let mut m = Matrix::zeros(img.height, img.width);
            let mut i: usize = 0;
            while i < img.height
                invariant
                    img.wf(),
                    m.wf(),
                    m.height == img.height,
                    m.width == img.width,
                    i <= img.height,
                    forall|i2: int, j2: int|
                        #![trigger m.at(i2, j2)]
                        0 <= i2 < i && 0 <= j2 < img.width ==> bits_of_i32(m.at(i2, j2))
                            == agg_rgba_bits(*ag, img.at(i2, j2)),
                decreases img.height - i,
            {
                let mut j: usize = 0;
                while j < img.width
                    invariant
                        img.wf(),
                        m.wf(),
                        m.height == img.height,
                        m.width == img.width,
                        i < img.height,
                        j <= img.width,
                        forall|i2: int, j2: int|
                            #![trigger m.at(i2, j2)]
                            0 <= i2 < i && 0 <= j2 < img.width ==> bits_of_i32(m.at(i2, j2))
                                == agg_rgba_bits(*ag, img.at(i2, j2)),
                        forall|j2: int|
                            #![trigger m.at(i as int, j2)]
                            0 <= j2 < j ==> bits_of_i32(m.at(i as int, j2)) == agg_rgba_bits(
                                *ag,
                                img.at(i as int, j2),
                            ),
                    decreases img.width - j,
                {
                    let p = img.get(i, j);
                    let v = ag.i32_from_rgba(p);
                    m.set(i, j, v);
                    j = j + 1;
                }
                i = i + 1;
            }
            m
        },
        None => {
            let mut m = Matrix::zeros(2 * img.height, 2 * img.width);
            let mut i: usize = 0;
            while i < img.height
                invariant
                    img.wf(),
                    m.wf(),
                    m.height == 2 * img.height,
                    m.width == 2 * img.width,
                    i <= img.height,
                    forall|i2: int, j2: int|
                        #![trigger img.at(i2, j2)]
                        0 <= i2 < i && 0 <= j2 < img.width ==> m.at(2 * i2, 2 * j2) == img.at(
                            i2,
                            j2,
                        ).r as i32 && m.at(2 * i2 + 1, 2 * j2) == img.at(i2, j2).g as i32 && m.at(
                            2 * i2,
                            2 * j2 + 1,
                        ) == img.at(i2, j2).b as i32 && m.at(2 * i2 + 1, 2 * j2 + 1) == img.at(
                            i2,
                            j2,
                        ).a as i32,
                decreases img.height - i,
            {
                let mut j: usize = 0;
                while j < img.width
                    invariant
                        img.wf(),
                        m.wf(),
                        m.height == 2 * img.height,
                        m.width == 2 * img.width,
                        i < img.height,
                        j <= img.width,
                        forall|i2: int, j2: int|
                            #![trigger img.at(i2, j2)]
                            0 <= i2 < i && 0 <= j2 < img.width ==> m.at(2 * i2, 2 * j2) == img.at(
                                i2,
                                j2,
                            ).r as i32 && m.at(2 * i2 + 1, 2 * j2) == img.at(i2, j2).g as i32
                                && m.at(2 * i2, 2 * j2 + 1) == img.at(i2, j2).b as i32 && m.at(
                                2 * i2 + 1,
                                2 * j2 + 1,
                            ) == img.at(i2, j2).a as i32,
                        forall|j2: int|
                            #![trigger img.at(i as int, j2)]
                            0 <= j2 < j ==> m.at(2 * i, 2 * j2) == img.at(i as int, j2).r as i32
                                && m.at(2 * i + 1, 2 * j2) == img.at(i as int, j2).g as i32 && m.at(
                                2 * i,
                                2 * j2 + 1,
                            ) == img.at(i as int, j2).b as i32 && m.at(2 * i + 1, 2 * j2 + 1)
                                == img.at(i as int, j2).a as i32,
                    decreases img.width - j,
                {
                    let p = img.get(i, j);
                    m.set_block(i, j, p.r as i32, p.g as i32, p.b as i32, p.a as i32);
                    j = j + 1;
                }
                i = i + 1;
            }
            m
        },
    }
}

/// Builds the sample matrix of an RGB image. Without an aggregation scheme
/// the fourth block cell is filled with the maximum representable alpha.
pub fn image_matrix_rgb(img: &ImageRgb, aggregator: &Option<Aggregator>) -> (m: Matrix)
    requires
        img.wf(),
        aggregator.is_some() ==> img.height * img.width <= usize::MAX,
        aggregator.is_none() ==> 2 * img.height <= usize::MAX && 2 * img.width <= usize::MAX && (2
            * img.height) * (2 * img.width) <= usize::MAX,
    ensures
        m.wf(),
        match aggregator {
            Some(ag) => {
                &&& m.height == img.height
                &&& m.width == img.width
                &&& forall|i: int, j: int|
                    #![trigger m.at(i, j)]
                    0 <= i < img.height && 0 <= j < img.width ==> bits_of_i32(m.at(i, j))
                        == agg_rgb_bits(*ag, img.at(i, j))
            },
            None => {
                &&& m.height == 2 * img.height
                &&& m.width == 2 * img.width
                &&& forall|i: int, j: int|
                    #![trigger img.at(i, j)]
                    0 <= i < img.height && 0 <= j < img.width ==> m.at(2 * i, 2 * j) == img.at(
                        i,
                        j,
                    ).r as i32 && m.at(2 * i + 1, 2 * j) == img.at(i, j).g as i32 && m.at(
                        2 * i,
                        2 * j + 1,
                    ) == img.at(i, j).b as i32 && m.at(2 * i + 1, 2 * j + 1) == 0xff
            },
        },
{
    match aggregator {
        Some(ag) => {
            let mut m = Matrix::zeros(img.height, img.width);
            let mut i: usize = 0;
            while i < img.height
                invariant
                    img.wf(),
                    m.wf(),
                    m.height == img.height,
                    m.width == img.width,
                    i <= img.height,
                    forall|i2: int, j2: int|
                        #![trigger m.at(i2, j2)]
                        0 <= i2 < i && 0 <= j2 < img.width ==> bits_of_i32(m.at(i2, j2))
                            == agg_rgb_bits(*ag, img.at(i2, j2)),
                decreases img.height - i,
            {
                let mut j: usize = 0;
                while j < img.width
                    invariant
                        img.wf(),
                        m.wf(),
                        m.height == img.height,
                        m.width == img.width,
                        i < img.height,
                        j <= img.width,
                        forall|i2: int, j2: int|
                            #![trigger m.at(i2, j2)]
                            0 <= i2 < i && 0 <= j2 < img.width ==> bits_of_i32(m.at(i2, j2))
                                == agg_rgb_bits(*ag, img.at(i2, j2)),
                        forall|j2: int|
                            #![trigger m.at(i as int, j2)]
                            0 <= j2 < j ==> bits_of_i32(m.at(i as int, j2)) == agg_rgb_bits(
                                *ag,
                                img.at(i as int, j2),
                            ),
                    decreases img.width - j,
                {
                    let p = img.get(i, j);
                    let v = ag.i32_from_rgb(p);
                    m.set(i, j, v);
                    j = j + 1;
                }
                i = i + 1;
            }
            m
        },
        None => {
            let mut m = Matrix::zeros(2 * img.height, 2 * img.width);
            let mut i: usize = 0;
            while i < img.height
                invariant
                    img.wf(),
                    m.wf(),
                    m.height == 2 * img.height,
                    m.width == 2 * img.width,
                    i <= img.height,
                    forall|i2: int, j2: int|
                        #![trigger img.at(i2, j2)]
                        0 <= i2 < i && 0 <= j2 < img.width ==> m.at(2 * i2, 2 * j2) == img.at(
                            i2,
                            j2,
                        ).r as i32 && m.at(2 * i2 + 1, 2 * j2) == img.at(i2, j2).g as i32 && m.at(
                            2 * i2,
                            2 * j2 + 1,
                        ) == img.at(i2, j2).b as i32 && m.at(2 * i2 + 1, 2 * j2 + 1) == 0xff,
                decreases img.height - i,
            {
                let mut j: usize = 0;
                while j < img.width
                    invariant
                        img.wf(),
                        m.wf(),
                        m.height == 2 * img.height,
                        m.width == 2 * img.width,
                        i < img.height,
                        j <= img.width,
                        forall|i2: int, j2: int|
                            #![trigger img.at(i2, j2)]
                            0 <= i2 <= i && 0 <= j2 < img.width && (i2 < i || j2 < j) ==> m.at(
                                2 * i2,
                                2 * j2,
                            ) == img.at(i2, j2).r as i32 && m.at(2 * i2 + 1, 2 * j2) == img.at(
                                i2,
                                j2,
                            ).g as i32 && m.at(2 * i2, 2 * j2 + 1) == img.at(i2, j2).b as i32
                                && m.at(2 * i2 + 1, 2 * j2 + 1) == 0xff,
                    decreases img.width - j,
                {
                    let p = img.get(i, j);
                    m.set_block(i, j, p.r as i32, p.g as i32, p.b as i32, 0xff);
                    j = j + 1;
                }
                i = i + 1;
            }
            m
        },
    }
}

/// Arranges normalized PCM samples row-major into an as-square-as-possible
/// matrix; cells beyond the sample count are zero-filled.
pub fn matrix_from_sound_data(data: &Vec<i32>) -> (m: Matrix)
    requires
        data.len() <= usize::MAX / 2,
    ensures
        m.wf(),
        is_rounded_sqrt(data.len() as int, m.height as int),
        is_sound_cols(data.len() as int, m.height as int, m.width as int),
        data.len() <= m.height * m.width,
        forall|i: int, j: int|
            #![trigger m.at(i, j)]
            0 <= i < m.height && 0 <= j < m.width ==> m.at(i, j) == if i * (m.width as int) + j
                < data.len() {
                data[i * (m.width as int) + j]
            } else {
                0
            },
{
    let n: usize = data.len();
    let d = sound_dims(n as u64);
    let rows: usize = d.0 as usize;
    let cols: usize = d.1 as usize;
    assert(rows * cols <= usize::MAX);
    let mut m = Matrix::zeros(rows, cols);
    let mut i: usize = 0;
    while i < rows
        invariant
            m.wf(),
            m.height == rows,
            m.width == cols,
            i <= rows,
            n == data.len(),
            n <= rows * cols,
            forall|i2: int, j2: int|
                #![trigger m.at(i2, j2)]
                0 <= i2 < i && 0 <= j2 < cols ==> m.at(i2, j2) == if i2 * (cols as int) + j2
                    < n {
                    data[i2 * (cols as int) + j2]
                } else {
                    0
                },
        decreases rows - i,
    {
        let mut j: usize = 0;
        while j < cols
            invariant
                m.wf(),
                m.height == rows,
                m.width == cols,
                i < rows,
                j <= cols,
                n == data.len(),
                n <= rows * cols,
                forall|i2: int, j2: int|
                    #![trigger m.at(i2, j2)]
                    0 <= i2 < i && 0 <= j2 < cols ==> m.at(i2, j2) == if i2 * (cols as int) + j2
                        < n {
                        data[i2 * (cols as int) + j2]
                    } else {
                        0
                    },
                forall|j2: int|
                    #![trigger m.at(i as int, j2)]
                    0 <= j2 < j ==> m.at(i as int, j2) == if (i as int) * (cols as int) + j2
                        < n {
                        data[(i as int) * (cols as int) + j2]
                    } else {
                        0
                    },
            decreases cols - j,
        {
            proof {
                lemma_cell_index_bound(i as int, j as int, rows as int, cols as int);
            }
            let idx: usize = i * cols + j;
            let v: i32 = if idx < n {
                data[idx]
            } else {
                0
            };
            m.set(i, j, v);
            j = j + 1;
        }
        i = i + 1;
    }
    m
}

/// The container header a configuration and the optional audio metadata
/// resolve to.
pub open spec fn header_of(options: Options, audio: Option<(AudioHeader, u32)>) -> FileHeader {
    FileHeader {
        is_wav: options.is_wav,
        use_f64: options.use_f64,
        with_alpha: options.with_alpha,
        use_aggregate: options.use_aggregate,
        audio,
    }
}

/// Writes the container header: the content-type flags byte, the audio
/// metadata when the file is audio, then the triplet count and dimensions.
pub fn write_vectors_header<T>(
    fw: &mut ByteWriter,
    vectors: &SVDVectors<T>,
    options: &Options,
    header: Option<(AudioHeader, u32)>,
)
    requires
        1 <= vectors.len() <= 0xffff_ffff,
        vectors[0].1.len() <= 0xffff_ffff,
        vectors[0].2.len() <= 0xffff_ffff,
        options.is_wav == header.is_some(),
    ensures
        final(fw).data@ == old(fw).data@ + header_bytes(header_of(*options, header)) + dims_bytes(
            vectors@.len() as u32,
            vectors[0].1.len() as u32,
            vectors[0].2.len() as u32,
        ),
{
    let n: usize = vectors.len();
    let height: usize = vectors[0].1.len();
    let width: usize = vectors[0].2.len();

    let file_type: u8 = (if options.is_wav {
        0x8u8
    } else {
        0u8
    }) + (if options.use_f64 {
        0x4u8
    } else {
        0u8
    }) + (if options.with_alpha {
        0x2u8
    } else {
        0u8
    }) + (if options.use_aggregate {
        0x1u8
    } else {
        0u8
    });
    fw.write_u8(file_type);

    match header {
        Some((ah, count)) => {
            let blob = ah.to_bytes();
            fw.write_all(&blob);
            fw.write_u32(count);
        },
        None => {},
    }

    fw.write_u32(n as u32);
    fw.write_u32(height as u32);
    fw.write_u32(width as u32);
    proof {
        assert(final(fw).data@ =~= old(fw).data@ + header_bytes(header_of(*options, header))
            + dims_bytes(n as u32, height as u32, width as u32));
    }
}

/// Writes the double-precision triplet stream: for each triplet the weight,
/// then the left vector, then the right vector, big-endian.
pub fn write_vectors_f64(fw: &mut ByteWriter, vectors: &SVDVectors<u64>)
    requires
        vectors.len() >= 1,
        triplets64_wf(vectors@, vectors[0].1.len() as int, vectors[0].2.len() as int),
    ensures
        final(fw).data@ == old(fw).data@ + triplets64_bytes(vectors@),
{
    let n: usize = vectors.len();
    let height: usize = vectors[0].1.len();
    let width: usize = vectors[0].2.len();

    let mut i: usize = 0;
    while i < n
        invariant
            n == vectors.len(),
            height == vectors[0].1.len(),
            width == vectors[0].2.len(),
            triplets64_wf(vectors@, height as int, width as int),
            i <= n,
            fw.data@ == old(fw).data@ + triplets64_bytes(vectors@.take(i as int)),
        decreases n - i,
    {
        let ghost before = fw.data@;
        let triplet = &vectors[i];
        fw.write_u64(triplet.0);
        let mut j: usize = 0;
        while j < height
            invariant
                n == vectors.len(),
                i < n,
                height == vectors[0].1.len(),
                triplets64_wf(vectors@, height as int, width as int),
                j <= height,
                triplet == &vectors[i as int],
                fw.data@ == before + u64_be_bytes(triplet.0) + scalars64_bytes(
                    triplet.1@.take(j as int),
                ),
            decreases height - j,
        {
            fw.write_u64(triplet.1[j]);
            proof {
                lemma_scalars64_bytes_take(triplet.1@, j as int);
            }
            j = j + 1;
        }
        proof {
            assert(triplet.1@.take(height as int) =~= triplet.1@);
        }
        let mut j2: usize = 0;
        while j2 < width
            invariant
                n == vectors.len(),
                i < n,
                width == vectors[0].2.len(),
                triplets64_wf(vectors@, height as int, width as int),
                j2 <= width,
                triplet == &vectors[i as int],
                fw.data@ == before + u64_be_bytes(triplet.0) + scalars64_bytes(triplet.1@)
                    + scalars64_bytes(triplet.2@.take(j2 as int)),
            decreases width - j2,
        {
            fw.write_u64(triplet.2[j2]);
            proof {
                lemma_scalars64_bytes_take(triplet.2@, j2 as int);
            }
            j2 = j2 + 1;
        }
        proof {
            assert(triplet.2@.take(width as int) =~= triplet.2@);
            lemma_triplets64_bytes_take(vectors@, i as int);
            assert(fw.data@ =~= old(fw).data@ + triplets64_bytes(vectors@.take(i as int + 1)));
        }
        i = i + 1;
    }
    proof {
        assert(vectors@.take(n as int) =~= vectors@);
    }
}

/// Writes the single-precision triplet stream.
pub fn write_vectors_f32(fw: &mut ByteWriter, vectors: &SVDVectors<u32>)
    requires
        vectors.len() >= 1,
        triplets32_wf(vectors@, vectors[0].1.len() as int, vectors[0].2.len() as int),
    ensures
        final(fw).data@ == old(fw).data@ + triplets32_bytes(vectors@),
{
    let n: usize = vectors.len();
    let height: usize = vectors[0].1.len();
    let width: usize = vectors[0].2.len();

    let mut i: usize = 0;
    while i < n
        invariant
            n == vectors.len(),
            height == vectors[0].1.len(),
            width == vectors[0].2.len(),
            triplets32_wf(vectors@, height as int, width as int),
            i <= n,
            fw.data@ == old(fw).data@ + triplets32_bytes(vectors@.take(i as int)),
        decreases n - i,
    {
        let ghost before = fw.data@;
        let triplet = &vectors[i];
        fw.write_u32(triplet.0);
        let mut j: usize = 0;
        while j < height
            invariant
                n == vectors.len(),
                i < n,
                height == vectors[0].1.len(),
                triplets32_wf(vectors@, height as int, width as int),
                j <= height,
                triplet == &vectors[i as int],
                fw.data@ == before + u32_be_bytes(triplet.0) + scalars32_bytes(
                    triplet.1@.take(j as int),
                ),
            decreases height - j,
        {
            fw.write_u32(triplet.1[j]);
            proof {
                lemma_scalars32_bytes_take(triplet.1@, j as int);
            }
            j = j + 1;
        }
        proof {
            assert(triplet.1@.take(height as int) =~= triplet.1@);
        }
        let mut j2: usize = 0;
        while j2 < width
            invariant
                n == vectors.len(),
                i < n,
                width == vectors[0].2.len(),
                triplets32_wf(vectors@, height as int, width as int),
                j2 <= width,
                triplet == &vectors[i as int],
                fw.data@ == before + u32_be_bytes(triplet.0) + scalars32_bytes(triplet.1@)
                    + scalars32_bytes(triplet.2@.take(j2 as int)),
            decreases width - j2,
        {
            fw.write_u32(triplet.2[j2]);
            proof {
                lemma_scalars32_bytes_take(triplet.2@, j2 as int);
            }
            j2 = j2 + 1;
        }
        proof {
            assert(triplet.2@.take(width as int) =~= triplet.2@);
            lemma_triplets32_bytes_take(vectors@, i as int);
            assert(fw.data@ =~= old(fw).data@ + triplets32_bytes(vectors@.take(i as int + 1)));
        }
        i = i + 1;
    }
    proof {
        assert(vectors@.take(n as int) =~= vectors@);
    }
}

/// Packages the first `n` factor triplets out of a factorization result,
/// reproducing the failure rules of the rank-reduction engine: a primitive
/// that produced no result at all, or omitted the left or right factor set,
/// is an error. `u` holds the left factor columns, `v_t` the right factor
/// rows, `sv` the non-negative, descending weight sequence.
pub fn triplets_from_svd64(
    svd_ok: bool,
    u: Option<Vec<Vec<u64>>>,
    v_t: Option<Vec<Vec<u64>>>,
    sv: &Vec<u64>,
    n: usize,
) -> (res: Result<SVDVectors<u64>, Error>)
    requires
        (svd_ok && u.is_some() && v_t.is_some()) ==> n <= sv.len() && n <= u.unwrap().len() && n
            <= v_t.unwrap().len(),
    ensures
        !svd_ok ==> res == Result::<SVDVectors<u64>, Error>::Err(Error::SVDError),
        svd_ok && (u.is_none() || v_t.is_none()) ==> res == Result::<SVDVectors<u64>, Error>::Err(
            Error::NoSVDResult,
        ),
        svd_ok && u.is_some() && v_t.is_some() ==> match res {
            Ok(v) => {
                &&& v@.len() == n
                &&& forall|k: int|
                    0 <= k < n ==> (#[trigger] v@[k]).0 == sv@[k] && v@[k].1@ == u.unwrap()@[k]@
                        && v@[k].2@ == v_t.unwrap()@[k]@
            },
            Err(_) => false,
        },
{
    if !svd_ok {
        return Err(Error::SVDError);
    }
    let u_vecs = match u {
        Some(x) => x,
        None => {
            return Err(Error::NoSVDResult);
        },
    };
    let vt_vecs = match v_t {
        Some(x) => x,
        None => {
            return Err(Error::NoSVDResult);
        },
    };
    let mut res: SVDVectors<u64> = Vec::new();
    let mut i: usize = 0;
    while i < n
        invariant
            i <= n,
            n <= sv.len(),
            n <= u_vecs.len(),
            n <= vt_vecs.len(),
            u_vecs == u.unwrap(),
            vt_vecs == v_t.unwrap(),
            res@.len() == i,
            forall|k: int|
                0 <= k < i ==> (#[trigger] res@[k]).0 == sv@[k] && res@[k].1@ == u_vecs@[k]@
                    && res@[k].2@ == vt_vecs@[k]@,
        decreases n - i,
    {
        let sv_i: u64 = sv[i];
        let u_i: Vec<u64> = u_vecs[i].clone();
        let v_t_i: Vec<u64> = vt_vecs[i].clone();
        res.push((sv_i, u_i, v_t_i));
        i = i + 1;
    }
    Ok(res)
}

/// The single-precision counterpart of [`triplets_from_svd64`].
pub fn triplets_from_svd32(
    svd_ok: bool,
    u: Option<Vec<Vec<u32>>>,
    v_t: Option<Vec<Vec<u32>>>,
    sv: &Vec<u32>,
    n: usize,
) -> (res: Result<SVDVectors<u32>, Error>)
    requires
        (svd_ok && u.is_some() && v_t.is_some()) ==> n <= sv.len() && n <= u.unwrap().len() && n
            <= v_t.unwrap().len(),
    ensures
        !svd_ok ==> res == Result::<SVDVectors<u32>, Error>::Err(Error::SVDError),
        svd_ok && (u.is_none() || v_t.is_none()) ==> res == Result::<SVDVectors<u32>, Error>::Err(
            Error::NoSVDResult,
        ),
        svd_ok && u.is_some() && v_t.is_some() ==> match res {
            Ok(v) => {
                &&& v@.len() == n
                &&& forall|k: int|
                    0 <= k < n ==> (#[trigger] v@[k]).0 == sv@[k] && v@[k].1@ == u.unwrap()@[k]@
                        && v@[k].2@ == v_t.unwrap()@[k]@
            },
            Err(_) => false,
        },
{
    if !svd_ok {
        return Err(Error::SVDError);
    }
    let u_vecs = match u {
        Some(x) => x,
        None => {
            return Err(Error::NoSVDResult);
        },
    };
    let vt_vecs = match v_t {
        Some(x) => x,
        None => {
            return Err(Error::NoSVDResult);
        },
    };
    let mut res: SVDVectors<u32> = Vec::new();
    let mut i: usize = 0;
    while i < n
        invariant
            i <= n,
            n <= sv.len(),
            n <= u_vecs.len(),
            n <= vt_vecs.len(),
            u_vecs == u.unwrap(),
            vt_vecs == v_t.unwrap(),
            res@.len() == i,
            forall|k: int|
                0 <= k < i ==> (#[trigger] res@[k]).0 == sv@[k] && res@[k].1@ == u_vecs@[k]@
                    && res@[k].2@ == vt_vecs@[k]@,
        decreases n - i,
    {
        let sv_i: u32 = sv[i];
        let u_i: Vec<u32> = u_vecs[i].clone();
        let v_t_i: Vec<u32> = vt_vecs[i].clone();
        res.push((sv_i, u_i, v_t_i));
        i = i + 1;
    }
    Ok(res)
}

} // verus!
