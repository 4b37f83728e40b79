//! The decode-side logic: parsing the container header and triplet stream,
//! the reduce operation that truncates a container, and the adapters that
//! turn a reconstructed matrix back into pixels or samples.

use vstd::prelude::*;
use crate::aggregate::{agg_rgb_unbits, agg_rgba_unbits, bits_of_i32, Aggregator, Rgb, Rgba};
use crate::encode::{policy_count, vector_bytes, write_vectors_f32, write_vectors_f64,
    write_vectors_header, Options, SVDVectors};
use crate::format::{
    audio_header_bytes, bit_val, dims_bytes, flags_byte, header_bytes,
    lemma_scalars32_bytes_push, lemma_scalars64_bytes_push, lemma_triplets32_bytes_push,
    lemma_triplets64_bytes_push, lemma_triplets32_bytes_take_prefix,
    lemma_triplets64_bytes_take_prefix, lemma_u32_be_roundtrip, scalars32_bytes, scalars64_bytes,
    triplet32_bytes, triplet64_bytes, triplets32_bytes, triplets64_bytes, triplets32_wf,
    triplets64_wf, u32_be_bytes, u32_from_be, u64_be_bytes, AudioHeader, FileHeader,
};
use crate::matrix::Matrix;
use crate::media::{ImageRgb, ImageRgba, SoundData};
use crate::read::{ByteReader, FileReaderError};
use crate::write::ByteWriter;
use crate::Error;

verus! {

/// Reads the content-type flags byte and, for audio, the embedded audio
/// header and sample count.
pub fn read_file_header(fr: &mut ByteReader) -> (res: Result<FileHeader, Error>)
    requires
        old(fr).wf(),
    ensures
        final(fr).wf(),
        final(fr).data == old(fr).data,
        match res {
            Ok(h) => {
                &&& h.wf()
                &&& old(fr).pos < old(fr).data.len()
                &&& ({
                    let ct = old(fr).data@[old(fr).pos as int];
                    &&& h.is_wav == (ct & 0x8 != 0)
                    &&& h.use_f64 == (ct & 0x4 != 0)
                    &&& h.with_alpha == (ct & 0x2 != 0)
                    &&& h.use_aggregate == (ct & 0x1 != 0)
                })
                &&& if h.is_wav {
                    &&& old(fr).pos + 21 <= old(fr).data.len()
                    &&& audio_header_bytes(h.audio.unwrap().0) == old(fr).data@.subrange(
                        old(fr).pos + 1,
                        old(fr).pos + 17,
                    )
                    &&& u32_be_bytes(h.audio.unwrap().1) == old(fr).data@.subrange(
                        old(fr).pos + 17,
                        old(fr).pos + 21,
                    )
                    &&& final(fr).pos == old(fr).pos + 21
                } else {
                    final(fr).pos == old(fr).pos + 1
                }
            },
            Err(e) => {
                &&& e == Error::FileReaderError(FileReaderError::UnexpectedEOF)
                &&& (old(fr).pos + 1 > old(fr).data.len() || (old(fr).data@[old(fr).pos as int]
                    & 0x8 != 0 && old(fr).pos + 21 > old(fr).data.len()))
            },
        },
{
    let content_type = match fr.read_u8() {
        Ok(b) => b,
        Err(_) => {
            return Err(Error::FileReaderError(FileReaderError::UnexpectedEOF));
        },
    };
    let is_sound = content_type & 0x8 != 0;
    let use_f64 = content_type & 0x4 != 0;
    let with_alpha = content_type & 0x2 != 0;
    let aggregate = content_type & 0x1 != 0;

    let audio: Option<(AudioHeader, u32)> = if is_sound {
        let blob = match fr.read_bytes(16) {
            Ok(v) => v,
            Err(_) => {
                return Err(Error::FileReaderError(FileReaderError::UnexpectedEOF));
            },
        };
        let header = AudioHeader::from_bytes(&blob);
        let count = match fr.read_u32() {
            Ok(x) => x,
            Err(_) => {
                return Err(Error::FileReaderError(FileReaderError::UnexpectedEOF));
            },
        };
        Some((header, count))
    } else {
        None
    };

    Ok(
        FileHeader {
            is_wav: is_sound,
            use_f64,
            with_alpha,
            use_aggregate: aggregate,
            audio,
        },
    )
}

/// Reads the triplet count, height and width fields.
pub fn read_file_dimensions(fr: &mut ByteReader) -> (res: Result<(usize, usize, usize), Error>)
    requires
        old(fr).wf(),
    ensures
        final(fr).wf(),
        final(fr).data == old(fr).data,
        match res {
            Ok(d) => {
                &&& old(fr).pos + 12 <= old(fr).data.len()
                &&& d.0 <= 0xffff_ffff && d.1 <= 0xffff_ffff && d.2 <= 0xffff_ffff
                &&& dims_bytes(d.0 as u32, d.1 as u32, d.2 as u32) == old(fr).data@.subrange(
                    old(fr).pos as int,
                    old(fr).pos + 12,
                )
                &&& final(fr).pos == old(fr).pos + 12
            },
            Err(e) => {
                &&& e == Error::FileReaderError(FileReaderError::UnexpectedEOF)
                &&& old(fr).pos + 12 > old(fr).data.len()
            },
        },
{
    let n32 = match fr.read_u32() {
        Ok(x) => x,
        Err(_) => {
            return Err(Error::FileReaderError(FileReaderError::UnexpectedEOF));
        },
    };
    let h32 = match fr.read_u32() {
        Ok(x) => x,
        Err(_) => {
            return Err(Error::FileReaderError(FileReaderError::UnexpectedEOF));
        },
    };
    let w32 = match fr.read_u32() {
        Ok(x) => x,
        Err(_) => {
            return Err(Error::FileReaderError(FileReaderError::UnexpectedEOF));
        },
    };
    proof {
        assert(dims_bytes(n32, h32, w32) =~= old(fr).data@.subrange(
            old(fr).pos as int,
            old(fr).pos + 12,
        ));
    }
    Ok((n32 as usize, h32 as usize, w32 as usize))
}

/// Reads a run of big-endian double-precision scalars.
fn read_scalars64(fr: &mut ByteReader, count: usize) -> (res: Result<Vec<u64>, Error>)
    requires
        old(fr).wf(),
    ensures
        final(fr).wf(),
        final(fr).data == old(fr).data,
        match res {
            Ok(v) => {
                &&& v@.len() == count
                &&& old(fr).pos + 8 * count <= old(fr).data.len()
                &&& scalars64_bytes(v@) == old(fr).data@.subrange(
                    old(fr).pos as int,
                    old(fr).pos + 8 * count,
                )
                &&& final(fr).pos == old(fr).pos + 8 * count
            },
            Err(e) => {
                &&& e == Error::FileReaderError(FileReaderError::UnexpectedEOF)
                &&& old(fr).pos + 8 * count > old(fr).data.len()
            },
        },
{
    let mut v: Vec<u64> = Vec::new();
    let mut k: usize = 0;
    while k < count
        invariant
            fr.wf(),
            fr.data == old(fr).data,
            k <= count,
            v@.len() == k,
            fr.pos == old(fr).pos + 8 * k,
            scalars64_bytes(v@) == old(fr).data@.subrange(old(fr).pos as int, fr.pos as int),
        decreases count - k,
    {
        let ghost prev: int = fr.pos as int;
        match fr.read_u64() {
            Ok(x) => {
                proof {
                    lemma_scalars64_bytes_push(v@, x);
                    assert(old(fr).data@.subrange(old(fr).pos as int, prev + 8) =~= old(
                        fr,
                    ).data@.subrange(old(fr).pos as int, prev) + old(fr).data@.subrange(
                        prev,
                        prev + 8,
                    ));
                }
                v.push(x);
                k = k + 1;
            },
            Err(_) => {
                return Err(Error::FileReaderError(FileReaderError::UnexpectedEOF));
            },
        }
    }
    Ok(v)
}

/// Reads a run of big-endian single-precision scalars.
fn read_scalars32(fr: &mut ByteReader, count: usize) -> (res: Result<Vec<u32>, Error>)
    requires
        old(fr).wf(),
    ensures
        final(fr).wf(),
        final(fr).data == old(fr).data,
        match res {
            Ok(v) => {
                &&& v@.len() == count
                &&& old(fr).pos + 4 * count <= old(fr).data.len()
                &&& scalars32_bytes(v@) == old(fr).data@.subrange(
                    old(fr).pos as int,
                    old(fr).pos + 4 * count,
                )
                &&& final(fr).pos == old(fr).pos + 4 * count
            },
            Err(e) => {
                &&& e == Error::FileReaderError(FileReaderError::UnexpectedEOF)
                &&& old(fr).pos + 4 * count > old(fr).data.len()
            },
        },
{
    let mut v: Vec<u32> = Vec::new();
    let mut k: usize = 0;
    while k < count
        invariant
            fr.wf(),
            fr.data == old(fr).data,
            k <= count,
            v@.len() == k,
            fr.pos == old(fr).pos + 4 * k,
            scalars32_bytes(v@) == old(fr).data@.subrange(old(fr).pos as int, fr.pos as int),
        decreases count - k,
    {
        let ghost prev: int = fr.pos as int;
        match fr.read_u32() {
            Ok(x) => {
                proof {
                    lemma_scalars32_bytes_push(v@, x);
                    assert(old(fr).data@.subrange(old(fr).pos as int, prev + 4) =~= old(
                        fr,
                    ).data@.subrange(old(fr).pos as int, prev) + old(fr).data@.subrange(
                        prev,
                        prev + 4,
                    ));
                }
                v.push(x);
                k = k + 1;
            },
            Err(_) => {
                return Err(Error::FileReaderError(FileReaderError::UnexpectedEOF));
            },
        }
    }
    Ok(v)
}

/// Reads `n` double-precision triplets of the given dimensions.
fn read_triplets64(fr: &mut ByteReader, n: usize, height: usize, width: usize) -> (res: Result<
    SVDVectors<u64>,
    Error,
>)
    requires
        old(fr).wf(),
    ensures
        final(fr).wf(),
        final(fr).data == old(fr).data,
        match res {
            Ok(v) => {
                &&& v@.len() == n
                &&& triplets64_wf(v@, height as int, width as int)
                &&& old(fr).pos + n * vector_bytes(true, height as int, width as int) <= old(
                    fr,
                ).data.len()
                &&& triplets64_bytes(v@) == old(fr).data@.subrange(
                    old(fr).pos as int,
                    old(fr).pos + n * vector_bytes(true, height as int, width as int),
                )
                &&& final(fr).pos == old(fr).pos + n * vector_bytes(
                    true,
                    height as int,
                    width as int,
                )
            },
            Err(e) => {
                &&& e == Error::FileReaderError(FileReaderError::UnexpectedEOF)
                &&& old(fr).pos + n * vector_bytes(true, height as int, width as int) > old(
                    fr,
                ).data.len()
            },
        },
{
    let ghost t: int = vector_bytes(true, height as int, width as int);
    let mut v: SVDVectors<u64> = Vec::new();
    let mut k: usize = 0;
    while k < n
        invariant
            fr.wf(),
            fr.data == old(fr).data,
            k <= n,
            v@.len() == k,
            t == vector_bytes(true, height as int, width as int),
            triplets64_wf(v@, height as int, width as int),
            fr.pos == old(fr).pos + k * t,
            triplets64_bytes(v@) == old(fr).data@.subrange(old(fr).pos as int, fr.pos as int),
        decreases n - k,
    {
        let ghost pos0: int = fr.pos as int;
        proof {
            assert((k + 1) * t == k * t + t) by (nonlinear_arith);
            assert((k + 1) * t <= n * t) by (nonlinear_arith)
                requires
                    k + 1 <= n,
                    t >= 0,
            ;
        }
        let weight = match fr.read_u64() {
            Ok(x) => x,
            Err(_) => {
                return Err(Error::FileReaderError(FileReaderError::UnexpectedEOF));
            },
        };
        let left = match read_scalars64(fr, height) {
            Ok(x) => x,
            Err(e) => {
                return Err(e);
            },
        };
        let right = match read_scalars64(fr, width) {
            Ok(x) => x,
            Err(e) => {
                return Err(e);
            },
        };
        proof {
            lemma_triplets64_bytes_push(v@, (weight, left, right));
            assert(triplet64_bytes((weight, left, right)) == u64_be_bytes(weight)
                + scalars64_bytes(left@) + scalars64_bytes(right@));
            assert(old(fr).data@.subrange(old(fr).pos as int, pos0 + t) =~= old(
                fr,
            ).data@.subrange(old(fr).pos as int, pos0) + old(fr).data@.subrange(pos0, pos0 + 8)
                + old(fr).data@.subrange(pos0 + 8, pos0 + 8 + 8 * height) + old(
                fr,
            ).data@.subrange(pos0 + 8 + 8 * height, pos0 + t));
        }
        v.push((weight, left, right));
        k = k + 1;
    }
    proof {
        assert(n * t == n as int * t);
    }
    Ok(v)
}

/// Reads `n` single-precision triplets of the given dimensions.
fn read_triplets32(fr: &mut ByteReader, n: usize, height: usize, width: usize) -> (res: Result<
    SVDVectors<u32>,
    Error,
>)
    requires
        old(fr).wf(),
    ensures
        final(fr).wf(),
        final(fr).data == old(fr).data,
        match res {
            Ok(v) => {
                &&& v@.len() == n
                &&& triplets32_wf(v@, height as int, width as int)
                &&& old(fr).pos + n * vector_bytes(false, height as int, width as int) <= old(
                    fr,
                ).data.len()
                &&& triplets32_bytes(v@) == old(fr).data@.subrange(
                    old(fr).pos as int,
                    old(fr).pos + n * vector_bytes(false, height as int, width as int),
                )
                &&& final(fr).pos == old(fr).pos + n * vector_bytes(
                    false,
                    height as int,
                    width as int,
                )
            },
            Err(e) => {
                &&& e == Error::FileReaderError(FileReaderError::UnexpectedEOF)
                &&& old(fr).pos + n * vector_bytes(false, height as int, width as int) > old(
                    fr,
                ).data.len()
            },
        },
{
    let ghost t: int = vector_bytes(false, height as int, width as int);
    let mut v: SVDVectors<u32> = Vec::new();
    let mut k: usize = 0;
    while k < n
        invariant
            fr.wf(),
            fr.data == old(fr).data,
            k <= n,
            v@.len() == k,
            t == vector_bytes(false, height as int, width as int),
            triplets32_wf(v@, height as int, width as int),
            fr.pos == old(fr).pos + k * t,
            triplets32_bytes(v@) == old(fr).data@.subrange(old(fr).pos as int, fr.pos as int),
        decreases n - k,
    {
        let ghost pos0: int = fr.pos as int;
        proof {
            assert((k + 1) * t == k * t + t) by (nonlinear_arith);
            assert((k + 1) * t <= n * t) by (nonlinear_arith)
                requires
                    k + 1 <= n,
                    t >= 0,
            ;
        }
        let weight = match fr.read_u32() {
            Ok(x) => x,
            Err(_) => {
                return Err(Error::FileReaderError(FileReaderError::UnexpectedEOF));
            },
        };
        let left = match read_scalars32(fr, height) {
            Ok(x) => x,
            Err(e) => {
                return Err(e);
            },
        };
        let right = match read_scalars32(fr, width) {
            Ok(x) => x,
            Err(e) => {
                return Err(e);
            },
        };
        proof {
            lemma_triplets32_bytes_push(v@, (weight, left, right));
            assert(triplet32_bytes((weight, left, right)) == u32_be_bytes(weight)
                + scalars32_bytes(left@) + scalars32_bytes(right@));
            assert(old(fr).data@.subrange(old(fr).pos as int, pos0 + t) =~= old(
                fr,
            ).data@.subrange(old(fr).pos as int, pos0) + old(fr).data@.subrange(pos0, pos0 + 4)
                + old(fr).data@.subrange(pos0 + 4, pos0 + 4 + 4 * height) + old(
                fr,
            ).data@.subrange(pos0 + 4 + 4 * height, pos0 + t));
        }
        v.push((weight, left, right));
        k = k + 1;
    }
    proof {
        assert(n * t == n as int * t);
    }
    Ok(v)
}

/// What the container file declares at its dimension fields, read from the
/// raw bytes: the triplet count, height and width starting at `p`.
pub open spec fn dims_at(s: Seq<u8>, p: int) -> (int, int, int) {
    (
        u32_from_be(s.subrange(p, p + 4)) as int,
        u32_from_be(s.subrange(p + 4, p + 8)) as int,
        u32_from_be(s.subrange(p + 8, p + 12)) as int,
    )
}

/// Reads the dimension fields and the double-precision triplet stream.
pub fn read_file_f64(fr: &mut ByteReader) -> (res: Result<SVDVectors<u64>, Error>)
    requires
        old(fr).wf(),
    ensures
        final(fr).wf(),
        final(fr).data == old(fr).data,
        ({
            let s = old(fr).data@;
            let p = old(fr).pos as int;
            let n = dims_at(s, p).0;
            let h = dims_at(s, p).1;
            let w = dims_at(s, p).2;
            match res {
                Ok(v) => {
                    &&& p + 12 <= s.len()
                    &&& v@.len() == n
                    &&& triplets64_wf(v@, h, w)
                    &&& p + 12 + n * vector_bytes(true, h, w) <= s.len()
                    &&& triplets64_bytes(v@) == s.subrange(p + 12, p + 12 + n * vector_bytes(true, h, w))
                    &&& final(fr).pos == p + 12 + n * vector_bytes(true, h, w)
                },
                Err(e) => {
                    &&& e == Error::FileReaderError(FileReaderError::UnexpectedEOF)
                    &&& (p + 12 > s.len() || p + 12 + n * vector_bytes(true, h, w) > s.len())
                },
            }
        }),
{
    let ghost s = old(fr).data@;
    let ghost p = old(fr).pos as int;
    let dims = match read_file_dimensions(fr) {
        Ok(d) => d,
        Err(e) => {
            return Err(e);
        },
    };
    let (n, height, width) = dims;
    proof {
        let db = dims_bytes(n as u32, height as u32, width as u32);
        assert(s.subrange(p, p + 4) =~= db.subrange(0, 4));
        assert(s.subrange(p + 4, p + 8) =~= db.subrange(4, 8));
        assert(s.subrange(p + 8, p + 12) =~= db.subrange(8, 12));
        assert(db.subrange(0, 4) =~= u32_be_bytes(n as u32));
        assert(db.subrange(4, 8) =~= u32_be_bytes(height as u32));
        assert(db.subrange(8, 12) =~= u32_be_bytes(width as u32));
        lemma_u32_be_roundtrip(n as u32, s.subrange(p, p + 4));
        lemma_u32_be_roundtrip(height as u32, s.subrange(p + 4, p + 8));
        lemma_u32_be_roundtrip(width as u32, s.subrange(p + 8, p + 12));
    }
    read_triplets64(fr, n, height, width)
}

/// Reads the dimension fields and the single-precision triplet stream.
pub fn read_file_f32(fr: &mut ByteReader) -> (res: Result<SVDVectors<u32>, Error>)
    requires
        old(fr).wf(),
    ensures
        final(fr).wf(),
        final(fr).data == old(fr).data,
        ({
            let s = old(fr).data@;
            let p = old(fr).pos as int;
            let n = dims_at(s, p).0;
            let h = dims_at(s, p).1;
            let w = dims_at(s, p).2;
            match res {
                Ok(v) => {
                    &&& p + 12 <= s.len()
                    &&& v@.len() == n
                    &&& triplets32_wf(v@, h, w)
                    &&& p + 12 + n * vector_bytes(false, h, w) <= s.len()
                    &&& triplets32_bytes(v@) == s.subrange(p + 12, p + 12 + n * vector_bytes(false, h, w))
                    &&& final(fr).pos == p + 12 + n * vector_bytes(false, h, w)
                },
                Err(e) => {
                    &&& e == Error::FileReaderError(FileReaderError::UnexpectedEOF)
                    &&& (p + 12 > s.len() || p + 12 + n * vector_bytes(false, h, w) > s.len())
                },
            }
        }),
{
    let ghost s = old(fr).data@;
    let ghost p = old(fr).pos as int;
    let dims = match read_file_dimensions(fr) {
        Ok(d) => d,
        Err(e) => {
            return Err(e);
        },
    };
    let (n, height, width) = dims;
    proof {
        let db = dims_bytes(n as u32, height as u32, width as u32);
        assert(s.subrange(p, p + 4) =~= db.subrange(0, 4));
        assert(s.subrange(p + 4, p + 8) =~= db.subrange(4, 8));
        assert(s.subrange(p + 8, p + 12) =~= db.subrange(8, 12));
        assert(db.subrange(0, 4) =~= u32_be_bytes(n as u32));
        assert(db.subrange(4, 8) =~= u32_be_bytes(height as u32));
        assert(db.subrange(8, 12) =~= u32_be_bytes(width as u32));
        lemma_u32_be_roundtrip(n as u32, s.subrange(p, p + 4));
        lemma_u32_be_roundtrip(height as u32, s.subrange(p + 4, p + 8));
        lemma_u32_be_roundtrip(width as u32, s.subrange(p + 8, p + 12));
    }
    read_triplets32(fr, n, height, width)
}

/// The flags byte re-serialized from its four low bits: what the rewritten
/// container carries in place of the input's flags byte.
pub open spec fn canon_flags(ct: u8) -> u8 {
    (8 * bit_val(ct & 0x8 != 0) + 4 * bit_val(ct & 0x4 != 0) + 2 * bit_val(ct & 0x2 != 0) + bit_val(
        ct & 0x1 != 0,
    )) as u8
}

/// What reduce returns for a given input, byte by byte: either the error the
/// operation fails with, or the rewritten container — the input's header
/// with the flags byte re-serialized, the updated count, the unchanged
/// height and width, and the first `n2` triplets of the input, byte for byte.
#[verifier::opaque]
pub open spec fn reduce_spec(s: Seq<u8>, o: Options) -> Result<Seq<u8>, Error> {
    let ct = s[0];
    let wav = ct & 0x8 != 0;
    let dbl = ct & 0x4 != 0;
    let base: int = if wav {
        21
    } else {
        1
    };
    if s.len() < base + 12 {
        Result::<Seq<u8>, Error>::Err(Error::FileReaderError(FileReaderError::UnexpectedEOF))
    } else {
        let n = dims_at(s, base).0;
        let h = dims_at(s, base).1;
        let w = dims_at(s, base).2;
        let t_size = vector_bytes(dbl, h, w);
        if s.len() < base + 12 + n * t_size {
            Result::<Seq<u8>, Error>::Err(Error::FileReaderError(FileReaderError::UnexpectedEOF))
        } else if n == 0 {
            Result::<Seq<u8>, Error>::Err(Error::NotEnoughVectorsInSource)
        } else {
            match policy_count(o, h, w) {
                Err(e) => Result::<Seq<u8>, Error>::Err(e),
                Ok(n2) => if n2 > n {
                    Result::<Seq<u8>, Error>::Err(Error::NotEnoughVectorsInSource)
                } else {
                    Result::<Seq<u8>, Error>::Ok(
                        seq![canon_flags(ct)] + s.subrange(1, base) + dims_bytes(
                            n2 as u32,
                            h as u32,
                            w as u32,
                        ) + s.subrange(base + 12, base + 12 + n2 * t_size),
                    )
                },
            }
        }
    }
}

/// An input too short for its declared layout reduces to a read error.
proof fn lemma_reduce_spec_eof(s: Seq<u8>, o: Options)
    requires
        ({
            let ct = s[0];
            let base: int = if ct & 0x8 != 0 {
                21
            } else {
                1
            };
            let n = dims_at(s, base).0;
            let h = dims_at(s, base).1;
            let w = dims_at(s, base).2;
            s.len() < base + 12 || s.len() < base + 12 + n * vector_bytes(ct & 0x4 != 0, h, w)
        }),
    ensures
        reduce_spec(s, o) == Result::<Seq<u8>, Error>::Err(
            Error::FileReaderError(FileReaderError::UnexpectedEOF),
        ),
{
    reveal(reduce_spec);
}

/// A container that declares no triplets cannot be reduced.
proof fn lemma_reduce_spec_empty(s: Seq<u8>, o: Options)
    requires
        ({
            let ct = s[0];
            let base: int = if ct & 0x8 != 0 {
                21
            } else {
                1
            };
            let n = dims_at(s, base).0;
            let h = dims_at(s, base).1;
            let w = dims_at(s, base).2;
            &&& s.len() >= base + 12
            &&& s.len() >= base + 12 + n * vector_bytes(ct & 0x4 != 0, h, w)
            &&& n == 0
        }),
    ensures
        reduce_spec(s, o) == Result::<Seq<u8>, Error>::Err(Error::NotEnoughVectorsInSource),
{
    reveal(reduce_spec);
}

/// On a complete container with at least one triplet, reduce resolves the
/// policy, fails on a count above what is stored, and otherwise rewrites
/// the container.
proof fn lemma_reduce_spec_main(s: Seq<u8>, o: Options)
    requires
        ({
            let ct = s[0];
            let base: int = if ct & 0x8 != 0 {
                21
            } else {
                1
            };
            let n = dims_at(s, base).0;
            let h = dims_at(s, base).1;
            let w = dims_at(s, base).2;
            &&& s.len() >= base + 12
            &&& s.len() >= base + 12 + n * vector_bytes(ct & 0x4 != 0, h, w)
            &&& n >= 1
        }),
    ensures
        ({
            let ct = s[0];
            let base: int = if ct & 0x8 != 0 {
                21
            } else {
                1
            };
            let n = dims_at(s, base).0;
            let h = dims_at(s, base).1;
            let w = dims_at(s, base).2;
            let t_size = vector_bytes(ct & 0x4 != 0, h, w);
            match policy_count(o, h, w) {
                Err(e) => reduce_spec(s, o) == Result::<Seq<u8>, Error>::Err(e),
                Ok(n2) => if n2 > n {
                    reduce_spec(s, o) == Result::<Seq<u8>, Error>::Err(
                        Error::NotEnoughVectorsInSource,
                    )
                } else {
                    reduce_spec(s, o) == Result::<Seq<u8>, Error>::Ok(
                        seq![canon_flags(ct)] + s.subrange(1, base) + dims_bytes(
                            n2 as u32,
                            h as u32,
                            w as u32,
                        ) + s.subrange(base + 12, base + 12 + n2 * t_size),
                    )
                },
            }
        }),
{
    reveal(reduce_spec);
}

/// Re-serializing the flags byte keeps its four low bits and is idempotent.
proof fn lemma_canon_flags_bits(ct: u8)
    ensures
        (canon_flags(ct) & 0x8) == (ct & 0x8),
        (canon_flags(ct) & 0x4) == (ct & 0x4),
        (canon_flags(ct) & 0x2) == (ct & 0x2),
        (canon_flags(ct) & 0x1) == (ct & 0x1),
        canon_flags(canon_flags(ct)) == canon_flags(ct),
{
    assert((canon_flags(ct) & 0x8) == (ct & 0x8) && (canon_flags(ct) & 0x4) == (ct & 0x4) && (
    canon_flags(ct) & 0x2) == (ct & 0x2) && (canon_flags(ct) & 0x1) == (ct & 0x1) && canon_flags(
        canon_flags(ct),
    ) == canon_flags(ct)) by (bit_vector);
}

/// Reduce is idempotent: reducing a container that reduce itself produced,
/// under the same configuration, returns that container unchanged.
pub proof fn lemma_reduce_spec_idempotent(s: Seq<u8>, o: Options)
    requires
        reduce_spec(s, o) is Ok,
    ensures
        reduce_spec(reduce_spec(s, o)->Ok_0, o) == reduce_spec(s, o),
{
    reveal(reduce_spec);
    let ct = s[0];
    let wav = ct & 0x8 != 0;
    let dbl = ct & 0x4 != 0;
    let base: int = if wav {
        21
    } else {
        1
    };
    let n = dims_at(s, base).0;
    let h = dims_at(s, base).1;
    let w = dims_at(s, base).2;
    let t_size = vector_bytes(dbl, h, w);
    let n2 = policy_count(o, h, w)->Ok_0;
    let t = reduce_spec(s, o)->Ok_0;
    assert(s.len() >= base + 12);
    assert(s.len() >= base + 12 + n * t_size);
    assert(n >= 1);
    assert(policy_count(o, h, w) is Ok);
    assert(n2 <= n);
    assert(t == seq![canon_flags(ct)] + s.subrange(1, base) + dims_bytes(
        n2 as u32,
        h as u32,
        w as u32,
    ) + s.subrange(base + 12, base + 12 + n2 * t_size));
    lemma_canon_flags_bits(ct);
    let ct2 = canon_flags(ct);
    assert(t[0] == ct2);
    assert(ct2 & 0x8 != 0 == wav && ct2 & 0x4 != 0 == dbl);
    assert(n2 >= 1);
    assert(t_size >= 0);
    assert(n2 * t_size >= 0 && n2 * t_size <= n * t_size) by (nonlinear_arith)
        requires
            0 <= n2 <= n,
            t_size >= 0,
    ;
    assert(dims_bytes(n2 as u32, h as u32, w as u32).len() == 12);
    assert(t.len() == base + 12 + n2 * t_size);
    assert(t.subrange(1, base) =~= s.subrange(1, base));
    assert(t.subrange(base, base + 12) =~= dims_bytes(n2 as u32, h as u32, w as u32));
    assert(t.subrange(base, base + 4) =~= u32_be_bytes(n2 as u32));
    assert(t.subrange(base + 4, base + 8) =~= u32_be_bytes(h as u32));
    assert(t.subrange(base + 8, base + 12) =~= u32_be_bytes(w as u32));
    lemma_u32_be_roundtrip(n2 as u32, t.subrange(base, base + 4));
    lemma_u32_be_roundtrip(h as u32, t.subrange(base + 4, base + 8));
    lemma_u32_be_roundtrip(w as u32, t.subrange(base + 8, base + 12));
    assert(dims_at(t, base).0 == n2 && dims_at(t, base).1 == h && dims_at(t, base).2 == w);
    assert(t.subrange(base + 12, base + 12 + n2 * t_size) =~= s.subrange(
        base + 12,
        base + 12 + n2 * t_size,
    ));
    assert(reduce_spec(t, o)->Ok_0 =~= t);
}

/// Truncates an already-factored triplet stream to the count the policy
/// resolves to for the stored dimensions; a count above what is stored is an
/// error, never a growth.
pub fn remove_vectors<T>(vectors: &mut SVDVectors<T>, options: &Options) -> (res: Result<
    (),
    Error,
>)
    requires
        old(vectors).len() >= 1,
    ensures
        ({
            let h = old(vectors)@[0].1@.len() as int;
            let w = old(vectors)@[0].2@.len() as int;
            match policy_count(*options, h, w) {
                Err(e) => res == Result::<(), Error>::Err(e) && *final(vectors) == *old(vectors),
                Ok(n2) => if n2 > old(vectors)@.len() {
                    &&& res == Result::<(), Error>::Err(Error::NotEnoughVectorsInSource)
                    &&& *final(vectors) == *old(vectors)
                } else {
                    &&& res == Result::<(), Error>::Ok(())
                    &&& final(vectors)@ == old(vectors)@.take(n2 as int)
                },
            }
        }),
{
    let h: usize = vectors[0].1.len();
    let w: usize = vectors[0].2.len();
    let n2: usize = match options.n_with(h, w) {
        Ok(n) => n,
        Err(e) => {
            return Err(e);
        },
    };
    if n2 > vectors.len() {
        return Err(Error::NotEnoughVectorsInSource);
    }
    vectors.truncate(n2);
    proof {
        assert(final(vectors)@ =~= old(vectors)@.take(n2 as int));
    }
    Ok(())
}

/// The facts the header parse leaves behind, shared by both precision
/// branches of reduce: the cursor sits right after the header, whose bytes
/// decode to exactly the given header value.
spec fn reduce_header_state(fr: ByteReader, header: FileHeader, opts2: Options, options: Options) -> bool {
    let s = fr.data@;
    let ct = s[0];
    let base: int = if header.is_wav {
        21
    } else {
        1
    };
    &&& fr.wf()
    &&& header.wf()
    &&& s.len() >= 1
    &&& fr.pos == base
    &&& header.is_wav == (ct & 0x8 != 0)
    &&& header.use_f64 == (ct & 0x4 != 0)
    &&& header.with_alpha == (ct & 0x2 != 0)
    &&& header.use_aggregate == (ct & 0x1 != 0)
    &&& (header.is_wav ==> s.len() >= 21 && audio_header_bytes(header.audio.unwrap().0)
        == s.subrange(1, 17) && u32_be_bytes(header.audio.unwrap().1) == s.subrange(17, 21))
    &&& opts2 == (Options {
        use_f64: header.use_f64,
        use_aggregate: header.use_aggregate,
        with_alpha: header.with_alpha,
        is_wav: header.is_wav,
        ..options
    })
}

/// The double-precision tail of reduce: everything after the header parse.
fn reduce_f64_tail(fr: &mut ByteReader, header: FileHeader, opts2: Options, options: &Options)
    -> (res: Result<Vec<u8>, Error>)
    requires
        reduce_header_state(*old(fr), header, opts2, *options),
        header.use_f64,
    ensures
        match res {
            Ok(out) => reduce_spec(old(fr).data@, *options) == Result::<Seq<u8>, Error>::Ok(out@),
            Err(e) => reduce_spec(old(fr).data@, *options) == Result::<Seq<u8>, Error>::Err(e),
        },
{
    let ghost s = old(fr).data@;
    let ghost ct = s[0];
    let ghost base: int = if header.is_wav {
        21
    } else {
        1
    };
    let ghost n = dims_at(s, base).0;
    let ghost h = dims_at(s, base).1;
    let ghost w = dims_at(s, base).2;
    let ghost t_size = vector_bytes(true, h, w);
    let mut vectors = match read_file_f64(fr) {
        Ok(v) => v,
        Err(e) => {
            proof {
                lemma_reduce_spec_eof(s, *options);
            }
            return Err(e);
        },
    };
    if vectors.len() == 0 {
        proof {
            lemma_reduce_spec_empty(s, *options);
        }
        return Err(Error::NotEnoughVectorsInSource);
    }
    proof {
        assert(vectors@[0].1@.len() == h && vectors@[0].2@.len() == w);
    }
    let ghost parsed = vectors@;
    match remove_vectors(&mut vectors, options) {
        Ok(_) => {},
        Err(e) => {
            proof {
                lemma_reduce_spec_main(s, *options);
            }
            return Err(e);
        },
    }
    let ghost n2 = vectors@.len() as int;
    proof {
        assert(vectors@ == parsed.take(n2));
        assert(vectors@[0] == parsed[0]);
        assert(triplets64_wf(vectors@, h, w));
    }
    let mut fw = ByteWriter::new();
    write_vectors_header(&mut fw, &vectors, &opts2, header.audio);
    write_vectors_f64(&mut fw, &vectors);
    proof {
        lemma_reduce_spec_main(s, *options);
        let hdr2 = crate::encode::header_of(opts2, header.audio);
        assert(flags_byte(hdr2) == canon_flags(ct));
        assert(header_bytes(hdr2) =~= seq![canon_flags(ct)] + s.subrange(1, base));
        lemma_triplets64_bytes_take_prefix(parsed, n2, h, w);
        assert(n2 * t_size <= n * t_size) by (nonlinear_arith)
            requires
                n2 <= n,
                t_size >= 0,
        ;
        assert(triplets64_bytes(parsed).subrange(0, n2 * t_size) =~= s.subrange(
            base + 12,
            base + 12 + n2 * t_size,
        ));
        assert(fw.data@ =~= seq![canon_flags(ct)] + s.subrange(1, base) + dims_bytes(
            n2 as u32,
            h as u32,
            w as u32,
        ) + s.subrange(base + 12, base + 12 + n2 * t_size));
    }
    Ok(fw.data)
}

/// The single-precision tail of reduce: everything after the header parse.
fn reduce_f32_tail(fr: &mut ByteReader, header: FileHeader, opts2: Options, options: &Options)
    -> (res: Result<Vec<u8>, Error>)
    requires
        reduce_header_state(*old(fr), header, opts2, *options),
        !header.use_f64,
    ensures
        match res {
            Ok(out) => reduce_spec(old(fr).data@, *options) == Result::<Seq<u8>, Error>::Ok(out@),
            Err(e) => reduce_spec(old(fr).data@, *options) == Result::<Seq<u8>, Error>::Err(e),
        },
{
    let ghost s = old(fr).data@;
    let ghost ct = s[0];
    let ghost base: int = if header.is_wav {
        21
    } else {
        1
    };
    let ghost n = dims_at(s, base).0;
    let ghost h = dims_at(s, base).1;
    let ghost w = dims_at(s, base).2;
    let ghost t_size = vector_bytes(false, h, w);
    let mut vectors = match read_file_f32(fr) {
        Ok(v) => v,
        Err(e) => {
            proof {
                lemma_reduce_spec_eof(s, *options);
            }
            return Err(e);
        },
    };
    if vectors.len() == 0 {
        proof {
            lemma_reduce_spec_empty(s, *options);
        }
        return Err(Error::NotEnoughVectorsInSource);
    }
    proof {
        assert(vectors@[0].1@.len() == h && vectors@[0].2@.len() == w);
    }
    let ghost parsed = vectors@;
    match remove_vectors(&mut vectors, options) {
        Ok(_) => {},
        Err(e) => {
            proof {
                lemma_reduce_spec_main(s, *options);
            }
            return Err(e);
        },
    }
    let ghost n2 = vectors@.len() as int;
    proof {
        assert(vectors@ == parsed.take(n2));
        assert(vectors@[0] == parsed[0]);
        assert(triplets32_wf(vectors@, h, w));
    }
    let mut fw = ByteWriter::new();
    write_vectors_header(&mut fw, &vectors, &opts2, header.audio);
    write_vectors_f32(&mut fw, &vectors);
    proof {
        lemma_reduce_spec_main(s, *options);
        let hdr2 = crate::encode::header_of(opts2, header.audio);
        assert(flags_byte(hdr2) == canon_flags(ct));
        assert(header_bytes(hdr2) =~= seq![canon_flags(ct)] + s.subrange(1, base));
        lemma_triplets32_bytes_take_prefix(parsed, n2, h, w);
        assert(n2 * t_size <= n * t_size) by (nonlinear_arith)
            requires
                n2 <= n,
                t_size >= 0,
        ;
        assert(triplets32_bytes(parsed).subrange(0, n2 * t_size) =~= s.subrange(
            base + 12,
            base + 12 + n2 * t_size,
        ));
        assert(fw.data@ =~= seq![canon_flags(ct)] + s.subrange(1, base) + dims_bytes(
            n2 as u32,
            h as u32,
            w as u32,
        ) + s.subrange(base + 12, base + 12 + n2 * t_size));
    }
    Ok(fw.data)
}

/// Reads an existing container, truncates its triplet stream to the count
/// the policy resolves to for the stored dimensions, and rewrites the
/// container with the updated count. Performs no recomputation.
pub fn reduce(data: Vec<u8>, options: &Options) -> (res: Result<Vec<u8>, Error>)
    ensures
        match res {
            Ok(out) => reduce_spec(data@, *options) == Result::<Seq<u8>, Error>::Ok(out@),
            Err(e) => reduce_spec(data@, *options) == Result::<Seq<u8>, Error>::Err(e),
        },
{
    let ghost s = data@;
    let mut fr = ByteReader::new(data);
    let header = match read_file_header(&mut fr) {
        Ok(h) => h,
        Err(e) => {
            proof {
                lemma_reduce_spec_eof(s, *options);
            }
            return Err(e);
        },
    };
    let opts2 = Options {
        policy: options.policy,
        use_f64: header.use_f64,
        n_iter: options.n_iter,
        original_file_size: options.original_file_size,
        use_aggregate: header.use_aggregate,
        aggregator: options.aggregator,
        with_alpha: header.with_alpha,
        is_wav: header.is_wav,
        is_reduce: options.is_reduce,
        bits_per_sample: options.bits_per_sample,
    };
    if header.use_f64 {
        reduce_f64_tail(&mut fr, header, opts2, options)
    } else {
        reduce_f32_tail(&mut fr, header, opts2, options)
    }
}

proof fn lemma_row_major_bounds(k: int, h: int, w: int)
    by (nonlinear_arith)
    requires
        0 <= k < h * w,
        1 <= w,
    ensures
        0 <= k / w < h,
        0 <= k % w < w,
{
}

/// Rebuilds the RGBA pixel grid out of a reconstructed matrix: with the
/// aggregation flag set, each cell unpacks through the selected scheme;
/// without it, each pixel reads back its 2x2 block, truncating each cell to
/// its low byte.
pub fn imgbuf_from_matrix_rgba(matrix: &Matrix, aggregate: bool, aggregator: &Aggregator) -> (img:
    ImageRgba)
    requires
        matrix.wf(),
    ensures
        img.wf(),
        if aggregate {
            &&& img.height == matrix.height
            &&& img.width == matrix.width
            &&& forall|i: int, j: int|
                #![trigger img.at(i, j)]
                0 <= i < matrix.height && 0 <= j < matrix.width ==> img.at(i, j) == agg_rgba_unbits(
                    *aggregator,
                    bits_of_i32(matrix.at(i, j)),
                )
        } else {
            &&& img.height == matrix.height / 2
            &&& img.width == matrix.width / 2
            &&& forall|i: int, j: int|
                #![trigger img.at(i, j)]
                0 <= i < matrix.height / 2 && 0 <= j < matrix.width / 2 ==> img.at(i, j) == (Rgba {
                    r: matrix.at(2 * i, 2 * j) as u8,
                    g: matrix.at(2 * i + 1, 2 * j) as u8,
                    b: matrix.at(2 * i, 2 * j + 1) as u8,
                    a: matrix.at(2 * i + 1, 2 * j + 1) as u8,
                })
        },
{
    let black = Rgba { r: 0, g: 0, b: 0, a: 0 };
    if aggregate {
        let height: usize = matrix.height;
        let width: usize = matrix.width;
        let mut img = crate::media::ImageRgba::filled(height, width, black);
        let mut i: usize = 0;
        while i < height
            invariant
                matrix.wf(),
                img.wf(),
                matrix.height == height,
                matrix.width == width,
                img.height == height,
                img.width == width,
                i <= height,
                forall|i2: int, j2: int|
                    #![trigger img.at(i2, j2)]
                    0 <= i2 < i && 0 <= j2 < width ==> img.at(i2, j2) == agg_rgba_unbits(
                        *aggregator,
                        bits_of_i32(matrix.at(i2, j2)),
                    ),
            decreases height - i,
        {
            let mut j: usize = 0;
            while j < width
                invariant
                    matrix.wf(),
                    img.wf(),
                    matrix.height == height,
                    matrix.width == width,
                    img.height == height,
                    img.width == width,
                    i < height,
                    j <= width,
                    forall|i2: int, j2: int|
                        #![trigger img.at(i2, j2)]
                        0 <= i2 < i && 0 <= j2 < width ==> img.at(i2, j2) == agg_rgba_unbits(
                            *aggregator,
                            bits_of_i32(matrix.at(i2, j2)),
                        ),
                    forall|j2: int|
                        #![trigger img.at(i as int, j2)]
                        0 <= j2 < j ==> img.at(i as int, j2) == agg_rgba_unbits(
                            *aggregator,
                            bits_of_i32(matrix.at(i as int, j2)),
                        ),
                decreases width - j,
            {
                let c = matrix.get(i, j);
                let p = aggregator.rgba_from_i32(c);
                img.set(i, j, p);
                j = j + 1;
            }
            i = i + 1;
        }
        img
    } else {
        let height: usize = matrix.height / 2;
        let width: usize = matrix.width / 2;
        proof {
            assert(height * width <= matrix.height * matrix.width) by (nonlinear_arith)
                requires
                    0 <= height <= matrix.height,
                    0 <= width <= matrix.width,
            ;
        }
        let mut img = crate::media::ImageRgba::filled(height, width, black);
        let mut i: usize = 0;
        while i < height
            invariant
                matrix.wf(),
                img.wf(),
                height == matrix.height / 2,
                width == matrix.width / 2,
                img.height == height,
                img.width == width,
                i <= height,
                forall|i2: int, j2: int|
                    #![trigger img.at(i2, j2)]
                    0 <= i2 < i && 0 <= j2 < width ==> img.at(i2, j2) == (Rgba {
                        r: matrix.at(2 * i2, 2 * j2) as u8,
                        g: matrix.at(2 * i2 + 1, 2 * j2) as u8,
                        b: matrix.at(2 * i2, 2 * j2 + 1) as u8,
                        a: matrix.at(2 * i2 + 1, 2 * j2 + 1) as u8,
                    }),
            decreases height - i,
        {
            let mut j: usize = 0;
            while j < width
                invariant
                    matrix.wf(),
                    img.wf(),
                    height == matrix.height / 2,
                    width == matrix.width / 2,
                    img.height == height,
                    img.width == width,
                    i < height,
                    j <= width,
                    forall|i2: int, j2: int|
                        #![trigger img.at(i2, j2)]
                        0 <= i2 < i && 0 <= j2 < width ==> img.at(i2, j2) == (Rgba {
                            r: matrix.at(2 * i2, 2 * j2) as u8,
                            g: matrix.at(2 * i2 + 1, 2 * j2) as u8,
                            b: matrix.at(2 * i2, 2 * j2 + 1) as u8,
                            a: matrix.at(2 * i2 + 1, 2 * j2 + 1) as u8,
                        }),
                    forall|j2: int|
                        #![trigger img.at(i as int, j2)]
                        0 <= j2 < j ==> img.at(i as int, j2) == (Rgba {
                            r: matrix.at(2 * (i as int), 2 * j2) as u8,
                            g: matrix.at(2 * (i as int) + 1, 2 * j2) as u8,
                            b: matrix.at(2 * (i as int), 2 * j2 + 1) as u8,
                            a: matrix.at(2 * (i as int) + 1, 2 * j2 + 1) as u8,
                        }),
                decreases width - j,
            {
                let r = matrix.get(2 * i, 2 * j);
                let g = matrix.get(2 * i + 1, 2 * j);
                let b = matrix.get(2 * i, 2 * j + 1);
                let a = matrix.get(2 * i + 1, 2 * j + 1);
                let p = Rgba {
                    r: #[verifier::truncate] (r as u8),
                    g: #[verifier::truncate] (g as u8),
                    b: #[verifier::truncate] (b as u8),
                    a: #[verifier::truncate] (a as u8),
                };
                img.set(i, j, p);
                j = j + 1;
            }
            i = i + 1;
        }
        img
    }
}

/// Rebuilds the RGB pixel grid out of a reconstructed matrix, as
/// [`imgbuf_from_matrix_rgba`] does but without an alpha channel.
pub fn imgbuf_from_matrix_rgb(matrix: &Matrix, aggregate: bool, aggregator: &Aggregator) -> (img:
    ImageRgb)
    requires
        matrix.wf(),
    ensures
        img.wf(),
        if aggregate {
            &&& img.height == matrix.height
            &&& img.width == matrix.width
            &&& forall|i: int, j: int|
                #![trigger img.at(i, j)]
                0 <= i < matrix.height && 0 <= j < matrix.width ==> img.at(i, j) == agg_rgb_unbits(
                    *aggregator,
                    bits_of_i32(matrix.at(i, j)),
                )
        } else {
            &&& img.height == matrix.height / 2
            &&& img.width == matrix.width / 2
            &&& forall|i: int, j: int|
                #![trigger img.at(i, j)]
                0 <= i < matrix.height / 2 && 0 <= j < matrix.width / 2 ==> img.at(i, j) == (Rgb {
                    r: matrix.at(2 * i, 2 * j) as u8,
                    g: matrix.at(2 * i + 1, 2 * j) as u8,
                    b: matrix.at(2 * i, 2 * j + 1) as u8,
                })
        },
{
    let black = Rgb { r: 0, g: 0, b: 0 };
    if aggregate {
        let height: usize = matrix.height;
        let width: usize = matrix.width;
        let mut img = crate::media::ImageRgb::filled(height, width, black);
        let mut i: usize = 0;
        while i < height
            invariant
                matrix.wf(),
                img.wf(),
                matrix.height == height,
                matrix.width == width,
                img.height == height,
                img.width == width,
                i <= height,
                forall|i2: int, j2: int|
                    #![trigger img.at(i2, j2)]
                    0 <= i2 < i && 0 <= j2 < width ==> img.at(i2, j2) == agg_rgb_unbits(
                        *aggregator,
                        bits_of_i32(matrix.at(i2, j2)),
                    ),
            decreases height - i,
        {
            let mut j: usize = 0;
            while j < width
                invariant
                    matrix.wf(),
                    img.wf(),
                    matrix.height == height,
                    matrix.width == width,
                    img.height == height,
                    img.width == width,
                    i < height,
                    j <= width,
                    forall|i2: int, j2: int|
                        #![trigger img.at(i2, j2)]
                        0 <= i2 < i && 0 <= j2 < width ==> img.at(i2, j2) == agg_rgb_unbits(
                            *aggregator,
                            bits_of_i32(matrix.at(i2, j2)),
                        ),
                    forall|j2: int|
                        #![trigger img.at(i as int, j2)]
                        0 <= j2 < j ==> img.at(i as int, j2) == agg_rgb_unbits(
                            *aggregator,
                            bits_of_i32(matrix.at(i as int, j2)),
                        ),
                decreases width - j,
            {
                let c = matrix.get(i, j);
                let p = aggregator.rgb_from_i32(c);
                img.set(i, j, p);
                j = j + 1;
            }
            i = i + 1;
        }
        img
    } else {
        let height: usize = matrix.height / 2;
        let width: usize = matrix.width / 2;
        proof {
            assert(height * width <= matrix.height * matrix.width) by (nonlinear_arith)
                requires
                    0 <= height <= matrix.height,
                    0 <= width <= matrix.width,
            ;
        }
        let mut img = crate::media::ImageRgb::filled(height, width, black);
        let mut i: usize = 0;
        while i < height
            invariant
                matrix.wf(),
                img.wf(),
                height == matrix.height / 2,
                width == matrix.width / 2,
                img.height == height,
                img.width == width,
                i <= height,
                forall|i2: int, j2: int|
                    #![trigger img.at(i2, j2)]
                    0 <= i2 < i && 0 <= j2 < width ==> img.at(i2, j2) == (Rgb {
                        r: matrix.at(2 * i2, 2 * j2) as u8,
                        g: matrix.at(2 * i2 + 1, 2 * j2) as u8,
                        b: matrix.at(2 * i2, 2 * j2 + 1) as u8,
                    }),
            decreases height - i,
        {
            let mut j: usize = 0;
            while j < width
                invariant
                    matrix.wf(),
                    img.wf(),
                    height == matrix.height / 2,
                    width == matrix.width / 2,
                    img.height == height,
                    img.width == width,
                    i < height,
                    j <= width,
                    forall|i2: int, j2: int|
                        #![trigger img.at(i2, j2)]
                        0 <= i2 < i && 0 <= j2 < width ==> img.at(i2, j2) == (Rgb {
                            r: matrix.at(2 * i2, 2 * j2) as u8,
                            g: matrix.at(2 * i2 + 1, 2 * j2) as u8,
                            b: matrix.at(2 * i2, 2 * j2 + 1) as u8,
                        }),
                    forall|j2: int|
                        #![trigger img.at(i as int, j2)]
                        0 <= j2 < j ==> img.at(i as int, j2) == (Rgb {
                            r: matrix.at(2 * (i as int), 2 * j2) as u8,
                            g: matrix.at(2 * (i as int) + 1, 2 * j2) as u8,
                            b: matrix.at(2 * (i as int), 2 * j2 + 1) as u8,
                        }),
                decreases width - j,
            {
                let r = matrix.get(2 * i, 2 * j);
                let g = matrix.get(2 * i + 1, 2 * j);
                let b = matrix.get(2 * i, 2 * j + 1);
                let p = Rgb {
                    r: #[verifier::truncate] (r as u8),
                    g: #[verifier::truncate] (g as u8),
                    b: #[verifier::truncate] (b as u8),
                };
                img.set(i, j, p);
                j = j + 1;
            }
            i = i + 1;
        }
        img
    }
}

/// Reassembles the PCM stream out of a reconstructed matrix, reading the
/// first `n` cells row-major and re-quantizing to the bit depth recorded in
/// the embedded audio header; an unsupported depth yields an empty payload.
pub fn sound_from_matrix(matrix: &Matrix, header: (AudioHeader, u32)) -> (s: SoundData)
    requires
        matrix.wf(),
        header.1 as int <= matrix.height * matrix.width,
    ensures
        ({
            let n = header.1 as int;
            let w = matrix.width as int;
            if header.0.bits_per_sample == 8 {
                match s {
                    SoundData::Eight(v) => v@.len() == n && forall|k: int|
                        #![trigger v@[k]]
                        0 <= k < n ==> v@[k] == matrix.at(k / w, k % w) as u8,
                    _ => false,
                }
            } else if header.0.bits_per_sample == 16 {
                match s {
                    SoundData::Sixteen(v) => v@.len() == n && forall|k: int|
                        #![trigger v@[k]]
                        0 <= k < n ==> v@[k] == matrix.at(k / w, k % w) as i16,
                    _ => false,
                }
            } else if header.0.bits_per_sample == 24 {
                match s {
                    SoundData::TwentyFour(v) => v@.len() == n && forall|k: int|
                        #![trigger v@[k]]
                        0 <= k < n ==> v@[k] == matrix.at(k / w, k % w),
                    _ => false,
                }
            } else {
                s == SoundData::Empty
            }
        }),
{
    let n: usize = header.1 as usize;
    let w: usize = matrix.width;
    let mut x: Vec<i32> = Vec::new();
    let mut k: usize = 0;
    while k < n
        invariant
            matrix.wf(),
            w == matrix.width,
            n as int <= matrix.height * matrix.width,
            k <= n,
            x@.len() == k,
            forall|t: int|
                #![trigger x@[t]]
                0 <= t < k ==> x@[t] == matrix.at(t / (w as int), t % (w as int)),
        decreases n - k,
    {
        proof {
            if w == 0 {
                assert(matrix.height * 0 == 0) by (nonlinear_arith);
            }
            lemma_row_major_bounds(k as int, matrix.height as int, w as int);
        }
        let i: usize = k / w;
        let j: usize = k % w;
        x.push(matrix.get(i, j));
        k = k + 1;
    }
    if header.0.bits_per_sample == 8 {
        let mut v: Vec<u8> = Vec::new();
        let mut t: usize = 0;
        while t < n
            invariant
                t <= n,
                x@.len() == n,
                v@.len() == t,
                forall|q: int| #![trigger v@[q]] 0 <= q < t ==> v@[q] == x@[q] as u8,
            decreases n - t,
        {
            v.push(#[verifier::truncate] (x[t] as u8));
            t = t + 1;
        }
        SoundData::Eight(v)
    } else if header.0.bits_per_sample == 16 {
        let mut v: Vec<i16> = Vec::new();
        let mut t: usize = 0;
        while t < n
            invariant
                t <= n,
                x@.len() == n,
                v@.len() == t,
                forall|q: int| #![trigger v@[q]] 0 <= q < t ==> v@[q] == x@[q] as i16,
            decreases n - t,
        {
            v.push(#[verifier::truncate] (x[t] as i16));
            t = t + 1;
        }
        SoundData::Sixteen(v)
    } else if header.0.bits_per_sample == 24 {
        SoundData::TwentyFour(x)
    } else {
        SoundData::Empty
    }
}

} // verus!
