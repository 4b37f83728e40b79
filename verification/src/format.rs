//! The binary container layout, described byte by byte at the spec level.
//!
//! A container is, in order: one content-type flags byte; if the file is
//! audio, a fixed 16-byte source-audio-format blob and a 32-bit sample count;
//! the triplet count, height and width as big-endian 32-bit fields; then the
//! triplet stream, each triplet a weight scalar followed by `height` left
//! scalars and `width` right scalars. Scalars are the big-endian bytes of the
//! IEEE-754 bit patterns, 4 bytes per scalar in single precision and 8 in
//! double precision.

use vstd::prelude::*;

verus! {

/// The embedded source-audio-format header: the six fields of a WAV format
/// chunk, which the source container stores little-endian in 16 bytes.
#[derive(Debug, Clone, Copy, PartialEq, Eq, Structural)]
pub struct AudioHeader {
    pub audio_format: u16,
    pub channel_count: u16,
    pub sampling_rate: u32,
    pub bytes_per_second: u32,
    pub bytes_per_sample: u16,
    pub bits_per_sample: u16,
}

/// The content-type flags at the front of a container, plus the audio
/// metadata that follows them when the file is audio.
#[derive(Debug, Clone, Copy, PartialEq, Eq)]
pub struct FileHeader {
    pub is_wav: bool,
    pub use_f64: bool,
    pub with_alpha: bool,
    pub use_aggregate: bool,
    pub audio: Option<(AudioHeader, u32)>,
}

impl FileHeader {
    /// Audio metadata is present exactly when the file is audio.
    pub open spec fn wf(&self) -> bool {
        self.audio.is_some() == self.is_wav
    }
}

/// 1 when the flag is set, 0 otherwise.
pub open spec fn bit_val(b: bool) -> u8 {
    if b {
        1
    } else {
        0
    }
}

/// The content-type flags byte: bit 3 audio, bit 2 double precision,
/// bit 1 alpha channel, bit 0 aggregation.
pub open spec fn flags_byte(h: FileHeader) -> u8 {
    (8 * bit_val(h.is_wav) + 4 * bit_val(h.use_f64) + 2 * bit_val(h.with_alpha) + bit_val(
        h.use_aggregate,
    )) as u8
}

/// The two little-endian bytes of a 16-bit value.
pub open spec fn u16_le_bytes(x: u16) -> Seq<u8> {
    seq![(x & 0xff) as u8, ((x >> 8u16) & 0xff) as u8]
}

/// The four little-endian bytes of a 32-bit value.
pub open spec fn u32_le_bytes(x: u32) -> Seq<u8> {
    seq![
        (x & 0xff) as u8,
        ((x >> 8u32) & 0xff) as u8,
        ((x >> 16u32) & 0xff) as u8,
        ((x >> 24u32) & 0xff) as u8,
    ]
}

/// The four big-endian bytes of a 32-bit value.
pub open spec fn u32_be_bytes(x: u32) -> Seq<u8> {
    seq![
        ((x >> 24u32) & 0xff) as u8,
        ((x >> 16u32) & 0xff) as u8,
        ((x >> 8u32) & 0xff) as u8,
        (x & 0xff) as u8,
    ]
}

/// The eight big-endian bytes of a 64-bit value.
pub open spec fn u64_be_bytes(x: u64) -> Seq<u8> {
    seq![
        ((x >> 56u64) & 0xff) as u8,
        ((x >> 48u64) & 0xff) as u8,
        ((x >> 40u64) & 0xff) as u8,
        ((x >> 32u64) & 0xff) as u8,
        ((x >> 24u64) & 0xff) as u8,
        ((x >> 16u64) & 0xff) as u8,
        ((x >> 8u64) & 0xff) as u8,
        (x & 0xff) as u8,
    ]
}

/// The 32-bit value whose big-endian bytes are the first four of `s`.
pub open spec fn u32_from_be(s: Seq<u8>) -> u32 {
    ((s[0] as u32) << 24u32) | ((s[1] as u32) << 16u32) | ((s[2] as u32) << 8u32) | (s[3] as u32)
}

/// Serializing a 32-bit value and reading it back is the identity, in both
/// directions.
pub proof fn lemma_u32_be_roundtrip(x: u32, s: Seq<u8>)
    ensures
        u32_from_be(u32_be_bytes(x)) == x,
        s.len() == 4 ==> u32_be_bytes(u32_from_be(s)) == s,
{
    let b0 = (x >> 24u32) & 0xff;
    let b1 = (x >> 16u32) & 0xff;
    let b2 = (x >> 8u32) & 0xff;
    let b3 = x & 0xff;
    assert(((((x >> 24u32) & 0xff) as u8 as u32) << 24u32) | ((((x >> 16u32) & 0xff) as u8 as u32)
        << 16u32) | ((((x >> 8u32) & 0xff) as u8 as u32) << 8u32) | ((x & 0xff) as u8 as u32)
        == x) by (bit_vector);
    if s.len() == 4 {
        let c0 = s[0];
        let c1 = s[1];
        let c2 = s[2];
        let c3 = s[3];
        let v = ((c0 as u32) << 24u32) | ((c1 as u32) << 16u32) | ((c2 as u32) << 8u32) | (
        c3 as u32);
        assert(((v >> 24u32) & 0xff) as u8 == c0 && ((v >> 16u32) & 0xff) as u8 == c1 && ((v
            >> 8u32) & 0xff) as u8 == c2 && (v & 0xff) as u8 == c3) by (bit_vector)
            requires
                v == ((c0 as u32) << 24u32) | ((c1 as u32) << 16u32) | ((c2 as u32) << 8u32) | (
                c3 as u32),
        ;
        assert(u32_be_bytes(u32_from_be(s)) =~= s);
    }
}

/// The prefix of a scalar vector serializes to a prefix of its bytes.
pub proof fn lemma_scalars32_bytes_take(s: Seq<u32>, k: int)
    requires
        0 <= k < s.len(),
    ensures
        scalars32_bytes(s.take(k + 1)) == scalars32_bytes(s.take(k)) + u32_be_bytes(s[k]),
{
    assert(s.take(k + 1).drop_last() =~= s.take(k));
    assert(s.take(k + 1).last() == s[k]);
}

/// The prefix of a scalar vector serializes to a prefix of its bytes.
pub proof fn lemma_scalars64_bytes_take(s: Seq<u64>, k: int)
    requires
        0 <= k < s.len(),
    ensures
        scalars64_bytes(s.take(k + 1)) == scalars64_bytes(s.take(k)) + u64_be_bytes(s[k]),
{
    assert(s.take(k + 1).drop_last() =~= s.take(k));
    assert(s.take(k + 1).last() == s[k]);
}

/// The 16-byte blob of the embedded audio header.
pub open spec fn audio_header_bytes(h: AudioHeader) -> Seq<u8> {
    u16_le_bytes(h.audio_format) + u16_le_bytes(h.channel_count) + u32_le_bytes(h.sampling_rate)
        + u32_le_bytes(h.bytes_per_second) + u16_le_bytes(h.bytes_per_sample) + u16_le_bytes(
        h.bits_per_sample,
    )
}

/// The bytes in front of the dimension fields: the flags byte, and for audio
/// the 16-byte blob and the big-endian sample count.
pub open spec fn header_bytes(h: FileHeader) -> Seq<u8> {
    seq![flags_byte(h)] + match h.audio {
        Some((ah, count)) => audio_header_bytes(ah) + u32_be_bytes(count),
        None => Seq::<u8>::empty(),
    }
}

/// The triplet count, height and width fields.
pub open spec fn dims_bytes(n: u32, height: u32, width: u32) -> Seq<u8> {
    u32_be_bytes(n) + u32_be_bytes(height) + u32_be_bytes(width)
}

/// The concatenated big-endian bytes of a single-precision scalar vector.
pub open spec fn scalars32_bytes(s: Seq<u32>) -> Seq<u8>
    decreases s.len(),
{
    if s.len() == 0 {
        Seq::<u8>::empty()
    } else {
        scalars32_bytes(s.drop_last()) + u32_be_bytes(s.last())
    }
}

/// The concatenated big-endian bytes of a double-precision scalar vector.
pub open spec fn scalars64_bytes(s: Seq<u64>) -> Seq<u8>
    decreases s.len(),
{
    if s.len() == 0 {
        Seq::<u8>::empty()
    } else {
        scalars64_bytes(s.drop_last()) + u64_be_bytes(s.last())
    }
}

/// One single-precision triplet: the weight, the left vector, the right vector.
pub open spec fn triplet32_bytes(t: (u32, Vec<u32>, Vec<u32>)) -> Seq<u8> {
    u32_be_bytes(t.0) + scalars32_bytes(t.1@) + scalars32_bytes(t.2@)
}

/// One double-precision triplet: the weight, the left vector, the right vector.
pub open spec fn triplet64_bytes(t: (u64, Vec<u64>, Vec<u64>)) -> Seq<u8> {
    u64_be_bytes(t.0) + scalars64_bytes(t.1@) + scalars64_bytes(t.2@)
}

/// The concatenated single-precision triplet stream.
pub open spec fn triplets32_bytes(ts: Seq<(u32, Vec<u32>, Vec<u32>)>) -> Seq<u8>
    decreases ts.len(),
{
    if ts.len() == 0 {
        Seq::<u8>::empty()
    } else {
        triplets32_bytes(ts.drop_last()) + triplet32_bytes(ts.last())
    }
}

/// The concatenated double-precision triplet stream.
pub open spec fn triplets64_bytes(ts: Seq<(u64, Vec<u64>, Vec<u64>)>) -> Seq<u8>
    decreases ts.len(),
{
    if ts.len() == 0 {
        Seq::<u8>::empty()
    } else {
        triplets64_bytes(ts.drop_last()) + triplet64_bytes(ts.last())
    }
}

/// Every triplet of the stream has a left vector of `h` scalars and a right
/// vector of `w` scalars.
pub open spec fn triplets32_wf(ts: Seq<(u32, Vec<u32>, Vec<u32>)>, h: int, w: int) -> bool {
    forall|k: int| 0 <= k < ts.len() ==> (#[trigger] ts[k]).1.len() == h && ts[k].2.len() == w
}

/// Every triplet of the stream has a left vector of `h` scalars and a right
/// vector of `w` scalars.
pub open spec fn triplets64_wf(ts: Seq<(u64, Vec<u64>, Vec<u64>)>, h: int, w: int) -> bool {
    forall|k: int| 0 <= k < ts.len() ==> (#[trigger] ts[k]).1.len() == h && ts[k].2.len() == w
}

pub proof fn lemma_scalars32_bytes_len(s: Seq<u32>)
    ensures
        scalars32_bytes(s).len() == 4 * s.len(),
    decreases s.len(),
{
    if s.len() > 0 {
        lemma_scalars32_bytes_len(s.drop_last());
    }
}

pub proof fn lemma_scalars64_bytes_len(s: Seq<u64>)
    ensures
        scalars64_bytes(s).len() == 8 * s.len(),
    decreases s.len(),
{
    if s.len() > 0 {
        lemma_scalars64_bytes_len(s.drop_last());
    }
}

pub proof fn lemma_triplets32_bytes_len(ts: Seq<(u32, Vec<u32>, Vec<u32>)>, h: int, w: int)
    requires
        triplets32_wf(ts, h, w),
        h >= 0,
        w >= 0,
    ensures
        triplets32_bytes(ts).len() == ts.len() * (4 * (1 + h + w)),
    decreases ts.len(),
{
    if ts.len() > 0 {
        assert(triplets32_wf(ts.drop_last(), h, w));
        lemma_triplets32_bytes_len(ts.drop_last(), h, w);
        lemma_scalars32_bytes_len(ts.last().1@);
        lemma_scalars32_bytes_len(ts.last().2@);
        assert((ts.len() - 1) * (4 * (1 + h + w)) + (4 + 4 * h + 4 * w) == ts.len() * (4 * (1 + h
            + w))) by (nonlinear_arith);
    }
}

pub proof fn lemma_triplets64_bytes_len(ts: Seq<(u64, Vec<u64>, Vec<u64>)>, h: int, w: int)
    requires
        triplets64_wf(ts, h, w),
        h >= 0,
        w >= 0,
    ensures
        triplets64_bytes(ts).len() == ts.len() * (8 * (1 + h + w)),
    decreases ts.len(),
{
    if ts.len() > 0 {
        assert(triplets64_wf(ts.drop_last(), h, w));
        lemma_triplets64_bytes_len(ts.drop_last(), h, w);
        lemma_scalars64_bytes_len(ts.last().1@);
        lemma_scalars64_bytes_len(ts.last().2@);
        assert((ts.len() - 1) * (8 * (1 + h + w)) + (8 + 8 * h + 8 * w) == ts.len() * (8 * (1 + h
            + w))) by (nonlinear_arith);
    }
}

/// Appending one scalar appends its bytes.
pub proof fn lemma_scalars32_bytes_push(s: Seq<u32>, x: u32)
    ensures
        scalars32_bytes(s.push(x)) == scalars32_bytes(s) + u32_be_bytes(x),
{
    assert(s.push(x).drop_last() =~= s);
    assert(s.push(x).last() == x);
}

/// Appending one scalar appends its bytes.
pub proof fn lemma_scalars64_bytes_push(s: Seq<u64>, x: u64)
    ensures
        scalars64_bytes(s.push(x)) == scalars64_bytes(s) + u64_be_bytes(x),
{
    assert(s.push(x).drop_last() =~= s);
    assert(s.push(x).last() == x);
}

/// Appending one triplet appends its bytes.
pub proof fn lemma_triplets32_bytes_push(ts: Seq<(u32, Vec<u32>, Vec<u32>)>, t: (u32, Vec<u32>, Vec<u32>))
    ensures
        triplets32_bytes(ts.push(t)) == triplets32_bytes(ts) + triplet32_bytes(t),
{
    assert(ts.push(t).drop_last() =~= ts);
    assert(ts.push(t).last() == t);
}

/// Appending one triplet appends its bytes.
pub proof fn lemma_triplets64_bytes_push(ts: Seq<(u64, Vec<u64>, Vec<u64>)>, t: (u64, Vec<u64>, Vec<u64>))
    ensures
        triplets64_bytes(ts.push(t)) == triplets64_bytes(ts) + triplet64_bytes(t),
{
    assert(ts.push(t).drop_last() =~= ts);
    assert(ts.push(t).last() == t);
}

/// The prefix of a triplet stream serializes to a prefix of its bytes.
pub proof fn lemma_triplets32_bytes_take(ts: Seq<(u32, Vec<u32>, Vec<u32>)>, k: int)
    requires
        0 <= k < ts.len(),
    ensures
        triplets32_bytes(ts.take(k + 1)) == triplets32_bytes(ts.take(k)) + triplet32_bytes(ts[k]),
{
    assert(ts.take(k + 1).drop_last() =~= ts.take(k));
    assert(ts.take(k + 1).last() == ts[k]);
}

/// The prefix of a triplet stream serializes to a prefix of its bytes.
pub proof fn lemma_triplets64_bytes_take(ts: Seq<(u64, Vec<u64>, Vec<u64>)>, k: int)
    requires
        0 <= k < ts.len(),
    ensures
        triplets64_bytes(ts.take(k + 1)) == triplets64_bytes(ts.take(k)) + triplet64_bytes(ts[k]),
{
    assert(ts.take(k + 1).drop_last() =~= ts.take(k));
    assert(ts.take(k + 1).last() == ts[k]);
}

/// The bytes of a truncated triplet stream are a prefix of the stream's bytes.
pub proof fn lemma_triplets32_bytes_take_prefix(ts: Seq<(u32, Vec<u32>, Vec<u32>)>, k: int, h: int, w: int)
    requires
        triplets32_wf(ts, h, w),
        0 <= k <= ts.len(),
        h >= 0,
        w >= 0,
    ensures
        triplets32_bytes(ts.take(k)) == triplets32_bytes(ts).subrange(0, k * (4 * (1 + h + w))),
    decreases ts.len(),
{
    let t = 4 * (1 + h + w);
    lemma_triplets32_bytes_len(ts, h, w);
    if k == ts.len() {
        assert(ts.take(k) =~= ts);
        assert(triplets32_bytes(ts).subrange(0, k * t) =~= triplets32_bytes(ts));
    } else {
        let dl = ts.drop_last();
        assert(triplets32_wf(dl, h, w));
        lemma_triplets32_bytes_take_prefix(dl, k, h, w);
        lemma_triplets32_bytes_len(dl, h, w);
        assert(ts.take(k) =~= dl.take(k));
        assert(k * t <= (ts.len() - 1) * t) by (nonlinear_arith)
            requires
                k <= ts.len() - 1,
                t >= 0,
        ;
        assert(triplets32_bytes(ts).subrange(0, k * t) =~= triplets32_bytes(dl).subrange(0, k * t));
    }
}

/// The bytes of a truncated triplet stream are a prefix of the stream's bytes.
pub proof fn lemma_triplets64_bytes_take_prefix(ts: Seq<(u64, Vec<u64>, Vec<u64>)>, k: int, h: int, w: int)
    requires
        triplets64_wf(ts, h, w),
        0 <= k <= ts.len(),
        h >= 0,
        w >= 0,
    ensures
        triplets64_bytes(ts.take(k)) == triplets64_bytes(ts).subrange(0, k * (8 * (1 + h + w))),
    decreases ts.len(),
{
    let t = 8 * (1 + h + w);
    lemma_triplets64_bytes_len(ts, h, w);
    if k == ts.len() {
        assert(ts.take(k) =~= ts);
        assert(triplets64_bytes(ts).subrange(0, k * t) =~= triplets64_bytes(ts));
    } else {
        let dl = ts.drop_last();
        assert(triplets64_wf(dl, h, w));
        lemma_triplets64_bytes_take_prefix(dl, k, h, w);
        lemma_triplets64_bytes_len(dl, h, w);
        assert(ts.take(k) =~= dl.take(k));
        assert(k * t <= (ts.len() - 1) * t) by (nonlinear_arith)
            requires
                k <= ts.len() - 1,
                t >= 0,
        ;
        assert(triplets64_bytes(ts).subrange(0, k * t) =~= triplets64_bytes(dl).subrange(0, k * t));
    }
}

proof fn lemma_u16_le_parts(x: u16)
    by (bit_vector)
    ensures
        x & 0xff < 256,
        (x >> 8u16) & 0xff < 256,
{
}

proof fn lemma_u16_le_recompose(b0: u8, b1: u8)
    by (bit_vector)
    ensures
        (((b0 as u16) | ((b1 as u16) << 8u16)) & 0xff) as u8 == b0,
        ((((b0 as u16) | ((b1 as u16) << 8u16)) >> 8u16) & 0xff) as u8 == b1,
{
}

impl AudioHeader {
    /// The 16-byte little-endian blob the container embeds.
    pub fn to_bytes(&self) -> (b: Vec<u8>)
        ensures
            b@ == audio_header_bytes(*self),
            b@.len() == 16,
    {
        proof {
            lemma_u16_le_parts(self.audio_format);
            lemma_u16_le_parts(self.channel_count);
            lemma_u16_le_parts(self.bytes_per_sample);
            lemma_u16_le_parts(self.bits_per_sample);
        }
        let mut b: Vec<u8> = Vec::new();
        b.push((self.audio_format & 0xff) as u8);
        b.push(((self.audio_format >> 8u16) & 0xff) as u8);
        b.push((self.channel_count & 0xff) as u8);
        b.push(((self.channel_count >> 8u16) & 0xff) as u8);
        push_u32_le(&mut b, self.sampling_rate);
        push_u32_le(&mut b, self.bytes_per_second);
        b.push((self.bytes_per_sample & 0xff) as u8);
        b.push(((self.bytes_per_sample >> 8u16) & 0xff) as u8);
        b.push((self.bits_per_sample & 0xff) as u8);
        b.push(((self.bits_per_sample >> 8u16) & 0xff) as u8);
        assert(b@ =~= audio_header_bytes(*self));
        b
    }

    /// Reads the six fields back out of a 16-byte blob. Every 16-byte blob
    /// is the image of exactly one header, so this is a full inverse.
    pub fn from_bytes(b: &Vec<u8>) -> (h: AudioHeader)
        requires
            b@.len() == 16,
        ensures
            audio_header_bytes(h) == b@,
    {
        let h = AudioHeader {
            audio_format: (b[0] as u16) | ((b[1] as u16) << 8u16),
            channel_count: (b[2] as u16) | ((b[3] as u16) << 8u16),
            sampling_rate: u32_from_le(b[4], b[5], b[6], b[7]),
            bytes_per_second: u32_from_le(b[8], b[9], b[10], b[11]),
            bytes_per_sample: (b[12] as u16) | ((b[13] as u16) << 8u16),
            bits_per_sample: (b[14] as u16) | ((b[15] as u16) << 8u16),
        };
        proof {
            lemma_u16_le_recompose(b@[0], b@[1]);
            lemma_u16_le_recompose(b@[2], b@[3]);
            lemma_u16_le_recompose(b@[12], b@[13]);
            lemma_u16_le_recompose(b@[14], b@[15]);
            assert(audio_header_bytes(h) =~= b@);
        }
        h
    }
}

proof fn lemma_u32_le_parts(x: u32)
    by (bit_vector)
    ensures
        x & 0xff < 256,
        (x >> 8u32) & 0xff < 256,
        (x >> 16u32) & 0xff < 256,
        (x >> 24u32) & 0xff < 256,
{
}

proof fn lemma_u32_le_recompose(b0: u8, b1: u8, b2: u8, b3: u8)
    by (bit_vector)
    ensures
        (((b0 as u32) | ((b1 as u32) << 8u32) | ((b2 as u32) << 16u32) | ((b3 as u32) << 24u32))
            & 0xff) as u8 == b0,
        ((((b0 as u32) | ((b1 as u32) << 8u32) | ((b2 as u32) << 16u32) | ((b3 as u32) << 24u32))
            >> 8u32) & 0xff) as u8 == b1,
        ((((b0 as u32) | ((b1 as u32) << 8u32) | ((b2 as u32) << 16u32) | ((b3 as u32) << 24u32))
            >> 16u32) & 0xff) as u8 == b2,
        ((((b0 as u32) | ((b1 as u32) << 8u32) | ((b2 as u32) << 16u32) | ((b3 as u32) << 24u32))
            >> 24u32) & 0xff) as u8 == b3,
{
}

/// Appends the four little-endian bytes of `x`.
fn push_u32_le(b: &mut Vec<u8>, x: u32)
    ensures
        final(b)@ == old(b)@ + u32_le_bytes(x),
{
    proof {
        lemma_u32_le_parts(x);
    }
    b.push((x & 0xff) as u8);
    b.push(((x >> 8u32) & 0xff) as u8);
    b.push(((x >> 16u32) & 0xff) as u8);
    b.push(((x >> 24u32) & 0xff) as u8);
    assert(final(b)@ =~= old(b)@ + u32_le_bytes(x));
}

/// The 32-bit value with the given little-endian bytes.
fn u32_from_le(b0: u8, b1: u8, b2: u8, b3: u8) -> (x: u32)
    ensures
        u32_le_bytes(x) == seq![b0, b1, b2, b3],
{
    let x: u32 = (b0 as u32) | ((b1 as u32) << 8u32) | ((b2 as u32) << 16u32) | ((b3 as u32)
        << 24u32);
    proof {
        lemma_u32_le_recompose(b0, b1, b2, b3);
        assert(u32_le_bytes(x) =~= seq![b0, b1, b2, b3]);
    }
    x
}

/// The flags byte decodes back to the flags that built it.
pub proof fn lemma_flags_byte_bits(h: FileHeader)
    ensures
        (flags_byte(h) & 0x8 != 0) == h.is_wav,
        (flags_byte(h) & 0x4 != 0) == h.use_f64,
        (flags_byte(h) & 0x2 != 0) == h.with_alpha,
        (flags_byte(h) & 0x1 != 0) == h.use_aggregate,
{
    let w = bit_val(h.is_wav);
    let f = bit_val(h.use_f64);
    let al = bit_val(h.with_alpha);
    let ag = bit_val(h.use_aggregate);
    assert(((8 * w + 4 * f + 2 * al + ag) as u8 & 0x8 != 0) == (w == 1) && ((8 * w + 4 * f + 2 * al
        + ag) as u8 & 0x4 != 0) == (f == 1) && ((8 * w + 4 * f + 2 * al + ag) as u8 & 0x2 != 0)
        == (al == 1) && ((8 * w + 4 * f + 2 * al + ag) as u8 & 0x1 != 0) == (ag == 1)) by (bit_vector)
        requires
            w <= 1 && f <= 1 && al <= 1 && ag <= 1,
    ;
}

} // verus!
