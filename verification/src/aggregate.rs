//! The aggregation codec: two interchangeable, bijective mappings between a
//! pixel's channel bytes and a single 32-bit integer.
//!
//! The bit-interleaving scheme ([`Aggregator1`]) relocates bit `i` of each
//! channel byte into a 4-bit (RGBA) or 3-bit (RGB) group at bit offset `4*i`
//! (or `3*i`), red highest inside the group, alpha lowest. The byte-packing
//! scheme ([`Aggregator2`]) stores each channel in a fixed 8-bit field, alpha
//! highest, red lowest. Both directions are exact inverses over every legal
//! channel tuple, which the round-trip lemmas below prove.

use vstd::prelude::*;

verus! {

/// One pixel with red, green, blue and alpha channels of 8 bits each.
#[derive(Debug, Clone, Copy, PartialEq, Eq, Structural)]
pub struct Rgba {
    pub r: u8,
    pub g: u8,
    pub b: u8,
    pub a: u8,
}

/// One pixel with red, green and blue channels of 8 bits each.
#[derive(Debug, Clone, Copy, PartialEq, Eq, Structural)]
pub struct Rgb {
    pub r: u8,
    pub g: u8,
    pub b: u8,
}

/// The signed integer that carries the 32-bit pattern `v` in a matrix cell.
pub open spec fn i32_of_bits(v: u32) -> i32 {
    if v < 0x8000_0000 {
        v as i32
    } else {
        (v - 0x1_0000_0000) as i32
    }
}

/// The 32-bit pattern behind the matrix cell value `x`.
pub open spec fn bits_of_i32(x: i32) -> u32 {
    if x >= 0 {
        x as u32
    } else {
        (x + 0x1_0000_0000) as u32
    }
}

pub proof fn lemma_bits_of_i32_of_bits(v: u32)
    ensures
        bits_of_i32(i32_of_bits(v)) == v,
{
}

pub proof fn lemma_i32_of_bits_of_i32(x: i32)
    ensures
        i32_of_bits(bits_of_i32(x)) == x,
{
}

fn to_i32_bits(v: u32) -> (r: i32)
    ensures
        r == i32_of_bits(v),
        bits_of_i32(r) == v,
{
    if v < 0x8000_0000 {
        v as i32
    } else {
        ((v as i64) - 0x1_0000_0000) as i32
    }
}

fn from_i32_bits(x: i32) -> (r: u32)
    ensures
        r == bits_of_i32(x),
        i32_of_bits(r) == x,
{
    if x >= 0 {
        x as u32
    } else {
        ((x as i64) + 0x1_0000_0000) as u32
    }
}

proof fn lemma_low_byte(x: u32)
    by (bit_vector)
    ensures
        x & 0xff < 256,
{
}

/// Bit `i` of `x`, relocated to bit `4*i` of the result.
pub open spec fn spread4(x: u8) -> u32 {
    ((x & 1) as u32) | (((x & 2) as u32) << 3u32) | (((x & 4) as u32) << 6u32) | (((x
        & 8) as u32) << 9u32) | (((x & 16) as u32) << 12u32) | (((x & 32) as u32) << 15u32) | (((x
        & 64) as u32) << 18u32) | (((x & 128) as u32) << 21u32)
}

/// Bits `4*i` of `v`, gathered back into bit `i` of a byte.
pub open spec fn gather4(v: u32) -> u8 {
    (((v & 1) | ((v >> 3u32) & 2) | ((v >> 6u32) & 4) | ((v >> 9u32) & 8) | ((v >> 12u32) & 16) | (
    (v >> 15u32) & 32) | ((v >> 18u32) & 64) | ((v >> 21u32) & 128)) & 0xff) as u8
}

/// Bit `i` of `x`, relocated to bit `3*i` of the result.
pub open spec fn spread3(x: u8) -> u32 {
    ((x & 1) as u32) | (((x & 2) as u32) << 2u32) | (((x & 4) as u32) << 4u32) | (((x
        & 8) as u32) << 6u32) | (((x & 16) as u32) << 8u32) | (((x & 32) as u32) << 10u32) | (((x
        & 64) as u32) << 12u32) | (((x & 128) as u32) << 14u32)
}

/// Bits `3*i` of `v`, gathered back into bit `i` of a byte.
pub open spec fn gather3(v: u32) -> u8 {
    (((v & 1) | ((v >> 2u32) & 2) | ((v >> 4u32) & 4) | ((v >> 6u32) & 8) | ((v >> 8u32) & 16) | ((
    v >> 10u32) & 32) | ((v >> 12u32) & 64) | ((v >> 14u32) & 128)) & 0xff) as u8
}

fn spread4_e(x: u8) -> (r: u32)
    ensures
        r == spread4(x),
{
    ((x & 1) as u32) | (((x & 2) as u32) << 3u32) | (((x & 4) as u32) << 6u32) | (((x
        & 8) as u32) << 9u32) | (((x & 16) as u32) << 12u32) | (((x & 32) as u32) << 15u32) | (((x
        & 64) as u32) << 18u32) | (((x & 128) as u32) << 21u32)
}

fn gather4_e(v: u32) -> (r: u8)
    ensures
        r == gather4(v),
{
    let t: u32 = (v & 1) | ((v >> 3u32) & 2) | ((v >> 6u32) & 4) | ((v >> 9u32) & 8) | ((v
        >> 12u32) & 16) | ((v >> 15u32) & 32) | ((v >> 18u32) & 64) | ((v >> 21u32) & 128);
    proof {
        lemma_low_byte(t);
    }
    (t & 0xff) as u8
}

fn spread3_e(x: u8) -> (r: u32)
    ensures
        r == spread3(x),
{
    ((x & 1) as u32) | (((x & 2) as u32) << 2u32) | (((x & 4) as u32) << 4u32) | (((x
        & 8) as u32) << 6u32) | (((x & 16) as u32) << 8u32) | (((x & 32) as u32) << 10u32) | (((x
        & 64) as u32) << 12u32) | (((x & 128) as u32) << 14u32)
}

fn gather3_e(v: u32) -> (r: u8)
    ensures
        r == gather3(v),
{
    let t: u32 = (v & 1) | ((v >> 2u32) & 2) | ((v >> 4u32) & 4) | ((v >> 6u32) & 8) | ((v
        >> 8u32) & 16) | ((v >> 10u32) & 32) | ((v >> 12u32) & 64) | ((v >> 14u32) & 128);
    proof {
        lemma_low_byte(t);
    }
    (t & 0xff) as u8
}

/// The bit-interleaved packing of four channel bytes: channel bit `i` lands
/// in the group at bit `4*i`, order red, green, blue, alpha from high to low.
pub open spec fn interleave4(r: u8, g: u8, b: u8, a: u8) -> u32 {
    (spread4(r) << 3u32) | (spread4(g) << 2u32) | (spread4(b) << 1u32) | spread4(a)
}

/// The bit-interleaved packing of three channel bytes into 3-bit groups.
pub open spec fn interleave3(r: u8, g: u8, b: u8) -> u32 {
    (spread3(r) << 2u32) | (spread3(g) << 1u32) | spread3(b)
}

/// What the bit-interleaving scheme packs an RGBA pixel to.
pub open spec fn interleave_rgba(p: Rgba) -> u32 {
    interleave4(p.r, p.g, p.b, p.a)
}

/// The inverse of [`interleave_rgba`]: each group scatters back into the channels.
pub open spec fn deinterleave_rgba(v: u32) -> Rgba {
    Rgba { r: gather4(v >> 3u32), g: gather4(v >> 2u32), b: gather4(v >> 1u32), a: gather4(v) }
}

/// What the bit-interleaving scheme packs an RGB pixel to.
pub open spec fn interleave_rgb(p: Rgb) -> u32 {
    interleave3(p.r, p.g, p.b)
}

/// The inverse of [`interleave_rgb`].
pub open spec fn deinterleave_rgb(v: u32) -> Rgb {
    Rgb { r: gather3(v >> 2u32), g: gather3(v >> 1u32), b: gather3(v) }
}

/// The byte-packed value of four channels: alpha highest, red lowest.
pub open spec fn pack4(r: u8, g: u8, b: u8, a: u8) -> u32 {
    ((a as u32) << 24u32) | ((b as u32) << 16u32) | ((g as u32) << 8u32) | (r as u32)
}

/// The byte-packed value of three channels: blue highest, red lowest.
pub open spec fn pack3(r: u8, g: u8, b: u8) -> u32 {
    ((b as u32) << 16u32) | ((g as u32) << 8u32) | (r as u32)
}

/// What the byte-packing scheme packs an RGBA pixel to.
pub open spec fn pack_rgba(p: Rgba) -> u32 {
    pack4(p.r, p.g, p.b, p.a)
}

/// The inverse of [`pack_rgba`]: each 8-bit field shifted and masked back out.
pub open spec fn unpack_rgba(v: u32) -> Rgba {
    Rgba {
        r: (v & 0xff) as u8,
        g: ((v >> 8u32) & 0xff) as u8,
        b: ((v >> 16u32) & 0xff) as u8,
        a: ((v >> 24u32) & 0xff) as u8,
    }
}

/// What the byte-packing scheme packs an RGB pixel to.
pub open spec fn pack_rgb(p: Rgb) -> u32 {
    pack3(p.r, p.g, p.b)
}

/// The inverse of [`pack_rgb`].
pub open spec fn unpack_rgb(v: u32) -> Rgb {
    Rgb { r: (v & 0xff) as u8, g: ((v >> 8u32) & 0xff) as u8, b: ((v >> 16u32) & 0xff) as u8 }
}

/// The bit-interleaving aggregation scheme.
#[derive(Debug, Clone, Copy, PartialEq, Eq, Structural)]
pub struct Aggregator1;

/// The byte-packing aggregation scheme.
#[derive(Debug, Clone, Copy, PartialEq, Eq, Structural)]
pub struct Aggregator2;

impl Aggregator1 {
    pub fn i32_from_rgba(&self, p: Rgba) -> (x: i32)
        ensures
            x == i32_of_bits(interleave_rgba(p)),
            bits_of_i32(x) == interleave_rgba(p),
    {
        let v: u32 = (spread4_e(p.r) << 3u32) | (spread4_e(p.g) << 2u32) | (spread4_e(p.b)
            << 1u32) | spread4_e(p.a);
        to_i32_bits(v)
    }

    pub fn i32_from_rgb(&self, p: Rgb) -> (x: i32)
        ensures
            x == i32_of_bits(interleave_rgb(p)),
            bits_of_i32(x) == interleave_rgb(p),
    {
        let v: u32 = (spread3_e(p.r) << 2u32) | (spread3_e(p.g) << 1u32) | spread3_e(p.b);
        to_i32_bits(v)
    }

    pub fn rgba_from_i32(&self, x: i32) -> (p: Rgba)
        ensures
            p == deinterleave_rgba(bits_of_i32(x)),
    {
        let v: u32 = from_i32_bits(x);
        Rgba {
            r: gather4_e(v >> 3u32),
            g: gather4_e(v >> 2u32),
            b: gather4_e(v >> 1u32),
            a: gather4_e(v),
        }
    }

    pub fn rgb_from_i32(&self, x: i32) -> (p: Rgb)
        ensures
            p == deinterleave_rgb(bits_of_i32(x)),
    {
        let v: u32 = from_i32_bits(x);
        Rgb { r: gather3_e(v >> 2u32), g: gather3_e(v >> 1u32), b: gather3_e(v) }
    }
}

impl Aggregator2 {
    pub fn i32_from_rgba(&self, p: Rgba) -> (x: i32)
        ensures
            x == i32_of_bits(pack_rgba(p)),
            bits_of_i32(x) == pack_rgba(p),
    {
        let v: u32 = ((p.a as u32) << 24u32) | ((p.b as u32) << 16u32) | ((p.g as u32) << 8u32) | (
        p.r as u32);
        to_i32_bits(v)
    }

    pub fn i32_from_rgb(&self, p: Rgb) -> (x: i32)
        ensures
            x == i32_of_bits(pack_rgb(p)),
            bits_of_i32(x) == pack_rgb(p),
    {
        let v: u32 = ((p.b as u32) << 16u32) | ((p.g as u32) << 8u32) | (p.r as u32);
        to_i32_bits(v)
    }

    pub fn rgba_from_i32(&self, x: i32) -> (p: Rgba)
        ensures
            p == unpack_rgba(bits_of_i32(x)),
    {
        let v: u32 = from_i32_bits(x);
        proof {
            lemma_low_byte(v);
            lemma_low_byte(v >> 8u32);
            lemma_low_byte(v >> 16u32);
            lemma_low_byte(v >> 24u32);
        }
        Rgba {
            r: (v & 0xff) as u8,
            g: ((v >> 8u32) & 0xff) as u8,
            b: ((v >> 16u32) & 0xff) as u8,
            a: ((v >> 24u32) & 0xff) as u8,
        }
    }

    pub fn rgb_from_i32(&self, x: i32) -> (p: Rgb)
        ensures
            p == unpack_rgb(bits_of_i32(x)),
    {
        let v: u32 = from_i32_bits(x);
        proof {
            lemma_low_byte(v);
            lemma_low_byte(v >> 8u32);
            lemma_low_byte(v >> 16u32);
        }
        Rgb { r: (v & 0xff) as u8, g: ((v >> 8u32) & 0xff) as u8, b: ((v >> 16u32) & 0xff) as u8 }
    }
}

/// The closed set of aggregation schemes a file can select.
#[derive(Debug, Clone, Copy, PartialEq, Eq, Structural)]
pub enum Aggregator {
    One(Aggregator1),
    Two(Aggregator2),
}

/// The 32-bit pattern the selected scheme packs an RGBA pixel to.
pub open spec fn agg_rgba_bits(ag: Aggregator, p: Rgba) -> u32 {
    match ag {
        Aggregator::One(_) => interleave_rgba(p),
        Aggregator::Two(_) => pack_rgba(p),
    }
}

/// The pixel the selected scheme unpacks a 32-bit pattern to.
pub open spec fn agg_rgba_unbits(ag: Aggregator, v: u32) -> Rgba {
    match ag {
        Aggregator::One(_) => deinterleave_rgba(v),
        Aggregator::Two(_) => unpack_rgba(v),
    }
}

/// The 32-bit pattern the selected scheme packs an RGB pixel to.
pub open spec fn agg_rgb_bits(ag: Aggregator, p: Rgb) -> u32 {
    match ag {
        Aggregator::One(_) => interleave_rgb(p),
        Aggregator::Two(_) => pack_rgb(p),
    }
}

/// The pixel the selected scheme unpacks a 32-bit pattern to.
pub open spec fn agg_rgb_unbits(ag: Aggregator, v: u32) -> Rgb {
    match ag {
        Aggregator::One(_) => deinterleave_rgb(v),
        Aggregator::Two(_) => unpack_rgb(v),
    }
}

impl Aggregator {
    pub fn i32_from_rgba(&self, p: Rgba) -> (x: i32)
        ensures
            bits_of_i32(x) == agg_rgba_bits(*self, p),
    {
        match self {
            Aggregator::One(t) => t.i32_from_rgba(p),
            Aggregator::Two(t) => t.i32_from_rgba(p),
        }
    }

    pub fn i32_from_rgb(&self, p: Rgb) -> (x: i32)
        ensures
            bits_of_i32(x) == agg_rgb_bits(*self, p),
    {
        match self {
            Aggregator::One(t) => t.i32_from_rgb(p),
            Aggregator::Two(t) => t.i32_from_rgb(p),
        }
    }

    pub fn rgba_from_i32(&self, x: i32) -> (p: Rgba)
        ensures
            p == agg_rgba_unbits(*self, bits_of_i32(x)),
    {
        match self {
            Aggregator::One(t) => t.rgba_from_i32(x),
            Aggregator::Two(t) => t.rgba_from_i32(x),
        }
    }

    pub fn rgb_from_i32(&self, x: i32) -> (p: Rgb)
        ensures
            p == agg_rgb_unbits(*self, bits_of_i32(x)),
    {
        match self {
            Aggregator::One(t) => t.rgb_from_i32(x),
            Aggregator::Two(t) => t.rgb_from_i32(x),
        }
    }
}

proof fn lemma_spread_gather4(r: u8, g: u8, b: u8, a: u8)
    by (bit_vector)
    ensures
        gather4(interleave4(r, g, b, a) >> 3u32) == r,
        gather4(interleave4(r, g, b, a) >> 2u32) == g,
        gather4(interleave4(r, g, b, a) >> 1u32) == b,
        gather4(interleave4(r, g, b, a)) == a,
{
}

proof fn lemma_spread_gather3(r: u8, g: u8, b: u8)
    by (bit_vector)
    ensures
        gather3(interleave3(r, g, b) >> 2u32) == r,
        gather3(interleave3(r, g, b) >> 1u32) == g,
        gather3(interleave3(r, g, b)) == b,
{
}

proof fn lemma_gather_spread4(v: u32)
    by (bit_vector)
    ensures
        interleave4(gather4(v >> 3u32), gather4(v >> 2u32), gather4(v >> 1u32), gather4(v)) == v,
{
}

proof fn lemma_pack_unpack4(r: u8, g: u8, b: u8, a: u8)
    by (bit_vector)
    ensures
        (pack4(r, g, b, a) & 0xff) as u8 == r,
        ((pack4(r, g, b, a) >> 8u32) & 0xff) as u8 == g,
        ((pack4(r, g, b, a) >> 16u32) & 0xff) as u8 == b,
        ((pack4(r, g, b, a) >> 24u32) & 0xff) as u8 == a,
{
}

proof fn lemma_pack_unpack3(r: u8, g: u8, b: u8)
    by (bit_vector)
    ensures
        (pack3(r, g, b) & 0xff) as u8 == r,
        ((pack3(r, g, b) >> 8u32) & 0xff) as u8 == g,
        ((pack3(r, g, b) >> 16u32) & 0xff) as u8 == b,
{
}

proof fn lemma_unpack_pack4(v: u32)
    by (bit_vector)
    ensures
        pack4(
            (v & 0xff) as u8,
            ((v >> 8u32) & 0xff) as u8,
            ((v >> 16u32) & 0xff) as u8,
            ((v >> 24u32) & 0xff) as u8,
        ) == v,
{
}

/// Round-trip law of the bit-interleaving scheme: decoding an encoded RGBA
/// pixel yields the pixel back, for every legal 8-bit channel tuple.
pub proof fn lemma_interleave_rgba_roundtrip(p: Rgba)
    ensures
        deinterleave_rgba(interleave_rgba(p)) == p,
{
    lemma_spread_gather4(p.r, p.g, p.b, p.a);
}

/// Round-trip law of the bit-interleaving scheme for RGB pixels.
pub proof fn lemma_interleave_rgb_roundtrip(p: Rgb)
    ensures
        deinterleave_rgb(interleave_rgb(p)) == p,
{
    lemma_spread_gather3(p.r, p.g, p.b);
}

/// The reverse round trip of the bit-interleaving RGBA scheme: every 32-bit
/// value decodes to a pixel that encodes back to the same value.
pub proof fn lemma_interleave_rgba_reverse(v: u32)
    ensures
        interleave_rgba(deinterleave_rgba(v)) == v,
{
    lemma_gather_spread4(v);
}

proof fn lemma_gather_spread3(v: u32)
    by (bit_vector)
    ensures
        v < 0x100_0000 ==> interleave3(gather3(v >> 2u32), gather3(v >> 1u32), gather3(v)) == v,
{
}

proof fn lemma_unpack_pack3(v: u32)
    by (bit_vector)
    ensures
        v < 0x100_0000 ==> pack3(
            (v & 0xff) as u8,
            ((v >> 8u32) & 0xff) as u8,
            ((v >> 16u32) & 0xff) as u8,
        ) == v,
{
}

/// The reverse round trip of the bit-interleaving RGB scheme, on its valid
/// range: every 24-bit value decodes to a pixel that encodes back to it.
pub proof fn lemma_interleave_rgb_reverse(v: u32)
    requires
        v < 0x100_0000,
    ensures
        interleave_rgb(deinterleave_rgb(v)) == v,
{
    lemma_gather_spread3(v);
}

/// Round-trip law of the byte-packing scheme for RGBA pixels.
pub proof fn lemma_pack_rgba_roundtrip(p: Rgba)
    ensures
        unpack_rgba(pack_rgba(p)) == p,
{
    lemma_pack_unpack4(p.r, p.g, p.b, p.a);
}

/// Round-trip law of the byte-packing scheme for RGB pixels.
pub proof fn lemma_pack_rgb_roundtrip(p: Rgb)
    ensures
        unpack_rgb(pack_rgb(p)) == p,
{
    lemma_pack_unpack3(p.r, p.g, p.b);
}

/// The reverse round trip of the byte-packing RGBA scheme.
pub proof fn lemma_pack_rgba_reverse(v: u32)
    ensures
        pack_rgba(unpack_rgba(v)) == v,
{
    lemma_unpack_pack4(v);
}

/// The reverse round trip of the byte-packing RGB scheme, on its valid range.
pub proof fn lemma_pack_rgb_reverse(v: u32)
    requires
        v < 0x100_0000,
    ensures
        pack_rgb(unpack_rgb(v)) == v,
{
    lemma_unpack_pack3(v);
}

/// Round-trip law of the whole codec: whichever scheme a file selects,
/// decoding an encoded RGBA pixel yields the pixel back.
pub proof fn lemma_aggregator_rgba_roundtrip(ag: Aggregator, p: Rgba)
    ensures
        agg_rgba_unbits(ag, agg_rgba_bits(ag, p)) == p,
{
    lemma_interleave_rgba_roundtrip(p);
    lemma_pack_rgba_roundtrip(p);
}

/// Round-trip law of the whole codec for RGB pixels.
pub proof fn lemma_aggregator_rgb_roundtrip(ag: Aggregator, p: Rgb)
    ensures
        agg_rgb_unbits(ag, agg_rgb_bits(ag, p)) == p,
{
    lemma_interleave_rgb_roundtrip(p);
    lemma_pack_rgb_roundtrip(p);
}

} // verus!
