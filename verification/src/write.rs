//! Writing big-endian scalars into an in-memory byte stream.

use vstd::prelude::*;
use crate::format::{u32_be_bytes, u64_be_bytes};

verus! {

/// An append-only buffer collecting the bytes of a container file.
pub struct ByteWriter {
    pub data: Vec<u8>,
}

proof fn lemma_u32_shifts(x: u32)
    by (bit_vector)
    ensures
        (x >> 24u32) & 0xff < 256,
        (x >> 16u32) & 0xff < 256,
        (x >> 8u32) & 0xff < 256,
        x & 0xff < 256,
{
}

proof fn lemma_u64_shifts(x: u64)
    by (bit_vector)
    ensures
        (x >> 56u64) & 0xff < 256,
        (x >> 48u64) & 0xff < 256,
        (x >> 40u64) & 0xff < 256,
        (x >> 32u64) & 0xff < 256,
        (x >> 24u64) & 0xff < 256,
        (x >> 16u64) & 0xff < 256,
        (x >> 8u64) & 0xff < 256,
        x & 0xff < 256,
{
}

impl ByteWriter {
    pub fn new() -> (w: ByteWriter)
        ensures
            w.data@ == Seq::<u8>::empty(),
    {
        let w = ByteWriter { data: Vec::new() };
        proof {
            assert(w.data@ =~= Seq::<u8>::empty());
        }
        w
    }

    /// Appends one byte.
    pub fn write_u8(&mut self, x: u8)
        ensures
            final(self).data@ == old(self).data@.push(x),
    {
        self.data.push(x);
    }

    /// Appends a whole byte slice.
    pub fn write_all(&mut self, x: &Vec<u8>)
        ensures
            final(self).data@ == old(self).data@ + x@,
    {
        let mut k: usize = 0;
        while k < x.len()
            invariant
                k <= x.len(),
                self.data@ == old(self).data@ + x@.take(k as int),
            decreases x.len() - k,
        {
            self.data.push(x[k]);
            proof {
                assert(old(self).data@ + x@.take(k as int + 1) =~= (old(self).data@ + x@.take(
                    k as int,
                )).push(x@[k as int]));
            }
            k = k + 1;
        }
        proof {
            assert(x@.take(x@.len() as int) =~= x@);
        }
    }

    /// Appends the four big-endian bytes of a 32-bit value.
    pub fn write_u32(&mut self, x: u32)
        ensures
            final(self).data@ == old(self).data@ + u32_be_bytes(x),
    {
        proof {
            lemma_u32_shifts(x);
        }
        self.data.push(((x >> 24u32) & 0xff) as u8);
        self.data.push(((x >> 16u32) & 0xff) as u8);
        self.data.push(((x >> 8u32) & 0xff) as u8);
        self.data.push((x & 0xff) as u8);
        proof {
            assert(final(self).data@ =~= old(self).data@ + u32_be_bytes(x));
        }
    }

    /// Appends the eight big-endian bytes of a 64-bit value.
    pub fn write_u64(&mut self, x: u64)
        ensures
            final(self).data@ == old(self).data@ + u64_be_bytes(x),
    {
        proof {
            lemma_u64_shifts(x);
        }
        self.data.push(((x >> 56u64) & 0xff) as u8);
        self.data.push(((x >> 48u64) & 0xff) as u8);
        self.data.push(((x >> 40u64) & 0xff) as u8);
        self.data.push(((x >> 32u64) & 0xff) as u8);
        self.data.push(((x >> 24u64) & 0xff) as u8);
        self.data.push(((x >> 16u64) & 0xff) as u8);
        self.data.push(((x >> 8u64) & 0xff) as u8);
        self.data.push((x & 0xff) as u8);
        proof {
            assert(final(self).data@ =~= old(self).data@ + u64_be_bytes(x));
        }
    }
}

} // verus!
