//! Reading big-endian scalars out of an in-memory byte stream.

use vstd::prelude::*;
use crate::format::{u32_be_bytes, u64_be_bytes};

verus! {

/// The failure a read call can report.
#[derive(Debug, Clone, Copy, PartialEq, Eq, Structural)]
pub enum FileReaderError {
    /// The stream ended before the requested scalar was complete.
    UnexpectedEOF,
}

/// A cursor over the bytes of a container file held in memory.
pub struct ByteReader {
    pub data: Vec<u8>,
    pub pos: usize,
}

impl ByteReader {
    /// The cursor never runs past the end of the data.
    pub open spec fn wf(&self) -> bool {
        self.pos <= self.data.len()
    }

    pub fn new(data: Vec<u8>) -> (r: ByteReader)
        ensures
            r.wf(),
            r.data == data,
            r.pos == 0,
    {
        ByteReader { data, pos: 0 }
    }

    /// Reads one byte; reading past end-of-stream is an error.
    pub fn read_u8(&mut self) -> (r: Result<u8, FileReaderError>)
        requires
            old(self).wf(),
        ensures
            final(self).wf(),
            final(self).data == old(self).data,
            match r {
                Ok(b) => {
                    &&& old(self).pos + 1 <= old(self).data.len()
                    &&& b == old(self).data[old(self).pos as int]
                    &&& final(self).pos == old(self).pos + 1
                },
                Err(e) => {
                    &&& e == FileReaderError::UnexpectedEOF
                    &&& old(self).pos + 1 > old(self).data.len()
                    &&& final(self).pos == old(self).pos
                },
            },
    {
        if self.pos < self.data.len() {
            let b = self.data[self.pos];
            self.pos = self.pos + 1;
            Ok(b)
        } else {
            Err(FileReaderError::UnexpectedEOF)
        }
    }

    /// Reads a big-endian 32-bit value; reading past end-of-stream is an error.
    pub fn read_u32(&mut self) -> (r: Result<u32, FileReaderError>)
        requires
            old(self).wf(),
        ensures
            final(self).wf(),
            final(self).data == old(self).data,
            match r {
                Ok(x) => {
                    &&& old(self).pos + 4 <= old(self).data.len()
                    &&& u32_be_bytes(x) == old(self).data@.subrange(
                        old(self).pos as int,
                        old(self).pos + 4,
                    )
                    &&& final(self).pos == old(self).pos + 4
                },
                Err(e) => {
                    &&& e == FileReaderError::UnexpectedEOF
                    &&& old(self).pos + 4 > old(self).data.len()
                    &&& final(self).pos == old(self).pos
                },
            },
    {
        if self.data.len() - self.pos >= 4 {
            let b0 = self.data[self.pos];
            let b1 = self.data[self.pos + 1];
            let b2 = self.data[self.pos + 2];
            let b3 = self.data[self.pos + 3];
            let x: u32 = ((b0 as u32) << 24u32) | ((b1 as u32) << 16u32) | ((b2 as u32) << 8u32)
                | (b3 as u32);
            proof {
                lemma_u32_be_recompose(b0, b1, b2, b3);
                assert(u32_be_bytes(x) =~= old(self).data@.subrange(
                    old(self).pos as int,
                    old(self).pos + 4,
                ));
            }
            self.pos = self.pos + 4;
            Ok(x)
        } else {
            Err(FileReaderError::UnexpectedEOF)
        }
    }

    /// Reads a big-endian 64-bit value; reading past end-of-stream is an error.
    pub fn read_u64(&mut self) -> (r: Result<u64, FileReaderError>)
        requires
            old(self).wf(),
        ensures
            final(self).wf(),
            final(self).data == old(self).data,
            match r {
                Ok(x) => {
                    &&& old(self).pos + 8 <= old(self).data.len()
                    &&& u64_be_bytes(x) == old(self).data@.subrange(
                        old(self).pos as int,
                        old(self).pos + 8,
                    )
                    &&& final(self).pos == old(self).pos + 8
                },
                Err(e) => {
                    &&& e == FileReaderError::UnexpectedEOF
                    &&& old(self).pos + 8 > old(self).data.len()
                    &&& final(self).pos == old(self).pos
                },
            },
    {
        if self.data.len() - self.pos >= 8 {
            let b0 = self.data[self.pos];
            let b1 = self.data[self.pos + 1];
            let b2 = self.data[self.pos + 2];
            let b3 = self.data[self.pos + 3];
            let b4 = self.data[self.pos + 4];
            let b5 = self.data[self.pos + 5];
            let b6 = self.data[self.pos + 6];
            let b7 = self.data[self.pos + 7];
            let x: u64 = ((b0 as u64) << 56u64) | ((b1 as u64) << 48u64) | ((b2 as u64) << 40u64)
                | ((b3 as u64) << 32u64) | ((b4 as u64) << 24u64) | ((b5 as u64) << 16u64) | ((
            b6 as u64) << 8u64) | (b7 as u64);
            proof {
                lemma_u64_be_recompose(b0, b1, b2, b3, b4, b5, b6, b7);
                assert(u64_be_bytes(x) =~= old(self).data@.subrange(
                    old(self).pos as int,
                    old(self).pos + 8,
                ));
            }
            self.pos = self.pos + 8;
            Ok(x)
        } else {
            Err(FileReaderError::UnexpectedEOF)
        }
    }

    /// Reads a run of `n` raw bytes; reading past end-of-stream is an error.
    pub fn read_bytes(&mut self, n: usize) -> (r: Result<Vec<u8>, FileReaderError>)
        requires
            old(self).wf(),
        ensures
            final(self).wf(),
            final(self).data == old(self).data,
            match r {
                Ok(v) => {
                    &&& old(self).pos + n <= old(self).data.len()
                    &&& v@ == old(self).data@.subrange(old(self).pos as int, old(self).pos + n)
                    &&& final(self).pos == old(self).pos + n
                },
                Err(e) => {
                    &&& e == FileReaderError::UnexpectedEOF
                    &&& old(self).pos + n > old(self).data.len()
                    &&& final(self).pos == old(self).pos
                },
            },
    {
        if self.data.len() - self.pos >= n {
            let mut v: Vec<u8> = Vec::new();
            let mut k: usize = 0;
            while k < n
                invariant
                    k <= n,
                    self == old(self),
                    old(self).pos + n <= old(self).data.len(),
                    v@ == old(self).data@.subrange(old(self).pos as int, old(self).pos + k),
                decreases n - k,
            {
                v.push(self.data[self.pos + k]);
                proof {
                    assert(old(self).data@.subrange(old(self).pos as int, old(self).pos + k + 1)
                        =~= old(self).data@.subrange(old(self).pos as int, old(self).pos + k).push(
                        old(self).data@[old(self).pos + k],
                    ));
                }
                k = k + 1;
            }
            self.pos = self.pos + n;
            Ok(v)
        } else {
            Err(FileReaderError::UnexpectedEOF)
        }
    }
}

proof fn lemma_u32_be_recompose(b0: u8, b1: u8, b2: u8, b3: u8)
    by (bit_vector)
    ensures
        ((((b0 as u32) << 24u32) | ((b1 as u32) << 16u32) | ((b2 as u32) << 8u32) | (b3 as u32))
            >> 24u32) & 0xff == b0,
        ((((b0 as u32) << 24u32) | ((b1 as u32) << 16u32) | ((b2 as u32) << 8u32) | (b3 as u32))
            >> 16u32) & 0xff == b1,
        ((((b0 as u32) << 24u32) | ((b1 as u32) << 16u32) | ((b2 as u32) << 8u32) | (b3 as u32))
            >> 8u32) & 0xff == b2,
        (((b0 as u32) << 24u32) | ((b1 as u32) << 16u32) | ((b2 as u32) << 8u32) | (b3 as u32))
            & 0xff == b3,
{
}

proof fn lemma_u64_be_recompose(b0: u8, b1: u8, b2: u8, b3: u8, b4: u8, b5: u8, b6: u8, b7: u8)
    by (bit_vector)
    ensures
        ((((b0 as u64) << 56u64) | ((b1 as u64) << 48u64) | ((b2 as u64) << 40u64) | ((b3 as u64)
            << 32u64) | ((b4 as u64) << 24u64) | ((b5 as u64) << 16u64) | ((b6 as u64) << 8u64) | (
        b7 as u64)) >> 56u64) & 0xff == b0,
        ((((b0 as u64) << 56u64) | ((b1 as u64) << 48u64) | ((b2 as u64) << 40u64) | ((b3 as u64)
            << 32u64) | ((b4 as u64) << 24u64) | ((b5 as u64) << 16u64) | ((b6 as u64) << 8u64) | (
        b7 as u64)) >> 48u64) & 0xff == b1,
        ((((b0 as u64) << 56u64) | ((b1 as u64) << 48u64) | ((b2 as u64) << 40u64) | ((b3 as u64)
            << 32u64) | ((b4 as u64) << 24u64) | ((b5 as u64) << 16u64) | ((b6 as u64) << 8u64) | (
        b7 as u64)) >> 40u64) & 0xff == b2,
        ((((b0 as u64) << 56u64) | ((b1 as u64) << 48u64) | ((b2 as u64) << 40u64) | ((b3 as u64)
            << 32u64) | ((b4 as u64) << 24u64) | ((b5 as u64) << 16u64) | ((b6 as u64) << 8u64) | (
        b7 as u64)) >> 32u64) & 0xff == b3,
        ((((b0 as u64) << 56u64) | ((b1 as u64) << 48u64) | ((b2 as u64) << 40u64) | ((b3 as u64)
            << 32u64) | ((b4 as u64) << 24u64) | ((b5 as u64) << 16u64) | ((b6 as u64) << 8u64) | (
        b7 as u64)) >> 24u64) & 0xff == b4,
        ((((b0 as u64) << 56u64) | ((b1 as u64) << 48u64) | ((b2 as u64) << 40u64) | ((b3 as u64)
            << 32u64) | ((b4 as u64) << 24u64) | ((b5 as u64) << 16u64) | ((b6 as u64) << 8u64) | (
        b7 as u64)) >> 16u64) & 0xff == b5,
        ((((b0 as u64) << 56u64) | ((b1 as u64) << 48u64) | ((b2 as u64) << 40u64) | ((b3 as u64)
            << 32u64) | ((b4 as u64) << 24u64) | ((b5 as u64) << 16u64) | ((b6 as u64) << 8u64) | (
        b7 as u64)) >> 8u64) & 0xff == b6,
        (((b0 as u64) << 56u64) | ((b1 as u64) << 48u64) | ((b2 as u64) << 40u64) | ((b3 as u64)
            << 32u64) | ((b4 as u64) << 24u64) | ((b5 as u64) << 16u64) | ((b6 as u64) << 8u64) | (
        b7 as u64)) & 0xff == b7,
{
}

} // verus!
