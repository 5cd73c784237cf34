use vstd::prelude::*;
use crate::error::MfError;

verus! {

/// A reader over bytes held in memory: `bytes[i]` is the byte at address
/// `base + i`, and no other address can be read.
#[derive(Debug, Clone)]
pub struct MemoryImage {
    /// Address of the first byte.
    pub base: usize,
    /// The readable bytes, in address order.
    pub bytes: Vec<u8>,
}

impl MemoryImage {
    /// Whether the `n` bytes from `addr` on can all be read.
    pub open spec fn readable(&self, addr: int, n: int) -> bool {
        &&& self.base <= addr
        &&& 0 <= n
        &&& addr + n <= self.base + self.bytes@.len()
    }

    /// The `n` bytes from `addr` on.
    pub open spec fn window(&self, addr: int, n: int) -> Seq<u8> {
        self.bytes@.subrange(addr - self.base, addr - self.base + n)
    }

    /// Reads `n` bytes at `addr`; fails when any of them lies outside the
    /// image. A read never succeeds in part.
    pub fn read_buf(&self, addr: usize, n: usize) -> (r: Result<Vec<u8>, MfError>)
        ensures
            r is Ok <==> self.readable(addr as int, n as int),
            r is Ok ==> r->Ok_0@ == self.window(addr as int, n as int),
            r is Err ==> r->Err_0 == MfError::ReadFailure,
    {
        if addr < self.base {
            return Err(MfError::ReadFailure);
        }
        let from = addr - self.base;
        if from > self.bytes.len() || n > self.bytes.len() - from {
            return Err(MfError::ReadFailure);
        }
        let mut out: Vec<u8> = Vec::new();
        let mut i: usize = 0;
        while i < n
            invariant
                i <= n,
                from + n <= self.bytes@.len(),
                self.bytes@.len() <= usize::MAX,
                out@ == self.bytes@.subrange(from as int, from + i),
            decreases n - i,
        {
            out.push(self.bytes[from + i]);
            i += 1;
            assert(out@ =~= self.bytes@.subrange(from as int, from + i));
        }
        Ok(out)
    }

    /// The word stored little-endian in the eight bytes at `addr`.
    pub open spec fn word_at(&self, addr: int) -> usize {
        vstd::bytes::spec_u64_from_le_bytes(self.window(addr, 8)) as usize
    }

    /// Reads the word stored little-endian at `addr`.
    pub fn read_word(&self, addr: usize) -> (r: Result<usize, MfError>)
        ensures
            r is Ok <==> self.readable(addr as int, 8),
            r is Ok ==> r->Ok_0 == self.word_at(addr as int),
            r is Err ==> r->Err_0 == MfError::ReadFailure,
    {
        let buf = self.read_buf(addr, 8)?;
        let w = vstd::bytes::u64_from_le_bytes(buf.as_slice());
        Ok(w as usize)
    }
}

} // verus!
