use vstd::prelude::*;
use crate::chain::{add_offset, offset_addr};
use crate::error::MfError;

verus! {

/// Number of bytes read per step when reading a string.
pub const CHUNK: usize = 4;

/// Index of the first zero byte of `s`, if any.
pub open spec fn first_zero(s: Seq<u8>) -> Option<int> {
    if exists|i: int| 0 <= i < s.len() && s[i] == 0 {
        Some(choose|i: int| 0 <= i < s.len() && s[i] == 0 && forall|j: int| 0 <= j < i ==> s[j] != 0)
    } else {
        None
    }
}

/// Relies on `String::from_utf8`: it succeeds exactly on valid UTF-8, and
/// then holds the characters that the bytes encode.
#[verifier::external_body]
fn string_from_utf8(bytes: Vec<u8>) -> (r: Option<String>)
    ensures
        r is Some <==> vstd::utf8::valid_utf8(bytes@),
        r is Some ==> r->Some_0@ == vstd::utf8::decode_utf8(bytes@),
{
    String::from_utf8(bytes).ok()
}

/// A read of a zero-terminated string at `address`, four bytes at a time:
/// each step reads the chunk at `next_read()` and hands it to `feed`. The
/// read ends at the first zero byte; `finish` then gives the string.
#[derive(Debug, Clone)]
pub struct StrRead {
    /// Address of the next chunk.
    pub next: usize,
    /// Bytes of the string read so far.
    pub bytes: Vec<u8>,
    /// Set once the terminating zero was seen.
    pub done: bool,
}

impl StrRead {
    /// Starts reading the string at `address`.
    pub fn new(address: usize) -> (r: Self)
        ensures
            r.next == address,
            r.bytes@ == Seq::<u8>::empty(),
            !r.done,
    {
        StrRead { next: address, bytes: Vec::new(), done: false }
    }

    /// Address of the next chunk to read, or `None` once the string ended.
    pub fn next_read(&self) -> (r: Option<usize>)
        ensures
            r == (if self.done {
                None
            } else {
                Some(self.next)
            }),
    {
        if self.done {
            None
        } else {
            Some(self.next)
        }
    }

    /// Takes the chunk read at `next_read()`: its bytes up to the first
    /// zero join the string, and a zero ends it.
    pub fn feed(&mut self, chunk: &[u8])
        requires
            !old(self).done,
            chunk@.len() == CHUNK,
        ensures
            match first_zero(chunk@) {
                Some(k) => {
                    &&& final(self).done
                    &&& final(self).bytes@ == old(self).bytes@ + chunk@.subrange(0, k)
                    &&& final(self).next == old(self).next
                },
                None => {
                    &&& !final(self).done
                    &&& final(self).bytes@ == old(self).bytes@ + chunk@
                    &&& final(self).next == offset_addr(old(self).next, CHUNK)
                },
            },
    {
        let ghost before = self.bytes@;
        let mut i: usize = 0;
        while i < chunk.len()
            invariant
                i <= chunk@.len(),
                chunk@.len() == CHUNK,
                !self.done,
                self.next == old(self).next,
                self.bytes@ == before + chunk@.subrange(0, i as int),
                before == old(self).bytes@,
                forall|j: int| 0 <= j < i ==> chunk@[j] != 0,
            decreases chunk@.len() - i,
        {
            if chunk[i] == 0 {
                self.done = true;
                proof {
                    let k = choose|k: int|
                        0 <= k < chunk@.len() && chunk@[k] == 0 && forall|j: int| 0 <= j < k ==> chunk@[j] != 0;
                    if k < i {
                    } else if k > i {
                        assert(chunk@[i as int] != 0);
                    }
                    assert(k == i);
                }
                return;
            }
            self.bytes.push(chunk[i]);
            i += 1;
            assert(self.bytes@ =~= before + chunk@.subrange(0, i as int));
        }
        assert(chunk@.subrange(0, chunk@.len() as int) =~= chunk@);
        self.next = add_offset(self.next, CHUNK);
    }

    /// The string read, once its end was seen; fails when its bytes are not
    /// valid UTF-8.
    pub fn finish(self) -> (r: Result<String, MfError>)
        requires
            self.done,
        ensures
            r is Ok <==> vstd::utf8::valid_utf8(self.bytes@),
            r is Ok ==> r->Ok_0@ == vstd::utf8::decode_utf8(self.bytes@),
            r is Err ==> r->Err_0 == MfError::InvalidString,
    {
        match string_from_utf8(self.bytes) {
            Some(s) => Ok(s),
            None => Err(MfError::InvalidString),
        }
    }
}

/// The bytes that writing `text` as a zero-terminated string puts in
/// memory: its UTF-8 encoding, then a terminator of four zero bytes (a
/// zero `i32`).
pub fn terminated_bytes(text: &str) -> (r: Vec<u8>)
    ensures
        r@ == vstd::utf8::encode_utf8(text@) + seq![0u8, 0u8, 0u8, 0u8],
{
    let b = text.as_bytes();
    let mut out: Vec<u8> = Vec::new();
    let mut i: usize = 0;
    while i < b.len()
        invariant
            i <= b@.len(),
            out@ == b@.subrange(0, i as int),
        decreases b@.len() - i,
    {
        out.push(b[i]);
        i += 1;
        assert(out@ =~= b@.subrange(0, i as int));
    }
    assert(b@.subrange(0, b@.len() as int) =~= b@);
    out.push(0u8);
    out.push(0u8);
    out.push(0u8);
    out.push(0u8);
    assert(out@ =~= b@ + seq![0u8, 0u8, 0u8, 0u8]);
    out
}

} // verus!
