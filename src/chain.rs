use vstd::prelude::*;
use crate::error::MfError;
use crate::image::MemoryImage;

verus! {

/// `base + offset` in the address space, wrapping past its end.
pub open spec fn offset_addr(base: usize, offset: usize) -> usize {
    ((base + offset) % (usize::MAX + 1)) as usize
}

/// Adds `offset` to `base`, wrapping past the end of the address space.
pub fn add_offset(base: usize, offset: usize) -> (r: usize)
    ensures
        r == offset_addr(base, offset),
{
    let ghost m: int = usize::MAX + 1;
    if offset <= usize::MAX - base {
        proof {
            vstd::arithmetic::div_mod::lemma_small_mod((base + offset) as nat, m as nat);
        }
        base + offset
    } else {
        proof {
            vstd::arithmetic::div_mod::lemma_mod_sub_multiples_vanish(base + offset, m);
            vstd::arithmetic::div_mod::lemma_small_mod((base + offset - m) as nat, m as nat);
            assert((base + offset - m) + m == base + offset);
        }
        offset - (usize::MAX - base) - 1
    }
}

/// What resolving the chain `offsets` from `base` gives over an image: for
/// each offset in turn, the word at `base + offset` becomes the new base.
/// The first read that fails ends the resolution with its error.
pub open spec fn chain_spec(img: MemoryImage, base: usize, offsets: Seq<usize>) -> Result<usize, MfError>
    decreases offsets.len(),
{
    if offsets.len() == 0 {
        Ok(base)
    } else {
        let at = offset_addr(base, offsets[0]);
        if !img.readable(at as int, 8) {
            Err(MfError::ReadFailure)
        } else {
            chain_spec(img, img.word_at(at as int), offsets.drop_first())
        }
    }
}

/// A resolution of a pointer chain: each step reads the word at
/// `next_read()` and hands it to `feed`, which makes it the new base. A
/// failed read ends the resolution with that failure.
#[derive(Debug, Clone)]
pub struct PointerChain {
    /// Current base address.
    pub base: usize,
    /// The offsets of the chain.
    pub offsets: Vec<usize>,
    /// Number of offsets consumed so far.
    pub index: usize,
}

impl PointerChain {
    /// Starts resolving `offsets` from `base`.
    pub fn new(base: usize, offsets: &[usize]) -> (r: Self)
        ensures
            r.base == base,
            r.offsets@ == offsets@,
            r.index == 0,
    {
        let mut v: Vec<usize> = Vec::new();
        let mut i: usize = 0;
        while i < offsets.len()
            invariant
                i <= offsets@.len(),
                v@ == offsets@.subrange(0, i as int),
            decreases offsets@.len() - i,
        {
            v.push(offsets[i]);
            i += 1;
            assert(v@ =~= offsets@.subrange(0, i as int));
        }
        assert(v@ =~= offsets@);
        PointerChain { base, offsets: v, index: 0 }
    }

    /// Address of the next word to read, or `None` once every offset is used.
    pub fn next_read(&self) -> (r: Option<usize>)
        ensures
            r == (if self.index < self.offsets@.len() {
                Some(offset_addr(self.base, self.offsets@[self.index as int]))
            } else {
                None
            }),
    {
        if self.index < self.offsets.len() {
            Some(add_offset(self.base, self.offsets[self.index]))
        } else {
            None
        }
    }

    /// Takes the word read at `next_read()` as the new base.
    pub fn feed(&mut self, word: usize)
        requires
            old(self).index < old(self).offsets@.len(),
        ensures
            final(self).base == word,
            final(self).offsets == old(self).offsets,
            final(self).index == old(self).index + 1,
    {
        assert(self.offsets.len() == self.offsets@.len());
        self.base = word;
        self.index = self.index + 1;
    }

    /// The address the chain resolved to, once every offset is used.
    pub fn resolved(&self) -> (r: Option<usize>)
        ensures
            r == (if self.index >= self.offsets@.len() {
                Some(self.base)
            } else {
                None
            }),
    {
        if self.index >= self.offsets.len() {
            Some(self.base)
        } else {
            None
        }
    }

    /// Runs the rest of the resolution, reading from `img`.
    pub fn run(&mut self, img: &MemoryImage) -> (r: Result<usize, MfError>)
        requires
            old(self).index <= old(self).offsets@.len(),
        ensures
            r == chain_spec(
                *img,
                old(self).base,
                old(self).offsets@.subrange(old(self).index as int, old(self).offsets@.len() as int),
            ),
    {
        let ghost offs = self.offsets@;
        let ghost goal = chain_spec(*img, self.base, offs.subrange(self.index as int, offs.len() as int));
        loop
            invariant
                self.offsets@ == offs,
                offs == old(self).offsets@,
                self.index <= offs.len(),
                goal == chain_spec(
                    *img,
                    old(self).base,
                    offs.subrange(old(self).index as int, offs.len() as int),
                ),
                chain_spec(*img, self.base, offs.subrange(self.index as int, offs.len() as int))
                    == goal,
            decreases offs.len() - self.index,
        {
            match self.next_read() {
                None => {
                    assert(offs.subrange(self.index as int, offs.len() as int).len() == 0);
                    return Ok(self.base);
                },
                Some(at) => {
                    let ghost rest = offs.subrange(self.index as int, offs.len() as int);
                    assert(rest.drop_first() =~= offs.subrange(self.index + 1, offs.len() as int));
                    match img.read_word(at) {
                        Ok(w) => self.feed(w),
                        Err(e) => {
                            return Err(e);
                        },
                    }
                },
            }
        }
    }
}

impl MemoryImage {
    /// Resolves the pointer chain `offsets` from `base` over the image.
    pub fn resolve_multilevel(&self, base: usize, offsets: &[usize]) -> (r: Result<usize, MfError>)
        ensures
            r == chain_spec(*self, base, offsets@),
    {
        let mut chain = PointerChain::new(base, offsets);
        assert(chain.offsets@.subrange(0, chain.offsets@.len() as int) =~= offsets@);
        chain.run(self)
    }
}

/// An empty chain resolves to its base, and reads nothing.
pub proof fn lemma_empty_chain(img: MemoryImage, base: usize)
    ensures
        chain_spec(img, base, Seq::empty()) == Ok::<usize, MfError>(base),
{
}

} // verus!
