use vstd::prelude::*;
use crate::image::MemoryImage;
use crate::pattern::{pattern_matches, ByteMatch, Matcher};

verus! {

/// What a scan of `[start, start + len)` yields over an image, from offset
/// `o` on: every address whose window matches `p`, in increasing order, up
/// to the first offset whose window cannot be read.
pub open spec fn scan_from(
    img: MemoryImage,
    p: Seq<ByteMatch>,
    start: int,
    len: int,
    o: int,
) -> Seq<usize>
    decreases len - o,
{
    if o < 0 || o >= len || !img.readable(start + o, p.len() as int) {
        Seq::empty()
    } else if pattern_matches(p, img.window(start + o, p.len() as int)) {
        seq![(start + o) as usize] + scan_from(img, p, start, len, o + 1)
    } else {
        scan_from(img, p, start, len, o + 1)
    }
}

/// What a whole scan of `[start, start + len)` yields over an image.
pub open spec fn scan_spec(img: MemoryImage, p: Seq<ByteMatch>, start: int, len: int) -> Seq<usize> {
    scan_from(img, p, start, len, 0)
}

/// A lazy scan of `[start, start + len)` for a pattern. Each step reads the
/// window at the current offset (`next_read`) and hands the outcome to
/// `feed`, which yields the address when the window matches. A failed read
/// ends the scan; so does reaching the end of the range.
#[derive(Debug, Clone)]
pub struct Scan<M> {
    /// The pattern searched for.
    pub pat: M,
    /// First address of the range.
    pub start: usize,
    /// Length of the range.
    pub len: usize,
    /// Offset of the next candidate address.
    pub offset: usize,
    /// Set once a read has failed.
    pub done: bool,
}

impl<M: Matcher> Scan<M> {
    /// The range fits in the address space and the cursor lies within it.
    pub open spec fn wf(&self) -> bool {
        &&& self.start + self.len <= usize::MAX + 1
        &&& self.offset <= self.len
    }

    /// Whether another window is to be read.
    pub open spec fn has_next(&self) -> bool {
        !self.done && self.offset < self.len
    }

    /// Starts a scan of `[start, start + len)`. An empty pattern would
    /// match everywhere, so it is not scanned for.
    pub fn new(pat: M, start: usize, len: usize) -> (r: Self)
        requires
            pat.elements().len() > 0,
            start + len <= usize::MAX + 1,
        ensures
            r.wf(),
            r.has_next() == (len > 0),
            r.pat == pat,
            r.start == start,
            r.len == len,
            r.offset == 0,
            !r.done,
    {
        Scan { pat, start, len, offset: 0, done: false }
    }

    /// Number of bytes each read must return.
    pub fn window_size(&self) -> (r: usize)
        ensures
            r as int == self.pat.elements().len(),
    {
        self.pat.size()
    }

    /// Address of the next window to read, or `None` once the scan is over.
    pub fn next_read(&self) -> (r: Option<usize>)
        requires
            self.wf(),
        ensures
            r == (if self.has_next() {
                Some((self.start + self.offset) as usize)
            } else {
                None
            }),
    {
        if !self.done && self.offset < self.len {
            Some(self.start + self.offset)
        } else {
            None
        }
    }

    /// Takes the outcome of the read at the current offset: the window read,
    /// or `None` when the read failed. Returns the address when the window
    /// matches.
    pub fn feed(&mut self, window: Option<&[u8]>) -> (r: Option<usize>)
        requires
            old(self).wf(),
            old(self).has_next(),
            window is Some ==> window->Some_0@.len() >= old(self).pat.elements().len(),
        ensures
            final(self).wf(),
            final(self).pat == old(self).pat,
            final(self).start == old(self).start,
            final(self).len == old(self).len,
            window is None ==> {
                &&& final(self).done
                &&& final(self).offset == old(self).offset
                &&& r is None
            },
            window is Some ==> {
                &&& !final(self).done
                &&& final(self).offset == old(self).offset + 1
                &&& r == (if pattern_matches(old(self).pat.elements(), window->Some_0@) {
                    Some((old(self).start + old(self).offset) as usize)
                } else {
                    None
                })
            },
    {
        match window {
            None => {
                self.done = true;
                None
            },
            Some(w) => {
                let at = self.start + self.offset;
                let hit = self.pat.matches(w);
                self.offset = self.offset + 1;
                if hit {
                    Some(at)
                } else {
                    None
                }
            },
        }
    }

    /// Runs the rest of the scan, reading from `img`.
    pub fn run(&mut self, img: &MemoryImage) -> (r: Vec<usize>)
        requires
            old(self).wf(),
        ensures
            final(self).wf(),
            !final(self).has_next(),
            final(self).pat == old(self).pat,
            r@ == (if old(self).done {
                Seq::empty()
            } else {
                scan_from(
                    *img,
                    old(self).pat.elements(),
                    old(self).start as int,
                    old(self).len as int,
                    old(self).offset as int,
                )
            }),
    {
        let ghost p = self.pat.elements();
        let ghost goal = if self.done {
            Seq::<usize>::empty()
        } else {
            scan_from(*img, p, self.start as int, self.len as int, self.offset as int)
        };
        let ghost start0 = self.start;
        let ghost len0 = self.len;
        let mut out: Vec<usize> = Vec::new();
        assert(out@ + goal =~= goal);
        loop
            invariant
                self.wf(),
                self.pat == old(self).pat,
                p == old(self).pat.elements(),
                p == self.pat.elements(),
                start0 == old(self).start,
                len0 == old(self).len,
                goal == (if old(self).done {
                    Seq::<usize>::empty()
                } else {
                    scan_from(*img, p, start0 as int, len0 as int, old(self).offset as int)
                }),
                self.start == start0,
                self.len == len0,
                !self.done ==> out@ + scan_from(*img, p, start0 as int, len0 as int, self.offset as int)
                    == goal,
                self.done ==> out@ == goal,
            decreases self.len - self.offset + (if self.done { 0int } else { 1int }),
        {
            let next = self.next_read();
            match next {
                None => {
                    if !self.done {
                        assert(out@ + Seq::<usize>::empty() =~= out@);
                    }
                    return out;
                },
                Some(addr) => {
                    let size = self.window_size();
                    let ghost o = self.offset as int;
                    let read = img.read_buf(addr, size);
                    let hit = match read {
                        Ok(b) => self.feed(Some(b.as_slice())),
                        Err(_) => self.feed(None),
                    };
                    let ghost rest = scan_from(*img, p, start0 as int, len0 as int, o + 1);
                    match hit {
                        Some(a) => {
                            assert(out@.push(a) + rest =~= out@ + (seq![a] + rest));
                            out.push(a);
                        },
                        None => {
                            if self.done {
                                assert(out@ + Seq::<usize>::empty() =~= out@);
                            }
                        },
                    }
                },
            }
        }
    }
}

impl MemoryImage {
    /// Every address of `[start, start + len)` at which `pat` matches the
    /// image, in increasing order, up to the first window that cannot be
    /// read.
    pub fn find_pattern<M: Matcher>(&self, pat: M, start: usize, len: usize) -> (r: Vec<usize>)
        requires
            pat.elements().len() > 0,
            start + len <= usize::MAX + 1,
        ensures
            r@ == scan_spec(*self, pat.elements(), start as int, len as int),
    {
        let mut scan = Scan::new(pat, start, len);
        scan.run(self)
    }
}

/// A scan of a range in which no readable window matches yields nothing.
pub proof fn lemma_scan_without_match_is_empty(
    img: MemoryImage,
    p: Seq<ByteMatch>,
    start: int,
    len: int,
)
    requires
        forall|q: int|
            0 <= q < len && img.readable(start + q, p.len() as int) ==> !pattern_matches(
                p,
                #[trigger] img.window(start + q, p.len() as int),
            ),
    ensures
        scan_spec(img, p, start, len) == Seq::<usize>::empty(),
{
    lemma_scan_from_without_match(img, p, start, len, 0);
}

proof fn lemma_scan_from_without_match(
    img: MemoryImage,
    p: Seq<ByteMatch>,
    start: int,
    len: int,
    o: int,
)
    requires
        0 <= o,
        forall|q: int|
            0 <= q < len && img.readable(start + q, p.len() as int) ==> !pattern_matches(
                p,
                #[trigger] img.window(start + q, p.len() as int),
            ),
    ensures
        scan_from(img, p, start, len, o) == Seq::<usize>::empty(),
    decreases len - o,
{
    if o < len && img.readable(start + o, p.len() as int) {
        lemma_scan_from_without_match(img, p, start, len, o + 1);
    }
}

/// A scan ends at the first offset whose window cannot be read: it yields
/// what a scan of the range cut short at that offset yields.
pub proof fn lemma_scan_stops_at_unreadable(
    img: MemoryImage,
    p: Seq<ByteMatch>,
    start: int,
    len: int,
    k: int,
)
    requires
        0 <= k < len,
        !img.readable(start + k, p.len() as int),
    ensures
        scan_spec(img, p, start, len) == scan_spec(img, p, start, k),
{
    lemma_scan_from_cut(img, p, start, len, k, 0);
}

proof fn lemma_scan_from_cut(
    img: MemoryImage,
    p: Seq<ByteMatch>,
    start: int,
    len: int,
    k: int,
    o: int,
)
    requires
        0 <= o <= k < len,
        !img.readable(start + k, p.len() as int),
    ensures
        scan_from(img, p, start, len, o) == scan_from(img, p, start, k, o),
    decreases k - o,
{
    if o < k {
        lemma_scan_from_cut(img, p, start, len, k, o + 1);
    }
}

/// A scan whose readable prefix holds no match and which then meets an
/// unreadable window yields nothing, and no error.
pub proof fn lemma_unreadable_after_unmatched_prefix(
    img: MemoryImage,
    p: Seq<ByteMatch>,
    start: int,
    len: int,
    k: int,
)
    requires
        0 <= k < len,
        !img.readable(start + k, p.len() as int),
        forall|q: int|
            0 <= q < k && img.readable(start + q, p.len() as int) ==> !pattern_matches(
                p,
                #[trigger] img.window(start + q, p.len() as int),
            ),
    ensures
        scan_spec(img, p, start, len) == Seq::<usize>::empty(),
{
    lemma_scan_stops_at_unreadable(img, p, start, len, k);
    lemma_scan_without_match_is_empty(img, p, start, k);
}

} // verus!
