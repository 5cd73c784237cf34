use vstd::prelude::*;
use crate::error::MfError;
use crate::image::MemoryImage;
use crate::pattern::{
    byte_accepts, exact_pattern, lemma_exact_matches, pattern_matches, ByteMatch, DynPattern,
};
use crate::scan::{scan_from, scan_spec, Scan};

verus! {

/// Length of the first candidate signature.
pub const START_SIZE: usize = 3;

/// The first address of `s` that differs from `target`.
pub open spec fn first_other(s: Seq<usize>, target: usize) -> Option<usize>
    decreases s.len(),
{
    if s.len() == 0 {
        None
    } else if s[0] != target {
        Some(s[0])
    } else {
        first_other(s.drop_first(), target)
    }
}

/// Whether growing a signature to `size` bytes stays within `max`.
pub open spec fn within_budget(max: Option<usize>, size: int) -> bool {
    match max {
        Some(m) => size <= m,
        None => true,
    }
}

/// The outcome of synthesising a signature for `target` over an image,
/// from a candidate of `size` bytes whose scan resumes at `start + offset`:
/// the bytes of the signature, `None` when the budget runs out, or the
/// failure to read the bytes at `target`.
pub open spec fn synth_spec(
    img: MemoryImage,
    target: usize,
    start: int,
    len: int,
    max: Option<usize>,
    size: int,
    offset: int,
) -> Result<Option<Seq<u8>>, MfError>
    decreases img.bytes@.len() + 1 - size,
{
    if !img.readable(target as int, size) {
        Err(MfError::ReadFailure)
    } else {
        let w = img.window(target as int, size);
        match first_other(scan_spec(img, exact_pattern(w), start + offset, len - offset), target) {
            None => Ok(Some(w)),
            Some(oc) => if !within_budget(max, size + 1) {
                Ok(None)
            } else {
                synth_spec(img, target, start, len, max, size + 1, oc - start)
            },
        }
    }
}

/// The outcome of a whole synthesis for `target` over `[start, start + len)`.
pub open spec fn synthesize_spec(
    img: MemoryImage,
    target: usize,
    start: int,
    len: int,
    max: Option<usize>,
) -> Result<Option<Seq<u8>>, MfError> {
    synth_spec(img, target, start, len, max, START_SIZE as int, 0)
}

/// What a synthesis does after a hit of its scan.
#[derive(Debug, Clone, Copy, PartialEq, Eq, Structural)]
pub enum Step {
    /// The hit is `target` itself: take the scan's next hit.
    KeepScanning,
    /// The hit collides: stop this scan and start the next round with the
    /// grown candidate.
    Grow,
    /// The hit collides and the grown candidate would exceed the budget:
    /// the synthesis ends without a signature, and nothing more is read.
    OverBudget,
}

/// A synthesis of a signature for `target` that is unique within
/// `[start, start + len)`. Each round reads `size` bytes at `target`
/// (`target_read`), scans for them from `start + offset` (`scan_for`), and
/// reports the first address other than `target` that the scan yields to
/// `on_collision`, which grows the candidate by one byte. A round whose
/// scan yields no such address ends the synthesis with the candidate.
#[derive(Debug, Clone, Copy)]
pub struct Synthesis {
    /// Address the signature is for.
    pub target: usize,
    /// First address of the range.
    pub start: usize,
    /// Length of the range.
    pub len: usize,
    /// Largest signature size allowed, if any.
    pub max: Option<usize>,
    /// Size of the current candidate.
    pub size: usize,
    /// Offset from `start` where the next scan resumes.
    pub offset: usize,
}

impl Synthesis {
    /// The range fits in the address space and the resume point lies in it.
    pub open spec fn wf(&self) -> bool {
        &&& self.start + self.len <= usize::MAX + 1
        &&& (self.offset == 0 || self.offset < self.len)
        &&& self.size >= START_SIZE
        &&& (self.size == START_SIZE || within_budget(self.max, self.size as int))
    }

    /// Starts a synthesis with a candidate of three bytes scanned from `start`.
    pub fn new(target: usize, start: usize, len: usize, max: Option<usize>) -> (r: Self)
        requires
            start + len <= usize::MAX + 1,
        ensures
            r.wf(),
            r == (Synthesis { target, start, len, max, size: START_SIZE, offset: 0 }),
    {
        Synthesis { target, start, len, max, size: START_SIZE, offset: 0 }
    }

    /// Address and length of the bytes the current candidate is made of.
    /// Beyond the first candidate, it never exceeds the budget.
    pub fn target_read(&self) -> (r: (usize, usize))
        requires
            self.wf(),
        ensures
            r == (self.target, self.size),
            r.1 > START_SIZE ==> within_budget(self.max, r.1 as int),
    {
        (self.target, self.size)
    }

    /// The scan for the candidate made of `bytes`, the bytes at `target`.
    pub fn scan_for(&self, bytes: &[u8]) -> (r: Scan<DynPattern>)
        requires
            self.wf(),
            bytes@.len() == self.size,
        ensures
            r.wf(),
            r.pat@ == exact_pattern(bytes@),
            r.start == self.start + self.offset,
            r.len == self.len - self.offset,
            r.offset == 0,
            !r.done,
    {
        Scan::new(DynPattern::from_bytes(bytes), self.start + self.offset, self.len - self.offset)
    }

    /// Takes a hit of the current round's scan and says what to do next; see
    /// `Step`. A round whose scan ends without a collision ends the
    /// synthesis: the candidate is the signature.
    pub fn on_hit(&mut self, hit: usize) -> (r: Step)
        requires
            old(self).wf(),
            old(self).start + old(self).offset <= hit < old(self).start + old(self).len,
            hit != old(self).target ==> old(self).size < usize::MAX,
        ensures
            final(self).wf(),
            hit == old(self).target ==> r == Step::KeepScanning && *final(self) == *old(self),
            hit != old(self).target ==> r == (if within_budget(old(self).max, old(self).size + 1) {
                Step::Grow
            } else {
                Step::OverBudget
            }),
            r == Step::Grow ==> *final(self) == (Synthesis {
                size: (old(self).size + 1) as usize,
                offset: (hit - old(self).start) as usize,
                ..*old(self)
            }),
            r == Step::OverBudget ==> *final(self) == *old(self),
    {
        if hit == self.target {
            Step::KeepScanning
        } else if self.on_collision(hit) {
            Step::Grow
        } else {
            Step::OverBudget
        }
    }

    /// Takes the first address other than `target` that the scan yielded.
    /// Where the candidate grown by one byte stays within the budget, grows
    /// it, resumes the next scan there and returns `true`; otherwise
    /// returns `false` and changes nothing.
    pub fn on_collision(&mut self, oc: usize) -> (r: bool)
        requires
            old(self).wf(),
            old(self).start + old(self).offset <= oc < old(self).start + old(self).len,
            old(self).size < usize::MAX,
        ensures
            final(self).wf(),
            r == within_budget(old(self).max, old(self).size + 1),
            r ==> *final(self) == (Synthesis {
                size: (old(self).size + 1) as usize,
                offset: (oc - old(self).start) as usize,
                ..*old(self)
            }),
            !r ==> *final(self) == *old(self),
    {
        let grown = self.size + 1;
        let fits = match self.max {
            Some(m) => grown <= m,
            None => true,
        };
        if fits {
            self.size = grown;
            self.offset = oc - self.start;
        }
        fits
    }
}

/// Every address that a scan yields lies in the scanned part of the range,
/// and its window can be read and matches.
pub proof fn lemma_scan_members(img: MemoryImage, p: Seq<ByteMatch>, start: int, len: int, o: int)
    requires
        0 <= start,
        0 <= o,
        start + len <= usize::MAX + 1,
    ensures
        forall|i: int|
            0 <= i < scan_from(img, p, start, len, o).len() ==> {
                let a = #[trigger] scan_from(img, p, start, len, o)[i];
                &&& start + o <= a < start + len
                &&& img.readable(a as int, p.len() as int)
                &&& pattern_matches(p, img.window(a as int, p.len() as int))
            },
    decreases len - o,
{
    if o < len && img.readable(start + o, p.len() as int) {
        lemma_scan_members(img, p, start, len, o + 1);
        let rest = scan_from(img, p, start, len, o + 1);
        let s = scan_from(img, p, start, len, o);
        if pattern_matches(p, img.window(start + o, p.len() as int)) {
            assert forall|i: int| 1 <= i < s.len() implies s[i] == rest[i - 1] by {}
        }
    }
}

proof fn lemma_first_other_found(s: Seq<usize>, t: usize)
    ensures
        first_other(s, t) matches Some(x) ==> x != t && exists|i: int| 0 <= i < s.len() && s[i] == x,
    decreases s.len(),
{
    if s.len() > 0 && s[0] == t {
        lemma_first_other_found(s.drop_first(), t);
        if let Some(x) = first_other(s, t) {
            let i = choose|i: int| 0 <= i < s.drop_first().len() && s.drop_first()[i] == x;
            assert(s[i + 1] == x);
        }
    }
}

proof fn lemma_first_other_none(s: Seq<usize>, t: usize)
    requires
        forall|i: int| 0 <= i < s.len() ==> s[i] == t,
    ensures
        first_other(s, t) is None,
    decreases s.len(),
{
    if s.len() > 0 {
        lemma_first_other_none(s.drop_first(), t);
    }
}

proof fn lemma_first_other_skip(a: usize, s: Seq<usize>, t: usize)
    requires
        a == t,
    ensures
        first_other(seq![a] + s, t) == first_other(s, t),
{
    assert((seq![a] + s).drop_first() =~= s);
}

/// Runs `scan` over `img` until it yields an address other than `target`,
/// which it returns, or ends.
fn first_collision(scan: &mut Scan<DynPattern>, img: &MemoryImage, target: usize) -> (r: Option<usize>)
    requires
        old(scan).wf(),
        !old(scan).done,
    ensures
        r == first_other(
            scan_from(
                *img,
                old(scan).pat@,
                old(scan).start as int,
                old(scan).len as int,
                old(scan).offset as int,
            ),
            target,
        ),
        final(scan).pat == old(scan).pat,
{
    let ghost p = scan.pat@;
    let ghost start0 = scan.start as int;
    let ghost len0 = scan.len as int;
    let ghost goal = first_other(scan_from(*img, p, start0, len0, scan.offset as int), target);
    loop
        invariant
            scan.wf(),
            scan.pat == old(scan).pat,
            p == scan.pat@,
            start0 == scan.start,
            len0 == scan.len,
            start0 == old(scan).start,
            len0 == old(scan).len,
            goal == first_other(
                scan_from(*img, p, start0, len0, old(scan).offset as int),
                target,
            ),
            !scan.done ==> first_other(scan_from(*img, p, start0, len0, scan.offset as int), target)
                == goal,
            scan.done ==> goal is None,
        decreases scan.len - scan.offset + (if scan.done { 0int } else { 1int }),
    {
        match scan.next_read() {
            None => {
                return None;
            },
            Some(addr) => {
                let ghost o = scan.offset as int;
                let size = scan.window_size();
                let read = img.read_buf(addr, size);
                let hit = match read {
                    Ok(b) => scan.feed(Some(b.as_slice())),
                    Err(_) => scan.feed(None),
                };
                match hit {
                    Some(a) => {
                        if a != target {
                            return Some(a);
                        }
                        proof {
                            lemma_first_other_skip(
                                a,
                                scan_from(*img, p, start0, len0, o + 1),
                                target,
                            );
                        }
                    },
                    None => {},
                }
            },
        }
    }
}

impl MemoryImage {
    /// Synthesises a signature for `target` that is unique within
    /// `[start, start + len)` of the image, bounded by `max` bytes when given.
    /// `Ok(None)` tells that the budget ran out; an error, that the bytes at
    /// `target` could not be read.
    pub fn create_pattern(
        &self,
        target: usize,
        start: usize,
        len: usize,
        max: Option<usize>,
    ) -> (r: Result<Option<DynPattern>, MfError>)
        requires
            start + len <= usize::MAX + 1,
        ensures
            match synthesize_spec(*self, target, start as int, len as int, max) {
                Err(e) => r == Err::<Option<DynPattern>, MfError>(e),
                Ok(None) => r matches Ok(None),
                Ok(Some(w)) => r matches Ok(Some(d)) && d@ == exact_pattern(w),
            },
    {
        let img = self;
        let mut syn = Synthesis::new(target, start, len, max);
        let ghost goal = synthesize_spec(*img, target, start as int, len as int, max);
        loop
            invariant
                syn.wf(),
                *img == *self,
                syn.target == target,
                syn.start == start,
                syn.len == len,
                syn.max == max,
                goal == synthesize_spec(*img, target, start as int, len as int, max),
                synth_spec(*img, target, start as int, len as int, max, syn.size as int, syn.offset as int)
                    == goal,
            decreases img.bytes@.len() + 1 - syn.size,
        {
            let (at, n) = syn.target_read();
            let bytes = match img.read_buf(at, n) {
                Ok(b) => b,
                Err(e) => {
                    return Err(e);
                },
            };
            let ghost w = bytes@;
            let mut scan = syn.scan_for(bytes.as_slice());
            let ghost sst = scan.start as int;
            let ghost sln = scan.len as int;
            let ghost s = scan_from(*img, exact_pattern(w), sst, sln, 0);
            let collision = first_collision(&mut scan, img, target);
            match collision {
                None => {
                    return Ok(Some(scan.pat));
                },
                Some(oc) => {
                    proof {
                        lemma_first_other_found(s, target);
                        lemma_scan_members(*img, exact_pattern(w), sst, sln, 0);
                        let i = choose|i: int| 0 <= i < s.len() && s[i] == oc;
                        assert(exact_pattern(w).len() == w.len());
                        assert(img.readable(s[i] as int, n as int));
                        assert(n < img.bytes@.len());
                        assert(img.bytes.len() == img.bytes@.len());
                        assert(sst == start + syn.offset);
                        assert(sln == len - syn.offset);
                        assert(first_other(scan_spec(*img, exact_pattern(w), sst, sln), target) == Some(oc));
                        assert(synth_spec(*img, target, start as int, len as int, max, syn.size as int, syn.offset as int)
                            == (if !within_budget(max, syn.size + 1) {
                                Ok(None)
                            } else {
                                synth_spec(*img, target, start as int, len as int, max, syn.size + 1, oc - start)
                            }));
                    }
                    if !syn.on_collision(oc) {
                        return Ok(None);
                    }
                },
            }
        }
    }

}

/// When the bytes at `target` already occur at no other readable address of
/// the range, synthesis without a budget returns those bytes as they are.
pub proof fn lemma_unique_start_is_kept(img: MemoryImage, target: usize, start: int, len: int)
    requires
        0 <= start,
        start + len <= usize::MAX + 1,
        img.readable(target as int, START_SIZE as int),
        forall|a: int|
            start <= a < start + len && a != target && img.readable(a, START_SIZE as int)
                ==> #[trigger] img.window(a, START_SIZE as int) != img.window(
                target as int,
                START_SIZE as int,
            ),
    ensures
        synthesize_spec(img, target, start, len, None) == Ok::<Option<Seq<u8>>, MfError>(
            Some(img.window(target as int, START_SIZE as int)),
        ),
{
    let w = img.window(target as int, START_SIZE as int);
    let p = exact_pattern(w);
    let s = scan_spec(img, p, start, len);
    lemma_scan_members(img, p, start, len, 0);
    assert forall|i: int| 0 <= i < s.len() implies s[i] == target by {
        let a = s[i];
        lemma_exact_matches(w, img.window(a as int, 3));
        assert(img.window(a as int, 3).subrange(0, 3) =~= img.window(a as int, 3));
    }
    lemma_first_other_none(s, target);
}

/// A budget below the size of the signature that an unbounded synthesis
/// finds, and no smaller than the first candidate, makes synthesis return
/// `None` instead.
pub proof fn lemma_budget_below_required_size(
    img: MemoryImage,
    target: usize,
    start: int,
    len: int,
    m: usize,
    w: Seq<u8>,
)
    requires
        synthesize_spec(img, target, start, len, None) == Ok::<Option<Seq<u8>>, MfError>(Some(w)),
        START_SIZE <= m < w.len(),
    ensures
        synthesize_spec(img, target, start, len, Some(m)) == Ok::<Option<Seq<u8>>, MfError>(None),
{
    lemma_budget_cut(img, target, start, len, m, w, START_SIZE as int, 0);
}

proof fn lemma_budget_cut(
    img: MemoryImage,
    target: usize,
    start: int,
    len: int,
    m: usize,
    w: Seq<u8>,
    size: int,
    offset: int,
)
    requires
        synth_spec(img, target, start, len, None, size, offset) == Ok::<Option<Seq<u8>>, MfError>(
            Some(w),
        ),
        size <= m < w.len(),
    ensures
        synth_spec(img, target, start, len, Some(m), size, offset) == Ok::<
            Option<Seq<u8>>,
            MfError,
        >(None),
    decreases img.bytes@.len() + 1 - size,
{
    let v = img.window(target as int, size);
    let s = scan_spec(img, exact_pattern(v), start + offset, len - offset);
    if let Some(oc) = first_other(s, target) {
        if size + 1 <= m {
            lemma_budget_cut(img, target, start, len, m, w, size + 1, oc - start);
        }
    }
}


/// No address of `[start, end)` other than `target` holds, in a readable
/// window, the `size` bytes at `target`.
pub open spec fn no_collision_below(img: MemoryImage, target: usize, start: int, end: int, size: int) -> bool {
    forall|a: int|
        start <= a < end && a != target && img.readable(a, size) ==> !pattern_matches(
            exact_pattern(img.window(target as int, size)),
            #[trigger] img.window(a, size),
        )
}

/// Some address of `[start, start + len)` other than `target` holds, in a
/// readable window, the `k` bytes at `target`.
pub open spec fn collides(img: MemoryImage, target: usize, start: int, len: int, k: int) -> bool {
    exists|a: int|
        start <= a < start + len && a != target && img.readable(a, k) && pattern_matches(
            exact_pattern(img.window(target as int, k)),
            #[trigger] img.window(a, k),
        )
}

/// Over an image whose first byte lies at or before `start + o`, the first
/// address other than `t` that a scan yields is the first readable matching
/// address other than `t`; where the scan yields none, every readable
/// matching address of the rest of the range is `t`.
proof fn lemma_first_other_scan(
    img: MemoryImage,
    p: Seq<ByteMatch>,
    start: int,
    len: int,
    t: usize,
    o: int,
)
    requires
        0 <= start,
        0 <= o,
        img.base <= start + o,
        start + len <= usize::MAX + 1,
    ensures
        match first_other(scan_from(img, p, start, len, o), t) {
            None => forall|q: int|
                o <= q < len && img.readable(start + q, p.len() as int) && pattern_matches(
                    p,
                    #[trigger] img.window(start + q, p.len() as int),
                ) ==> start + q == t,
            Some(oc) => {
                &&& start + o <= oc < start + len
                &&& oc != t
                &&& img.readable(oc as int, p.len() as int)
                &&& pattern_matches(p, img.window(oc as int, p.len() as int))
                &&& forall|q: int|
                    o <= q && start + q < oc && img.readable(start + q, p.len() as int)
                        && pattern_matches(p, #[trigger] img.window(start + q, p.len() as int))
                        ==> start + q == t
            },
        },
    decreases len - o,
{
    if o < len && img.readable(start + o, p.len() as int) {
        lemma_first_other_scan(img, p, start, len, t, o + 1);
        let rest = scan_from(img, p, start, len, o + 1);
        if pattern_matches(p, img.window(start + o, p.len() as int)) {
            if (start + o) as usize == t {
                lemma_first_other_skip(t, rest, t);
            }
        }
    }
}

/// A readable window that holds the `n` bytes at `t` holds, in its first
/// `k` bytes, the first `k` bytes at `t`.
proof fn lemma_prefix_match(img: MemoryImage, t: int, a: int, n: int, k: int)
    requires
        0 <= k <= n,
        img.readable(t, n),
        img.readable(a, n),
        pattern_matches(exact_pattern(img.window(t, n)), img.window(a, n)),
    ensures
        img.readable(t, k),
        img.readable(a, k),
        pattern_matches(exact_pattern(img.window(t, k)), img.window(a, k)),
{
    assert forall|i: int| 0 <= i < exact_pattern(img.window(t, k)).len() implies #[trigger] byte_accepts(
        exact_pattern(img.window(t, k))[i],
        img.window(a, k)[i],
    ) by {
        assert(byte_accepts(exact_pattern(img.window(t, n))[i], img.window(a, n)[i]));
    }
}

/// After a round whose scan from `start + offset` found its first collision
/// at `oc`, no address of `[start, oc)` other than `target` holds the grown
/// candidate.
proof fn lemma_grow_keeps_no_collision(
    img: MemoryImage,
    target: usize,
    start: int,
    len: int,
    size: int,
    offset: int,
    oc: usize,
)
    requires
        0 <= start,
        0 <= offset,
        0 <= size,
        img.base <= start,
        start + len <= usize::MAX + 1,
        img.readable(target as int, size + 1),
        no_collision_below(img, target, start, start + offset, size),
        first_other(
            scan_spec(img, exact_pattern(img.window(target as int, size)), start + offset, len - offset),
            target,
        ) == Some(oc),
    ensures
        start + offset <= oc < start + len,
        no_collision_below(img, target, start, oc as int, size + 1),
{
    let p = exact_pattern(img.window(target as int, size));
    lemma_first_other_scan(img, p, start + offset, len - offset, target, 0);
    assert(p.len() == size);
    assert forall|a: int|
        start <= a < oc && a != target && img.readable(a, size + 1) implies !pattern_matches(
        exact_pattern(img.window(target as int, size + 1)),
        #[trigger] img.window(a, size + 1),
    ) by {
        if pattern_matches(exact_pattern(img.window(target as int, size + 1)), img.window(a, size + 1)) {
            lemma_prefix_match(img, target as int, a, size + 1, size);
            if a >= start + offset {
                let q = a - (start + offset);
                assert(start + offset + q == a);
                assert(pattern_matches(p, img.window(start + offset + q, p.len() as int)));
            }
        }
    }
}

proof fn lemma_synth_unique_from(
    img: MemoryImage,
    target: usize,
    start: int,
    len: int,
    max: Option<usize>,
    size: int,
    offset: int,
    w: Seq<u8>,
)
    requires
        0 <= start,
        0 <= offset <= len,
        0 <= size,
        img.base <= start,
        start + len <= usize::MAX + 1,
        no_collision_below(img, target, start, start + offset, size),
        synth_spec(img, target, start, len, max, size, offset) == Ok::<Option<Seq<u8>>, MfError>(
            Some(w),
        ),
    ensures
        w.len() >= size,
        img.readable(target as int, w.len() as int),
        w == img.window(target as int, w.len() as int),
        no_collision_below(img, target, start, start + len, w.len() as int),
        forall|k: int| size <= k < w.len() ==> #[trigger] collides(img, target, start, len, k),
    decreases img.bytes@.len() + 1 - size,
{
    let v = img.window(target as int, size);
    let p = exact_pattern(v);
    assert(p.len() == size);
    lemma_first_other_scan(img, p, start + offset, len - offset, target, 0);
    match first_other(scan_spec(img, p, start + offset, len - offset), target) {
        None => {
            assert forall|a: int|
                start <= a < start + len && a != target && img.readable(a, size) implies !pattern_matches(
                p,
                #[trigger] img.window(a, size),
            ) by {
                if a >= start + offset {
                    let q = a - (start + offset);
                    assert(start + offset + q == a);
                    if pattern_matches(p, img.window(a, size)) {
                        assert(pattern_matches(p, img.window(start + offset + q, p.len() as int)));
                    }
                }
            }
        },
        Some(oc) => {
            assert(within_budget(max, size + 1));
            assert(synth_spec(img, target, start, len, max, size + 1, oc - start) == Ok::<
                Option<Seq<u8>>,
                MfError,
            >(Some(w)));
            assert(img.readable(target as int, size + 1));
            lemma_grow_keeps_no_collision(img, target, start, len, size, offset, oc);
            assert(start + (oc - start) == oc);
            lemma_synth_unique_from(img, target, start, len, max, size + 1, oc - start, w);
            assert(collides(img, target, start, len, size)) by {
                assert(img.readable(oc as int, size));
                assert(pattern_matches(p, img.window(oc as int, size)));
            }
        },
    }
}

/// A signature that synthesis returns over an image whose first byte lies at
/// or before `start` is unique: no readable address of the range other than
/// `target` holds it. And it grew only on observed collisions: each shorter
/// prefix of the bytes at `target`, from the first candidate's size on,
/// occurs at another readable address of the range.
pub proof fn lemma_signature_is_unique(
    img: MemoryImage,
    target: usize,
    start: int,
    len: int,
    max: Option<usize>,
    w: Seq<u8>,
)
    requires
        0 <= start,
        0 <= len,
        img.base <= start,
        start + len <= usize::MAX + 1,
        synthesize_spec(img, target, start, len, max) == Ok::<Option<Seq<u8>>, MfError>(Some(w)),
    ensures
        w.len() >= START_SIZE,
        w == img.window(target as int, w.len() as int),
        forall|a: int|
            start <= a < start + len && a != target && img.readable(a, w.len() as int) ==> !pattern_matches(
                exact_pattern(w),
                #[trigger] img.window(a, w.len() as int),
            ),
        forall|k: int| START_SIZE <= k < w.len() ==> #[trigger] collides(img, target, start, len, k),
{
    lemma_synth_unique_from(img, target, start, len, max, START_SIZE as int, 0, w);
}

proof fn lemma_budget_from(
    img: MemoryImage,
    target: usize,
    start: int,
    len: int,
    m: usize,
    a: int,
    size: int,
    offset: int,
)
    requires
        0 <= start,
        0 <= offset <= len,
        0 <= size <= m,
        img.base <= start,
        start + len <= usize::MAX + 1,
        img.readable(target as int, m as int),
        start <= a < start + len,
        a != target,
        img.readable(a, m as int),
        pattern_matches(exact_pattern(img.window(target as int, m as int)), img.window(a, m as int)),
        no_collision_below(img, target, start, start + offset, size),
    ensures
        synth_spec(img, target, start, len, Some(m), size, offset) == Ok::<Option<Seq<u8>>, MfError>(
            None,
        ),
    decreases m - size,
{
    lemma_prefix_match(img, target as int, a, m as int, size);
    let p = exact_pattern(img.window(target as int, size));
    assert(p.len() == size);
    lemma_first_other_scan(img, p, start + offset, len - offset, target, 0);
    match first_other(scan_spec(img, p, start + offset, len - offset), target) {
        None => {
            if a >= start + offset {
                let q = a - (start + offset);
                assert(start + offset + q == a);
                assert(pattern_matches(p, img.window(start + offset + q, p.len() as int)));
            }
            assert(false);
        },
        Some(oc) => {
            if size + 1 <= m {
                lemma_prefix_match(img, target as int, a, m as int, size + 1);
                lemma_grow_keeps_no_collision(img, target, start, len, size, offset, oc);
                assert(start + (oc - start) == oc);
                lemma_budget_from(img, target, start, len, m, a, size + 1, oc - start);
            }
        },
    }
}

/// With a budget of `m` bytes, no smaller than the first candidate, and the
/// `m` bytes at `target` occurring at another readable address of the range
/// (so that a signature needs more than `m` bytes), synthesis over an image
/// whose first byte lies at or before `start` returns `None`, not an error.
pub proof fn lemma_budget_exceeded_on_collision(
    img: MemoryImage,
    target: usize,
    start: int,
    len: int,
    m: usize,
    a: int,
)
    requires
        0 <= start,
        0 <= len,
        img.base <= start,
        start + len <= usize::MAX + 1,
        START_SIZE <= m,
        img.readable(target as int, m as int),
        start <= a < start + len,
        a != target,
        img.readable(a, m as int),
        pattern_matches(exact_pattern(img.window(target as int, m as int)), img.window(a, m as int)),
    ensures
        synthesize_spec(img, target, start, len, Some(m)) == Ok::<Option<Seq<u8>>, MfError>(None),
{
    lemma_budget_from(img, target, start, len, m, a, START_SIZE as int, 0);
}

} // verus!
