use vstd::prelude::*;

verus! {

/// One element of a pattern: an exact byte or a wildcard.
#[derive(Debug, Clone, Copy, PartialEq, Eq, Structural)]
pub enum ByteMatch {
    /// Matches only this byte.
    Exact(u8),
    /// Matches any byte.
    Wildcard,
}

/// Whether the element `m` accepts byte `b`.
pub open spec fn byte_accepts(m: ByteMatch, b: u8) -> bool {
    match m {
        ByteMatch::Exact(x) => x == b,
        ByteMatch::Wildcard => true,
    }
}

/// Whether pattern `p` matches window `w`: every element that is not a
/// wildcard equals the byte at the same position. Bytes of `w` past the
/// end of `p` are ignored.
pub open spec fn pattern_matches(p: Seq<ByteMatch>, w: Seq<u8>) -> bool {
    forall|i: int| 0 <= i < p.len() ==> #[trigger] byte_accepts(p[i], w[i])
}

/// The all-exact pattern of the bytes `s`.
pub open spec fn exact_pattern(s: Seq<u8>) -> Seq<ByteMatch> {
    s.map_values(|b: u8| ByteMatch::Exact(b))
}

impl ByteMatch {
    /// Checks whether this element accepts `b`.
    pub fn matches(&self, b: u8) -> (r: bool)
        ensures
            r == byte_accepts(*self, b),
    {
        match self {
            ByteMatch::Exact(x) => *x == b,
            ByteMatch::Wildcard => true,
        }
    }
}

/// What a pattern offers to a scan: matching against a window, and its size.
pub trait Matcher {
    /// The elements of the pattern, in order.
    spec fn elements(&self) -> Seq<ByteMatch>;

    /// Checks whether `data` matches the pattern; `data` holds at least
    /// `size()` bytes.
    fn matches(&self, data: &[u8]) -> (r: bool)
        requires
            data@.len() >= self.elements().len(),
        ensures
            r == pattern_matches(self.elements(), data@),
    ;

    /// Number of elements of the pattern.
    fn size(&self) -> (r: usize)
        ensures
            r as int == self.elements().len(),
    ;
}

/// Checks `data` against `p` element by element.
fn matches_elements(p: &[ByteMatch], data: &[u8]) -> (r: bool)
    requires
        data@.len() >= p@.len(),
    ensures
        r == pattern_matches(p@, data@),
{
    let mut i: usize = 0;
    while i < p.len()
        invariant
            i <= p@.len(),
            data@.len() >= p@.len(),
            forall|k: int| 0 <= k < i ==> #[trigger] byte_accepts(p@[k], data@[k]),
        decreases p@.len() - i,
    {
        if !p[i].matches(data[i]) {
            return false;
        }
        i += 1;
    }
    true
}

/// Pattern whose length is fixed by its type.
#[derive(Debug, Clone, Copy)]
pub struct Pattern<const N: usize>(pub [ByteMatch; N]);

impl<const N: usize> Pattern<N> {
    /// The elements of the pattern.
    pub open spec fn view(&self) -> Seq<ByteMatch> {
        self.0@
    }

    /// Checks if the `data` matches the pattern.
    pub fn matches(&self, data: &[u8]) -> (r: bool)
        requires
            data@.len() >= self.0@.len(),
        ensures
            r == pattern_matches(self.0@, data@),
    {
        matches_elements(self.0.as_slice(), data)
    }
}

impl<const N: usize> Matcher for Pattern<N> {
    open spec fn elements(&self) -> Seq<ByteMatch> {
        self.0@
    }

    fn matches(&self, data: &[u8]) -> (r: bool) {
        matches_elements(self.0.as_slice(), data)
    }

    fn size(&self) -> (r: usize) {
        N
    }
}

/// Pattern whose length is known at run time.
#[derive(Debug, Clone)]
pub struct DynPattern(pub Vec<ByteMatch>);

impl DynPattern {
    /// The elements of the pattern.
    pub open spec fn view(&self) -> Seq<ByteMatch> {
        self.0@
    }

    /// Checks if the `data` matches the pattern.
    pub fn matches(&self, data: &[u8]) -> (r: bool)
        requires
            data@.len() >= self.0@.len(),
        ensures
            r == pattern_matches(self.0@, data@),
    {
        matches_elements(self.0.as_slice(), data)
    }

    /// Number of elements of the pattern.
    pub fn size(&self) -> (r: usize)
        ensures
            r as int == self.0@.len(),
    {
        self.0.len()
    }

    /// The dynamic form of a fixed-length pattern, element for element.
    pub fn from_static<const N: usize>(p: &Pattern<N>) -> (r: DynPattern)
        ensures
            r@ == p@,
    {
        let mut v: Vec<ByteMatch> = Vec::new();
        let mut i: usize = 0;
        while i < N
            invariant
                i <= N,
                p.0@.len() == N,
                v@ == p.0@.subrange(0, i as int),
            decreases N - i,
        {
            v.push(p.0[i]);
            i += 1;
            assert(v@ =~= p.0@.subrange(0, i as int));
        }
        assert(v@ =~= p.0@);
        DynPattern(v)
    }

    /// The all-exact pattern of `bytes`.
    pub fn from_bytes(bytes: &[u8]) -> (r: DynPattern)
        ensures
            r@ == exact_pattern(bytes@),
    {
        let mut v: Vec<ByteMatch> = Vec::new();
        let mut i: usize = 0;
        while i < bytes.len()
            invariant
                i <= bytes@.len(),
                v@ == exact_pattern(bytes@.subrange(0, i as int)),
            decreases bytes@.len() - i,
        {
            v.push(ByteMatch::Exact(bytes[i]));
            i += 1;
            assert(v@ =~= exact_pattern(bytes@.subrange(0, i as int)));
        }
        assert(bytes@.subrange(0, bytes@.len() as int) =~= bytes@);
        DynPattern(v)
    }
}

impl Matcher for DynPattern {
    open spec fn elements(&self) -> Seq<ByteMatch> {
        self.0@
    }

    fn matches(&self, data: &[u8]) -> (r: bool) {
        matches_elements(self.0.as_slice(), data)
    }

    fn size(&self) -> (r: usize) {
        self.0.len()
    }
}

/// Converting a fixed-length pattern to its dynamic form keeps its size and
/// gives the same answer on every window.
pub proof fn lemma_static_to_dynamic<const N: usize>(p: Pattern<N>, d: DynPattern, w: Seq<u8>)
    requires
        d@ == p@,
    ensures
        d.elements().len() == N,
        pattern_matches(d.elements(), w) == pattern_matches(p.elements(), w),
{
}

/// An all-exact pattern matches a window exactly when the window begins
/// with its bytes.
pub proof fn lemma_exact_matches(s: Seq<u8>, w: Seq<u8>)
    requires
        w.len() >= s.len(),
    ensures
        pattern_matches(exact_pattern(s), w) <==> w.subrange(0, s.len() as int) == s,
{
    if pattern_matches(exact_pattern(s), w) {
        assert forall|i: int| 0 <= i < s.len() implies w.subrange(0, s.len() as int)[i] == s[i] by {
            assert(byte_accepts(exact_pattern(s)[i], w[i]));
        }
        assert(w.subrange(0, s.len() as int) =~= s);
    }
    if w.subrange(0, s.len() as int) == s {
        assert forall|i: int| 0 <= i < exact_pattern(s).len() implies #[trigger] byte_accepts(
            exact_pattern(s)[i],
            w[i],
        ) by {
            assert(w.subrange(0, s.len() as int)[i] == w[i]);
        }
    }
}

} // verus!
