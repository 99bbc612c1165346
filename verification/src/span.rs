//! Source locations: half-open ranges of character offsets.

use vstd::prelude::*;

verus! {

/// A half-open range of character offsets inside one source unit, held as a
/// start offset and a length. The end offset always fits in a `usize`.
#[derive(Clone, Copy, Debug, PartialEq, Eq, Hash, Structural)]
pub struct Span {
    pub(crate) start: usize,
    pub(crate) len: usize,
}

impl Span {
    #[verifier::type_invariant]
    pub closed spec fn end_fits(self) -> bool {
        self.start + self.len <= usize::MAX
    }

    /// The offset of the first character covered.
    pub closed spec fn lo(self) -> int {
        self.start as int
    }

    /// The offset one past the last character covered.
    pub closed spec fn hi(self) -> int {
        self.start + self.len
    }

    /// The span that starts at `lo` and ends at `hi`, as a specification value.
    pub closed spec fn between(lo: int, hi: int) -> Span {
        Span { start: lo as usize, len: (hi - lo) as usize }
    }

    /// `between` is the one span with the given bounds, whenever the bounds are
    /// ordered and fit the machine.
    pub broadcast proof fn lemma_between(lo: int, hi: int)
        requires
            0 <= lo <= hi <= usize::MAX,
        ensures
            (#[trigger] Span::between(lo, hi)).lo() == lo,
            Span::between(lo, hi).hi() == hi,
    {
    }

    /// Every span is `between` its own bounds.
    pub broadcast proof fn lemma_is_between(s: Span)
        ensures
            #[trigger] Span::between(s.lo(), s.hi()) == s,
    {
    }

    /// Two spans with the same bounds are the same span.
    pub proof fn lemma_bounds_determine(a: Span, b: Span)
        requires
            a.lo() == b.lo(),
            a.hi() == b.hi(),
        ensures
            a == b,
    {
    }

    /// A span of `len` characters starting at `start`.
    pub fn new(start: usize, len: usize) -> (s: Span)
        requires
            start + len <= usize::MAX,
        ensures
            s.lo() == start,
            s.hi() == start + len,
            s == Span::between(start as int, start + len),
    {
        Span { start, len }
    }

    /// The empty span that marks the position `at`.
    pub fn new_shrunk(at: usize) -> (s: Span)
        ensures
            s.lo() == at,
            s.hi() == at,
            s == Span::between(at as int, at as int),
    {
        Span { start: at, len: 0 }
    }

    pub fn start(&self) -> (r: usize)
        ensures
            r == self.lo(),
    {
        self.start
    }

    pub fn len(&self) -> (r: usize)
        ensures
            r == self.hi() - self.lo(),
    {
        self.len
    }

    pub fn end(&self) -> (r: usize)
        ensures
            r == self.hi(),
            self.lo() <= r,
    {
        proof {
            use_type_invariant(self);
        }
        self.start + self.len
    }

    pub fn is_empty(&self) -> (r: bool)
        ensures
            r == (self.lo() == self.hi()),
    {
        self.len == 0
    }

    /// The smallest span that covers both `self` and `other`.
    pub fn until(self, other: Span) -> (s: Span)
        ensures
            s.lo() == if self.lo() <= other.lo() { self.lo() } else { other.lo() },
            s.hi() == if self.hi() >= other.hi() { self.hi() } else { other.hi() },
    {
        proof {
            use_type_invariant(self);
            use_type_invariant(other);
        }
        let lo: usize = if self.start <= other.start { self.start } else { other.start };
        let self_hi: usize = self.start + self.len;
        let other_hi: usize = other.start + other.len;
        let hi: usize = if self_hi >= other_hi { self_hi } else { other_hi };
        Span { start: lo, len: hi - lo }
    }
}

impl Default for Span {
    fn default() -> (s: Span)
        ensures
            s.lo() == 0,
            s.hi() == 0,
    {
        Span { start: 0, len: 0 }
    }
}

pub broadcast group group_span {
    Span::lemma_between,
    Span::lemma_is_between,
}

/// A value together with the span it was read from.
#[derive(Clone, Copy, Debug, PartialEq, Eq)]
pub struct Spanned<T> {
    pub span: Span,
    pub value: T,
}

impl<T> Spanned<T> {
    pub fn new(span: Span, value: T) -> (s: Spanned<T>)
        ensures
            s.span == span,
            s.value == value,
    {
        Spanned { span, value }
    }

    pub fn span(&self) -> (s: Span)
        ensures
            s == self.span,
    {
        self.span
    }

    pub fn value(&self) -> (v: &T)
        ensures
            *v == self.value,
    {
        &self.value
    }
}

impl<T: Copy> Spanned<T> {
    pub fn value_owned(&self) -> (v: T)
        ensures
            v == self.value,
    {
        self.value
    }
}

} // verus!
