//! Source spans and line/column positions.

use vstd::prelude::*;

verus! {

/// A half-open range of byte offsets into a source text.
#[derive(Debug, Clone, Copy, PartialEq, Eq, Hash, Structural)]
pub struct Span {
    pub start: usize,
    pub end: usize,
}

/// A zero-based line and column in a source text.
#[derive(Debug, Clone, Copy, PartialEq, Eq, Structural)]
pub struct Position {
    pub line: usize,
    pub column: usize,
}

/// A value together with the span of source text it was read from.
#[derive(Debug, Clone, PartialEq, Eq, Hash)]
pub struct Spanned<T>(pub T, pub Span);

impl<T> From<(T, Span)> for Spanned<T> {
    fn from(pair: (T, Span)) -> (r: Self) {
        Spanned(pair.0, pair.1)
    }
}

impl<T> vstd::std_specs::convert::FromSpecImpl<(T, Span)> for Spanned<T> {
    open spec fn obeys_from_spec() -> bool {
        true
    }

    open spec fn from_spec(pair: (T, Span)) -> Self {
        Spanned(pair.0, pair.1)
    }
}

impl<T> Spanned<T> {
    /// Pairs `item` with `span`.
    pub fn new(item: T, span: Span) -> (r: Self)
        ensures
            r.0 == item,
            r.1 == span,
    {
        Spanned(item, span)
    }

    /// Gives up the span and returns the value.
    pub fn take(self) -> (r: T)
        ensures
            r == self.0,
    {
        self.0
    }

    /// The span the value was read from.
    pub fn span(&self) -> (r: &Span)
        ensures
            *r == self.1,
    {
        &self.1
    }

    /// The value itself.
    pub fn deref(&self) -> (r: &T)
        ensures
            *r == self.0,
    {
        &self.0
    }

    /// Applies `f` to the value and keeps the span.
    pub fn map<U, F: FnOnce(T) -> U>(self, f: F) -> (r: Spanned<U>)
        requires
            f.requires((self.0,)),
        ensures
            f.ensures((self.0,), r.0),
            r.1 == self.1,
    {
        let Spanned(item, span) = self;
        Spanned(f(item), span)
    }
}

impl<T: Clone> Spanned<&T> {
    /// A spanned owned copy of the borrowed value.
    pub fn to_owned(&self) -> (r: Spanned<T>)
        ensures
            cloned(*self.0, r.0),
            r.1 == self.1,
    {
        Spanned(self.0.clone(), self.1)
    }
}

/// Whether `index` lies inside `span`.
pub open spec fn span_contains(span: Span, index: usize) -> bool {
    span.start <= index < span.end
}

/// Tests whether `index` lies inside `span`.
pub fn span_has(span: &Span, index: usize) -> (r: bool)
    ensures
        r == span_contains(*span, index),
{
    span.start <= index && index < span.end
}

} // verus!
