//! Places in source files.

use vstd::prelude::*;
use crate::span::{Position, Span, Spanned};
use crate::source::{location_of, AtopileSource};
use crate::text::{concat_text, copy_text, decimal, decimal_text, owned_text};

verus! {

/// A range of positions in a source text.
#[derive(Debug, Clone, Copy, PartialEq, Eq, Structural)]
pub struct Range {
    pub start: Position,
    pub end: Position,
}

/// A range of positions in a named file.
#[derive(Debug, PartialEq, Eq)]
pub struct Location {
    pub file: String,
    pub range: Range,
}

/// What a [`Location`] stands for.
pub struct LocationView {
    pub file: Seq<char>,
    pub range: Range,
}

impl View for Location {
    type V = LocationView;

    open spec fn view(&self) -> LocationView {
        LocationView { file: self.file@, range: self.range }
    }
}

impl Clone for Location {
    fn clone(&self) -> (r: Self)
        ensures
            r@ == self@,
    {
        Location { file: copy_text(&self.file), range: self.range }
    }
}

/// A position as displayed: `line:column`.
pub open spec fn position_text(p: Position) -> Seq<char> {
    decimal(p.line as nat) + ":"@ + decimal(p.column as nat)
}

/// A location as displayed: `file:line:column` of its start.
pub open spec fn location_text(l: LocationView) -> Seq<char> {
    l.file + ":"@ + position_text(l.range.start)
}

/// Writes a position as `line:column`.
pub fn position_to_string(p: Position) -> (r: String)
    ensures
        r@ == position_text(p),
{
    let line = decimal_text(p.line);
    let column = decimal_text(p.column);
    concat_text(concat_text(line, ":"), column.as_str())
}

impl Location {
    /// Writes the location as `file:line:column` of its start.
    pub fn to_string(&self) -> (r: String)
        ensures
            r@ == location_text(self@),
    {
        let start = position_to_string(self.range.start);
        let r = concat_text(concat_text(copy_text(&self.file), ":"), start.as_str());
        r
    }
}

/// A value together with the place in a source file it came from.
#[derive(Debug, PartialEq)]
pub struct Located<T>(pub T, pub Location);

impl<T> From<(T, Location)> for Located<T> {
    fn from(pair: (T, Location)) -> (r: Self) {
        Located(pair.0, pair.1)
    }
}

impl<T> vstd::std_specs::convert::FromSpecImpl<(T, Location)> for Located<T> {
    open spec fn obeys_from_spec() -> bool {
        true
    }

    open spec fn from_spec(pair: (T, Location)) -> Self {
        Located(pair.0, pair.1)
    }
}

impl<T> Located<T> {
    /// Pairs `item` with `location`.
    pub fn new(item: T, location: Location) -> (r: Self)
        ensures
            r.0 == item,
            r.1 == location,
    {
        Located(item, location)
    }

    /// The value of `spanned`, located in the file `path` at the positions
    /// that its span has in `source`.
    pub fn from_spanned(spanned: Spanned<T>, source: &AtopileSource, path: &str) -> (r: Self)
        ensures
            r.0 == spanned.0,
            r.1@ == location_of(path@, source.starts(), spanned.1),
    {
        let location = Location {
            file: owned_text(path),
            range: Range {
                start: source.index_to_position(spanned.1.start),
                end: source.index_to_position(spanned.1.end),
            },
        };
        Located(spanned.0, location)
    }

    /// Where the value came from.
    pub fn location(&self) -> (r: &Location)
        ensures
            *r == self.1,
    {
        &self.1
    }

    /// The value itself.
    pub fn deref(&self) -> (r: &T)
        ensures
            *r == self.0,
    {
        &self.0
    }
}

impl<T> Spanned<T> {
    /// The value, located in `source` at the positions that its span has
    /// there.
    pub fn into_located(self, source: &AtopileSource) -> (r: Located<T>)
        ensures
            r.0 == self.0,
            r.1@ == location_of(source.path_view(), source.starts(), self.1),
    {
        let location = source.span_location(&self.1);
        Located(self.0, location)
    }
}

impl<T: Clone> Located<&T> {
    /// A located owned copy of the borrowed value.
    pub fn to_owned(&self) -> (r: Located<T>)
        ensures
            cloned(*self.0, r.0),
            r.1@ == self.1@,
    {
        Located(self.0.clone(), self.1.clone())
    }
}

} // verus!
