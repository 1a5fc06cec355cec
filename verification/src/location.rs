//! Source positions and the ranges between them.

use vstd::prelude::*;
use std::sync::Arc;
use crate::sharing::share;

verus! {

/// A position in a source file: file name, 1-based line, 1-based column and
/// the index of the character in the decoded source. The file name is shared
/// between the locations of one source.
#[derive(Debug, PartialEq, Eq)]
pub struct Location {
    file: Arc<String>,
    line: usize,
    column: usize,
    offset: usize,
}

/// What a [`Location`] stands for.
pub struct LocationView {
    pub file: Seq<char>,
    pub line: int,
    pub column: int,
    pub offset: int,
}

impl View for Location {
    type V = LocationView;

    closed spec fn view(&self) -> LocationView {
        LocationView {
            file: self.file@,
            line: self.line as int,
            column: self.column as int,
            offset: self.offset as int,
        }
    }
}

/// A pair of locations spanning a lexical unit; `end` is inclusive.
#[derive(Debug, PartialEq, Eq)]
pub struct Range {
    pub start: Location,
    pub end: Location,
}

/// What a [`Range`] stands for.
pub struct RangeView {
    pub start: LocationView,
    pub end: LocationView,
}

impl View for Range {
    type V = RangeView;

    open spec fn view(&self) -> RangeView {
        RangeView { start: self.start@, end: self.end@ }
    }
}

impl Clone for Location {
    /// A copy that shares the file name.
    fn clone(&self) -> (r: Self)
        ensures
            r == *self,
    {
        Location {
            file: share(&self.file),
            line: self.line,
            column: self.column,
            offset: self.offset,
        }
    }
}

impl Clone for Range {
    fn clone(&self) -> (r: Self)
        ensures
            r == *self,
    {
        Range { start: self.start.clone(), end: self.end.clone() }
    }
}

impl Location {
    pub fn new(file: Arc<String>, line: usize, column: usize, offset: usize) -> (r: Self)
        ensures
            r@ == (LocationView {
                file: file@,
                line: line as int,
                column: column as int,
                offset: offset as int,
            }),
    {
        Location { file, line, column, offset }
    }

    /// A placeholder location: an empty file name, line 1, column 1, offset 0.
    pub fn fake() -> (r: Self)
        ensures
            r@ == (LocationView { file: Seq::<char>::empty(), line: 1, column: 1, offset: 0 }),
    {
        Location { file: Arc::new(String::new()), line: 1, column: 1, offset: 0 }
    }

    pub fn file(&self) -> (r: &str)
        ensures
            r@ == self@.file,
    {
        self.file.as_str()
    }

    pub fn line(&self) -> (r: usize)
        ensures
            r == self@.line,
    {
        self.line
    }

    pub fn column(&self) -> (r: usize)
        ensures
            r == self@.column,
    {
        self.column
    }

    /// The index of the character in the decoded source; the same number as
    /// [`Location::offset`].
    pub fn index(&self) -> (r: usize)
        ensures
            r == self@.offset,
    {
        self.offset
    }

    pub fn offset(&self) -> (r: usize)
        ensures
            r == self@.offset,
    {
        self.offset
    }

    /// The range from this location to `end`, both included.
    pub fn to(&self, end: &Self) -> (r: Range)
        ensures
            r == (Range { start: *self, end: *end }),
    {
        Range { start: self.clone(), end: end.clone() }
    }

    /// The range that holds this location alone.
    pub fn to_range(&self) -> (r: Range)
        ensures
            r == (Range { start: *self, end: *self }),
    {
        Range { start: self.clone(), end: self.clone() }
    }
}

/// The character that writes the decimal digit `d`.
pub open spec fn digit_char(d: int) -> char {
    if d == 0 {
        '0'
    } else if d == 1 {
        '1'
    } else if d == 2 {
        '2'
    } else if d == 3 {
        '3'
    } else if d == 4 {
        '4'
    } else if d == 5 {
        '5'
    } else if d == 6 {
        '6'
    } else if d == 7 {
        '7'
    } else if d == 8 {
        '8'
    } else {
        '9'
    }
}

/// The decimal digits that write `n`, without leading zeros.
pub open spec fn decimal_digits(n: nat) -> Seq<char>
    decreases n,
{
    if n < 10 {
        seq![digit_char(n as int)]
    } else {
        decimal_digits(n / 10).push(digit_char((n % 10) as int))
    }
}

/// What a location is written as: file, line and column with colons
/// between them.
pub open spec fn location_text(location: LocationView) -> Seq<char> {
    location.file + seq![':'] + decimal_digits(location.line as nat) + seq![':'] + decimal_digits(
        location.column as nat,
    )
}

fn digit(d: usize) -> (r: char)
    requires
        d < 10,
    ensures
        r == digit_char(d as int),
{
    if d == 0 {
        '0'
    } else if d == 1 {
        '1'
    } else if d == 2 {
        '2'
    } else if d == 3 {
        '3'
    } else if d == 4 {
        '4'
    } else if d == 5 {
        '5'
    } else if d == 6 {
        '6'
    } else if d == 7 {
        '7'
    } else if d == 8 {
        '8'
    } else {
        '9'
    }
}

/// Appends the decimal digits of `n` to `text`.
fn push_decimal(text: &mut String, n: usize)
    ensures
        final(text)@ == old(text)@ + decimal_digits(n as nat),
    decreases n,
{
    if n >= 10 {
        push_decimal(text, n / 10);
    }
    text.push(digit(n % 10));
}

impl Location {
    /// The location as `file:line:column`.
    pub fn to_string(&self) -> (r: String)
        ensures
            r@ == location_text(self@),
    {
        let mut text = self.file.as_str().to_owned();
        text.push(':');
        push_decimal(&mut text, self.line);
        text.push(':');
        push_decimal(&mut text, self.column);
        text
    }
}

impl From<&Location> for Range {
    /// The range that holds the location alone.
    fn from(location: &Location) -> (r: Range) {
        location.to_range()
    }
}

impl vstd::std_specs::convert::FromSpecImpl<&Location> for Range {
    open spec fn obeys_from_spec() -> bool {
        true
    }

    open spec fn from_spec(location: &Location) -> Range {
        Range { start: *location, end: *location }
    }
}

} // verus!
