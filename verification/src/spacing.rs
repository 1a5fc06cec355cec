//! Whether the single characters next to a token are whitespace.

use vstd::prelude::*;

verus! {

/// The whitespace directly around a token, for a `+` as the example.
#[derive(Debug, Clone, Copy, PartialEq, Eq, Structural)]
pub enum Spacing {
    /// `+` in the middle of `_+_`
    Both,
    /// `+` in the middle of `_++`
    Leading,
    /// `+` in the middle of `++_`
    Trailing,
    /// `+` in the middle of `+++`
    Neither,
}

impl Spacing {
    /// The spacing of a token with whitespace before it iff `before` and
    /// after it iff `after`.
    pub open spec fn of(before: bool, after: bool) -> Spacing {
        if before && after {
            Spacing::Both
        } else if before {
            Spacing::Leading
        } else if after {
            Spacing::Trailing
        } else {
            Spacing::Neither
        }
    }

    pub open spec fn leading(self) -> bool {
        self == Spacing::Both || self == Spacing::Leading
    }

    pub open spec fn trailing(self) -> bool {
        self == Spacing::Both || self == Spacing::Trailing
    }

    pub fn from_sides(before: bool, after: bool) -> (r: Spacing)
        ensures
            r == Spacing::of(before, after),
    {
        if before && after {
            Spacing::Both
        } else if before {
            Spacing::Leading
        } else if after {
            Spacing::Trailing
        } else {
            Spacing::Neither
        }
    }

    pub fn is_both(&self) -> (r: bool)
        ensures
            r == (*self == Spacing::Both),
    {
        matches!(self, Spacing::Both)
    }

    pub fn is_leading(&self) -> (r: bool)
        ensures
            r == (*self == Spacing::Leading),
    {
        matches!(self, Spacing::Leading)
    }

    pub fn is_trailing(&self) -> (r: bool)
        ensures
            r == (*self == Spacing::Trailing),
    {
        matches!(self, Spacing::Trailing)
    }

    pub fn is_none(&self) -> (r: bool)
        ensures
            r == (*self == Spacing::Neither),
    {
        matches!(self, Spacing::Neither)
    }

    pub fn has_both(&self) -> (r: bool)
        ensures
            r == (self.leading() && self.trailing()),
    {
        matches!(self, Spacing::Both)
    }

    pub fn has_none(&self) -> (r: bool)
        ensures
            r == (!self.leading() && !self.trailing()),
    {
        matches!(self, Spacing::Neither)
    }

    pub fn has_leading(&self) -> (r: bool)
        ensures
            r == self.leading(),
    {
        matches!(self, Spacing::Both | Spacing::Leading)
    }

    pub fn has_trailing(&self) -> (r: bool)
        ensures
            r == self.trailing(),
    {
        matches!(self, Spacing::Both | Spacing::Trailing)
    }

    pub fn has_no_leading(&self) -> (r: bool)
        ensures
            r == !self.leading(),
    {
        matches!(self, Spacing::Neither | Spacing::Trailing)
    }

    pub fn has_no_trailing(&self) -> (r: bool)
        ensures
            r == !self.trailing(),
    {
        matches!(self, Spacing::Neither | Spacing::Leading)
    }
}

} // verus!
