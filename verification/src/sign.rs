//! The sign of a numeric literal.

use vstd::prelude::*;

verus! {

#[derive(Debug, Clone, Copy, PartialEq, Eq, Structural)]
pub enum Sign {
    /// `+` or no sign
    Positive,
    /// `-`
    Negative,
}

impl Sign {
    /// The factor that the sign stands for: 1 or -1.
    pub open spec fn factor(self) -> int {
        match self {
            Sign::Positive => 1,
            Sign::Negative => -1,
        }
    }

    pub fn is_positive(&self) -> (r: bool)
        ensures
            r == (*self == Sign::Positive),
    {
        matches!(self, Sign::Positive)
    }

    pub fn is_negative(&self) -> (r: bool)
        ensures
            r == (*self == Sign::Negative),
    {
        matches!(self, Sign::Negative)
    }
}

} // verus!
