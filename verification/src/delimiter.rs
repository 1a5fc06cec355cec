//! The brackets that can enclose a group of tokens.

use vstd::prelude::*;

verus! {

#[derive(Debug, Clone, Copy, PartialEq, Eq, Structural)]
pub enum Delimiter {
    /// `(...)`
    Parentheses,
    /// `[...]`
    Brackets,
    /// `{...}`
    Braces,
}

impl Delimiter {
    pub fn is_parentheses(&self) -> (r: bool)
        ensures
            r == (*self == Delimiter::Parentheses),
    {
        matches!(self, Delimiter::Parentheses)
    }

    pub fn is_brackets(&self) -> (r: bool)
        ensures
            r == (*self == Delimiter::Brackets),
    {
        matches!(self, Delimiter::Brackets)
    }

    pub fn is_braces(&self) -> (r: bool)
        ensures
            r == (*self == Delimiter::Braces),
    {
        matches!(self, Delimiter::Braces)
    }
}

} // verus!
