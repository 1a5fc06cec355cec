//! A cursor over a sequence of tokens.

use vstd::prelude::*;
use std::sync::Arc;
use crate::location::Range;
use crate::sharing::share;
use crate::token::{clone_token, range_of_tokens, token_views, Group, Token, TokenView};

verus! {

/// A sequence of tokens and a position in it.
#[derive(Debug)]
pub struct TokenStream {
    tokens: Arc<Vec<Token>>,
    index: usize,
}

impl TokenStream {
    /// The position never lies behind the end of the tokens.
    #[verifier::type_invariant]
    spec fn in_bounds(self) -> bool {
        self.index <= self.tokens@.len()
    }

    /// All the tokens, consumed or not.
    pub closed spec fn tokens(&self) -> Seq<TokenView> {
        token_views(self.tokens@)
    }

    /// The number of tokens consumed.
    pub closed spec fn position(&self) -> int {
        self.index as int
    }
}

impl From<Vec<Token>> for TokenStream {
    /// A stream at the start of `tokens`.
    fn from(tokens: Vec<Token>) -> (r: Self)
        ensures
            r.tokens() == token_views(tokens@),
            r.position() == 0,
    {
        TokenStream { tokens: Arc::new(tokens), index: 0 }
    }
}

impl vstd::std_specs::convert::FromSpecImpl<Vec<Token>> for TokenStream {
    open spec fn obeys_from_spec() -> bool {
        false
    }

    open spec fn from_spec(tokens: Vec<Token>) -> Self {
        arbitrary()
    }
}

impl From<Group> for TokenStream {
    /// A stream at the start of the tokens inside `group`.
    fn from(group: Group) -> (r: Self)
        ensures
            r.tokens() == group@.tokens,
            r.position() == 0,
    {
        TokenStream { tokens: Arc::new(group.tokens), index: 0 }
    }
}

impl vstd::std_specs::convert::FromSpecImpl<Group> for TokenStream {
    open spec fn obeys_from_spec() -> bool {
        false
    }

    open spec fn from_spec(group: Group) -> Self {
        arbitrary()
    }
}

impl Clone for TokenStream {
    /// A copy that shares the tokens and stands at the same position.
    fn clone(&self) -> (r: Self)
        ensures
            r.tokens() == self.tokens(),
            r.position() == self.position(),
    {
        proof {
            use_type_invariant(self);
        }
        TokenStream { tokens: share(&self.tokens), index: self.index }
    }
}

impl TokenStream {
    /// Consumes the next token, if there is one, and gives a copy of it.
    pub fn next(&mut self) -> (r: Option<Token>)
        ensures
            final(self).tokens() == old(self).tokens(),
            match r {
                Some(token) => {
                    &&& old(self).position() < old(self).tokens().len()
                    &&& token@ == old(self).tokens()[old(self).position()]
                    &&& final(self).position() == old(self).position() + 1
                },
                None => {
                    &&& old(self).position() == old(self).tokens().len()
                    &&& final(self).position() == old(self).position()
                },
            },
    {
        proof {
            use_type_invariant(&*self);
        }
        if self.index >= self.tokens.len() {
            return None;
        }
        let token = clone_token(&self.tokens[self.index]);
        self.index = self.index + 1;
        Some(token)
    }

    /// The range from the start of the first token to the end of the last,
    /// consumed or not; nothing where the stream holds no token.
    pub fn range(&self) -> (r: Option<Range>)
        ensures
            match r {
                Some(range) => {
                    &&& self.tokens().len() > 0
                    &&& range@.start == self.tokens().first().range().start
                    &&& range@.end == self.tokens().last().range().end
                },
                None => self.tokens().len() == 0,
            },
    {
        range_of_tokens(&self.tokens)
    }

    /// Whether the stream holds no token at all, consumed or not.
    pub fn is_empty(&self) -> (r: bool)
        ensures
            r == (self.tokens().len() == 0),
    {
        self.tokens.len() == 0
    }

    /// All the tokens, consumed or not.
    pub fn as_slice(&self) -> (r: &[Token])
        ensures
            token_views(r@) == self.tokens(),
    {
        self.tokens.as_slice()
    }

    /// Puts copies of the tokens of `rest` in front of the next token: the
    /// first of them becomes the next token.
    pub fn extend_from_slice(&mut self, rest: &[Token])
        ensures
            0 <= old(self).position() <= old(self).tokens().len(),
            final(self).position() == old(self).position(),
            final(self).tokens() == old(self).tokens().subrange(0, old(self).position())
                + token_views(rest@) + old(self).tokens().subrange(
                old(self).position(),
                old(self).tokens().len() as int,
            ),
    {
        proof {
            use_type_invariant(&*self);
        }
        let ghost before = self.tokens@;
        let ghost at = self.index as int;
        let mut tokens: Vec<Token> = Vec::new();
        let mut i: usize = 0;
        while i < self.index
            invariant
                self.tokens@ == before,
                self.index == at,
                i <= at <= before.len(),
                token_views(tokens@) == token_views(before).subrange(0, i as int),
            decreases self.index - i,
        {
            let ghost so_far = token_views(tokens@);
            tokens.push(clone_token(&self.tokens[i]));
            i += 1;
            assert(token_views(tokens@) =~= so_far.push(token_views(before)[i - 1]));
            assert(token_views(tokens@) =~= token_views(before).subrange(0, i as int));
        }
        let mut j: usize = 0;
        while j < rest.len()
            invariant
                self.tokens@ == before,
                self.index == at,
                at <= before.len(),
                j <= rest@.len(),
                token_views(tokens@) == token_views(before).subrange(0, at) + token_views(
                    rest@,
                ).subrange(0, j as int),
            decreases rest@.len() - j,
        {
            let ghost so_far = token_views(tokens@);
            tokens.push(clone_token(&rest[j]));
            j += 1;
            assert(token_views(tokens@) =~= so_far.push(token_views(rest@)[j - 1]));
            assert(token_views(tokens@) =~= token_views(before).subrange(0, at) + token_views(
                rest@,
            ).subrange(0, j as int));
        }
        assert(token_views(rest@).subrange(0, rest@.len() as int) =~= token_views(rest@));
        let mut k: usize = self.index;
        while k < self.tokens.len()
            invariant
                self.tokens@ == before,
                self.index == at,
                at <= k <= before.len(),
                token_views(tokens@) == token_views(before).subrange(0, at) + token_views(rest@)
                    + token_views(before).subrange(at, k as int),
            decreases before.len() - k,
        {
            let ghost so_far = token_views(tokens@);
            tokens.push(clone_token(&self.tokens[k]));
            k += 1;
            assert(token_views(tokens@) =~= so_far.push(token_views(before)[k - 1]));
            assert(token_views(tokens@) =~= token_views(before).subrange(0, at) + token_views(
                rest@,
            ) + token_views(before).subrange(at, k as int));
        }
        assert(tokens@.len() == token_views(tokens@).len());
        self.tokens = Arc::new(tokens);
    }

    /// Puts copies of all the tokens of `rest`, consumed or not, in front of
    /// the next token.
    pub fn extend(&mut self, rest: TokenStream)
        ensures
            0 <= old(self).position() <= old(self).tokens().len(),
            final(self).position() == old(self).position(),
            final(self).tokens() == old(self).tokens().subrange(0, old(self).position())
                + rest.tokens() + old(self).tokens().subrange(
                old(self).position(),
                old(self).tokens().len() as int,
            ),
    {
        assert(rest.tokens@.len() == rest.tokens().len());
        self.extend_from_slice(rest.as_slice());
    }

    /// The token `n` places after the next one, which stays unconsumed.
    pub fn peek_n(&self, n: usize) -> (r: Option<&Token>)
        ensures
            match r {
                Some(token) => {
                    &&& self.position() + n < self.tokens().len()
                    &&& token@ == self.tokens()[self.position() + n]
                },
                None => self.position() + n >= self.tokens().len(),
            },
    {
        proof {
            use_type_invariant(self);
        }
        if n < self.tokens.len() - self.index {
            Some(&self.tokens[self.index + n])
        } else {
            None
        }
    }

    /// The next token, which stays unconsumed.
    pub fn peek(&self) -> (r: Option<&Token>)
        ensures
            match r {
                Some(token) => {
                    &&& self.position() < self.tokens().len()
                    &&& token@ == self.tokens()[self.position()]
                },
                None => self.position() >= self.tokens().len(),
            },
    {
        self.peek_n(0)
    }

    /// Consumes the next `n` tokens, or those that are left.
    pub fn advance_n(&mut self, n: usize)
        ensures
            final(self).tokens() == old(self).tokens(),
            final(self).position() == if old(self).position() + n <= old(self).tokens().len() {
                old(self).position() + n
            } else {
                old(self).tokens().len() as int
            },
    {
        proof {
            use_type_invariant(&*self);
        }
        let left = self.tokens.len() - self.index;
        if n < left {
            self.index = self.index + n;
        } else {
            self.index = self.tokens.len();
        }
    }

    /// Consumes the next token, if there is one.
    pub fn advance(&mut self)
        ensures
            final(self).tokens() == old(self).tokens(),
            final(self).position() == if old(self).position() < old(self).tokens().len() {
                old(self).position() + 1
            } else {
                old(self).position()
            },
    {
        proof {
            use_type_invariant(&*self);
        }
        self.advance_n(1);
    }
}

} // verus!
