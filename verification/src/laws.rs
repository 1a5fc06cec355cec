//! What holds of the tokens of every source.

use vstd::prelude::*;
use std::sync::Arc;
use crate::chars::is_whitespace;
use crate::grammar::{
    lemma_skip_whitespace, lemma_step_bounds, lex_from, lexed, skip_whitespace, step_at, token_at,
    tokens_of, Lexed, Piece, Step,
};
use crate::lexer::{LexError, Lexer};
use crate::token::{token_views, Token, TokenView};

verus! {

/// The position of the first character of a token.
pub open spec fn first(token: TokenView) -> int {
    token.range().start.offset
}

/// The position of the last character of a token.
pub open spec fn last(token: TokenView) -> int {
    token.range().end.offset
}

/// Whether the token holds the character at position `k`.
pub open spec fn holds(token: TokenView, k: int) -> bool {
    first(token) <= k <= last(token)
}

/// The source from `from` on as the tokens and the gaps between them give
/// it back: the gap before the first token, the slice of the source that the
/// token spans, and so on, and the gap after the last token.
pub open spec fn rebuilt(src: Seq<char>, from: int, tokens: Seq<TokenView>) -> Seq<char>
    decreases tokens.len(),
{
    if tokens.len() == 0 {
        src.subrange(from, src.len() as int)
    } else {
        src.subrange(from, first(tokens[0])) + src.subrange(
            first(tokens[0]),
            last(tokens[0]) + 1,
        ) + rebuilt(src, last(tokens[0]) + 1, tokens.drop_first())
    }
}

/// The pieces lie in the source from `from` on one after the other, none
/// empty, with nothing but whitespace before, between and after them.
pub open spec fn tiles(src: Seq<char>, from: int, pieces: Seq<Piece>) -> bool
    decreases pieces.len(),
{
    if pieces.len() == 0 {
        forall|k: int| from <= k < src.len() ==> is_whitespace(#[trigger] src[k])
    } else {
        &&& from <= pieces[0].start < pieces[0].next <= src.len()
        &&& forall|k: int| from <= k < pieces[0].start ==> is_whitespace(#[trigger] src[k])
        &&& tiles(src, pieces[0].next, pieces.drop_first())
    }
}

/// The lexemes of a source tile it.
pub proof fn lemma_lex_from_tiles(src: Seq<char>, pos: int)
    requires
        0 <= pos <= src.len(),
    ensures
        lex_from(src, pos) matches Lexed::Tokens(pieces) ==> tiles(src, pos, pieces),
    decreases src.len() - pos,
{
    lemma_skip_whitespace(src, pos);
    let start = skip_whitespace(src, pos);
    if start < src.len() {
        lemma_step_bounds(src, start);
        match step_at(src, start) {
            Step::Match { lexeme, next } => {
                lemma_lex_from_tiles(src, next);
                match lex_from(src, next) {
                    Lexed::Tokens(rest) => {
                        let pieces = seq![Piece { start, lexeme, next }] + rest;
                        assert(pieces.drop_first() =~= rest);
                    },
                    _ => {},
                }
            },
            _ => {},
        }
    }
}

/// A token spans the positions of its piece.
pub proof fn lemma_token_span(file: Seq<char>, src: Seq<char>, piece: Piece)
    ensures
        first(token_at(file, src, piece.start, piece.lexeme, piece.next)) == piece.start,
        last(token_at(file, src, piece.start, piece.lexeme, piece.next)) == piece.next - 1,
{
}

proof fn lemma_tiles_order(src: Seq<char>, from: int, pieces: Seq<Piece>, i: int, j: int)
    requires
        tiles(src, from, pieces),
        0 <= i <= j < pieces.len(),
    ensures
        from <= pieces[i].start < pieces[i].next <= src.len(),
        i < j ==> pieces[i].next <= pieces[j].start,
    decreases pieces.len(),
{
    if i > 0 {
        lemma_tiles_order(src, pieces[0].next, pieces.drop_first(), i - 1, j - 1);
    } else if j > 0 {
        lemma_tiles_order(src, pieces[0].next, pieces.drop_first(), j - 1, j - 1);
    }
}

proof fn lemma_tiles_cover(src: Seq<char>, from: int, pieces: Seq<Piece>, k: int) -> (i: int)
    requires
        tiles(src, from, pieces),
        from <= k < src.len(),
        !is_whitespace(src[k]),
    ensures
        0 <= i < pieces.len(),
        pieces[i].start <= k < pieces[i].next,
    decreases pieces.len(),
{
    if pieces.len() == 0 {
        0
    } else if k < pieces[0].next {
        0
    } else {
        lemma_tiles_cover(src, pieces[0].next, pieces.drop_first(), k) + 1
    }
}

proof fn lemma_tiles_rebuilt(file: Seq<char>, src: Seq<char>, from: int, pieces: Seq<Piece>)
    requires
        0 <= from <= src.len(),
        tiles(src, from, pieces),
    ensures
        rebuilt(src, from, tokens_of(file, src, pieces)) == src.subrange(from, src.len() as int),
    decreases pieces.len(),
{
    let tokens = tokens_of(file, src, pieces);
    if pieces.len() > 0 {
        lemma_token_span(file, src, pieces[0]);
        lemma_tiles_rebuilt(file, src, pieces[0].next, pieces.drop_first());
        assert(tokens.drop_first() =~= tokens_of(file, src, pieces.drop_first()));
        assert(rebuilt(src, from, tokens) =~= src.subrange(from, src.len() as int));
    }
}

/// The ranges of the tokens of a source lie inside the source, each range
/// ends where it starts or later, and each token ends before the next one
/// starts: the ranges increase strictly and do not overlap.
pub proof fn law_ranges_increase(file: Seq<char>, src: Seq<char>, pos: int)
    requires
        0 <= pos <= src.len(),
    ensures
        lexed(file, src, pos) matches Ok(tokens) ==> {
            &&& forall|i: int|
                0 <= i < tokens.len() ==> pos <= first(#[trigger] tokens[i]) <= last(tokens[i])
                    < src.len()
            &&& forall|i: int, j: int|
                0 <= i < j < tokens.len() ==> last(#[trigger] tokens[i]) < first(
                    #[trigger] tokens[j],
                )
        },
{
    lemma_lex_from_tiles(src, pos);
    match lex_from(src, pos) {
        Lexed::Tokens(pieces) => {
            let tokens = tokens_of(file, src, pieces);
            assert forall|i: int| 0 <= i < tokens.len() implies pos <= first(
                #[trigger] tokens[i],
            ) <= last(tokens[i]) < src.len() by {
                lemma_token_span(file, src, pieces[i]);
                lemma_tiles_order(src, pos, pieces, i, i);
            }
            assert forall|i: int, j: int| 0 <= i < j < tokens.len() implies last(
                #[trigger] tokens[i],
            ) < first(#[trigger] tokens[j]) by {
                lemma_token_span(file, src, pieces[i]);
                lemma_token_span(file, src, pieces[j]);
                lemma_tiles_order(src, pos, pieces, i, j);
            }
        },
        _ => {},
    }
}

/// The tokens of a source cover each of its characters that is no
/// whitespace exactly once: one token holds the character and no other does.
pub proof fn law_tokens_cover(file: Seq<char>, src: Seq<char>, pos: int)
    requires
        0 <= pos <= src.len(),
    ensures
        lexed(file, src, pos) matches Ok(tokens) ==> {
            &&& forall|k: int|
                pos <= k < src.len() && !is_whitespace(#[trigger] src[k]) ==> exists|i: int|
                    0 <= i < tokens.len() && holds(#[trigger] tokens[i], k)
            &&& forall|i: int, j: int, k: int|
                0 <= i < tokens.len() && 0 <= j < tokens.len() && #[trigger] holds(tokens[i], k)
                    && #[trigger] holds(tokens[j], k) ==> i == j
        },
{
    lemma_lex_from_tiles(src, pos);
    law_ranges_increase(file, src, pos);
    match lex_from(src, pos) {
        Lexed::Tokens(pieces) => {
            let tokens = tokens_of(file, src, pieces);
            assert forall|k: int|
                pos <= k < src.len() && !is_whitespace(#[trigger] src[k]) implies exists|i: int|
                0 <= i < tokens.len() && holds(#[trigger] tokens[i], k) by {
                let i = lemma_tiles_cover(src, pos, pieces, k);
                lemma_token_span(file, src, pieces[i]);
                assert(holds(tokens[i], k));
            }
            assert forall|i: int, j: int, k: int|
                0 <= i < tokens.len() && 0 <= j < tokens.len() && #[trigger] holds(tokens[i], k)
                    && #[trigger] holds(tokens[j], k) implies i == j by {
                if i < j {
                    assert(last(tokens[i]) < first(tokens[j]));
                } else if j < i {
                    assert(last(tokens[j]) < first(tokens[i]));
                }
            }
        },
        _ => {},
    }
}

/// Round trip: the slices of the source that the tokens span, put together
/// in order with the gaps between them, are the source again, and the gaps
/// hold nothing but whitespace.
pub proof fn law_round_trip(file: Seq<char>, src: Seq<char>, pos: int)
    requires
        0 <= pos <= src.len(),
    ensures
        lexed(file, src, pos) matches Ok(tokens) ==> {
            &&& rebuilt(src, pos, tokens) == src.subrange(pos, src.len() as int)
            &&& forall|k: int|
                pos <= k < src.len() && !is_whitespace(#[trigger] src[k]) ==> exists|i: int|
                    0 <= i < tokens.len() && holds(#[trigger] tokens[i], k)
        },
{
    lemma_lex_from_tiles(src, pos);
    law_tokens_cover(file, src, pos);
    match lex_from(src, pos) {
        Lexed::Tokens(pieces) => {
            lemma_tiles_rebuilt(file, src, pos, pieces);
        },
        _ => {},
    }
}

/// Idempotence: where a call of `lex` has given tokens, the next call on
/// the same lexer gives the same tokens and leaves the lexer as it was.
pub proof fn law_lex_idempotent(
    fresh: Lexer,
    once: Lexer,
    twice: Lexer,
    first_result: Result<Arc<Vec<Token>>, LexError>,
    second_result: Result<Arc<Vec<Token>>, LexError>,
)
    requires
        once.lexes(fresh, first_result),
        twice.lexes(once, second_result),
        first_result is Ok,
    ensures
        second_result is Ok,
        token_views(second_result->Ok_0@) == token_views(first_result->Ok_0@),
        twice.cached() == once.cached(),
        twice.offset() == once.offset(),
{
}

} // verus!
