//! The nodes that a parser works on: tokens, and the symbols that it joins
//! from adjacent punctuators.

use vstd::prelude::*;
use crate::location::{Range, RangeView};
use crate::stream::Stream;
use crate::token::{Punct, Token, TokenView};

verus! {

/// A node of the syntax tree under construction.
#[derive(Debug, PartialEq, Eq)]
pub enum Ast {
    Token(Token),
    Symbol(Symbol),
}

/// An operator made of one or more punctuators with no whitespace between
/// them.
#[derive(Debug, PartialEq, Eq)]
pub struct Symbol {
    pub range: Range,
    pub symbol: String,
}

pub struct SymbolView {
    pub range: RangeView,
    pub symbol: Seq<char>,
}

pub enum AstView {
    Token(TokenView),
    Symbol(SymbolView),
}

impl AstView {
    pub open spec fn range(self) -> RangeView {
        match self {
            AstView::Token(token) => token.range(),
            AstView::Symbol(symbol) => symbol.range,
        }
    }
}

impl View for Symbol {
    type V = SymbolView;

    open spec fn view(&self) -> SymbolView {
        SymbolView { range: self.range@, symbol: self.symbol@ }
    }
}

impl View for Ast {
    type V = AstView;

    open spec fn view(&self) -> AstView {
        match self {
            Ast::Token(token) => AstView::Token(token@),
            Ast::Symbol(symbol) => AstView::Symbol(symbol@),
        }
    }
}

impl Clone for Symbol {
    fn clone(&self) -> (r: Self)
        ensures
            r@ == self@,
    {
        Symbol { range: self.range.clone(), symbol: self.symbol.clone() }
    }
}

impl Clone for Ast {
    fn clone(&self) -> (r: Self)
        ensures
            r@ == self@,
    {
        match self {
            Ast::Token(token) => Ast::Token(token.clone()),
            Ast::Symbol(symbol) => Ast::Symbol(symbol.clone()),
        }
    }
}

impl Ast {
    /// The range that the node spans.
    pub fn range(&self) -> (r: &Range)
        ensures
            r@ == self@.range(),
    {
        match self {
            Ast::Token(token) => token.range(),
            Ast::Symbol(symbol) => &symbol.range,
        }
    }
}

/// Whether the node is the punctuator `c`, with whitespace before it or not
/// as `joined` allows: a joined punctuator has none.
pub open spec fn is_punct(node: AstView, c: char, joined: bool) -> bool {
    node matches AstView::Token(TokenView::Punct(punct)) && punct.punctuator == c && (!joined
        || !punct.spacing.leading())
}

/// Whether the nodes from `pos` on spell `symbol`: there is a node at
/// `pos`, and the characters of `symbol` are punctuators one after the
/// other, all but the first with no whitespace before them.
pub open spec fn spells(nodes: Seq<Ast>, pos: int, symbol: Seq<char>) -> bool {
    &&& 0 <= pos < nodes.len()
    &&& pos + symbol.len() <= nodes.len()
    &&& forall|k: int|
        pos <= k < pos + symbol.len() ==> is_punct((#[trigger] nodes[k])@, symbol[k - pos], k > pos)
}

/// The range of the symbol of `len` characters that the nodes from `pos` on
/// spell: from the start of the first node to the end of the last.
pub open spec fn spelled_range(nodes: Seq<Ast>, pos: int, len: int) -> RangeView {
    RangeView {
        start: nodes[pos]@.range().start,
        end: if len == 0 {
            nodes[pos]@.range().start
        } else {
            nodes[pos + len - 1]@.range().end
        },
    }
}

impl Symbol {
    /// Reads the symbol `symbol` from the stream: the symbol, and the stream
    /// behind it. Nothing where the next nodes do not spell the symbol.
    pub fn parse(ts: &Stream<Ast>, symbol: &str) -> (r: Option<(Symbol, Stream<Ast>)>)
        ensures
            match r {
                Some((found, rest)) => {
                    &&& spells(ts.items(), ts.position(), symbol@)
                    &&& found@ == (SymbolView {
                        range: spelled_range(ts.items(), ts.position(), symbol@.len() as int),
                        symbol: symbol@,
                    })
                    &&& rest.items() == ts.items()
                    &&& rest.position() == ts.position() + symbol@.len()
                },
                None => !spells(ts.items(), ts.position(), symbol@),
            },
    {
        let mut rest = ts.clone();
        let ghost nodes = ts.items();
        let ghost pos = ts.position();
        let start = match rest.peek() {
            Some(node) => node.range().start.clone(),
            None => {
                return None;
            },
        };
        let mut end = start.clone();
        let total = rest.count();
        let mut i: usize = 0;
        for c in it: symbol.chars()
            invariant
                it.seq() == symbol@,
                i == it.index(),
                ts.items() == nodes,
                ts.position() == pos,
                rest.items() == nodes,
                rest.position() == pos + i,
                0 <= pos < nodes.len(),
                pos + i <= nodes.len() == total,
                forall|k: int|
                    pos <= k < pos + i ==> is_punct(
                        (#[trigger] nodes[k])@,
                        symbol@[k - pos],
                        k > pos,
                    ),
                start@ == nodes[pos]@.range().start,
                end@ == spelled_range(nodes, pos, i as int).end,
        {
            let next = match rest.peek() {
                Some(Ast::Token(Token::Punct(punct))) => {
                    if punct.punctuator == c && (i == 0 || punct.spacing.has_no_leading()) {
                        Some(punct.range.end.clone())
                    } else {
                        None
                    }
                },
                _ => None,
            };
            match next {
                Some(location) => {
                    end = location;
                    rest.advance();
                    i += 1;
                },
                None => {
                    assert(i < symbol@.len());
                    assert(pos + i < nodes.len() ==> !is_punct(
                        nodes[pos + i]@,
                        symbol@[i as int],
                        i > 0,
                    ));
                    return None;
                },
            }
        }
        Some((Symbol { range: Range { start, end }, symbol: String::from_str(symbol) }, rest))
    }

    /// Reads the symbol `symbol` from the stream and moves the stream behind
    /// it. Where the next nodes do not spell the symbol, the stream stays as
    /// it is.
    pub fn parse_in_place(ts: &mut Stream<Ast>, symbol: &str) -> (r: Option<Symbol>)
        ensures
            final(ts).items() == old(ts).items(),
            match r {
                Some(found) => {
                    &&& spells(old(ts).items(), old(ts).position(), symbol@)
                    &&& found@ == (SymbolView {
                        range: spelled_range(
                            old(ts).items(),
                            old(ts).position(),
                            symbol@.len() as int,
                        ),
                        symbol: symbol@,
                    })
                    &&& final(ts).position() == old(ts).position() + symbol@.len()
                },
                None => {
                    &&& !spells(old(ts).items(), old(ts).position(), symbol@)
                    &&& final(ts).position() == old(ts).position()
                },
            },
    {
        settle(ts, Symbol::parse(ts, symbol))
    }
}

/// Moves the stream behind what was read from it: where `parsed` holds a
/// value and the stream behind it, the stream becomes that stream and the
/// value is given; else the stream stays as it is.
pub fn settle<T>(ts: &mut Stream<Ast>, parsed: Option<(T, Stream<Ast>)>) -> (r: Option<T>)
    ensures
        match parsed {
            Some((value, rest)) => r == Some(value) && *final(ts) == rest,
            None => r is None && *final(ts) == *old(ts),
        },
{
    match parsed {
        Some((value, rest)) => {
            *ts = rest;
            Some(value)
        },
        None => None,
    }
}

/// What can be read from a stream of nodes.
pub trait Parsable: Sized {
    /// Reads a value from the stream: the value, and the stream behind it.
    fn parse(ts: &Stream<Ast>) -> (r: Option<(Self, Stream<Ast>)>);

    /// Reads a value from the stream and moves the stream behind it: the
    /// value that `parse` reads from the stream as it was, with the stream
    /// left as the one that `parse` gives with it. Where `parse` reads
    /// nothing, the stream stays as it is.
    fn parse_in_place(ts: &mut Stream<Ast>) -> (r: Option<Self>)
        ensures
            match r {
                Some(value) => call_ensures(
                    Self::parse,
                    (&*old(ts),),
                    Some((value, *final(ts))),
                ),
                None => {
                    &&& call_ensures(Self::parse, (&*old(ts),), None::<(Self, Stream<Ast>)>)
                    &&& *final(ts) == *old(ts)
                },
            },
    {
        settle(ts, Self::parse(ts))
    }
}

} // verus!
