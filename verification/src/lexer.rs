//! The lexer: a cursor over a source and the recognizers that turn the
//! source into tokens.

use vstd::prelude::*;
use std::sync::Arc;
use crate::chars::{escape, hex_digit, ident_char, is_ident_char, whitespace};
use crate::grammar::{
    affix, after, bool_at, char_at, column_at, decimal_number, error_at, escaped_char_at,
    exponent_of, has_word, hex_number, hex_run, ident_at, ident_end, ident_view, int_at,
    int_view, lemma_ident_end, lemma_line_column_bounds, lemma_skip_whitespace, lemma_step_bounds,
    lex_from, lexed, line_at, line_starts, location_at, punct_at, scan_str,
    skip_whitespace, spacing_at, span, step_at, str_at, token_at, tokens_of, unicode_escape,
    window, word_false, word_true,
};
use crate::grammar::{Escape, Fault, LexErrorKind, LexErrorView, Lexed, Piece, Step};
use crate::grammar::{
    BINARY_PATTERN, DECIMAL_PATTERN, DEFAULT_WINDOW, EXPONENT_GROUP, HEXADECIMAL_PATTERN,
    OCTAL_PATTERN,
};
use crate::location::{Location, LocationView, Range, RangeView};
use crate::pattern::{accepts, match_of, pattern_match, Captures, PatternCache};
use crate::radix::Radix;
use crate::sharing::share;
use crate::sign::Sign;
use crate::spacing::Spacing;
use crate::token::{
    ident_option_view, token_views, Ident, LitBool, LitChar, LitCharView, LitInt, LitStr, Punct,
    PunctView, Token, TokenView,
};

verus! {

/// A position of the lexer in its source: what is saved before a prefix is
/// tried, and restored where no literal follows it.
#[derive(Debug, Clone, Copy, PartialEq, Eq)]
struct Cursor {
    line: usize,
    column: usize,
    offset: usize,
}

/// A lexer over one source.
#[derive(Debug)]
pub struct Lexer {
    file: Arc<String>,
    source: Vec<char>,
    line_idx: Vec<usize>,
    cursor: Cursor,
    tokens: Option<Arc<Vec<Token>>>,
    patterns: PatternCache,
}

/// A lexical error: the location at which the scan stopped and the range of
/// the malformed literal.
#[derive(Debug, PartialEq, Eq)]
pub enum LexError {
    UnterminatedStringLiteral(Location, Range),
    InvalidEscapeSequence(Location, Range),
    UnterminatedCharLiteral(Location, Range),
}

impl View for LexError {
    type V = LexErrorView;

    open spec fn view(&self) -> LexErrorView {
        match self {
            LexError::UnterminatedStringLiteral(at, range) => LexErrorView {
                kind: LexErrorKind::UnterminatedStringLiteral,
                at: at@,
                range: range@,
            },
            LexError::InvalidEscapeSequence(at, range) => LexErrorView {
                kind: LexErrorKind::InvalidEscapeSequence,
                at: at@,
                range: range@,
            },
            LexError::UnterminatedCharLiteral(at, range) => LexErrorView {
                kind: LexErrorKind::UnterminatedCharLiteral,
                at: at@,
                range: range@,
            },
        }
    }
}

impl LexError {
    /// The error of kind `kind` found at `at` in the literal that spans `range`.
    pub fn new(kind: LexErrorKind, at: Location, range: Range) -> (r: Self)
        ensures
            r@ == (LexErrorView { kind, at: at@, range: range@ }),
    {
        match kind {
            LexErrorKind::UnterminatedStringLiteral => LexError::UnterminatedStringLiteral(
                at,
                range,
            ),
            LexErrorKind::InvalidEscapeSequence => LexError::InvalidEscapeSequence(at, range),
            LexErrorKind::UnterminatedCharLiteral => LexError::UnterminatedCharLiteral(at, range),
        }
    }
}

/// The punctuator token of the character `punctuator`.
fn punct_token(range: Range, spacing: Spacing, punctuator: char) -> (r: Token)
    ensures
        r@ == TokenView::Punct(PunctView { range: range@, spacing, punctuator }),
{
    Token::Punct(Punct { range, spacing, punctuator })
}

/// The character literal token of the character `value`.
fn char_token(range: Range, spacing: Spacing, prefix: Option<Ident>, value: char) -> (r: Token)
    ensures
        r@ == TokenView::LitChar(
            LitCharView { range: range@, spacing, prefix: ident_option_view(prefix), value },
        ),
{
    Token::LitChar(LitChar { range, spacing, prefix, value })
}

impl Lexer {
    /// The name of the file that the source was read from.
    pub closed spec fn file_name(&self) -> Seq<char> {
        self.file@
    }

    /// The characters of the source.
    pub closed spec fn source(&self) -> Seq<char> {
        self.source@
    }

    /// The position of the cursor.
    pub closed spec fn offset(&self) -> int {
        self.cursor.offset as int
    }

    /// The tokens that a call of `lex` has left behind, if one has succeeded.
    pub closed spec fn cached(&self) -> Option<Seq<TokenView>> {
        match self.tokens {
            Some(tokens) => Some(token_views(tokens@)),
            None => None,
        }
    }

    /// The line index: the position at which each line of the source begins.
    pub closed spec fn line_index(&self) -> Seq<int> {
        Seq::new(self.line_idx@.len(), |i: int| self.line_idx@[i] as int)
    }

    /// The cursor stands inside the source or at its end, on the line and
    /// the column of its position, and the line index is that of the source.
    pub closed spec fn wf(&self) -> bool {
        &&& self.source@.len() < usize::MAX
        &&& self.cursor.offset <= self.source@.len()
        &&& self.cursor.line == line_at(self.source@, self.cursor.offset as int)
        &&& self.cursor.column == column_at(self.source@, self.cursor.offset as int)
        &&& self.line_index() == line_starts(self.source@)
        &&& self.patterns.wf()
    }

    /// This lexer is `before` with the cursor at `pos`.
    pub open spec fn moved(&self, before: Lexer, pos: int) -> bool {
        &&& self.wf()
        &&& self.file_name() == before.file_name()
        &&& self.source() == before.source()
        &&& self.cached() == before.cached()
        &&& self.offset() == pos
    }

    /// The location of position `pos` of the source of this lexer.
    pub open spec fn location(&self, pos: int) -> LocationView {
        location_at(self.file_name(), self.source(), pos)
    }

    /// What is known of a well-formed lexer: where its cursor stands, and
    /// what its line index holds.
    pub proof fn lemma_wf(&self)
        requires
            self.wf(),
        ensures
            0 <= self.offset() <= self.source().len() < usize::MAX,
            self.line_index() == line_starts(self.source()),
    {
    }

    /// A lexer at the start of the source `src` of the file `file`.
    pub fn init(file: String, src: String) -> (r: Self)
        requires
            src@.len() < usize::MAX,
        ensures
            r.wf(),
            r.file_name() == file@,
            r.source() == src@,
            r.line_index() == line_starts(src@),
            r.offset() == 0,
            r.cached() is None,
    {
        let mut source: Vec<char> = Vec::new();
        let mut line_idx: Vec<usize> = Vec::new();
        line_idx.push(0);
        assert(line_starts(source@) =~= seq![0int]);
        for ch in it: src.as_str().chars()
            invariant
                it.seq() == src@,
                src@.len() < usize::MAX,
                source@ == it.seq().take(it.index() as int),
                Seq::new(line_idx@.len(), |i: int| line_idx@[i] as int) == line_starts(source@),
        {
            let ghost before = source@;
            let ghost starts = Seq::new(line_idx@.len(), |i: int| line_idx@[i] as int);
            source.push(ch);
            assert(source@.drop_last() =~= before);
            if ch == '\n' {
                line_idx.push(source.len());
                assert(Seq::new(line_idx@.len(), |i: int| line_idx@[i] as int) =~= starts.push(
                    source@.len() as int,
                ));
            } else {
                assert(Seq::new(line_idx@.len(), |i: int| line_idx@[i] as int) =~= starts);
            }
        }
        assert(source@ =~= src@);
        Lexer {
            file: Arc::new(file),
            source,
            line_idx,
            cursor: Cursor { line: 1, column: 1, offset: 0 },
            tokens: None,
            patterns: PatternCache::new(),
        }
    }

    /// A lexer over `source`, under the file name `source`.
    pub fn from_source(source: &str) -> (r: Self)
        requires
            source@.len() < usize::MAX,
        ensures
            r.wf(),
            r.file_name() == "source"@,
            r.source() == source@,
            r.offset() == 0,
            r.cached() is None,
    {
        Self::init(String::from_str("source"), String::from_str(source))
    }

    /// Whether the cursor stands at the end of the source.
    pub fn is_eof(&self) -> (r: bool)
        requires
            self.wf(),
        ensures
            r == (self.offset() >= self.source().len()),
    {
        self.cursor.offset >= self.source.len()
    }

    /// The location of the cursor.
    pub fn get_location(&self) -> (r: Location)
        requires
            self.wf(),
        ensures
            r@ == self.location(self.offset()),
    {
        Location::new(
            share(&self.file),
            self.cursor.line,
            self.cursor.column,
            self.cursor.offset,
        )
    }

    /// The character at position `n`, if the source is that long.
    pub fn at(&self, n: usize) -> (r: Option<char>)
        ensures
            r == if n < self.source().len() {
                Some(self.source()[n as int])
            } else {
                None
            },
    {
        if n < self.source.len() {
            Some(self.source[n])
        } else {
            None
        }
    }

    /// The character under the cursor.
    pub fn peek(&self) -> (r: Option<char>)
        requires
            self.wf(),
        ensures
            r == if self.offset() < self.source().len() {
                Some(self.source()[self.offset()])
            } else {
                None
            },
    {
        self.at(self.cursor.offset)
    }

    /// The character `n` positions after the cursor.
    pub fn peek_n(&self, n: usize) -> (r: Option<char>)
        requires
            self.wf(),
        ensures
            r == if self.offset() + n < self.source().len() {
                Some(self.source()[self.offset() + n])
            } else {
                None
            },
    {
        if n < self.source.len() - self.cursor.offset {
            self.at(self.cursor.offset + n)
        } else {
            None
        }
    }

    /// The spacing of a token that spans `range`: whether the character
    /// before its start and the character after its end are whitespace.
    pub fn get_spacing(&self, range: &Range) -> (r: Spacing)
        ensures
            r == spacing_at(self.source(), range@.start.offset, range@.end.offset),
    {
        let start = range.start.offset();
        let end = range.end.offset();
        let before = if start == 0 {
            false
        } else {
            match self.at(start - 1) {
                Some(c) => whitespace(c),
                None => false,
            }
        };
        let after = if end >= self.source.len() {
            false
        } else {
            match self.at(end + 1) {
                Some(c) => whitespace(c),
                None => false,
            }
        };
        Spacing::from_sides(before, after)
    }

    /// Sets the cursor back to `saved`, a cursor of this lexer.
    fn rollback(&mut self, saved: Cursor)
        requires
            old(self).wf(),
            saved.offset <= old(self).source().len(),
            saved.line == line_at(old(self).source(), saved.offset as int),
            saved.column == column_at(old(self).source(), saved.offset as int),
        ensures
            final(self).moved(*old(self), saved.offset as int),
    {
        self.cursor = saved;
    }

    /// Takes the character under the cursor, if there is one, and gives it
    /// with its location.
    pub fn next(&mut self) -> (r: Option<(char, Location)>)
        requires
            old(self).wf(),
        ensures
            match r {
                Some((c, loc)) => {
                    &&& old(self).offset() < old(self).source().len()
                    &&& c == old(self).source()[old(self).offset()]
                    &&& loc@ == old(self).location(old(self).offset())
                    &&& final(self).moved(*old(self), old(self).offset() + 1)
                },
                None => {
                    &&& old(self).offset() >= old(self).source().len()
                    &&& final(self).moved(*old(self), old(self).offset())
                },
            },
    {
        match self.peek() {
            None => None,
            Some(ch) => {
                let loc = self.get_location();
                proof {
                    lemma_line_column_bounds(self.source@, self.cursor.offset as int);
                }
                let cursor = if ch == '\n' {
                    Cursor { line: self.cursor.line + 1, column: 1, offset: self.cursor.offset + 1 }
                } else {
                    Cursor {
                        line: self.cursor.line,
                        column: self.cursor.column + 1,
                        offset: self.cursor.offset + 1,
                    }
                };
                self.cursor = cursor;
                Some((ch, loc))
            },
        }
    }

    /// Takes the character under the cursor, if there is one, and gives its
    /// location.
    pub fn advance(&mut self) -> (r: Option<Location>)
        requires
            old(self).wf(),
        ensures
            match r {
                Some(loc) => {
                    &&& old(self).offset() < old(self).source().len()
                    &&& loc@ == old(self).location(old(self).offset())
                    &&& final(self).moved(*old(self), old(self).offset() + 1)
                },
                None => {
                    &&& old(self).offset() >= old(self).source().len()
                    &&& final(self).moved(*old(self), old(self).offset())
                },
            },
    {
        match self.next() {
            Some((_, loc)) => Some(loc),
            None => None,
        }
    }

    /// Takes the whitespace under the cursor.
    pub fn skip_whitespace(&mut self)
        requires
            old(self).wf(),
        ensures
            final(self).moved(*old(self), skip_whitespace(old(self).source(), old(self).offset())),
    {
        loop
            invariant
                self.wf(),
                self.file_name() == old(self).file_name(),
                self.source() == old(self).source(),
                self.cached() == old(self).cached(),
                skip_whitespace(self.source(), self.offset()) == skip_whitespace(
                    old(self).source(),
                    old(self).offset(),
                ),
            decreases self.source().len() - self.offset(),
        {
            match self.peek() {
                Some(ch) => {
                    if !whitespace(ch) {
                        return ;
                    }
                    self.advance();
                },
                None => {
                    return ;
                },
            }
        }
    }

    /// The characters from the cursor on, `N` of them; nothing where the
    /// source has ended.
    pub fn peek_next_n<const N: usize>(&self) -> (r: [Option<char>; N])
        requires
            self.wf(),
        ensures
            forall|i: int|
                0 <= i < N ==> #[trigger] r@[i] == if self.offset() + i < self.source().len() {
                    Some(self.source()[self.offset() + i])
                } else {
                    None
                },
    {
        let mut chars: [Option<char>; N] = [None; N];
        let mut i: usize = 0;
        while i < N
            invariant
                self.wf(),
                i <= N,
                forall|k: int|
                    0 <= k < i ==> #[trigger] chars@[k] == if self.offset() + k
                        < self.source().len() {
                        Some(self.source()[self.offset() + k])
                    } else {
                        None
                    },
            decreases N - i,
        {
            chars[i] = self.peek_n(i);
            i += 1;
        }
        chars
    }

    /// Takes `n` characters, or those that are left, and gives the location
    /// of the last of the `n`, if the source holds that many.
    pub fn advance_n(&mut self, n: usize) -> (r: Option<Location>)
        requires
            old(self).wf(),
        ensures
            final(self).moved(
                *old(self),
                if old(self).offset() + n <= old(self).source().len() {
                    old(self).offset() + n
                } else {
                    old(self).source().len() as int
                },
            ),
            match r {
                Some(loc) => {
                    &&& 1 <= n
                    &&& old(self).offset() + n <= old(self).source().len()
                    &&& loc@ == old(self).location(old(self).offset() + n - 1)
                },
                None => n == 0 || old(self).offset() + n > old(self).source().len(),
            },
    {
        let mut last: Option<Location> = None;
        let mut i: usize = 0;
        while i < n
            invariant
                i <= n,
                self.moved(*old(self), old(self).offset() + i),
                i == 0 ==> last is None,
                i > 0 ==> (last matches Some(loc) && loc@ == old(self).location(
                    old(self).offset() + i - 1,
                )),
            decreases n - i,
        {
            last = self.advance();
            if last.is_none() {
                return None;
            }
            i += 1;
        }
        last
    }

    /// What a recognizer that cannot fail leaves behind where the grammar
    /// says `step`: this lexer, and the token `r`.
    pub open spec fn found(&self, before: Lexer, step: Step, r: Option<Token>) -> bool {
        match step {
            Step::Match { lexeme, next } => {
                &&& r matches Some(token)
                &&& token@ == token_at(
                    before.file_name(),
                    before.source(),
                    before.offset(),
                    lexeme,
                    next,
                )
                &&& self.moved(before, next)
            },
            _ => r is None && self.moved(before, before.offset()),
        }
    }

    /// What a recognizer of literals leaves behind where the grammar says
    /// `step`: this lexer, and the token or the error `r`.
    pub open spec fn found_literal(
        &self,
        before: Lexer,
        step: Step,
        r: Result<Option<Token>, LexError>,
    ) -> bool {
        match step {
            Step::Fault(fault) => {
                &&& r matches Err(error)
                &&& error@ == error_at(
                    before.file_name(),
                    before.source(),
                    before.offset(),
                    fault,
                )
                &&& self.moved(before, fault.cursor)
            },
            _ => r matches Ok(token) && self.found(before, step, token),
        }
    }

    /// Whether an identifier character stands under the cursor.
    fn at_ident_char(&self) -> (r: bool)
        requires
            self.wf(),
        ensures
            r == (self.offset() < self.source().len() && is_ident_char(
                self.source()[self.offset()],
            )),
    {
        match self.peek() {
            Some(c) => ident_char(c),
            None => false,
        }
    }

    /// Takes the identifier under the cursor, if one stands there.
    pub fn scan_identifier(&mut self) -> (r: Option<Ident>)
        requires
            old(self).wf(),
        ensures
            final(self).moved(*old(self), ident_end(old(self).source(), old(self).offset())),
            match r {
                Some(ident) => {
                    &&& old(self).offset() < ident_end(old(self).source(), old(self).offset())
                    &&& ident@ == ident_view(
                        old(self).file_name(),
                        old(self).source(),
                        old(self).offset(),
                        ident_end(old(self).source(), old(self).offset()),
                    )
                },
                None => ident_end(old(self).source(), old(self).offset()) == old(self).offset(),
            },
    {
        let start = self.get_location();
        let mut end = start.clone();
        let mut identifier = String::new();
        let ghost from = self.offset();
        while self.at_ident_char()
            invariant
                self.wf(),
                self.file_name() == old(self).file_name(),
                self.source() == old(self).source(),
                self.cached() == old(self).cached(),
                from == old(self).offset(),
                from <= self.offset() <= self.source().len(),
                ident_end(self.source(), self.offset()) == ident_end(self.source(), from),
                identifier@ == self.source().subrange(from, self.offset()),
                start@ == self.location(from),
                self.offset() > from ==> end@ == self.location(self.offset() - 1),
            decreases self.source().len() - self.offset(),
        {
            let ghost before = identifier@;
            match self.next() {
                Some((ch, loc)) => {
                    identifier.push(ch);
                    end = loc;
                    assert(identifier@ =~= self.source().subrange(from, self.offset()));
                },
                None => {},
            }
        }
        if identifier.as_str().unicode_len() == 0 {
            assert(self.offset() == from);
            return None;
        }
        assert(self.offset() > from);
        let range = Range { start, end };
        let spacing = self.get_spacing(&range);
        Some(Ident { range, spacing, identifier })
    }

    /// An identifier: the longest run of letters, digits and underscores
    /// under the cursor, if it is not empty.
    pub fn lex_identifier(&mut self) -> (r: Option<Token>)
        requires
            old(self).wf(),
        ensures
            final(self).found(*old(self), ident_at(old(self).source(), old(self).offset()), r),
    {
        match self.scan_identifier() {
            Some(ident) => Some(Token::Ident(ident)),
            None => None,
        }
    }

    /// A punctuator: the one character under the cursor.
    pub fn lex_punctuator(&mut self) -> (r: Token)
        requires
            old(self).wf(),
            old(self).offset() < old(self).source().len(),
        ensures
            final(self).found(
                *old(self),
                punct_at(old(self).source(), old(self).offset()),
                Some(r),
            ),
    {
        let (ch, start) = self.next().unwrap();
        let range = start.to_range();
        let spacing = self.get_spacing(&range);
        punct_token(range, spacing, ch)
    }

    /// Whether the characters of `word` stand under the cursor.
    fn at_word(&self, word: &str) -> (r: bool)
        requires
            self.wf(),
        ensures
            r == has_word(self.source(), self.offset(), word@),
    {
        let n = word.unicode_len();
        if n > self.source.len() - self.cursor.offset {
            return false;
        }
        let mut i: usize = 0;
        while i < n
            invariant
                self.wf(),
                n == word@.len(),
                i <= n,
                self.offset() + n <= self.source().len(),
                forall|k: int| 0 <= k < i ==> self.source()[self.offset() + k] == word@[k],
            decreases n - i,
        {
            if self.source[self.cursor.offset + i] != word.get_char(i) {
                assert(self.source().subrange(self.offset(), self.offset() + n)[i as int]
                    != word@[i as int]);
                return false;
            }
            i += 1;
        }
        assert(self.source().subrange(self.offset(), self.offset() + n) =~= word@);
        true
    }

    /// A boolean: the word `true` or the word `false` under the cursor.
    pub fn lex_lit_bool(&mut self) -> (r: Option<Token>)
        requires
            old(self).wf(),
        ensures
            final(self).found(*old(self), bool_at(old(self).source(), old(self).offset()), r),
    {
        let start = self.get_location();
        proof {
            reveal_strlit("true");
            reveal_strlit("false");
            assert("true"@ =~= word_true());
            assert("false"@ =~= word_false());
        }
        if self.at_word("true") {
            let end = self.advance_n(4).unwrap();
            let range = Range { start, end };
            let spacing = self.get_spacing(&range);
            return Some(Token::LitBool(LitBool { range, spacing, value: true }));
        }
        if self.at_word("false") {
            let end = self.advance_n(5).unwrap();
            let range = Range { start, end };
            let spacing = self.get_spacing(&range);
            return Some(Token::LitBool(LitBool { range, spacing, value: false }));
        }
        None
    }

    /// Takes the digits and the closing `}` of a Unicode escape. Gives the
    /// character that the escape writes; or nothing where the source ends
    /// inside the escape; or, where the escape is malformed, the location at
    /// which the range of the error ends.
    fn lex_unicode_escape(&mut self) -> (r: Result<char, Option<Location>>)
        requires
            old(self).wf(),
        ensures
            match unicode_escape(old(self).source(), old(self).offset()) {
                Escape::Scalar { value, next } => {
                    &&& r matches Ok(c)
                    &&& c == value
                    &&& final(self).moved(*old(self), next)
                },
                Escape::Open => {
                    &&& r matches Err(None)
                    &&& final(self).moved(*old(self), old(self).source().len() as int)
                },
                Escape::Invalid { end, cursor } => {
                    &&& r matches Err(Some(loc))
                    &&& loc@ == old(self).location(end)
                    &&& final(self).moved(*old(self), cursor)
                },
            },
    {
        let ghost src = self.source();
        let ghost from = self.offset();
        let mut code: u32 = 0;
        let mut count: usize = 0;
        while count < 7
            invariant
                self.moved(*old(self), from + count),
                src == old(self).source(),
                from == old(self).offset(),
                count <= 7,
                hex_run(src, from, 7) == count + hex_run(src, from + count, (7 - count) as nat),
                code == hex_number(src.subrange(from, from + count)),
                code < code_bound(count as int),
            decreases 7 - count,
        {
            match self.next() {
                None => {
                    return Err(None);
                },
                Some((c, loc)) => {
                    if c == '}' {
                        if count == 0 {
                            return Err(Some(self.get_location()));
                        }
                        match char::from_u32(code) {
                            Some(ch) => {
                                return Ok(ch);
                            },
                            None => {
                                return Err(Some(self.get_location()));
                            },
                        }
                    }
                    match hex_digit(c) {
                        Some(d) => {
                            assert(src.subrange(from, from + count + 1).drop_last() =~= src.subrange(
                                from,
                                from + count,
                            ));
                            code = code * 16 + d;
                            count += 1;
                        },
                        None => {
                            return Err(Some(loc));
                        },
                    }
                },
            }
        }
        Err(Some(self.get_location()))
    }

    /// The error of kind `kind` in the literal that spans `start` to `end`,
    /// found where the cursor stands.
    fn fail(&self, kind: LexErrorKind, start: Location, end: Location) -> (r: LexError)
        requires
            self.wf(),
        ensures
            r@ == (LexErrorView {
                kind,
                at: self.location(self.offset()),
                range: RangeView { start: start@, end: end@ },
            }),
    {
        LexError::new(kind, self.get_location(), Range { start, end })
    }

    /// Takes the optional prefix of a literal and gives it with the
    /// location at which the literal starts.
    fn lex_prefix(&mut self) -> (r: (Option<Ident>, Location))
        requires
            old(self).wf(),
        ensures
            final(self).moved(*old(self), ident_end(old(self).source(), old(self).offset())),
            ident_option_view(r.0) == affix(
                old(self).file_name(),
                old(self).source(),
                old(self).offset(),
                ident_end(old(self).source(), old(self).offset()),
            ),
            r.1@ == old(self).location(old(self).offset()),
    {
        let prefix = self.scan_identifier();
        let start = match &prefix {
            Some(ident) => ident.range.start.clone(),
            None => self.get_location(),
        };
        (prefix, start)
    }

    /// A string literal: an optional prefix, a `"`, the body with its
    /// escapes, and the closing `"`. Where no `"` follows the prefix, the
    /// cursor is left where it was.
    pub fn lex_lit_str(&mut self) -> (r: Result<Option<Token>, LexError>)
        requires
            old(self).wf(),
        ensures
            final(self).found_literal(
                *old(self),
                str_at(old(self).source(), old(self).offset()),
                r,
            ),
    {
        let before = self.cursor;
        let ghost src = self.source();
        let ghost quote = ident_end(src, self.offset());
        proof {
            lemma_ident_end(src, self.offset());
        }
        let (prefix, start) = self.lex_prefix();
        match self.peek() {
            Some(c) => {
                if c != '"' {
                    self.rollback(before);
                    return Ok(None);
                }
            },
            None => {
                self.rollback(before);
                return Ok(None);
            },
        }
        self.advance();
        let mut value = String::new();
        loop
            invariant
                self.wf(),
                self.file_name() == old(self).file_name(),
                self.source() == old(self).source(),
                self.cached() == old(self).cached(),
                src == old(self).source(),
                quote == ident_end(src, old(self).offset()),
                old(self).offset() <= quote < self.offset() <= src.len(),
                src[quote] == '"',
                scan_str(src, self.offset(), value@) == scan_str(src, quote + 1, Seq::empty()),
                start@ == old(self).location(old(self).offset()),
                ident_option_view(prefix) == affix(
                    old(self).file_name(),
                    src,
                    old(self).offset(),
                    quote,
                ),
            decreases src.len() - self.offset(),
        {
            match self.next() {
                None => {
                    let end = self.get_location();
                    return Err(self.fail(LexErrorKind::UnterminatedStringLiteral, start, end));
                },
                Some((c, loc)) => {
                    if c == '"' {
                        let range = Range { start, end: loc };
                        let spacing = self.get_spacing(&range);
                        return Ok(Some(Token::LitStr(LitStr { range, spacing, prefix, value })));
                    } else if c != '\\' {
                        value.push(c);
                    } else {
                        match self.peek() {
                            None => {
                                let end = self.get_location();
                                return Err(
                                    self.fail(LexErrorKind::UnterminatedStringLiteral, start, end),
                                );
                            },
                            Some(e) => {
                                match escape(e) {
                                    Some(v) => {
                                        value.push(v);
                                        self.advance();
                                    },
                                    None => {
                                        if e != 'u' {
                                            return Err(
                                                self.fail(
                                                    LexErrorKind::InvalidEscapeSequence,
                                                    start,
                                                    loc,
                                                ),
                                            );
                                        }
                                        self.advance();
                                        match self.next() {
                                            None => {
                                                let end = self.get_location();
                                                return Err(
                                                    self.fail(
                                                        LexErrorKind::UnterminatedStringLiteral,
                                                        start,
                                                        end,
                                                    ),
                                                );
                                            },
                                            Some((brace, brace_loc)) => {
                                                if brace != '{' {
                                                    return Err(
                                                        self.fail(
                                                            LexErrorKind::InvalidEscapeSequence,
                                                            start,
                                                            brace_loc,
                                                        ),
                                                    );
                                                }
                                            },
                                        }
                                        match self.lex_unicode_escape() {
                                            Ok(ch) => {
                                                value.push(ch);
                                            },
                                            Err(None) => {
                                                let end = self.get_location();
                                                return Err(
                                                    self.fail(
                                                        LexErrorKind::UnterminatedStringLiteral,
                                                        start,
                                                        end,
                                                    ),
                                                );
                                            },
                                            Err(Some(end)) => {
                                                return Err(
                                                    self.fail(
                                                        LexErrorKind::InvalidEscapeSequence,
                                                        start,
                                                        end,
                                                    ),
                                                );
                                            },
                                        }
                                    },
                                }
                            },
                        }
                    }
                },
            }
        }
    }

    /// The rest of a character literal after the backslash: the escape
    /// character under the cursor, what belongs to it, and the closing `'`.
    fn lex_escaped_char(
        &mut self,
        Ghost(begin): Ghost<Lexer>,
        Ghost(quote): Ghost<int>,
        prefix: Option<Ident>,
        start: Location,
    ) -> (r: Result<Option<Token>, LexError>)
        requires
            old(self).moved(begin, quote + 2),
            begin.wf(),
            begin.offset() <= quote,
            quote + 2 < begin.source().len(),
            start@ == begin.location(begin.offset()),
            ident_option_view(prefix) == affix(
                begin.file_name(),
                begin.source(),
                begin.offset(),
                quote,
            ),
        ensures
            final(self).found_literal(begin, escaped_char_at(begin.source(), quote, quote + 2), r),
    {
        let e = self.source[self.cursor.offset];
        match escape(e) {
            Some(value) => {
                let closed = match self.peek_n(1) {
                    Some(q) => q == '\'',
                    None => false,
                };
                if !closed {
                    let end = self.get_location();
                    return Err(self.fail(LexErrorKind::UnterminatedCharLiteral, start, end));
                }
                let end = self.advance_n(2).unwrap();
                let range = Range { start, end };
                let spacing = self.get_spacing(&range);
                Ok(Some(char_token(range, spacing, prefix, value)))
            },
            None => {
                if e != 'u' {
                    let end = self.get_location();
                    return Err(self.fail(LexErrorKind::InvalidEscapeSequence, start, end));
                }
                match self.peek_n(1) {
                    None => {
                        let end = self.get_location();
                        return Err(self.fail(LexErrorKind::UnterminatedCharLiteral, start, end));
                    },
                    Some(brace) => {
                        if brace != '{' {
                            let end = self.get_location();
                            return Err(self.fail(LexErrorKind::InvalidEscapeSequence, start, end));
                        }
                    },
                }
                self.advance_n(2);
                match self.lex_unicode_escape() {
                    Ok(value) => {
                        match self.next() {
                            None => {
                                let end = self.get_location();
                                Err(self.fail(LexErrorKind::UnterminatedCharLiteral, start, end))
                            },
                            Some((q, end)) => {
                                if q == '\'' {
                                    let range = Range { start, end };
                                    let spacing = self.get_spacing(&range);
                                    Ok(Some(char_token(range, spacing, prefix, value)))
                                } else {
                                    Err(
                                        self.fail(
                                            LexErrorKind::UnterminatedCharLiteral,
                                            start,
                                            end,
                                        ),
                                    )
                                }
                            },
                        }
                    },
                    Err(None) => {
                        let end = self.get_location();
                        Err(self.fail(LexErrorKind::UnterminatedCharLiteral, start, end))
                    },
                    Err(Some(end)) => Err(
                        self.fail(LexErrorKind::InvalidEscapeSequence, start, end),
                    ),
                }
            },
        }
    }

    /// A character literal: an optional prefix, a `'`, one character or one
    /// escape, and the closing `'`. Where no `'` follows the prefix, the
    /// cursor is left where it was.
    pub fn lex_lit_char(&mut self) -> (r: Result<Option<Token>, LexError>)
        requires
            old(self).wf(),
        ensures
            final(self).found_literal(
                *old(self),
                char_at(old(self).source(), old(self).offset()),
                r,
            ),
    {
        let before = self.cursor;
        let ghost src = self.source();
        let ghost quote = ident_end(src, self.offset());
        proof {
            lemma_ident_end(src, self.offset());
        }
        let (prefix, start) = self.lex_prefix();
        match self.peek() {
            Some(c) => {
                if c != '\'' {
                    self.rollback(before);
                    return Ok(None);
                }
            },
            None => {
                self.rollback(before);
                return Ok(None);
            },
        }
        let quote_loc = self.advance().unwrap();
        match self.next() {
            None => Err(self.fail(LexErrorKind::UnterminatedCharLiteral, start, quote_loc)),
            Some((a, a_loc)) => {
                if a == '\'' {
                    Err(self.fail(LexErrorKind::UnterminatedCharLiteral, start, a_loc))
                } else if a != '\\' {
                    match self.next() {
                        None => Err(
                            self.fail(LexErrorKind::UnterminatedCharLiteral, start, a_loc),
                        ),
                        Some((q, end)) => {
                            if q == '\'' {
                                let range = Range { start, end };
                                let spacing = self.get_spacing(&range);
                                Ok(Some(char_token(range, spacing, prefix, a)))
                            } else {
                                Err(self.fail(LexErrorKind::UnterminatedCharLiteral, start, end))
                            }
                        },
                    }
                } else if self.is_eof() {
                    Err(self.fail(LexErrorKind::UnterminatedCharLiteral, start, a_loc))
                } else {
                    self.lex_escaped_char(Ghost(*old(self)), Ghost(quote), prefix, start)
                }
            },
        }
    }

    /// The text that a pattern is matched against: at most `limit`
    /// characters from the cursor on.
    fn window_text(&self, limit: usize) -> (r: String)
        requires
            self.wf(),
        ensures
            r@ == window(self.source(), self.offset(), limit as int),
    {
        let left = self.source.len() - self.cursor.offset;
        let n = if limit < left {
            limit
        } else {
            left
        };
        let mut text = String::new();
        let mut i: usize = 0;
        while i < n
            invariant
                self.wf(),
                i <= n,
                self.offset() + n <= self.source().len(),
                text@ == self.source().subrange(self.offset(), self.offset() + i),
            decreases n - i,
        {
            text.push(self.source[self.cursor.offset + i]);
            i += 1;
            assert(text@ =~= self.source().subrange(self.offset(), self.offset() + i));
        }
        text
    }

    /// Whether `whole` is a non-empty start of the `n` characters from the
    /// cursor on.
    fn at_text(&self, whole: &str, n: usize) -> (r: bool)
        requires
            self.wf(),
            self.offset() + n <= self.source().len(),
        ensures
            r == accepts(self.source().subrange(self.offset(), self.offset() + n), whole@),
    {
        let ghost text = self.source().subrange(self.offset(), self.offset() + n);
        let mut i: usize = 0;
        for c in it: whole.chars()
            invariant
                self.wf(),
                it.seq() == whole@,
                i == it.index(),
                i <= n,
                text == self.source().subrange(self.offset(), self.offset() + n),
                self.offset() + n <= self.source().len(),
                forall|k: int| 0 <= k < i ==> text[k] == whole@[k],
        {
            if i >= n {
                return false;
            }
            if self.source[self.cursor.offset + i] != c {
                assert(whole@.len() <= text.len() ==> text.subrange(0, whole@.len() as int)[i as int]
                    != whole@[i as int]);
                return false;
            }
            i += 1;
        }
        assert(i > 0 ==> text.subrange(0, whole@.len() as int) =~= whole@);
        i > 0
    }

    /// Takes what `captures` has matched, where its whole match is a
    /// non-empty start of the characters under the cursor, at most `limit`
    /// of them, and gives the range of what was taken.
    pub fn take_match(&mut self, limit: usize, captures: Captures) -> (r: Option<(Range, Captures)>)
        requires
            old(self).wf(),
        ensures
            match match_of(
                window(old(self).source(), old(self).offset(), limit as int),
                captures@.names,
                captures@.groups,
            ) {
                Some(m) => {
                    &&& r matches Some((range, taken))
                    &&& taken == captures
                    &&& taken@ == m
                    &&& range@ == span(
                        old(self).file_name(),
                        old(self).source(),
                        old(self).offset(),
                        old(self).offset() + m.len - 1,
                    )
                    &&& final(self).moved(*old(self), old(self).offset() + m.len)
                },
                None => r is None && final(self).moved(*old(self), old(self).offset()),
            },
    {
        if captures.groups.len() == 0 {
            return None;
        }
        let n = match &captures.groups[0] {
            Some(whole) => {
                let left = self.source.len() - self.cursor.offset;
                let width = if limit < left {
                    limit
                } else {
                    left
                };
                if !self.at_text(whole.as_str(), width) {
                    return None;
                }
                whole.as_str().unicode_len()
            },
            None => {
                return None;
            },
        };
        let start = self.get_location();
        let end = self.advance_n(n).unwrap();
        Some((Range { start, end }, captures))
    }

    /// Matches `pattern`, which begins with `^`, against the characters under
    /// the cursor, at most `max_input_len` of them and 500 where no limit is
    /// given, and takes what it has matched. A pattern that does not compile
    /// matches nothing.
    pub fn lex_by_regex(&mut self, pattern: &str, max_input_len: Option<usize>) -> (r: Option<
        (Range, Captures),
    >)
        requires
            old(self).wf(),
            pattern@.len() > 0,
            pattern@[0] == '^',
        ensures
            match pattern_match(
                pattern@,
                window(
                    old(self).source(),
                    old(self).offset(),
                    match max_input_len {
                        Some(limit) => limit as int,
                        None => DEFAULT_WINDOW as int,
                    },
                ),
            ) {
                Some(m) => {
                    &&& r matches Some((range, captures))
                    &&& captures@ == m
                    &&& range@ == span(
                        old(self).file_name(),
                        old(self).source(),
                        old(self).offset(),
                        old(self).offset() + m.len - 1,
                    )
                    &&& final(self).moved(*old(self), old(self).offset() + m.len)
                },
                None => r is None && final(self).moved(*old(self), old(self).offset()),
            },
    {
        let limit = match max_input_len {
            Some(limit) => limit,
            None => DEFAULT_WINDOW,
        };
        let place = match self.patterns.prepare(pattern) {
            Some(place) => place,
            None => {
                return None;
            },
        };
        let text = self.window_text(limit);
        let groups = match self.patterns.captures(place, text.as_str()) {
            Some(groups) => groups,
            None => {
                return None;
            },
        };
        let names = self.patterns.group_names(place);
        self.take_match(limit, Captures { names, groups })
    }

    /// The integer literal of base `radix` whose number `captures` has
    /// matched over `range` and whose suffix, if it has one, is the
    /// identifier under the cursor, which is taken. The text of the literal
    /// is the whole match; a decimal literal has the exponent that the
    /// group `exp` holds.
    pub fn int_token(&mut self, radix: Radix, range: Range, captures: &Captures) -> (r: Token)
        requires
            old(self).wf(),
        ensures
            final(self).moved(*old(self), ident_end(old(self).source(), old(self).offset())),
            r@ == TokenView::LitInt(
                int_view(
                    old(self).file_name(),
                    old(self).source(),
                    old(self).offset(),
                    radix,
                    range@,
                    captures@,
                ),
            ),
    {
        proof {
            lemma_ident_end(self.source(), self.offset());
        }
        let value = captures.whole();
        let exponent = if radix.is_decimal() {
            match captures.name(EXPONENT_GROUP) {
                Some(digits) => parse_exponent(digits.as_str()),
                None => None,
            }
        } else {
            None
        };
        let suffix = self.scan_identifier();
        let Range { start, end: body_end } = range;
        let end = match &suffix {
            Some(ident) => ident.range.end.clone(),
            None => body_end,
        };
        let range = Range { start, end };
        let negative = value.as_str().unicode_len() > 0 && value.as_str().get_char(0) == '-';
        let sign = if negative {
            Sign::Negative
        } else {
            Sign::Positive
        };
        let spacing = self.get_spacing(&range);
        Token::LitInt(LitInt { range, spacing, sign, radix, value, exponent, suffix })
    }

    /// An integer literal: a binary, octal, hexadecimal or decimal number
    /// under the cursor, and the identifier that follows it directly as its
    /// suffix.
    pub fn lex_lit_int(&mut self) -> (r: Option<Token>)
        requires
            old(self).wf(),
        ensures
            final(self).found(*old(self), int_at(old(self).source(), old(self).offset()), r),
    {
        let ghost src = self.source();
        let ghost pos = self.offset();
        let ghost text = window(src, pos, DEFAULT_WINDOW as int);
        proof {
            reveal_strlit("^[+-]?0b[01_]*[01]");
            reveal_strlit("^[+-]?0o[0-7_]*[0-7]");
            reveal_strlit("^[+-]?0x[0-9a-fA-F_]*[0-9a-fA-F]");
            reveal_strlit("^[+-]?[0-9](?:[0-9_]*[0-9])?(?:[eE](?<exp>[0-9]+))?");
            assert forall|whole: Seq<char>| accepts(text, whole) implies src.subrange(
                pos,
                pos + whole.len(),
            ) == whole by {
                assert(src.subrange(pos, pos + whole.len()) =~= text.subrange(
                    0,
                    whole.len() as int,
                ));
            }
        }
        match self.lex_by_regex(BINARY_PATTERN, None) {
            Some((range, captures)) => {
                proof {
                    lemma_ident_end(src, self.offset());
                }
                return Some(self.int_token(Radix::Binary, range, &captures));
            },
            None => {},
        }
        match self.lex_by_regex(OCTAL_PATTERN, None) {
            Some((range, captures)) => {
                proof {
                    lemma_ident_end(src, self.offset());
                }
                return Some(self.int_token(Radix::Octal, range, &captures));
            },
            None => {},
        }
        match self.lex_by_regex(HEXADECIMAL_PATTERN, None) {
            Some((range, captures)) => {
                proof {
                    lemma_ident_end(src, self.offset());
                }
                return Some(self.int_token(Radix::Hexadecimal, range, &captures));
            },
            None => {},
        }
        match self.lex_by_regex(DECIMAL_PATTERN, None) {
            Some((range, captures)) => {
                proof {
                    lemma_ident_end(src, self.offset());
                }
                Some(self.int_token(Radix::Decimal, range, &captures))
            },
            None => None,
        }
    }

    /// The token under the cursor: the recognizers are tried in the order
    /// integer, boolean, character, string, identifier, punctuator, and one
    /// that finds nothing leaves the cursor where it was.
    pub fn lex_token(&mut self) -> (r: Result<Token, LexError>)
        requires
            old(self).wf(),
            old(self).offset() < old(self).source().len(),
        ensures
            final(self).found_literal(
                *old(self),
                step_at(old(self).source(), old(self).offset()),
                match r {
                    Ok(token) => Ok(Some(token)),
                    Err(error) => Err(error),
                },
            ),
    {
        proof {
            lemma_step_bounds(self.source(), self.offset());
        }
        match self.lex_lit_int() {
            Some(token) => {
                return Ok(token);
            },
            None => {},
        }
        match self.lex_lit_bool() {
            Some(token) => {
                return Ok(token);
            },
            None => {},
        }
        match self.lex_lit_char() {
            Ok(Some(token)) => {
                return Ok(token);
            },
            Ok(None) => {},
            Err(error) => {
                return Err(error);
            },
        }
        match self.lex_lit_str() {
            Ok(Some(token)) => {
                return Ok(token);
            },
            Ok(None) => {},
            Err(error) => {
                return Err(error);
            },
        }
        match self.lex_identifier() {
            Some(token) => {
                return Ok(token);
            },
            None => {},
        }
        Ok(self.lex_punctuator())
    }

    /// What a call of `lex` gives in this state: the tokens left behind by
    /// an earlier call, or else the tokens of the source from the cursor on,
    /// or the first lexical error in it.
    pub open spec fn expected(&self) -> Result<Seq<TokenView>, LexErrorView> {
        match self.cached() {
            Some(tokens) => Ok(tokens),
            None => lexed(self.file_name(), self.source(), self.offset()),
        }
    }

    /// Whether a call of `lex` that finds this lexer as `before` may leave
    /// it as it is and give `r`.
    pub open spec fn lexes(&self, before: Lexer, r: Result<Arc<Vec<Token>>, LexError>) -> bool {
        &&& self.wf()
        &&& self.file_name() == before.file_name()
        &&& self.source() == before.source()
        &&& match r {
            Ok(tokens) => {
                &&& before.expected() == Ok::<Seq<TokenView>, LexErrorView>(token_views(tokens@))
                &&& self.cached() == Some(token_views(tokens@))
                &&& self.offset() == if before.cached() is Some {
                    before.offset()
                } else {
                    before.source().len() as int
                }
            },
            Err(error) => {
                &&& before.expected() == Err::<Seq<TokenView>, LexErrorView>(error@)
                &&& self.cached() is None
                &&& self.offset() == error@.at.offset
            },
        }
    }

    /// The tokens of the source, or the first lexical error in it. The
    /// tokens are kept and shared: a later call gives them again and scans
    /// nothing.
    pub fn lex(&mut self) -> (r: Result<Arc<Vec<Token>>, LexError>)
        requires
            old(self).wf(),
        ensures
            final(self).lexes(*old(self), r),
    {
        match &self.tokens {
            Some(tokens) => {
                return Ok(share(tokens));
            },
            None => {},
        }
        let mut tokens: Vec<Token> = Vec::new();
        let ghost file = self.file_name();
        let ghost src = self.source();
        let ghost from = self.offset();
        let ghost mut pieces: Seq<Piece> = Seq::empty();
        assert(tokens_of(file, src, pieces) =~= token_views(tokens@));
        assert(after(pieces, lex_from(src, from)) == lex_from(src, from)) by {
            match lex_from(src, from) {
                Lexed::Tokens(rest) => {
                    assert(pieces + rest =~= rest);
                },
                _ => {},
            }
        }
        loop
            invariant
                self.wf(),
                self.file_name() == file,
                self.source() == src,
                self.cached() is None,
                old(self).file_name() == file,
                old(self).source() == src,
                old(self).offset() == from,
                old(self).cached() is None,
                0 <= from,
                lex_from(src, from) == after(pieces, lex_from(src, self.offset())),
                token_views(tokens@) == tokens_of(file, src, pieces),
            decreases src.len() - self.offset(),
        {
            let ghost pos = self.offset();
            proof {
                lemma_skip_whitespace(src, pos);
                lemma_lex_from_start(src, pos);
            }
            self.skip_whitespace();
            if self.is_eof() {
                assert(pieces + Seq::<Piece>::empty() =~= pieces);
                let tokens = Arc::new(tokens);
                self.tokens = Some(share(&tokens));
                return Ok(tokens);
            }
            let ghost start = self.offset();
            proof {
                lemma_step_bounds(src, start);
            }
            match self.lex_token() {
                Ok(token) => {
                    let ghost piece = Piece {
                        start,
                        lexeme: step_at(src, start)->lexeme,
                        next: self.offset(),
                    };
                    let ghost rest = lex_from(src, self.offset());
                    proof {
                        assert(lex_from(src, start) == after(seq![piece], rest));
                        match rest {
                            Lexed::Tokens(more) => {
                                assert(pieces + (seq![piece] + more) =~= pieces.push(piece) + more);
                            },
                            _ => {},
                        }
                        assert(tokens@.len() == pieces.len()) by {
                            assert(token_views(tokens@).len() == tokens_of(file, src, pieces).len());
                        }
                        assert forall|i: int| 0 <= i <= pieces.len() implies tokens_of(
                            file,
                            src,
                            pieces.push(piece),
                        )[i] == token_views(tokens@.push(token))[i] by {
                            if i < pieces.len() {
                                assert(token_views(tokens@)[i] == tokens_of(file, src, pieces)[i]);
                            }
                        }
                        assert(tokens_of(file, src, pieces.push(piece)) =~= token_views(
                            tokens@.push(token),
                        ));
                        pieces = pieces.push(piece);
                    }
                    tokens.push(token);
                },
                Err(error) => {
                    return Err(error);
                },
            }
        }
    }
}

/// A bound on the number that `count` hexadecimal digits write.
spec fn code_bound(count: int) -> int {
    if count <= 0 {
        1
    } else if count == 1 {
        0x10
    } else if count == 2 {
        0x100
    } else if count == 3 {
        0x1000
    } else if count == 4 {
        0x1_0000
    } else if count == 5 {
        0x10_0000
    } else if count == 6 {
        0x100_0000
    } else {
        0x1000_0000
    }
}

pub proof fn lemma_decimal_number(digits: Seq<char>)
    requires
        forall|i: int| 0 <= i < digits.len() ==> '0' <= #[trigger] digits[i] <= '9',
    ensures
        0 <= decimal_number(digits),
    decreases digits.len(),
{
    if digits.len() > 0 {
        lemma_decimal_number(digits.drop_last());
    }
}

/// The exponent that the digits `text` write: their number, or `usize::MAX`
/// where the number is larger than that; nothing where `text` is empty or
/// holds anything but decimal digits.
pub fn parse_exponent(text: &str) -> (r: Option<usize>)
    ensures
        exponent_of(text@) == match r {
            Some(e) => Some(e as int),
            None => None,
        },
{
    let mut value: usize = 0;
    let mut any = false;
    for c in it: text.chars()
        invariant
            it.seq() == text@,
            any == (it.index() > 0),
            forall|k: int| 0 <= k < it.index() ==> '0' <= #[trigger] text@[k] <= '9',
            value == if decimal_number(text@.take(it.index() as int)) > usize::MAX {
                usize::MAX as int
            } else {
                decimal_number(text@.take(it.index() as int))
            },
    {
        if !('0' <= c && c <= '9') {
            return None;
        }
        let ghost seen = text@.take(it.index() as int);
        proof {
            lemma_decimal_number(seen);
            assert(text@.take(it.index() + 1).drop_last() =~= seen);
        }
        let digit = (c as u32 - '0' as u32) as usize;
        value = match value.checked_mul(10) {
            Some(tens) => match tens.checked_add(digit) {
                Some(sum) => sum,
                None => usize::MAX,
            },
            None => usize::MAX,
        };
        any = true;
    }
    assert(text@.take(text@.len() as int) =~= text@);
    if any {
        Some(value)
    } else {
        None
    }
}

/// Lexing from `pos` is lexing from the first position from `pos` on that
/// holds no whitespace.
pub proof fn lemma_lex_from_start(src: Seq<char>, pos: int)
    requires
        0 <= pos <= src.len(),
    ensures
        lex_from(src, pos) == lex_from(src, skip_whitespace(src, pos)),
{
    lemma_skip_whitespace(src, pos);
    let start = skip_whitespace(src, pos);
    assert(skip_whitespace(src, start) == start);
}

/// The prefix `\\?\` with which a canonical path may begin.
pub open spec fn unc_prefix() -> Seq<char> {
    seq!['\\', '\\', '?', '\\']
}

/// The path without the prefix `\\?\`, if it begins with it.
pub fn strip_unc_prefix(path: &str) -> (r: String)
    ensures
        r@ == if has_word(path@, 0, unc_prefix()) {
            path@.subrange(4, path@.len() as int)
        } else {
            path@
        },
{
    let len = path.unicode_len();
    if len >= 4 && path.get_char(0) == '\\' && path.get_char(1) == '\\' && path.get_char(2) == '?'
        && path.get_char(3) == '\\' {
        assert(path@.subrange(0, 4) =~= unc_prefix());
        String::from_str(path.substring_char(4, len))
    } else {
        assert(has_word(path@, 0, unc_prefix()) ==> path@.subrange(0, 4)[0] == '\\'
            && path@.subrange(0, 4)[1] == '\\' && path@.subrange(0, 4)[2] == '?'
            && path@.subrange(0, 4)[3] == '\\');
        String::from_str(path)
    }
}

} // verus!
