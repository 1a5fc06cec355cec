//! The lexical grammar as mathematics: what each recognizer finds at a
//! position of a source, and the tokens of a whole source.
//!
//! A source is a sequence of characters and a position is an index into it.
//! A recognizer either finds nothing, or finds a lexeme and the position
//! after it, or finds a malformed literal.

use vstd::prelude::*;
use crate::chars::{escape_value, is_hex_digit, is_ident_char, is_scalar, is_whitespace};
use crate::location::{LocationView, RangeView};
use crate::pattern::{group_named, pattern_match, PatternMatch};
use crate::radix::{digit_value, Radix};
use crate::sign::Sign;
use crate::spacing::Spacing;
use crate::token::{
    IdentView, LitBoolView, LitCharView, LitIntView, LitStrView, PunctView, TokenView,
};

verus! {

/// The kinds of lexical error.
#[derive(Debug, Clone, Copy, PartialEq, Eq, Structural)]
pub enum LexErrorKind {
    /// The input ended before the closing quote of a string literal.
    UnterminatedStringLiteral,
    /// An unknown escape character or a malformed Unicode escape.
    InvalidEscapeSequence,
    /// A character literal of a malformed or incomplete shape.
    UnterminatedCharLiteral,
}

/// A malformed literal: the kind of error, the position where the range of
/// the error ends, and the position where the scan stopped.
pub struct Fault {
    pub kind: LexErrorKind,
    pub end: int,
    pub cursor: int,
}

/// What a token holds besides its place in the source.
pub enum Lexeme {
    Ident,
    Punct,
    Bool(bool),
    /// The prefix ends before `quote`, the position of the opening quote.
    Char { quote: int, value: char },
    /// The prefix ends before `quote`, the position of the opening quote.
    Str { quote: int, text: Seq<char> },
    /// The number ends before `body_end`, where the suffix begins.
    Int { body_end: int, radix: Radix, exponent: Option<int> },
}

/// What a recognizer finds at a position.
pub enum Step {
    NoMatch,
    /// A lexeme that ends before `next`.
    Match { lexeme: Lexeme, next: int },
    Fault(Fault),
}

// ---------------------------------------------------------------------------
// Lines and columns
// ---------------------------------------------------------------------------

/// The 1-based line of position `pos`: one more than the number of line
/// feeds before it.
pub open spec fn line_at(src: Seq<char>, pos: int) -> int
    decreases pos,
{
    if pos <= 0 || pos > src.len() {
        1
    } else if src[pos - 1] == '\n' {
        line_at(src, pos - 1) + 1
    } else {
        line_at(src, pos - 1)
    }
}

/// The 1-based column of position `pos`: one more than the number of
/// characters between the last line feed before it and itself.
pub open spec fn column_at(src: Seq<char>, pos: int) -> int
    decreases pos,
{
    if pos <= 0 || pos > src.len() {
        1
    } else if src[pos - 1] == '\n' {
        1
    } else {
        column_at(src, pos - 1) + 1
    }
}

/// The positions at which the lines of `src` begin: 0, and the position
/// after each line feed.
pub open spec fn line_starts(src: Seq<char>) -> Seq<int>
    decreases src.len(),
{
    if src.len() == 0 {
        seq![0int]
    } else if src.last() == '\n' {
        line_starts(src.drop_last()).push(src.len() as int)
    } else {
        line_starts(src.drop_last())
    }
}

pub proof fn lemma_line_column_bounds(src: Seq<char>, pos: int)
    ensures
        1 <= line_at(src, pos),
        1 <= column_at(src, pos),
        0 <= pos ==> line_at(src, pos) <= pos + 1,
        0 <= pos ==> column_at(src, pos) <= pos + 1,
    decreases pos,
{
    if pos <= 0 || pos > src.len() {
    } else {
        lemma_line_column_bounds(src, pos - 1);
    }
}

/// The location of position `pos` of the source `src` of the file `file`.
pub open spec fn location_at(file: Seq<char>, src: Seq<char>, pos: int) -> LocationView {
    LocationView { file, line: line_at(src, pos), column: column_at(src, pos), offset: pos }
}

/// The range from position `start` to position `end`, both included.
pub open spec fn span(file: Seq<char>, src: Seq<char>, start: int, end: int) -> RangeView {
    RangeView { start: location_at(file, src, start), end: location_at(file, src, end) }
}

/// The spacing of a token that spans the positions `start` to `end`, both
/// included: whether the one character before it and the one character after
/// it are whitespace. The ends of the source count as no whitespace.
pub open spec fn spacing_at(src: Seq<char>, start: int, end: int) -> Spacing {
    Spacing::of(
        0 < start <= src.len() && is_whitespace(src[start - 1]),
        0 <= end + 1 < src.len() && is_whitespace(src[end + 1]),
    )
}

// ---------------------------------------------------------------------------
// Runs of characters
// ---------------------------------------------------------------------------

/// The first position from `pos` on that holds no whitespace, or the end of
/// the source.
pub open spec fn skip_whitespace(src: Seq<char>, pos: int) -> int
    decreases src.len() - pos,
{
    if 0 <= pos < src.len() && is_whitespace(src[pos]) {
        skip_whitespace(src, pos + 1)
    } else {
        pos
    }
}

/// The first position from `pos` on that holds no identifier character, or
/// the end of the source.
pub open spec fn ident_end(src: Seq<char>, pos: int) -> int
    decreases src.len() - pos,
{
    if 0 <= pos < src.len() && is_ident_char(src[pos]) {
        ident_end(src, pos + 1)
    } else {
        pos
    }
}

/// The number of hexadecimal digits from `pos` on, counted up to `limit`.
pub open spec fn hex_run(src: Seq<char>, pos: int, limit: nat) -> nat
    decreases limit,
{
    if limit > 0 && 0 <= pos < src.len() && is_hex_digit(src[pos]) {
        1 + hex_run(src, pos + 1, (limit - 1) as nat)
    } else {
        0
    }
}

/// The number that the hexadecimal digits `digits` write.
pub open spec fn hex_number(digits: Seq<char>) -> int
    decreases digits.len(),
{
    if digits.len() == 0 {
        0
    } else {
        hex_number(digits.drop_last()) * 16 + digit_value(digits.last()).unwrap()
    }
}

/// Whether `src` holds the characters of `word` from `pos` on.
pub open spec fn has_word(src: Seq<char>, pos: int, word: Seq<char>) -> bool {
    0 <= pos && pos + word.len() <= src.len() && src.subrange(pos, pos + word.len()) == word
}

pub proof fn lemma_skip_whitespace(src: Seq<char>, pos: int)
    requires
        0 <= pos <= src.len(),
    ensures
        pos <= skip_whitespace(src, pos) <= src.len(),
        forall|i: int| pos <= i < skip_whitespace(src, pos) ==> is_whitespace(#[trigger] src[i]),
        skip_whitespace(src, pos) < src.len() ==> !is_whitespace(src[skip_whitespace(src, pos)]),
    decreases src.len() - pos,
{
    if pos < src.len() && is_whitespace(src[pos]) {
        lemma_skip_whitespace(src, pos + 1);
    }
}

pub proof fn lemma_ident_end(src: Seq<char>, pos: int)
    requires
        0 <= pos <= src.len(),
    ensures
        pos <= ident_end(src, pos) <= src.len(),
        forall|i: int| pos <= i < ident_end(src, pos) ==> is_ident_char(#[trigger] src[i]),
        ident_end(src, pos) < src.len() ==> !is_ident_char(src[ident_end(src, pos)]),
    decreases src.len() - pos,
{
    if pos < src.len() && is_ident_char(src[pos]) {
        lemma_ident_end(src, pos + 1);
    }
}

// ---------------------------------------------------------------------------
// Identifiers, punctuators, booleans
// ---------------------------------------------------------------------------

/// An identifier: the longest run of identifier characters, if it is not
/// empty.
pub open spec fn ident_at(src: Seq<char>, pos: int) -> Step {
    if ident_end(src, pos) > pos {
        Step::Match { lexeme: Lexeme::Ident, next: ident_end(src, pos) }
    } else {
        Step::NoMatch
    }
}

/// A punctuator: the one character at `pos`, whatever it is.
pub open spec fn punct_at(src: Seq<char>, pos: int) -> Step {
    if 0 <= pos < src.len() {
        Step::Match { lexeme: Lexeme::Punct, next: pos + 1 }
    } else {
        Step::NoMatch
    }
}

pub open spec fn word_true() -> Seq<char> {
    seq!['t', 'r', 'u', 'e']
}

pub open spec fn word_false() -> Seq<char> {
    seq!['f', 'a', 'l', 's', 'e']
}

/// A boolean: the word `true` or the word `false`, whatever follows it.
pub open spec fn bool_at(src: Seq<char>, pos: int) -> Step {
    if has_word(src, pos, word_true()) {
        Step::Match { lexeme: Lexeme::Bool(true), next: pos + 4 }
    } else if has_word(src, pos, word_false()) {
        Step::Match { lexeme: Lexeme::Bool(false), next: pos + 5 }
    } else {
        Step::NoMatch
    }
}

// ---------------------------------------------------------------------------
// Escapes
// ---------------------------------------------------------------------------

/// What stands behind the `{` of a Unicode escape.
pub enum Escape {
    /// The escape is well formed and ends before `next`.
    Scalar { value: char, next: int },
    /// The input ends inside the escape.
    Open,
    /// The escape is malformed; the range of the error ends at `end` and the
    /// scan stops at `cursor`.
    Invalid { end: int, cursor: int },
}

/// The Unicode escape whose digits begin at `pos`: one to six hexadecimal
/// digits and a closing `}`, which write a Unicode scalar value.
pub open spec fn unicode_escape(src: Seq<char>, pos: int) -> Escape {
    let stop = pos + hex_run(src, pos, 7);
    if stop == pos + 7 {
        // a seventh digit
        Escape::Invalid { end: stop, cursor: stop }
    } else if stop >= src.len() {
        Escape::Open
    } else if src[stop] != '}' {
        Escape::Invalid { end: stop, cursor: stop + 1 }
    } else if stop == pos {
        // no digit at all
        Escape::Invalid { end: stop + 1, cursor: stop + 1 }
    } else if is_scalar(hex_number(src.subrange(pos, stop))) {
        Escape::Scalar { value: hex_number(src.subrange(pos, stop)) as char, next: stop + 1 }
    } else {
        Escape::Invalid { end: stop + 1, cursor: stop + 1 }
    }
}

// ---------------------------------------------------------------------------
// String literals
// ---------------------------------------------------------------------------

/// What the scan of the body of a string literal ends in.
pub enum StrScan {
    /// The closing quote stands at `close`.
    Closed { value: Seq<char>, close: int },
    Fault(Fault),
}

pub open spec fn str_fault(kind: LexErrorKind, end: int, cursor: int) -> StrScan {
    StrScan::Fault(Fault { kind, end, cursor })
}

/// The body of a string literal from `pos` on, where `value` is what the
/// characters before `pos` have decoded to.
pub open spec fn scan_str(src: Seq<char>, pos: int, value: Seq<char>) -> StrScan
    decreases src.len() - pos,
{
    let len = src.len() as int;
    if pos < 0 || pos >= len {
        str_fault(LexErrorKind::UnterminatedStringLiteral, len, len)
    } else if src[pos] == '"' {
        StrScan::Closed { value, close: pos }
    } else if src[pos] != '\\' {
        scan_str(src, pos + 1, value.push(src[pos]))
    } else if pos + 1 >= len {
        str_fault(LexErrorKind::UnterminatedStringLiteral, len, len)
    } else if escape_value(src[pos + 1]) is Some {
        scan_str(src, pos + 2, value.push(escape_value(src[pos + 1]).unwrap()))
    } else if src[pos + 1] != 'u' {
        str_fault(LexErrorKind::InvalidEscapeSequence, pos, pos + 1)
    } else if pos + 2 >= len {
        str_fault(LexErrorKind::UnterminatedStringLiteral, len, len)
    } else if src[pos + 2] != '{' {
        str_fault(LexErrorKind::InvalidEscapeSequence, pos + 2, pos + 3)
    } else {
        match unicode_escape(src, pos + 3) {
            Escape::Scalar { value: c, next } => scan_str(src, next, value.push(c)),
            Escape::Open => str_fault(LexErrorKind::UnterminatedStringLiteral, len, len),
            Escape::Invalid { end, cursor } => str_fault(
                LexErrorKind::InvalidEscapeSequence,
                end,
                cursor,
            ),
        }
    }
}

/// A string literal: an optional identifier as its prefix, a `"`, the body
/// and the closing `"`.
pub open spec fn str_at(src: Seq<char>, pos: int) -> Step {
    let quote = ident_end(src, pos);
    if 0 <= quote < src.len() && src[quote] == '"' {
        match scan_str(src, quote + 1, Seq::empty()) {
            StrScan::Closed { value, close } => Step::Match {
                lexeme: Lexeme::Str { quote, text: value },
                next: close + 1,
            },
            StrScan::Fault(fault) => Step::Fault(fault),
        }
    } else {
        Step::NoMatch
    }
}

// ---------------------------------------------------------------------------
// Character literals
// ---------------------------------------------------------------------------

pub open spec fn step_fault(kind: LexErrorKind, end: int, cursor: int) -> Step {
    Step::Fault(Fault { kind, end, cursor })
}

/// The rest of a character literal whose opening quote stands at `quote`
/// and whose escape character, the one after the backslash, stands at `esc`.
pub open spec fn escaped_char_at(src: Seq<char>, quote: int, esc: int) -> Step {
    let len = src.len() as int;
    if escape_value(src[esc]) is Some {
        if esc + 1 < len && src[esc + 1] == '\'' {
            Step::Match {
                lexeme: Lexeme::Char { quote, value: escape_value(src[esc]).unwrap() },
                next: esc + 2,
            }
        } else {
            step_fault(LexErrorKind::UnterminatedCharLiteral, esc, esc)
        }
    } else if src[esc] != 'u' {
        step_fault(LexErrorKind::InvalidEscapeSequence, esc, esc)
    } else if esc + 1 >= len {
        step_fault(LexErrorKind::UnterminatedCharLiteral, esc, esc)
    } else if src[esc + 1] != '{' {
        step_fault(LexErrorKind::InvalidEscapeSequence, esc, esc)
    } else {
        match unicode_escape(src, esc + 2) {
            Escape::Scalar { value, next } => {
                if next >= len {
                    step_fault(LexErrorKind::UnterminatedCharLiteral, len, len)
                } else if src[next] == '\'' {
                    Step::Match { lexeme: Lexeme::Char { quote, value }, next: next + 1 }
                } else {
                    step_fault(LexErrorKind::UnterminatedCharLiteral, next, next + 1)
                }
            },
            Escape::Open => step_fault(LexErrorKind::UnterminatedCharLiteral, len, len),
            Escape::Invalid { end, cursor } => step_fault(
                LexErrorKind::InvalidEscapeSequence,
                end,
                cursor,
            ),
        }
    }
}

/// A character literal: an optional identifier as its prefix, a `'`, one
/// character or one escape, and the closing `'`.
pub open spec fn char_at(src: Seq<char>, pos: int) -> Step {
    let len = src.len() as int;
    let quote = ident_end(src, pos);
    if !(0 <= quote < len && src[quote] == '\'') {
        Step::NoMatch
    } else if quote + 1 >= len {
        // a quote at the end of the input
        step_fault(LexErrorKind::UnterminatedCharLiteral, quote, quote + 1)
    } else if src[quote + 1] == '\'' {
        // nothing between the quotes
        step_fault(LexErrorKind::UnterminatedCharLiteral, quote + 1, quote + 2)
    } else if src[quote + 1] != '\\' {
        if quote + 2 >= len {
            step_fault(LexErrorKind::UnterminatedCharLiteral, quote + 1, quote + 2)
        } else if src[quote + 2] == '\'' {
            Step::Match { lexeme: Lexeme::Char { quote, value: src[quote + 1] }, next: quote + 3 }
        } else {
            step_fault(LexErrorKind::UnterminatedCharLiteral, quote + 2, quote + 3)
        }
    } else if quote + 2 >= len {
        // a backslash at the end of the input
        step_fault(LexErrorKind::UnterminatedCharLiteral, quote + 1, quote + 2)
    } else {
        escaped_char_at(src, quote, quote + 2)
    }
}

// ---------------------------------------------------------------------------
// Integer literals
// ---------------------------------------------------------------------------

/// Signed binary: `0b`, then binary digits with underscores between them.
pub const BINARY_PATTERN: &'static str = "^[+-]?0b[01_]*[01]";

/// Signed octal: `0o`, then octal digits with underscores between them.
pub const OCTAL_PATTERN: &'static str = "^[+-]?0o[0-7_]*[0-7]";

/// Signed hexadecimal: `0x`, then hexadecimal digits with underscores
/// between them.
pub const HEXADECIMAL_PATTERN: &'static str = "^[+-]?0x[0-9a-fA-F_]*[0-9a-fA-F]";

/// Signed decimal: digits with underscores between them, then an optional
/// exponent, `e` or `E` and digits.
pub const DECIMAL_PATTERN: &'static str = "^[+-]?[0-9](?:[0-9_]*[0-9])?(?:[eE](?<exp>[0-9]+))?";

/// The name of the capture group that holds the digits of the exponent.
pub const EXPONENT_GROUP: &'static str = "exp";

/// The number of characters that a numeric pattern is matched against when
/// no other limit is given.
pub const DEFAULT_WINDOW: usize = 500;

/// The part of the source that a pattern is matched against at `pos`: at
/// most `limit` characters from `pos` on.
pub open spec fn window(src: Seq<char>, pos: int, limit: int) -> Seq<char> {
    if 0 <= pos <= src.len() && 0 <= limit {
        src.subrange(pos, if pos + limit < src.len() { pos + limit } else { src.len() as int })
    } else {
        Seq::empty()
    }
}

/// Whether `text` is a non-empty run of decimal digits.
pub open spec fn is_decimal(text: Seq<char>) -> bool {
    text.len() > 0 && forall|i: int| 0 <= i < text.len() ==> '0' <= #[trigger] text[i] <= '9'
}

/// The number that the decimal digits `digits` write.
pub open spec fn decimal_number(digits: Seq<char>) -> int
    decreases digits.len(),
{
    if digits.len() == 0 {
        0
    } else {
        decimal_number(digits.drop_last()) * 10 + (digits.last() as int - '0' as int)
    }
}

/// The exponent that the digits `text` write: their number, or `usize::MAX`
/// where the number is larger than that.
pub open spec fn exponent_of(text: Seq<char>) -> Option<int> {
    if !is_decimal(text) {
        None
    } else if decimal_number(text) > usize::MAX {
        Some(usize::MAX as int)
    } else {
        Some(decimal_number(text))
    }
}

/// The number at the start of `text`: its length, its base and its
/// exponent. The four patterns are tried in the order binary, octal,
/// hexadecimal, decimal, and the first that matches decides.
pub open spec fn numeric_body(text: Seq<char>) -> Option<(int, Radix, Option<int>)> {
    if pattern_match(BINARY_PATTERN@, text) is Some {
        Some((pattern_match(BINARY_PATTERN@, text).unwrap().len, Radix::Binary, None))
    } else if pattern_match(OCTAL_PATTERN@, text) is Some {
        Some((pattern_match(OCTAL_PATTERN@, text).unwrap().len, Radix::Octal, None))
    } else if pattern_match(HEXADECIMAL_PATTERN@, text) is Some {
        Some((pattern_match(HEXADECIMAL_PATTERN@, text).unwrap().len, Radix::Hexadecimal, None))
    } else {
        match pattern_match(DECIMAL_PATTERN@, text) {
            Some(m) => Some(
                (
                    m.len,
                    Radix::Decimal,
                    match group_named(m, EXPONENT_GROUP@) {
                        Some(digits) => exponent_of(digits),
                        None => None,
                    },
                ),
            ),
            None => None,
        }
    }
}

/// An integer literal: a number as the patterns find it in the window at
/// `pos`, and the identifier that follows it directly, if any, as its suffix.
pub open spec fn int_at(src: Seq<char>, pos: int) -> Step {
    match numeric_body(window(src, pos, DEFAULT_WINDOW as int)) {
        Some((len, radix, exponent)) => Step::Match {
            lexeme: Lexeme::Int { body_end: pos + len, radix, exponent },
            next: ident_end(src, pos + len),
        },
        None => Step::NoMatch,
    }
}

// ---------------------------------------------------------------------------
// The token at a position
// ---------------------------------------------------------------------------

/// What stands at `pos`: the recognizers are tried in the order integer,
/// boolean, character, string, identifier, punctuator, and the first that
/// finds a lexeme or a malformed literal decides.
pub open spec fn step_at(src: Seq<char>, pos: int) -> Step {
    if !(int_at(src, pos) is NoMatch) {
        int_at(src, pos)
    } else if !(bool_at(src, pos) is NoMatch) {
        bool_at(src, pos)
    } else if !(char_at(src, pos) is NoMatch) {
        char_at(src, pos)
    } else if !(str_at(src, pos) is NoMatch) {
        str_at(src, pos)
    } else if !(ident_at(src, pos) is NoMatch) {
        ident_at(src, pos)
    } else {
        punct_at(src, pos)
    }
}

/// The identifier that spans the positions from `start` up to `end`, the
/// latter excluded.
pub open spec fn ident_view(file: Seq<char>, src: Seq<char>, start: int, end: int) -> IdentView {
    IdentView {
        range: span(file, src, start, end - 1),
        spacing: spacing_at(src, start, end - 1),
        identifier: src.subrange(start, end),
    }
}

/// The prefix or suffix that spans the positions from `start` up to `end`,
/// if there is one.
pub open spec fn affix(file: Seq<char>, src: Seq<char>, start: int, end: int) -> Option<
    IdentView,
> {
    if start < end {
        Some(ident_view(file, src, start, end))
    } else {
        None
    }
}

/// The token that the lexeme `lexeme` makes where it spans the positions
/// from `pos` up to `next`, the latter excluded.
pub open spec fn token_at(
    file: Seq<char>,
    src: Seq<char>,
    pos: int,
    lexeme: Lexeme,
    next: int,
) -> TokenView {
    let range = span(file, src, pos, next - 1);
    let spacing = spacing_at(src, pos, next - 1);
    match lexeme {
        Lexeme::Ident => TokenView::Ident(ident_view(file, src, pos, next)),
        Lexeme::Punct => TokenView::Punct(PunctView { range, spacing, punctuator: src[pos] }),
        Lexeme::Bool(value) => TokenView::LitBool(LitBoolView { range, spacing, value }),
        Lexeme::Char { quote, value } => TokenView::LitChar(
            LitCharView { range, spacing, prefix: affix(file, src, pos, quote), value },
        ),
        Lexeme::Str { quote, text } => TokenView::LitStr(
            LitStrView { range, spacing, prefix: affix(file, src, pos, quote), value: text },
        ),
        Lexeme::Int { body_end, radix, exponent } => TokenView::LitInt(
            LitIntView {
                range,
                spacing,
                sign: if src[pos] == '-' {
                    Sign::Negative
                } else {
                    Sign::Positive
                },
                radix,
                value: src.subrange(pos, body_end),
                exponent,
                suffix: affix(file, src, body_end, next),
            },
        ),
    }
}

/// The integer literal of base `radix` whose number `matched` has matched
/// over `range`, and whose suffix is the identifier at `pos`, if one stands
/// there. Its text is the whole match, its sign is negative where the text
/// begins with `-`, and a decimal literal has the exponent that the group
/// `exp` holds.
pub open spec fn int_view(
    file: Seq<char>,
    src: Seq<char>,
    pos: int,
    radix: Radix,
    range: RangeView,
    matched: PatternMatch,
) -> LitIntView {
    let value = if matched.groups.len() > 0 && matched.groups[0] is Some {
        matched.groups[0].unwrap()
    } else {
        Seq::empty()
    };
    let end = if ident_end(src, pos) > pos {
        location_at(file, src, ident_end(src, pos) - 1)
    } else {
        range.end
    };
    LitIntView {
        range: RangeView { start: range.start, end },
        spacing: spacing_at(src, range.start.offset, end.offset),
        sign: if value.len() > 0 && value[0] == '-' {
            Sign::Negative
        } else {
            Sign::Positive
        },
        radix,
        value,
        exponent: if radix == Radix::Decimal {
            match group_named(matched, EXPONENT_GROUP@) {
                Some(digits) => exponent_of(digits),
                None => None,
            }
        } else {
            None
        },
        suffix: affix(file, src, pos, ident_end(src, pos)),
    }
}

/// What a lexical error stands for: its kind, the range from the start of
/// the malformed literal to where the error was found, and the location at
/// which the scan stopped.
pub struct LexErrorView {
    pub kind: LexErrorKind,
    pub at: LocationView,
    pub range: RangeView,
}

/// The error that `fault` makes in a literal that starts at `start`.
pub open spec fn error_at(file: Seq<char>, src: Seq<char>, start: int, fault: Fault) -> LexErrorView {
    LexErrorView {
        kind: fault.kind,
        at: location_at(file, src, fault.cursor),
        range: span(file, src, start, fault.end),
    }
}

// ---------------------------------------------------------------------------
// The tokens of a source
// ---------------------------------------------------------------------------

pub proof fn lemma_scan_str_close(src: Seq<char>, pos: int, value: Seq<char>)
    requires
        0 <= pos <= src.len(),
    ensures
        scan_str(src, pos, value) matches StrScan::Closed { close, .. } ==> pos <= close
            < src.len(),
    decreases src.len() - pos,
{
    let len = src.len() as int;
    if pos >= len || src[pos] == '"' {
    } else if src[pos] != '\\' {
        lemma_scan_str_close(src, pos + 1, value.push(src[pos]));
    } else if pos + 1 >= len {
    } else if escape_value(src[pos + 1]) is Some {
        lemma_scan_str_close(src, pos + 2, value.push(escape_value(src[pos + 1]).unwrap()));
    } else if src[pos + 1] != 'u' || pos + 2 >= len || src[pos + 2] != '{' {
    } else {
        match unicode_escape(src, pos + 3) {
            Escape::Scalar { value: c, next } => {
                lemma_scan_str_close(src, next, value.push(c));
            },
            _ => {},
        }
    }
}

/// A lexeme is never empty and never runs past the end of the source, and at
/// every position before the end something is found.
pub proof fn lemma_step_bounds(src: Seq<char>, pos: int)
    requires
        0 <= pos < src.len(),
    ensures
        !(step_at(src, pos) is NoMatch),
        int_at(src, pos) matches Step::Match { next, .. } ==> pos < next <= src.len(),
        bool_at(src, pos) matches Step::Match { next, .. } ==> pos < next <= src.len(),
        char_at(src, pos) matches Step::Match { next, .. } ==> pos < next <= src.len(),
        str_at(src, pos) matches Step::Match { next, .. } ==> pos < next <= src.len(),
        ident_at(src, pos) matches Step::Match { next, .. } ==> pos < next <= src.len(),
        step_at(src, pos) matches Step::Match { next, .. } ==> pos < next <= src.len(),
{
    lemma_ident_end(src, pos);
    let quote = ident_end(src, pos);
    if quote < src.len() {
        lemma_scan_str_close(src, quote + 1, Seq::empty());
    }
    match numeric_body(window(src, pos, DEFAULT_WINDOW as int)) {
        Some((len, _, _)) => {
            lemma_ident_end(src, pos + len);
        },
        None => {},
    }
}

/// A lexeme with the positions it spans: from `start` up to `next`, the
/// latter excluded.
pub struct Piece {
    pub start: int,
    pub lexeme: Lexeme,
    pub next: int,
}

/// What lexing a source ends in.
pub enum Lexed {
    Tokens(Seq<Piece>),
    /// The literal that starts at `start` is malformed.
    Failed { start: int, fault: Fault },
}

/// `lexed` with the pieces `pieces` before it.
pub open spec fn after(pieces: Seq<Piece>, lexed: Lexed) -> Lexed {
    match lexed {
        Lexed::Tokens(rest) => Lexed::Tokens(pieces + rest),
        Lexed::Failed { start, fault } => Lexed::Failed { start, fault },
    }
}

/// The lexemes of the source from `pos` on: whitespace is skipped, the
/// lexeme at the next position is taken, and so on to the end of the source
/// or to the first malformed literal.
pub open spec fn lex_from(src: Seq<char>, pos: int) -> Lexed
    decreases src.len() - pos,
{
    let start = skip_whitespace(src, pos);
    if pos < 0 || start >= src.len() {
        Lexed::Tokens(Seq::empty())
    } else {
        match step_at(src, start) {
            Step::Match { lexeme, next } => {
                proof {
                    lemma_skip_whitespace(src, pos);
                    lemma_step_bounds(src, start);
                }
                after(seq![Piece { start, lexeme, next }], lex_from(src, next))
            },
            Step::Fault(fault) => Lexed::Failed { start, fault },
            // a punctuator is found wherever nothing else is
            Step::NoMatch => Lexed::Tokens(Seq::empty()),
        }
    }
}

/// The tokens that the pieces `pieces` make, in order.
pub open spec fn tokens_of(file: Seq<char>, src: Seq<char>, pieces: Seq<Piece>) -> Seq<TokenView> {
    Seq::new(
        pieces.len(),
        |i: int| token_at(file, src, pieces[i].start, pieces[i].lexeme, pieces[i].next),
    )
}

/// What lexing the source `src` of the file `file` from `pos` on gives: the
/// tokens in order, or the first lexical error.
pub open spec fn lexed(file: Seq<char>, src: Seq<char>, pos: int) -> Result<
    Seq<TokenView>,
    LexErrorView,
> {
    match lex_from(src, pos) {
        Lexed::Tokens(pieces) => Ok(tokens_of(file, src, pieces)),
        Lexed::Failed { start, fault } => Err(error_at(file, src, start, fault)),
    }
}

} // verus!
