//! The token data model: a closed set of token kinds, each with the range it
//! spans in the source and the spacing around it.

use vstd::prelude::*;
use vstd::arithmetic::power::pow;
use crate::number::{
    bigint_from_i32, bigint_mul, bigint_pow, bigint_value, digits_number, is_digits, parsed_integer,
    parsed_ratio, ratio_from_str, ratio_value, NumberError,
};
use crate::delimiter::Delimiter;
use crate::location::{Location, Range, RangeView};
use crate::radix::Radix;
use crate::sign::Sign;
use crate::spacing::Spacing;

verus! {

#[derive(Debug, PartialEq, Eq)]
pub enum Token {
    Group(Group),
    Ident(Ident),
    Punct(Punct),
    LitStr(LitStr),
    LitChar(LitChar),
    LitInt(LitInt),
    LitFloat(LitFloat),
    LitBool(LitBool),
}

/// A delimited sequence of tokens.
#[derive(Debug, PartialEq, Eq)]
pub struct Group {
    pub range: Range,
    pub spacing: Spacing,
    pub delimiter: Delimiter,
    pub tokens: Vec<Token>,
}

/// A non-empty run of ASCII letters, digits and underscores.
#[derive(Debug, PartialEq, Eq)]
pub struct Ident {
    pub range: Range,
    pub spacing: Spacing,
    pub identifier: String,
}

/// A single character that belongs to no other token.
#[derive(Debug, PartialEq, Eq)]
pub struct Punct {
    pub range: Range,
    pub spacing: Spacing,
    pub punctuator: char,
}

/// A string literal with its escapes decoded.
#[derive(Debug, PartialEq, Eq)]
pub struct LitStr {
    pub range: Range,
    pub spacing: Spacing,
    pub prefix: Option<Ident>,
    pub value: String,
}

/// A character literal with its escape decoded.
#[derive(Debug, PartialEq, Eq)]
pub struct LitChar {
    pub range: Range,
    pub spacing: Spacing,
    pub prefix: Option<Ident>,
    pub value: char,
}

/// An integer literal; `value` is its text as written, sign, base prefix and
/// exponent included, the suffix excluded.
#[derive(Debug, PartialEq, Eq)]
pub struct LitInt {
    pub range: Range,
    pub spacing: Spacing,
    pub sign: Sign,
    pub radix: Radix,
    pub value: String,
    /// only for decimal
    pub exponent: Option<usize>,
    pub suffix: Option<Ident>,
}

#[derive(Debug, PartialEq, Eq)]
pub struct LitFloat {
    pub range: Range,
    pub spacing: Spacing,
    pub sign: Sign,
    pub value: String,
    pub suffix: Option<Ident>,
}

#[derive(Debug, PartialEq, Eq)]
pub struct LitBool {
    pub range: Range,
    pub spacing: Spacing,
    pub value: bool,
}

pub struct GroupView {
    pub range: RangeView,
    pub spacing: Spacing,
    pub delimiter: Delimiter,
    pub tokens: Seq<TokenView>,
}

pub struct IdentView {
    pub range: RangeView,
    pub spacing: Spacing,
    pub identifier: Seq<char>,
}

pub struct PunctView {
    pub range: RangeView,
    pub spacing: Spacing,
    pub punctuator: char,
}

pub struct LitStrView {
    pub range: RangeView,
    pub spacing: Spacing,
    pub prefix: Option<IdentView>,
    pub value: Seq<char>,
}

pub struct LitCharView {
    pub range: RangeView,
    pub spacing: Spacing,
    pub prefix: Option<IdentView>,
    pub value: char,
}

pub struct LitIntView {
    pub range: RangeView,
    pub spacing: Spacing,
    pub sign: Sign,
    pub radix: Radix,
    pub value: Seq<char>,
    pub exponent: Option<int>,
    pub suffix: Option<IdentView>,
}

pub struct LitFloatView {
    pub range: RangeView,
    pub spacing: Spacing,
    pub sign: Sign,
    pub value: Seq<char>,
    pub suffix: Option<IdentView>,
}

pub struct LitBoolView {
    pub range: RangeView,
    pub spacing: Spacing,
    pub value: bool,
}

pub enum TokenView {
    Group(GroupView),
    Ident(IdentView),
    Punct(PunctView),
    LitStr(LitStrView),
    LitChar(LitCharView),
    LitInt(LitIntView),
    LitFloat(LitFloatView),
    LitBool(LitBoolView),
}

impl TokenView {
    pub open spec fn range(self) -> RangeView {
        match self {
            TokenView::Group(t) => t.range,
            TokenView::Ident(t) => t.range,
            TokenView::Punct(t) => t.range,
            TokenView::LitStr(t) => t.range,
            TokenView::LitChar(t) => t.range,
            TokenView::LitInt(t) => t.range,
            TokenView::LitFloat(t) => t.range,
            TokenView::LitBool(t) => t.range,
        }
    }

    pub open spec fn spacing(self) -> Spacing {
        match self {
            TokenView::Group(t) => t.spacing,
            TokenView::Ident(t) => t.spacing,
            TokenView::Punct(t) => t.spacing,
            TokenView::LitStr(t) => t.spacing,
            TokenView::LitChar(t) => t.spacing,
            TokenView::LitInt(t) => t.spacing,
            TokenView::LitFloat(t) => t.spacing,
            TokenView::LitBool(t) => t.spacing,
        }
    }
}

/// The view of an optional identifier (a prefix or a suffix).
pub open spec fn ident_option_view(id: Option<Ident>) -> Option<IdentView> {
    match id {
        Some(i) => Some(i@),
        None => None,
    }
}

/// The views of the tokens of `ts`, in order.
pub open spec fn token_views(ts: Seq<Token>) -> Seq<TokenView>
    decreases ts, 0int,
{
    Seq::new(
        ts.len(),
        |i: int|
            if 0 <= i < ts.len() {
                token_view(ts[i])
            } else {
                arbitrary()
            },
    )
}

/// The view of a token: that of the variant it holds.
pub open spec fn token_view(t: Token) -> TokenView
    decreases t, 1int,
{
    match t {
        Token::Group(g) => TokenView::Group(
            GroupView {
                range: g.range@,
                spacing: g.spacing,
                delimiter: g.delimiter,
                tokens: token_views(g.tokens@),
            },
        ),
        Token::Ident(t) => TokenView::Ident(t@),
        Token::Punct(t) => TokenView::Punct(t@),
        Token::LitStr(t) => TokenView::LitStr(t@),
        Token::LitChar(t) => TokenView::LitChar(t@),
        Token::LitInt(t) => TokenView::LitInt(t@),
        Token::LitFloat(t) => TokenView::LitFloat(t@),
        Token::LitBool(t) => TokenView::LitBool(t@),
    }
}

impl View for Token {
    type V = TokenView;

    open spec fn view(&self) -> TokenView {
        token_view(*self)
    }
}

impl View for Group {
    type V = GroupView;

    open spec fn view(&self) -> GroupView {
        GroupView {
            range: self.range@,
            spacing: self.spacing,
            delimiter: self.delimiter,
            tokens: token_views(self.tokens@),
        }
    }
}

impl View for Ident {
    type V = IdentView;

    open spec fn view(&self) -> IdentView {
        IdentView { range: self.range@, spacing: self.spacing, identifier: self.identifier@ }
    }
}

impl View for Punct {
    type V = PunctView;

    open spec fn view(&self) -> PunctView {
        PunctView { range: self.range@, spacing: self.spacing, punctuator: self.punctuator }
    }
}

impl View for LitStr {
    type V = LitStrView;

    open spec fn view(&self) -> LitStrView {
        LitStrView {
            range: self.range@,
            spacing: self.spacing,
            prefix: ident_option_view(self.prefix),
            value: self.value@,
        }
    }
}

impl View for LitChar {
    type V = LitCharView;

    open spec fn view(&self) -> LitCharView {
        LitCharView {
            range: self.range@,
            spacing: self.spacing,
            prefix: ident_option_view(self.prefix),
            value: self.value,
        }
    }
}

impl View for LitInt {
    type V = LitIntView;

    open spec fn view(&self) -> LitIntView {
        LitIntView {
            range: self.range@,
            spacing: self.spacing,
            sign: self.sign,
            radix: self.radix,
            value: self.value@,
            exponent: match self.exponent {
                Some(e) => Some(e as int),
                None => None,
            },
            suffix: ident_option_view(self.suffix),
        }
    }
}

impl View for LitFloat {
    type V = LitFloatView;

    open spec fn view(&self) -> LitFloatView {
        LitFloatView {
            range: self.range@,
            spacing: self.spacing,
            sign: self.sign,
            value: self.value@,
            suffix: ident_option_view(self.suffix),
        }
    }
}

impl View for LitBool {
    type V = LitBoolView;

    open spec fn view(&self) -> LitBoolView {
        LitBoolView { range: self.range@, spacing: self.spacing, value: self.value }
    }
}

impl Clone for Ident {
    fn clone(&self) -> (r: Self)
        ensures
            r@ == self@,
    {
        Ident {
            range: self.range.clone(),
            spacing: self.spacing,
            identifier: self.identifier.clone(),
        }
    }
}

/// A copy of an optional identifier.
fn clone_ident_option(id: &Option<Ident>) -> (r: Option<Ident>)
    ensures
        ident_option_view(r) == ident_option_view(*id),
{
    match id {
        Some(i) => Some(i.clone()),
        None => None,
    }
}

impl Clone for Punct {
    fn clone(&self) -> (r: Self)
        ensures
            r@ == self@,
    {
        Punct { range: self.range.clone(), spacing: self.spacing, punctuator: self.punctuator }
    }
}

impl Clone for LitStr {
    fn clone(&self) -> (r: Self)
        ensures
            r@ == self@,
    {
        LitStr {
            range: self.range.clone(),
            spacing: self.spacing,
            prefix: clone_ident_option(&self.prefix),
            value: self.value.clone(),
        }
    }
}

impl Clone for LitChar {
    fn clone(&self) -> (r: Self)
        ensures
            r@ == self@,
    {
        LitChar {
            range: self.range.clone(),
            spacing: self.spacing,
            prefix: clone_ident_option(&self.prefix),
            value: self.value,
        }
    }
}

impl Clone for LitInt {
    fn clone(&self) -> (r: Self)
        ensures
            r@ == self@,
    {
        LitInt {
            range: self.range.clone(),
            spacing: self.spacing,
            sign: self.sign,
            radix: self.radix,
            value: self.value.clone(),
            exponent: self.exponent,
            suffix: clone_ident_option(&self.suffix),
        }
    }
}

impl Clone for LitFloat {
    fn clone(&self) -> (r: Self)
        ensures
            r@ == self@,
    {
        LitFloat {
            range: self.range.clone(),
            spacing: self.spacing,
            sign: self.sign,
            value: self.value.clone(),
            suffix: clone_ident_option(&self.suffix),
        }
    }
}

impl Clone for LitBool {
    fn clone(&self) -> (r: Self)
        ensures
            r@ == self@,
    {
        LitBool { range: self.range.clone(), spacing: self.spacing, value: self.value }
    }
}

/// A copy of the tokens of `ts`, in order.
pub fn clone_tokens(ts: &Vec<Token>) -> (r: Vec<Token>)
    ensures
        token_views(r@) == token_views(ts@),
    decreases ts, 0int,
{
    let mut out: Vec<Token> = Vec::new();
    let mut i: usize = 0;
    while i < ts.len()
        invariant
            i <= ts.len(),
            out@.len() == i,
            forall|k: int| 0 <= k < i ==> token_view(out@[k]) == token_view(#[trigger] ts@[k]),
        decreases ts.len() - i,
    {
        let t = clone_token(&ts[i]);
        out.push(t);
        i += 1;
    }
    assert(token_views(out@) =~= token_views(ts@));
    out
}

/// A copy of `t`.
pub fn clone_token(t: &Token) -> (r: Token)
    ensures
        r@ == t@,
    decreases t, 1int,
{
    match t {
        Token::Group(g) => {
            let tokens = clone_tokens(&g.tokens);
            Token::Group(
                Group {
                    range: g.range.clone(),
                    spacing: g.spacing,
                    delimiter: g.delimiter,
                    tokens,
                },
            )
        },
        Token::Ident(t) => Token::Ident(t.clone()),
        Token::Punct(t) => Token::Punct(t.clone()),
        Token::LitStr(t) => Token::LitStr(t.clone()),
        Token::LitChar(t) => Token::LitChar(t.clone()),
        Token::LitInt(t) => Token::LitInt(t.clone()),
        Token::LitFloat(t) => Token::LitFloat(t.clone()),
        Token::LitBool(t) => Token::LitBool(t.clone()),
    }
}

impl Clone for Token {
    fn clone(&self) -> (r: Self)
        ensures
            r@ == self@,
    {
        clone_token(self)
    }
}

impl Clone for Group {
    fn clone(&self) -> (r: Self)
        ensures
            r@ == self@,
    {
        Group {
            range: self.range.clone(),
            spacing: self.spacing,
            delimiter: self.delimiter,
            tokens: clone_tokens(&self.tokens),
        }
    }
}

impl Token {
    /// The range that the token spans.
    pub fn range(&self) -> (r: &Range)
        ensures
            r@ == self@.range(),
    {
        match self {
            Token::Group(group) => &group.range,
            Token::Ident(ident) => &ident.range,
            Token::Punct(punct) => &punct.range,
            Token::LitStr(lit_str) => &lit_str.range,
            Token::LitChar(lit_char) => &lit_char.range,
            Token::LitInt(lit_int) => &lit_int.range,
            Token::LitFloat(lit_float) => &lit_float.range,
            Token::LitBool(lit_bool) => &lit_bool.range,
        }
    }

    /// The spacing around the token.
    pub fn spacing(&self) -> (r: Spacing)
        ensures
            r == self@.spacing(),
    {
        match self {
            Token::Group(group) => group.spacing,
            Token::Ident(ident) => ident.spacing,
            Token::Punct(punct) => punct.spacing,
            Token::LitStr(lit_str) => lit_str.spacing,
            Token::LitChar(lit_char) => lit_char.spacing,
            Token::LitInt(lit_int) => lit_int.spacing,
            Token::LitFloat(lit_float) => lit_float.spacing,
            Token::LitBool(lit_bool) => lit_bool.spacing,
        }
    }

    pub fn is_group(&self) -> (r: bool)
        ensures
            r == (self@ is Group),
    {
        matches!(self, Token::Group(_))
    }

    pub fn is_ident(&self) -> (r: bool)
        ensures
            r == (self@ is Ident),
    {
        matches!(self, Token::Ident(_))
    }

    pub fn is_punct(&self) -> (r: bool)
        ensures
            r == (self@ is Punct),
    {
        matches!(self, Token::Punct(_))
    }

    pub fn is_lit_str(&self) -> (r: bool)
        ensures
            r == (self@ is LitStr),
    {
        matches!(self, Token::LitStr(_))
    }

    pub fn is_lit_char(&self) -> (r: bool)
        ensures
            r == (self@ is LitChar),
    {
        matches!(self, Token::LitChar(_))
    }

    pub fn is_lit_int(&self) -> (r: bool)
        ensures
            r == (self@ is LitInt),
    {
        matches!(self, Token::LitInt(_))
    }

    pub fn is_lit_float(&self) -> (r: bool)
        ensures
            r == (self@ is LitFloat),
    {
        matches!(self, Token::LitFloat(_))
    }

    pub fn is_lit_bool(&self) -> (r: bool)
        ensures
            r == (self@ is LitBool),
    {
        matches!(self, Token::LitBool(_))
    }
}

/// The range of an optional identifier.
fn range_of(id: &Option<Ident>) -> (r: Option<Range>)
    ensures
        match r {
            Some(range) => ident_option_view(*id) matches Some(i) && range@ == i.range,
            None => ident_option_view(*id) is None,
        },
{
    match id {
        Some(ident) => Some(ident.range.clone()),
        None => None,
    }
}

/// The range from the start of the first token of `tokens` to the end of
/// the last; nothing where there is no token.
pub fn range_of_tokens(tokens: &Vec<Token>) -> (r: Option<Range>)
    ensures
        match r {
            Some(range) => {
                &&& tokens@.len() > 0
                &&& range@.start == token_views(tokens@).first().range().start
                &&& range@.end == token_views(tokens@).last().range().end
            },
            None => tokens@.len() == 0,
        },
{
    if tokens.len() == 0 {
        return None;
    }
    let first = &tokens[0];
    let last = &tokens[tokens.len() - 1];
    assert(token_views(tokens@).first() == first@);
    assert(token_views(tokens@).last() == last@);
    Some(first.range().start.to(&last.range().end))
}

impl Group {
    /// The location of the opening delimiter.
    pub fn open_location(&self) -> (r: &Location)
        ensures
            r@ == self@.range.start,
    {
        &self.range.start
    }

    /// The location of the closing delimiter.
    pub fn close_location(&self) -> (r: &Location)
        ensures
            r@ == self@.range.end,
    {
        &self.range.end
    }

    /// The range from the first token inside the group to the last; nothing
    /// for an empty group.
    pub fn inner_range(&self) -> (r: Option<Range>)
        ensures
            match r {
                Some(range) => {
                    &&& self@.tokens.len() > 0
                    &&& range@.start == self@.tokens.first().range().start
                    &&& range@.end == self@.tokens.last().range().end
                },
                None => self@.tokens.len() == 0,
            },
    {
        range_of_tokens(&self.tokens)
    }

    pub fn is_empty(&self) -> (r: bool)
        ensures
            r == (self@.tokens.len() == 0),
    {
        self.tokens.len() == 0
    }

    /// The tokens inside the group.
    pub fn as_slice(&self) -> (r: &[Token])
        ensures
            token_views(r@) == self@.tokens,
    {
        self.tokens.as_slice()
    }

    pub fn is_by_parentheses(&self) -> (r: bool)
        ensures
            r == (self@.delimiter == Delimiter::Parentheses),
    {
        self.delimiter == Delimiter::Parentheses
    }

    pub fn is_by_brackets(&self) -> (r: bool)
        ensures
            r == (self@.delimiter == Delimiter::Brackets),
    {
        self.delimiter == Delimiter::Brackets
    }

    pub fn is_by_braces(&self) -> (r: bool)
        ensures
            r == (self@.delimiter == Delimiter::Braces),
    {
        self.delimiter == Delimiter::Braces
    }
}

impl Ident {
    pub fn as_str(&self) -> (r: &str)
        ensures
            r@ == self@.identifier,
    {
        self.identifier.as_str()
    }
}

impl Punct {
    pub fn as_char(&self) -> (r: char)
        ensures
            r == self@.punctuator,
    {
        self.punctuator
    }
}

impl LitStr {
    /// The decoded value.
    pub fn as_str(&self) -> (r: &str)
        ensures
            r@ == self@.value,
    {
        self.value.as_str()
    }

    pub fn prefix_range(&self) -> (r: Option<Range>)
        ensures
            match r {
                Some(range) => self@.prefix matches Some(prefix) && range@ == prefix.range,
                None => self@.prefix is None,
            },
    {
        range_of(&self.prefix)
    }
}

impl LitChar {
    /// The decoded value.
    pub fn as_char(&self) -> (r: char)
        ensures
            r == self@.value,
    {
        self.value
    }

    pub fn prefix_range(&self) -> (r: Option<Range>)
        ensures
            match r {
                Some(range) => self@.prefix matches Some(prefix) && range@ == prefix.range,
                None => self@.prefix is None,
            },
    {
        range_of(&self.prefix)
    }
}

impl LitInt {
    /// The text of the literal as written.
    pub fn as_str(&self) -> (r: &str)
        ensures
            r@ == self@.value,
    {
        self.value.as_str()
    }

    pub fn radix(&self) -> (r: Radix)
        ensures
            r == self@.radix,
    {
        self.radix
    }

    pub fn suffix_range(&self) -> (r: Option<Range>)
        ensures
            match r {
                Some(range) => self@.suffix matches Some(suffix) && range@ == suffix.range,
                None => self@.suffix is None,
            },
    {
        range_of(&self.suffix)
    }

    pub fn is_negative(&self) -> (r: bool)
        ensures
            r == (self@.sign == Sign::Negative),
    {
        self.sign == Sign::Negative
    }

    pub fn is_positive(&self) -> (r: bool)
        ensures
            r == (self@.sign == Sign::Positive),
    {
        self.sign == Sign::Positive
    }
}

impl LitFloat {
    /// The text of the literal as written.
    pub fn as_str(&self) -> (r: &str)
        ensures
            r@ == self@.value,
    {
        self.value.as_str()
    }

    pub fn suffix_range(&self) -> (r: Option<Range>)
        ensures
            match r {
                Some(range) => self@.suffix matches Some(suffix) && range@ == suffix.range,
                None => self@.suffix is None,
            },
    {
        range_of(&self.suffix)
    }

    pub fn is_negative(&self) -> (r: bool)
        ensures
            r == (self@.sign == Sign::Negative),
    {
        self.sign == Sign::Negative
    }

    pub fn is_positive(&self) -> (r: bool)
        ensures
            r == (self@.sign == Sign::Positive),
    {
        self.sign == Sign::Positive
    }
}

impl LitBool {
    /// The word of the literal: `true` or `false`.
    pub fn as_str(&self) -> (r: &str)
        ensures
            r@ == if self@.value {
                "true"@
            } else {
                "false"@
            },
    {
        if self.value {
            "true"
        } else {
            "false"
        }
    }

    pub fn as_bool(&self) -> (r: bool)
        ensures
            r == self@.value,
    {
        self.value
    }

    pub fn is_true(&self) -> (r: bool)
        ensures
            r == self@.value,
    {
        self.value
    }

    pub fn is_false(&self) -> (r: bool)
        ensures
            r == !self@.value,
    {
        !self.value
    }
}

/// The first position from `from` on at which `text` holds an `e` or an
/// `E`, or the length of `text`.
pub open spec fn exponent_mark(text: Seq<char>, from: int) -> int
    decreases text.len() - from,
{
    if from < 0 || from >= text.len() {
        text.len() as int
    } else if text[from] == 'e' || text[from] == 'E' {
        from
    } else {
        exponent_mark(text, from + 1)
    }
}

/// The position at which the digits of an integer literal begin: behind
/// the sign, if there is one, and behind the two characters of the base
/// prefix, if the base has one.
pub open spec fn digits_start(text: Seq<char>, radix: Radix) -> int {
    let signed: int = if text.len() > 0 && (text[0] == '+' || text[0] == '-') {
        1
    } else {
        0
    };
    let start = if radix == Radix::Decimal {
        signed
    } else {
        signed + 2
    };
    if start > text.len() {
        text.len() as int
    } else {
        start
    }
}

impl LitIntView {
    /// The digits of the literal: its text without the sign, the base
    /// prefix and, for a decimal literal with an exponent, the exponent.
    pub open spec fn digits(self) -> Seq<char> {
        let start = digits_start(self.value, self.radix);
        let end = if self.exponent is Some && self.radix == Radix::Decimal {
            exponent_mark(self.value, start)
        } else {
            self.value.len() as int
        };
        self.value.subrange(start, end)
    }

    /// The number `digits` with the sign and the exponent of the literal
    /// applied, where the exponent is small enough.
    pub open spec fn scaled(self, digits: int) -> Result<int, NumberError> {
        match self.exponent {
            Some(e) => if e > u32::MAX {
                Err(NumberError::ExponentTooLarge)
            } else {
                Ok(self.sign.factor() * digits * pow(10, e as nat))
            },
            None => Ok(self.sign.factor() * digits),
        }
    }

    /// The value of the literal: its digits read in its base, with its sign
    /// and its exponent applied.
    pub open spec fn number(self) -> Result<int, NumberError> {
        match parsed_integer(self.digits(), self.radix.base()) {
            Some(digits) => self.scaled(digits),
            None => Err(NumberError::Malformed),
        }
    }
}

impl LitInt {
    /// The digits of the literal.
    fn digits(&self) -> (r: &str)
        ensures
            r@ == self@.digits(),
    {
        let text = self.value.as_str();
        let len = text.unicode_len();
        let signed: usize = if len > 0 && (text.get_char(0) == '+' || text.get_char(0) == '-') {
            1
        } else {
            0
        };
        let start = if self.radix.is_decimal() {
            signed
        } else if len - signed < 2 {
            len
        } else {
            signed + 2
        };
        if !(self.exponent.is_some() && self.radix.is_decimal()) {
            return text.substring_char(start, len);
        }
        let mut end: usize = start;
        while end < len && text.get_char(end) != 'e' && text.get_char(end) != 'E'
            invariant
                start <= end <= len,
                len == text@.len(),
                exponent_mark(text@, end as int) == exponent_mark(text@, start as int),
            decreases len - end,
        {
            end += 1;
        }
        text.substring_char(start, end)
    }

    /// The number that `digits` holds with the sign `sign` and the exponent
    /// `exponent` applied: negated for a negative sign, and multiplied by
    /// ten to the power of the exponent.
    pub fn scale(digits: num::BigInt, sign: Sign, exponent: Option<usize>) -> (r: Result<
        num::BigInt,
        NumberError,
    >)
        ensures
            match r {
                Ok(n) => match exponent {
                    Some(e) => e <= u32::MAX && bigint_value(n) == sign.factor() * bigint_value(
                        digits,
                    ) * pow(10, e as nat),
                    None => bigint_value(n) == sign.factor() * bigint_value(digits),
                },
                Err(e) => {
                    &&& e == NumberError::ExponentTooLarge
                    &&& exponent matches Some(large)
                    &&& large > u32::MAX
                },
            },
    {
        let ghost value = bigint_value(digits);
        let signed = match sign {
            Sign::Positive => digits,
            Sign::Negative => {
                let minus_one = bigint_from_i32(-1);
                assert(value * bigint_value(minus_one) == -1 * value) by (nonlinear_arith)
                    requires
                        bigint_value(minus_one) == -1,
                ;
                bigint_mul(&digits, &minus_one)
            },
        };
        assert(bigint_value(signed) == sign.factor() * value) by (nonlinear_arith)
            requires
                sign == Sign::Positive ==> bigint_value(signed) == value && sign.factor() == 1,
                sign == Sign::Negative ==> bigint_value(signed) == -1 * value && sign.factor() == -1,
        ;
        match exponent {
            None => Ok(signed),
            Some(e) => {
                if e > u32::MAX as usize {
                    return Err(NumberError::ExponentTooLarge);
                }
                let factor = bigint_pow(&bigint_from_i32(10), e as u32);
                Ok(bigint_mul(&signed, &factor))
            },
        }
    }

    /// The value of the literal: its digits read in its base, negated for a
    /// negative sign and multiplied by ten to the power of its exponent.
    pub fn to_int(&self) -> (r: Result<num::BigInt, NumberError>)
        ensures
            match r {
                Ok(n) => self@.number() == Ok::<int, NumberError>(bigint_value(n)),
                Err(e) => self@.number() == Err::<int, NumberError>(e),
            },
            is_digits(self@.digits(), self@.radix.base()) ==> self@.number() == self@.scaled(
                digits_number(self@.digits(), self@.radix.base()),
            ),
    {
        let digits = match self.radix.parse(self.digits()) {
            Ok(digits) => digits,
            Err(e) => {
                return Err(e);
            },
        };
        LitInt::scale(digits, self.sign, self.exponent)
    }
}

impl LitFloat {
    /// The value of the literal, as `BigRational::from_str` reads its text.
    pub fn to_float(&self) -> (r: Result<num::BigRational, NumberError>)
        ensures
            match r {
                Ok(q) => parsed_ratio(self@.value) == Some(ratio_value(q)),
                Err(e) => e == NumberError::Malformed && parsed_ratio(self@.value) is None,
            },
    {
        match ratio_from_str(self.value.as_str()) {
            Ok(q) => Ok(q),
            Err(_) => Err(NumberError::Malformed),
        }
    }
}

} // verus!
