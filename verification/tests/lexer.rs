use std::sync::Arc;

use mslc::delimiter::Delimiter;
use mslc::lexer::{LexError, Lexer};
use mslc::location::{Location, Range};
use mslc::number::NumberError;
use mslc::pattern::Captures;
use mslc::radix::Radix;
use mslc::sign::Sign;
use mslc::spacing::Spacing;
use mslc::token::{Group, Ident, LitBool, LitFloat, LitInt, Punct, Token};
use num::BigInt;

fn lex(source: &str) -> Vec<Token> {
    let mut lexer = Lexer::from_source(source);
    let tokens = lexer.lex().expect("the source has no malformed literal");
    tokens.iter().cloned().collect()
}

fn lex_error(source: &str) -> LexError {
    let mut lexer = Lexer::from_source(source);
    lexer.lex().expect_err("the source has a malformed literal")
}

fn loc(line: usize, column: usize, offset: usize) -> Location {
    Location::new(Arc::new("source".to_string()), line, column, offset)
}

fn range(start: (usize, usize, usize), end: (usize, usize, usize)) -> Range {
    Range { start: loc(start.0, start.1, start.2), end: loc(end.0, end.1, end.2) }
}

fn ident(text: &str, spacing: Spacing, start: usize) -> Ident {
    let end = start + text.len() - 1;
    Ident {
        range: range((1, start + 1, start), (1, end + 1, end)),
        spacing,
        identifier: text.to_string(),
    }
}

#[test]
fn empty_source_has_no_tokens() {
    assert_eq!(lex(""), vec![]);
    assert_eq!(lex(" \t\r\n\x0C "), vec![]);
}

#[test]
fn string_escape_decodes_to_line_feed() {
    let tokens = lex("\"\\n\"");
    assert_eq!(tokens.len(), 1);
    match &tokens[0] {
        Token::LitStr(lit) => {
            assert_eq!(lit.as_str(), "\n");
            assert_eq!(lit.prefix, None);
            assert_eq!(lit.range, range((1, 1, 0), (1, 4, 3)));
        },
        other => panic!("not a string literal: {:?}", other),
    }
}

#[test]
fn string_single_character_escapes() {
    let tokens = lex(r#""\n\r\t\0\"\'\\""#);
    match &tokens[0] {
        Token::LitStr(lit) => assert_eq!(lit.as_str(), "\n\r\t\0\"'\\"),
        other => panic!("not a string literal: {:?}", other),
    }
}

#[test]
fn string_unicode_escape_decodes() {
    let tokens = lex("\"\\u{48}\"");
    match &tokens[0] {
        Token::LitStr(lit) => assert_eq!(lit.as_str(), "H"),
        other => panic!("not a string literal: {:?}", other),
    }
    let tokens = lex("\"a\\u{1F600}b\\u{e9}\"");
    match &tokens[0] {
        Token::LitStr(lit) => assert_eq!(lit.as_str(), "a\u{1F600}b\u{e9}"),
        other => panic!("not a string literal: {:?}", other),
    }
    let tokens = lex("\"\\u{10FFFF}\"");
    match &tokens[0] {
        Token::LitStr(lit) => assert_eq!(lit.as_str(), "\u{10FFFF}"),
        other => panic!("not a string literal: {:?}", other),
    }
}

#[test]
fn char_unicode_escape_decodes() {
    let tokens = lex("'\\u{1F600}'");
    assert_eq!(tokens.len(), 1);
    match &tokens[0] {
        Token::LitChar(lit) => {
            assert_eq!(lit.as_char(), '\u{1F600}');
            assert_eq!(lit.range, range((1, 1, 0), (1, 11, 10)));
        },
        other => panic!("not a character literal: {:?}", other),
    }
}

#[test]
fn string_unicode_escape_without_digits_is_invalid() {
    match lex_error("\"\\u{}\"") {
        LexError::InvalidEscapeSequence(at, range) => {
            assert_eq!(range.start, loc(1, 1, 0));
            assert_eq!(range.end, loc(1, 6, 5));
            assert_eq!(at, loc(1, 6, 5));
        },
        other => panic!("not an invalid escape: {:?}", other),
    }
}

#[test]
fn string_without_closing_quote_is_unterminated() {
    match lex_error("\"abc") {
        LexError::UnterminatedStringLiteral(at, range) => {
            assert_eq!(range.start, loc(1, 1, 0));
            assert_eq!(range.end, loc(1, 5, 4));
            assert_eq!(at, loc(1, 5, 4));
        },
        other => panic!("not an unterminated string: {:?}", other),
    }
}

#[test]
fn string_errors() {
    assert!(matches!(lex_error("\"a\\"), LexError::UnterminatedStringLiteral(..)));
    assert!(matches!(lex_error("\"a\\u"), LexError::UnterminatedStringLiteral(..)));
    assert!(matches!(lex_error("\"a\\u{12"), LexError::UnterminatedStringLiteral(..)));
    assert!(matches!(lex_error("\"\\q\""), LexError::InvalidEscapeSequence(..)));
    assert!(matches!(lex_error("\"\\u48\""), LexError::InvalidEscapeSequence(..)));
    assert!(matches!(lex_error("\"\\u{4g}\""), LexError::InvalidEscapeSequence(..)));
    assert!(matches!(lex_error("\"\\u{1234567}\""), LexError::InvalidEscapeSequence(..)));
    assert!(matches!(lex_error("\"\\u{D800}\""), LexError::InvalidEscapeSequence(..)));
    assert!(matches!(lex_error("\"\\u{110000}\""), LexError::InvalidEscapeSequence(..)));
}

#[test]
fn unknown_escape_ends_at_the_backslash() {
    match lex_error("x \"ab\\q\"") {
        LexError::InvalidEscapeSequence(at, range) => {
            assert_eq!(range, self::range((1, 3, 2), (1, 6, 5)));
            assert_eq!(at, loc(1, 7, 6));
        },
        other => panic!("not an invalid escape: {:?}", other),
    }
}

#[test]
fn string_with_prefix() {
    let tokens = lex("r\"a b\" x");
    assert_eq!(tokens.len(), 2);
    match &tokens[0] {
        Token::LitStr(lit) => {
            assert_eq!(lit.as_str(), "a b");
            assert_eq!(lit.prefix, Some(ident("r", Spacing::Neither, 0)));
            assert_eq!(lit.prefix_range(), Some(range((1, 1, 0), (1, 1, 0))));
            assert_eq!(lit.range, range((1, 1, 0), (1, 6, 5)));
            assert_eq!(lit.spacing, Spacing::Trailing);
        },
        other => panic!("not a string literal: {:?}", other),
    }
    assert_eq!(tokens[1], Token::Ident(ident("x", Spacing::Leading, 7)));
}

#[test]
fn identifier_before_anything_else_is_no_prefix() {
    let tokens = lex("ab+");
    assert_eq!(tokens.len(), 2);
    assert_eq!(tokens[0], Token::Ident(ident("ab", Spacing::Neither, 0)));
    assert!(tokens[1].is_punct());
}

#[test]
fn char_literals() {
    let tokens = lex("'a' '\\n' '\\'' '\\\\' '\"' ' ' b'x'");
    let values: Vec<char> = tokens
        .iter()
        .map(|t| match t {
            Token::LitChar(lit) => lit.as_char(),
            other => panic!("not a character literal: {:?}", other),
        })
        .collect();
    assert_eq!(values, vec!['a', '\n', '\'', '\\', '"', ' ', 'x']);
    match &tokens[6] {
        Token::LitChar(lit) => {
            assert_eq!(lit.prefix.as_ref().map(|p| p.as_str()), Some("b"));
            assert!(lit.prefix_range().is_some());
        },
        other => panic!("not a character literal: {:?}", other),
    }
    match &tokens[0] {
        Token::LitChar(lit) => assert_eq!(lit.prefix_range(), None),
        other => panic!("not a character literal: {:?}", other),
    }
}

#[test]
fn char_errors() {
    assert!(matches!(lex_error("'"), LexError::UnterminatedCharLiteral(..)));
    assert!(matches!(lex_error("''"), LexError::UnterminatedCharLiteral(..)));
    assert!(matches!(lex_error("'''"), LexError::UnterminatedCharLiteral(..)));
    assert!(matches!(lex_error("'a"), LexError::UnterminatedCharLiteral(..)));
    assert!(matches!(lex_error("'ab'"), LexError::UnterminatedCharLiteral(..)));
    assert!(matches!(lex_error("'\\"), LexError::UnterminatedCharLiteral(..)));
    assert!(matches!(lex_error("'\\n"), LexError::UnterminatedCharLiteral(..)));
    assert!(matches!(lex_error("'\\nx"), LexError::UnterminatedCharLiteral(..)));
    assert!(matches!(lex_error("'\\u"), LexError::UnterminatedCharLiteral(..)));
    assert!(matches!(lex_error("'\\u{41"), LexError::UnterminatedCharLiteral(..)));
    assert!(matches!(lex_error("'\\u{41}"), LexError::UnterminatedCharLiteral(..)));
    assert!(matches!(lex_error("'\\u{41}x"), LexError::UnterminatedCharLiteral(..)));
    assert!(matches!(lex_error("'\\q'"), LexError::InvalidEscapeSequence(..)));
    assert!(matches!(lex_error("'\\u41'"), LexError::InvalidEscapeSequence(..)));
    assert!(matches!(lex_error("'\\u{}'"), LexError::InvalidEscapeSequence(..)));
    assert!(matches!(lex_error("'\\u{4x}'"), LexError::InvalidEscapeSequence(..)));
    assert!(matches!(lex_error("'\\u{1234567}'"), LexError::InvalidEscapeSequence(..)));
    assert!(matches!(lex_error("'\\u{DFFF}'"), LexError::InvalidEscapeSequence(..)));
}

#[test]
fn char_error_ranges() {
    match lex_error(" 'ab'") {
        LexError::UnterminatedCharLiteral(at, range) => {
            assert_eq!(range, self::range((1, 2, 1), (1, 4, 3)));
            assert_eq!(at, loc(1, 5, 4));
        },
        other => panic!("not an unterminated character: {:?}", other),
    }
    match lex_error("'") {
        LexError::UnterminatedCharLiteral(at, range) => {
            assert_eq!(range, self::range((1, 1, 0), (1, 1, 0)));
            assert_eq!(at, loc(1, 2, 1));
        },
        other => panic!("not an unterminated character: {:?}", other),
    }
}

#[test]
fn binary_literal() {
    let tokens = lex("0b101");
    assert_eq!(tokens.len(), 1);
    match &tokens[0] {
        Token::LitInt(lit) => {
            assert_eq!(lit.radix(), Radix::Binary);
            assert!(lit.radix().is_binary());
            assert_eq!(lit.as_str(), "0b101");
            assert_eq!(lit.exponent, None);
            assert_eq!(lit.suffix, None);
            assert_eq!(lit.suffix_range(), None);
            assert!(lit.is_positive());
            assert!(!lit.is_negative());
            assert_eq!(lit.to_int(), Ok(BigInt::from(5)));
            assert_eq!(lit.range, range((1, 1, 0), (1, 5, 4)));
            assert_eq!(lit.spacing, Spacing::Neither);
        },
        other => panic!("not an integer literal: {:?}", other),
    }
}

#[test]
fn decimal_literal_with_underscores() {
    let tokens = lex("123_456");
    assert_eq!(tokens.len(), 1);
    match &tokens[0] {
        Token::LitInt(lit) => {
            assert_eq!(lit.radix(), Radix::Decimal);
            assert_eq!(lit.as_str(), "123_456");
            assert_eq!(lit.to_int(), Ok(BigInt::from(123456)));
        },
        other => panic!("not an integer literal: {:?}", other),
    }
}

#[test]
fn decimal_literal_with_exponent() {
    let tokens = lex("1e3");
    assert_eq!(tokens.len(), 1);
    match &tokens[0] {
        Token::LitInt(lit) => {
            assert_eq!(lit.radix(), Radix::Decimal);
            assert_eq!(lit.as_str(), "1e3");
            assert_eq!(lit.exponent, Some(3));
            assert_eq!(lit.suffix, None);
            assert_eq!(lit.to_int(), Ok(BigInt::from(1000)));
        },
        other => panic!("not an integer literal: {:?}", other),
    }
}

#[test]
fn integer_literals_of_every_base() {
    let tokens = lex("-0x_fF 0o17 +42 -7E02 0b1_0");
    let found: Vec<(Radix, Sign, String, Option<usize>, BigInt)> = tokens
        .iter()
        .map(|t| match t {
            Token::LitInt(lit) => (
                lit.radix(),
                lit.sign,
                lit.as_str().to_string(),
                lit.exponent,
                lit.to_int().unwrap_or(BigInt::from(-1)),
            ),
            other => panic!("not an integer literal: {:?}", other),
        })
        .collect();
    assert_eq!(
        found,
        vec![
            (Radix::Hexadecimal, Sign::Negative, "-0x_fF".to_string(), None, BigInt::from(-1)),
            (Radix::Octal, Sign::Positive, "0o17".to_string(), None, BigInt::from(15)),
            (Radix::Decimal, Sign::Positive, "+42".to_string(), None, BigInt::from(42)),
            (Radix::Decimal, Sign::Negative, "-7E02".to_string(), Some(2), BigInt::from(-700)),
            (Radix::Binary, Sign::Positive, "0b1_0".to_string(), None, BigInt::from(2)),
        ]
    );
}

#[test]
fn integer_literal_with_suffix() {
    let tokens = lex("10px 0x1fu8;");
    assert_eq!(tokens.len(), 3);
    match &tokens[0] {
        Token::LitInt(lit) => {
            assert_eq!(lit.as_str(), "10");
            assert_eq!(lit.suffix, Some(ident("px", Spacing::Trailing, 2)));
            assert_eq!(lit.suffix_range(), Some(range((1, 3, 2), (1, 4, 3))));
            assert_eq!(lit.range, range((1, 1, 0), (1, 4, 3)));
            assert_eq!(lit.spacing, Spacing::Trailing);
            assert_eq!(lit.to_int(), Ok(BigInt::from(10)));
        },
        other => panic!("not an integer literal: {:?}", other),
    }
    match &tokens[1] {
        Token::LitInt(lit) => {
            assert_eq!(lit.as_str(), "0x1f");
            assert_eq!(lit.radix(), Radix::Hexadecimal);
            assert_eq!(lit.suffix.as_ref().map(|s| s.as_str()), Some("u8"));
            assert_eq!(lit.to_int(), Ok(BigInt::from(31)));
        },
        other => panic!("not an integer literal: {:?}", other),
    }
    match &tokens[2] {
        Token::Punct(punct) => assert_eq!(punct.as_char(), ';'),
        other => panic!("not a punctuator: {:?}", other),
    }
}

#[test]
fn exponent_without_digits_is_a_suffix() {
    let tokens = lex("1e");
    match &tokens[0] {
        Token::LitInt(lit) => {
            assert_eq!(lit.as_str(), "1");
            assert_eq!(lit.exponent, None);
            assert_eq!(lit.suffix.as_ref().map(|s| s.as_str()), Some("e"));
        },
        other => panic!("not an integer literal: {:?}", other),
    }
}

#[test]
fn exponent_larger_than_the_machine_word_is_the_largest() {
    let tokens = lex("1e99999999999999999999999999");
    match &tokens[0] {
        Token::LitInt(lit) => {
            assert_eq!(lit.as_str(), "1e99999999999999999999999999");
            assert_eq!(lit.exponent, Some(usize::MAX));
        },
        other => panic!("not an integer literal: {:?}", other),
    }
}

#[test]
fn numbers_are_matched_in_a_window() {
    let long = "1".repeat(600);
    let tokens = lex(&long);
    assert_eq!(tokens.len(), 1);
    match &tokens[0] {
        Token::LitInt(lit) => {
            assert_eq!(lit.as_str().len(), 500);
            assert_eq!(lit.suffix.as_ref().map(|s| s.as_str().len()), Some(100));
            assert_eq!(lit.suffix_range().map(|r| r.start.offset()), Some(500));
            assert_eq!(lit.range.end.offset(), 599);
        },
        other => panic!("not an integer literal: {:?}", other),
    }
    let mut spaced = "1".repeat(499);
    spaced.push_str("e5");
    let tokens = lex(&spaced);
    assert_eq!(tokens.len(), 1);
    match &tokens[0] {
        Token::LitInt(lit) => {
            assert_eq!(lit.as_str().len(), 499);
            assert_eq!(lit.exponent, None);
            assert_eq!(lit.suffix.as_ref().map(|s| s.as_str()), Some("e5"));
        },
        other => panic!("not an integer literal: {:?}", other),
    }
}

#[test]
fn numbers_far_into_the_source() {
    let mut source = " ".repeat(700);
    source.push_str("42");
    let tokens = lex(&source);
    assert_eq!(tokens.len(), 1);
    match &tokens[0] {
        Token::LitInt(lit) => {
            assert_eq!(lit.as_str(), "42");
            assert_eq!(lit.range.start.offset(), 700);
        },
        other => panic!("not an integer literal: {:?}", other),
    }
}

#[test]
fn boolean_is_taken_without_a_boundary() {
    let tokens = lex("truefoo");
    assert_eq!(tokens.len(), 2);
    match &tokens[0] {
        Token::LitBool(lit) => {
            assert!(lit.as_bool());
            assert!(lit.is_true());
            assert!(!lit.is_false());
            assert_eq!(lit.as_str(), "true");
            assert_eq!(lit.range, range((1, 1, 0), (1, 4, 3)));
            assert_eq!(lit.spacing, Spacing::Neither);
        },
        other => panic!("not a boolean literal: {:?}", other),
    }
    assert_eq!(tokens[1], Token::Ident(ident("foo", Spacing::Neither, 4)));
}

#[test]
fn boolean_false() {
    let tokens = lex("false falsey tru");
    assert_eq!(tokens.len(), 4);
    match &tokens[0] {
        Token::LitBool(lit) => {
            assert!(lit.is_false());
            assert_eq!(lit.as_str(), "false");
        },
        other => panic!("not a boolean literal: {:?}", other),
    }
    assert!(tokens[1].is_lit_bool());
    assert_eq!(tokens[2], Token::Ident(ident("y", Spacing::Trailing, 11)));
    assert_eq!(tokens[3], Token::Ident(ident("tru", Spacing::Leading, 13)));
}

#[test]
fn spacing_of_a_punctuator() {
    let tokens = lex("a+b");
    assert_eq!(tokens.len(), 3);
    assert!(tokens[1].spacing().is_none());
    assert_eq!(tokens[1].spacing(), Spacing::Neither);

    let tokens = lex("a + b");
    assert!(tokens[1].spacing().is_both());
    assert_eq!(tokens[0].spacing(), Spacing::Trailing);
    assert_eq!(tokens[2].spacing(), Spacing::Leading);

    let tokens = lex("a +b");
    assert!(tokens[1].spacing().is_leading());

    let tokens = lex("a+ b");
    assert!(tokens[1].spacing().is_trailing());
}

#[test]
fn spacing_looks_at_one_character_only() {
    let tokens = lex("a\n+\tb");
    assert_eq!(tokens[1].spacing(), Spacing::Both);
    let tokens = lex("+");
    assert_eq!(tokens[0].spacing(), Spacing::Neither);
}

#[test]
fn lines_and_columns() {
    let tokens = lex("ab\n  cd\r\n\n+");
    assert_eq!(tokens.len(), 3);
    assert_eq!(*tokens[0].range(), range((1, 1, 0), (1, 2, 1)));
    assert_eq!(*tokens[1].range(), range((2, 3, 5), (2, 4, 6)));
    assert_eq!(*tokens[2].range(), range((4, 1, 10), (4, 1, 10)));
    assert_eq!(tokens[2].range().start.line(), 4);
    assert_eq!(tokens[2].range().start.column(), 1);
    assert_eq!(tokens[2].range().start.file(), "source");
}

#[test]
fn string_over_several_lines() {
    let tokens = lex("\"a\nb\" c");
    assert_eq!(tokens.len(), 2);
    assert_eq!(*tokens[0].range(), range((1, 1, 0), (2, 2, 4)));
    assert_eq!(*tokens[1].range(), range((2, 4, 6), (2, 4, 6)));
}

#[test]
fn punctuator_is_any_other_character() {
    let tokens = lex("é(");
    assert_eq!(tokens.len(), 2);
    match &tokens[0] {
        Token::Punct(punct) => {
            assert_eq!(punct.as_char(), 'é');
            assert_eq!(punct.range, range((1, 1, 0), (1, 1, 0)));
        },
        other => panic!("not a punctuator: {:?}", other),
    }
    match &tokens[1] {
        Token::Punct(punct) => {
            assert_eq!(punct.as_char(), '(');
            assert_eq!(punct.range, range((1, 2, 1), (1, 2, 1)));
        },
        other => panic!("not a punctuator: {:?}", other),
    }
}

#[test]
fn kinds_in_priority_order() {
    let tokens = lex("x1 1x true 'c' \"s\" _y ?");
    assert!(tokens[0].is_ident());
    assert!(tokens[1].is_lit_int());
    assert!(tokens[2].is_lit_bool());
    assert!(tokens[3].is_lit_char());
    assert!(tokens[4].is_lit_str());
    assert!(tokens[5].is_ident());
    assert!(tokens[6].is_punct());
    assert!(!tokens[6].is_group());
    assert!(!tokens[6].is_lit_float());
    assert_eq!(tokens.len(), 7);
}

#[test]
fn lexing_twice_gives_the_same_tokens() {
    let mut lexer = Lexer::from_source("let x = 0x10 + \"s\";");
    let first = lexer.lex().unwrap();
    let second = lexer.lex().unwrap();
    assert_eq!(first, second);
    assert!(Arc::ptr_eq(&first, &second));
    assert_eq!(first.len(), 7);
}

#[test]
fn ranges_increase_and_cover_the_source() {
    let source = "fn  main ( ) {\n\tlet s = r\"a\\tb\" ; 'x' 0b11u8 -12e3 truex\n}\n";
    let chars: Vec<char> = source.chars().collect();
    let tokens = lex(source);
    let mut covered = vec![0usize; chars.len()];
    let mut previous_end: Option<usize> = None;
    for token in tokens.iter() {
        let start = token.range().start.offset();
        let end = token.range().end.offset();
        assert!(start <= end);
        assert!(end < chars.len());
        if let Some(previous) = previous_end {
            assert!(previous < start);
        }
        previous_end = Some(end);
        for k in start..=end {
            covered[k] += 1;
        }
    }
    for (k, c) in chars.iter().enumerate() {
        if !c.is_ascii_whitespace() {
            assert_eq!(covered[k], 1);
        } else {
            assert!(covered[k] <= 1);
        }
    }
}

#[test]
fn tokens_and_gaps_give_the_source_back() {
    let source = "  a+b  \"x y\"\n 'c' 12_3kg\ttrue ";
    let chars: Vec<char> = source.chars().collect();
    let tokens = lex(source);
    let mut rebuilt = String::new();
    let mut from = 0;
    for token in tokens.iter() {
        let start = token.range().start.offset();
        let end = token.range().end.offset();
        let gap: String = chars[from..start].iter().collect();
        assert!(gap.chars().all(|c| c.is_ascii_whitespace()));
        rebuilt.push_str(&gap);
        let slice: String = chars[start..=end].iter().collect();
        match token {
            Token::Ident(ident) => assert_eq!(ident.as_str(), slice),
            Token::Punct(punct) => assert_eq!(punct.as_char().to_string(), slice),
            Token::LitBool(lit) => assert_eq!(lit.as_str(), slice),
            Token::LitInt(lit) => {
                let suffix = lit.suffix.as_ref().map(|s| s.as_str()).unwrap_or("");
                assert_eq!(format!("{}{}", lit.as_str(), suffix), slice);
            },
            _ => {},
        }
        rebuilt.push_str(&slice);
        from = end + 1;
    }
    let tail: String = chars[from..].iter().collect();
    assert!(tail.chars().all(|c| c.is_ascii_whitespace()));
    rebuilt.push_str(&tail);
    assert_eq!(rebuilt, source);
}

#[test]
fn error_leaves_nothing_behind() {
    let mut lexer = Lexer::from_source("a 'bc");
    assert!(matches!(lexer.lex(), Err(LexError::UnterminatedCharLiteral(..))));
}

#[test]
fn recognizers_leave_the_cursor_where_nothing_is_found() {
    let mut lexer = Lexer::from_source("abc+");
    assert_eq!(lexer.lex_lit_int(), None);
    assert_eq!(lexer.lex_lit_bool(), None);
    assert_eq!(lexer.lex_lit_char(), Ok(None));
    assert_eq!(lexer.lex_lit_str(), Ok(None));
    assert_eq!(lexer.get_location(), loc(1, 1, 0));
    assert_eq!(lexer.lex_identifier(), Some(Token::Ident(ident("abc", Spacing::Neither, 0))));
    assert_eq!(lexer.get_location(), loc(1, 4, 3));
    assert_eq!(lexer.lex_identifier(), None);
    assert_eq!(lexer.peek(), Some('+'));
    assert_eq!(lexer.peek_n(1), None);
    assert_eq!(lexer.peek_next_n::<3>(), [Some('+'), None, None]);
    assert!(!lexer.is_eof());
    assert!(lexer.lex_punctuator().is_punct());
    assert!(lexer.is_eof());
    assert_eq!(lexer.next(), None);
    assert_eq!(lexer.advance(), None);
    assert_eq!(lexer.advance_n(2), None);
    assert_eq!(lexer.at(0), Some('a'));
    assert_eq!(lexer.at(4), None);
}

#[test]
fn cursor_moves() {
    let mut lexer = Lexer::from_source(" \n ab");
    lexer.skip_whitespace();
    assert_eq!(lexer.get_location(), loc(2, 2, 3));
    assert_eq!(lexer.next(), Some(('a', loc(2, 2, 3))));
    assert_eq!(lexer.advance(), Some(loc(2, 3, 4)));
    assert!(lexer.is_eof());

    let mut lexer = Lexer::from_source("a\nbcd");
    assert_eq!(lexer.advance_n(3), Some(loc(2, 1, 2)));
    assert_eq!(lexer.advance_n(0), None);
    assert_eq!(lexer.get_location(), loc(2, 2, 3));
    assert_eq!(lexer.advance_n(5), None);
    assert!(lexer.is_eof());
}

#[test]
fn pattern_matches_under_the_cursor() {
    let mut lexer = Lexer::from_source("abc123 x");
    let (range, captures) = lexer.lex_by_regex("^[a-z]+(?<digits>[0-9]+)?", None).unwrap();
    assert_eq!(range, self::range((1, 1, 0), (1, 6, 5)));
    assert_eq!(captures.whole(), "abc123");
    assert_eq!(captures.name("digits"), Some(&"123".to_string()));
    assert_eq!(captures.name("other"), None);
    assert_eq!(lexer.get_location(), loc(1, 7, 6));
    assert_eq!(lexer.lex_by_regex("^[a-z]+", None), None);
    assert_eq!(lexer.get_location(), loc(1, 7, 6));
    assert_eq!(lexer.lex_by_regex("^(", None), None);
    assert_eq!(lexer.lex_by_regex("^ *", Some(0)), None);
    let (range, _) = lexer.lex_by_regex("^ *", Some(1)).unwrap();
    assert_eq!(range, self::range((1, 7, 6), (1, 7, 6)));
    assert_eq!(
        lexer.lex_by_regex("^x", Some(1)).map(|found| found.0),
        Some(self::range((1, 8, 7), (1, 8, 7)))
    );
    assert_eq!(lexer.lex_by_regex("^x", None), None);
}

#[test]
fn pattern_matches_at_the_cursor_only() {
    let mut lexer = Lexer::from_source("ab");
    assert_eq!(lexer.lex_by_regex("^b", None), None);
    assert_eq!(lexer.lex_by_regex("^a|b", None).map(|found| found.1.whole()), Some("a".to_string()));
    assert_eq!(lexer.lex_by_regex("^a|b", None).map(|found| found.1.whole()), Some("b".to_string()));
    assert!(lexer.is_eof());
}

#[test]
fn value_of_a_literal_built_by_hand() {
    let lit = LitInt {
        range: range((1, 1, 0), (1, 6, 5)),
        spacing: Spacing::Neither,
        sign: Sign::Negative,
        radix: Radix::Decimal,
        value: "-12e03".to_string(),
        exponent: Some(3),
        suffix: None,
    };
    assert_eq!(lit.to_int(), Ok(BigInt::from(-12000)));

    let lit = LitInt { value: "0b".to_string(), radix: Radix::Binary, exponent: None, ..lit };
    assert_eq!(lit.to_int(), Err(NumberError::Malformed));

    let lit = LitInt { value: "0b_1".to_string(), ..lit };
    assert_eq!(lit.to_int(), Err(NumberError::Malformed));

    let lit = LitInt { value: "12".to_string(), radix: Radix::Octal, ..lit };
    assert_eq!(lit.to_int(), Err(NumberError::Malformed));

    let lit = LitInt { value: "0o12".to_string(), radix: Radix::Octal, exponent: Some(1), ..lit };
    assert_eq!(lit.to_int(), Ok(BigInt::from(-100)));
}

#[test]
fn value_with_an_exponent_that_is_too_large() {
    if usize::BITS > 32 {
        let lit = LitInt {
            range: range((1, 1, 0), (1, 1, 0)),
            spacing: Spacing::Neither,
            sign: Sign::Positive,
            radix: Radix::Decimal,
            value: "1".to_string(),
            exponent: Some(u32::MAX as usize + 1),
            suffix: None,
        };
        assert_eq!(lit.to_int(), Err(NumberError::ExponentTooLarge));
    }
}

#[test]
fn scale_applies_sign_and_exponent() {
    assert_eq!(LitInt::scale(BigInt::from(7), Sign::Negative, Some(2)), Ok(BigInt::from(-700)));
    assert_eq!(LitInt::scale(BigInt::from(7), Sign::Positive, None), Ok(BigInt::from(7)));
    assert_eq!(LitInt::scale(BigInt::from(7), Sign::Positive, Some(0)), Ok(BigInt::from(7)));
    let big = LitInt::scale(BigInt::from(1), Sign::Positive, Some(30)).unwrap();
    assert_eq!(big.to_string(), "1000000000000000000000000000000");
}

#[test]
fn value_of_a_float_literal() {
    let lit = LitFloat {
        range: range((1, 1, 0), (1, 3, 2)),
        spacing: Spacing::Neither,
        sign: Sign::Positive,
        value: "3/6".to_string(),
        suffix: None,
    };
    assert_eq!(lit.as_str(), "3/6");
    assert!(lit.is_positive());
    assert!(!lit.is_negative());
    assert_eq!(lit.suffix_range(), None);
    let half = num::BigRational::new(BigInt::from(1), BigInt::from(2));
    assert_eq!(lit.to_float(), Ok(half));
    let lit = LitFloat { value: "1.5".to_string(), ..lit };
    assert_eq!(lit.to_float(), Err(NumberError::Malformed));
}

#[test]
fn group_accessors() {
    let inner = vec![
        Token::Ident(ident("a", Spacing::Neither, 1)),
        Token::Punct(Punct {
            range: range((1, 3, 2), (1, 3, 2)),
            spacing: Spacing::Neither,
            punctuator: ',',
        }),
        Token::LitBool(LitBool {
            range: range((1, 4, 3), (1, 7, 6)),
            spacing: Spacing::Neither,
            value: true,
        }),
    ];
    let group = Group {
        range: range((1, 1, 0), (1, 8, 7)),
        spacing: Spacing::Neither,
        delimiter: Delimiter::Brackets,
        tokens: inner.clone(),
    };
    assert_eq!(*group.open_location(), loc(1, 1, 0));
    assert_eq!(*group.close_location(), loc(1, 8, 7));
    assert_eq!(group.inner_range(), Some(range((1, 2, 1), (1, 7, 6))));
    assert!(!group.is_empty());
    assert_eq!(group.as_slice(), &inner[..]);
    assert!(group.is_by_brackets());
    assert!(!group.is_by_parentheses());
    assert!(!group.is_by_braces());
    let copy = Token::Group(group).clone();
    assert!(copy.is_group());
    assert_eq!(*copy.range(), range((1, 1, 0), (1, 8, 7)));

    let empty = Group {
        range: range((1, 1, 0), (1, 2, 1)),
        spacing: Spacing::Both,
        delimiter: Delimiter::Braces,
        tokens: vec![],
    };
    assert_eq!(empty.inner_range(), None);
    assert!(empty.is_empty());
    assert!(empty.is_by_braces());
    assert_eq!(Token::Group(empty).spacing(), Spacing::Both);
}

fn captures(names: &[Option<&str>], groups: &[Option<&str>]) -> Captures {
    Captures {
        names: names.iter().map(|n| n.map(|s| s.to_string())).collect(),
        groups: groups.iter().map(|g| g.map(|s| s.to_string())).collect(),
    }
}

#[test]
fn match_is_taken_where_it_starts_the_window() {
    let mut lexer = Lexer::from_source("abc");
    let (range, taken) = lexer.take_match(500, captures(&[None], &[Some("ab")])).unwrap();
    assert_eq!(range, self::range((1, 1, 0), (1, 2, 1)));
    assert_eq!(taken, captures(&[None], &[Some("ab")]));
    assert_eq!(lexer.get_location(), loc(1, 3, 2));
    let (range, _) = lexer.take_match(1, captures(&[None], &[Some("c")])).unwrap();
    assert_eq!(range, self::range((1, 3, 2), (1, 3, 2)));
    assert!(lexer.is_eof());
}

#[test]
fn match_is_left_where_it_does_not_start_the_window() {
    let mut lexer = Lexer::from_source("abc");
    assert_eq!(lexer.take_match(500, captures(&[], &[])), None);
    assert_eq!(lexer.take_match(500, captures(&[None], &[None])), None);
    assert_eq!(lexer.take_match(500, captures(&[None], &[Some("")])), None);
    assert_eq!(lexer.take_match(500, captures(&[None], &[Some("bc")])), None);
    assert_eq!(lexer.take_match(500, captures(&[None], &[Some("abcd")])), None);
    assert_eq!(lexer.take_match(2, captures(&[None], &[Some("abc")])), None);
    assert_eq!(lexer.take_match(0, captures(&[None], &[Some("a")])), None);
    assert_eq!(lexer.get_location(), loc(1, 1, 0));
    assert!(lexer.take_match(3, captures(&[None], &[Some("abc")])).is_some());
    assert_eq!(lexer.take_match(500, captures(&[None], &[Some("a")])), None);
}

#[test]
fn integer_token_of_a_match() {
    let mut lexer = Lexer::from_source("-1e05kg +");
    let found = captures(&[None, Some("exp")], &[Some("-1e05"), Some("05")]);
    let (range, found) = lexer.take_match(500, found).unwrap();
    match lexer.int_token(Radix::Decimal, range, &found) {
        Token::LitInt(lit) => {
            assert_eq!(lit.as_str(), "-1e05");
            assert_eq!(lit.sign, Sign::Negative);
            assert_eq!(lit.radix, Radix::Decimal);
            assert_eq!(lit.exponent, Some(5));
            assert_eq!(lit.suffix, Some(ident("kg", Spacing::Trailing, 5)));
            assert_eq!(lit.range, self::range((1, 1, 0), (1, 7, 6)));
            assert_eq!(lit.spacing, Spacing::Trailing);
            assert_eq!(lit.to_int(), Ok(BigInt::from(-100000)));
        },
        other => panic!("not an integer literal: {:?}", other),
    }
    assert_eq!(lexer.get_location(), loc(1, 8, 7));
}

#[test]
fn integer_token_reads_the_exponent_of_a_decimal_only() {
    let mut lexer = Lexer::from_source("0x1e5 ");
    let found = captures(&[None, Some("exp")], &[Some("0x1e5"), Some("5")]);
    let (range, found) = lexer.take_match(500, found).unwrap();
    match lexer.int_token(Radix::Hexadecimal, range, &found) {
        Token::LitInt(lit) => {
            assert_eq!(lit.exponent, None);
            assert_eq!(lit.suffix, None);
            assert_eq!(lit.sign, Sign::Positive);
            assert_eq!(lit.range, self::range((1, 1, 0), (1, 5, 4)));
            assert_eq!(lit.to_int(), Ok(BigInt::from(0x1e5)));
        },
        other => panic!("not an integer literal: {:?}", other),
    }

    let mut lexer = Lexer::from_source("12");
    let found = captures(&[None, Some("exp")], &[Some("12"), None]);
    let (range, found) = lexer.take_match(500, found).unwrap();
    match lexer.int_token(Radix::Decimal, range, &found) {
        Token::LitInt(lit) => {
            assert_eq!(lit.exponent, None);
            assert_eq!(lit.spacing, Spacing::Neither);
        },
        other => panic!("not an integer literal: {:?}", other),
    }
}

#[test]
fn captured_groups_by_name() {
    let found = captures(&[None, Some("a"), None, Some("b")], &[Some("xyz"), Some("x"), Some("y")]);
    assert_eq!(found.whole(), "xyz");
    assert_eq!(found.name("a"), Some(&"x".to_string()));
    assert_eq!(found.name("b"), None);
    assert_eq!(found.name("c"), None);
    assert_eq!(captures(&[], &[]).whole(), "");
    assert_eq!(captures(&[None], &[None]).whole(), "");
    let repeated = captures(&[Some("a"), Some("a")], &[None, Some("x")]);
    assert_eq!(repeated.name("a"), None);
}
