//! The lexer: token kinds, spans, literal decoding, and lexical failures.

use cmdparse::span::Span;
use cmdparse::token::{Kind, LexError, LexErrorItem, Token, TokenIter};

fn lex_all(src: &[u8]) -> Vec<Result<Token, LexError>> {
    let mut it = TokenIter::new(src.to_vec());
    let mut out = Vec::new();
    loop {
        match it.next() {
            None => break,
            Some(item) => out.push(item),
        }
    }
    out
}

fn kinds(src: &[u8]) -> Vec<Kind> {
    lex_all(src).into_iter().map(|r| r.expect("token").kind).collect()
}

#[test]
fn command_lex_test() {
    let src = b"/tp @e[type=\"zombie\",limit=1] 0..10 1.5 true foo/bar\n# note";
    for item in lex_all(src) {
        match item {
            Ok(_) => {}
            Err(e) => panic!("Invalid Token: {:?}", e),
        }
    }
}

#[test]
fn lex_slash_and_ident() {
    let toks = lex_all(b"/kill");
    assert_eq!(
        toks,
        vec![
            Ok(Token::new(Kind::Slash, Span::new(0, 1))),
            Ok(Token::new(Kind::Ident(b"kill".to_vec()), Span::new(1, 5))),
        ]
    );
}

#[test]
fn lex_integers() {
    assert_eq!(
        kinds(b"12 -5 0 2147483647 -2147483648"),
        vec![
            Kind::Int(12),
            Kind::Int(-5),
            Kind::Int(0),
            Kind::Int(2147483647),
            Kind::Int(-2147483648),
        ]
    );
}

#[test]
fn lex_integer_overflow_is_invalid_int() {
    let toks = lex_all(b"2147483648");
    assert_eq!(
        toks,
        vec![Err(LexError::new(LexErrorItem::InvalidInt, Span::new(0, 10)))]
    );
    let toks = lex_all(b"-2147483649");
    assert_eq!(
        toks,
        vec![Err(LexError::new(LexErrorItem::InvalidInt, Span::new(0, 11)))]
    );
}

#[test]
fn lex_leading_zeros_decode() {
    assert_eq!(kinds(b"007 -00"), vec![Kind::Int(7), Kind::Int(0)]);
}

#[test]
fn lex_floats_keep_their_text() {
    assert_eq!(
        kinds(b"1.5 -.5 .25"),
        vec![
            Kind::Float(b"1.5".to_vec()),
            Kind::Float(b"-.5".to_vec()),
            Kind::Float(b".25".to_vec()),
        ]
    );
}

#[test]
fn lex_words_booleans_and_paths() {
    assert_eq!(
        kinds(b"true false truex a.b foo/bar a:b/c"),
        vec![
            Kind::Bool(true),
            Kind::Bool(false),
            Kind::Ident(b"truex".to_vec()),
            Kind::Ident(b"a.b".to_vec()),
            Kind::Path(b"foo/bar".to_vec()),
            Kind::Path(b"a:b/c".to_vec()),
        ]
    );
}

#[test]
fn lex_number_takes_precedence_over_word() {
    // a range between integers lexes as int, limit, int, never as one word
    assert_eq!(
        kinds(b"0..10"),
        vec![Kind::Int(0), Kind::Limit, Kind::Int(10)]
    );
}

#[test]
fn lex_comment_strips_hashes_and_whitespace() {
    let toks = lex_all(b"##  hello  ");
    assert_eq!(
        toks,
        vec![Ok(Token::new(
            Kind::Comment(b"hello".to_vec()),
            Span::new(0, 11)
        ))]
    );
}

#[test]
fn lex_comment_runs_to_newline() {
    assert_eq!(
        kinds(b"# a b\n"),
        vec![Kind::Comment(b"a b".to_vec()), Kind::LineBreak]
    );
}

#[test]
fn lex_string_literal() {
    let toks = lex_all(b"\"abc\"");
    assert_eq!(
        toks,
        vec![Ok(Token::new(
            Kind::String(b"abc".to_vec()),
            Span::new(0, 5)
        ))]
    );
}

#[test]
fn lex_empty_or_unclosed_string_fails() {
    assert_eq!(
        lex_all(b"\"\""),
        vec![
            Err(LexError::new(LexErrorItem::Unknown, Span::new(0, 1))),
            Err(LexError::new(LexErrorItem::Unknown, Span::new(1, 2))),
        ]
    );
    assert_eq!(
        lex_all(b"\"abc"),
        vec![
            Err(LexError::new(LexErrorItem::Unknown, Span::new(0, 1))),
            Ok(Token::new(Kind::Ident(b"abc".to_vec()), Span::new(1, 4))),
        ]
    );
}

#[test]
fn lex_punctuation() {
    assert_eq!(
        kinds(b"{ } [ ] @ , - ! .. = <> += -= *= /= > < * ~ ^ :\n"),
        vec![
            Kind::LeftBrace,
            Kind::RightBrace,
            Kind::LeftBracket,
            Kind::RightBracket,
            Kind::Selector,
            Kind::Comma,
            Kind::Neg,
            Kind::Not,
            Kind::Limit,
            Kind::Assign,
            Kind::Equal,
            Kind::AddAssign,
            Kind::SubAssign,
            Kind::MulAssign,
            Kind::DivAssign,
            Kind::Gt,
            Kind::Lt,
            Kind::Wildcard,
            Kind::LocalCoordinate,
            Kind::RelativeCoordinate,
            Kind::Colon,
            Kind::LineBreak,
        ]
    );
}

#[test]
fn lex_unrecognized_character_fails() {
    assert_eq!(
        lex_all(b"+"),
        vec![Err(LexError::new(LexErrorItem::Unknown, Span::new(0, 1)))]
    );
    assert_eq!(
        lex_all(b"?"),
        vec![Err(LexError::new(LexErrorItem::Unknown, Span::new(0, 1)))]
    );
}

#[test]
fn lex_format_selection_spans_its_character() {
    // the section sign is two bytes; the selected character follows it
    let src = vec![0xc2u8, 0xa7, b'a'];
    let toks = lex_all(&src);
    assert_eq!(
        toks,
        vec![Ok(Token::new(Kind::FormatSelection, Span::new(0, 3)))]
    );
}

#[test]
fn lex_peek_does_not_consume() {
    let mut it = TokenIter::new(b"/kill".to_vec());
    let peeked = it.peek();
    let peeked_again = it.peek();
    assert_eq!(peeked, peeked_again);
    let pulled = it.next();
    assert_eq!(peeked, pulled);
    assert_eq!(
        pulled,
        Some(Ok(Token::new(Kind::Slash, Span::new(0, 1))))
    );
    let second = it.peek_second();
    assert_eq!(second, None);
    assert_eq!(
        it.next(),
        Some(Ok(Token::new(Kind::Ident(b"kill".to_vec()), Span::new(1, 5))))
    );
    assert_eq!(it.next(), None);
    assert_eq!(it.next(), None);
}

#[test]
fn lex_whitespace_carries_no_token() {
    assert_eq!(kinds(b" \t\r"), Vec::<Kind>::new());
    let toks = lex_all(b"  7 ");
    assert_eq!(toks, vec![Ok(Token::new(Kind::Int(7), Span::new(2, 3)))]);
}

#[test]
fn lex_minus_forms() {
    assert_eq!(kinds(b"-5"), vec![Kind::Int(-5)]);
    assert_eq!(kinds(b"- 5"), vec![Kind::Neg, Kind::Int(5)]);
    assert_eq!(kinds(b"-="), vec![Kind::SubAssign]);
}

#[test]
fn lex_adjacent_floats_split_at_second_point() {
    assert_eq!(
        kinds(b"1.2.3"),
        vec![Kind::Float(b"1.2".to_vec()), Kind::Float(b".3".to_vec())]
    );
}

#[test]
fn lex_word_may_contain_points() {
    assert_eq!(kinds(b"a..b"), vec![Kind::Ident(b"a..b".to_vec())]);
}

#[test]
fn lex_bare_hash_fails() {
    assert_eq!(
        lex_all(b"#"),
        vec![Err(LexError::new(LexErrorItem::Unknown, Span::new(0, 1)))]
    );
}

#[test]
fn lex_section_sign_without_character_fails() {
    let src = vec![0xc2u8, 0xa7];
    assert_eq!(
        lex_all(&src),
        vec![Err(LexError::new(LexErrorItem::Unknown, Span::new(0, 2)))]
    );
}
