//! The parser: one test per grammar production and failure mode, with
//! exact expected trees and spans.

use cmdparse::ast::{
    Expr, ExprMap, ExprMapField, ExprRange, ExprTarget, ExprUrnary, Function, Ident, Lit, LitBool,
    LitInt, LitString, Stmt, StmtCommand, StmtComment, Table, TableField, UnOp,
};
use cmdparse::parser::{ParseError, ParseResult};
use cmdparse::span::{Span, Spanned};
use cmdparse::token::{Kind, LexErrorItem, Token, TokenIter};

fn parse(src: &[u8]) -> ParseResult<Function> {
    let mut tokens = TokenIter::new(src.to_vec());
    Function::parse(&mut tokens)
}

fn parse_expr(src: &[u8]) -> ParseResult<Expr> {
    let mut tokens = TokenIter::new(src.to_vec());
    Expr::parse(&mut tokens)
}

#[test]
fn test_parser() {
    let src = b"/tp @e[type=\"zombie\",limit=1] 0..10";
    let result = parse(src).expect("parse");
    assert_eq!(result.statements.len(), 1);
    match &result.statements[0] {
        Stmt::Command(c) => {
            assert_eq!(c.ident.value, b"tp".to_vec());
            assert!(c.slash.is_some());
            assert_eq!(c.arguments.as_ref().expect("arguments").len(), 2);
        }
        Stmt::Comment(_) => panic!("expected a command"),
    }
}

#[test]
fn parse_empty_input_is_empty_program() {
    let result = parse(b"").expect("parse");
    assert_eq!(result, Function::new(vec![]));
    assert_eq!(result.span(), Span::new(0, 0));
}

#[test]
fn parse_line_comment() {
    let result = parse(b"# hello").expect("parse");
    assert_eq!(
        result,
        Function::new(vec![Stmt::Comment(StmtComment::new(
            b"hello".to_vec(),
            Span::new(0, 7)
        ))])
    );
}

#[test]
fn parse_slash_command_without_arguments() {
    let result = parse(b"/kill").expect("parse");
    assert_eq!(
        result,
        Function::new(vec![Stmt::Command(StmtCommand::new(
            Some(Token::new(Kind::Slash, Span::new(0, 1))),
            Ident::new(b"kill".to_vec(), Span::new(1, 5)),
            None,
        ))])
    );
}

#[test]
fn parse_command_with_integer_arguments() {
    let result = parse(b"/fill 1 2").expect("parse");
    assert_eq!(
        result,
        Function::new(vec![Stmt::Command(StmtCommand::new(
            Some(Token::new(Kind::Slash, Span::new(0, 1))),
            Ident::new(b"fill".to_vec(), Span::new(1, 5)),
            Some(vec![
                Expr::Lit(Lit::Int(LitInt::new(1, Span::new(6, 7)))),
                Expr::Lit(Lit::Int(LitInt::new(2, Span::new(8, 9)))),
            ]),
        ))])
    );
}

#[test]
fn parse_command_without_slash() {
    let result = parse(b"say 1").expect("parse");
    assert_eq!(
        result,
        Function::new(vec![Stmt::Command(StmtCommand::new(
            None,
            Ident::new(b"say".to_vec(), Span::new(0, 3)),
            Some(vec![Expr::Lit(Lit::Int(LitInt::new(1, Span::new(4, 5))))]),
        ))])
    );
}

#[test]
fn parse_standalone_range_expression() {
    let result = parse_expr(b"0..10").expect("parse");
    assert_eq!(
        result,
        Expr::Range(ExprRange::new(
            Some(LitInt::new(0, Span::new(0, 1))),
            Token::new(Kind::Limit, Span::new(1, 3)),
            Some(LitInt::new(10, Span::new(3, 5))),
        ))
    );
    assert_eq!(result.span(), Span::new(0, 5));
}

#[test]
fn parse_range_without_lower_bound() {
    let result = parse_expr(b"..10 x").expect("parse");
    assert_eq!(
        result,
        Expr::Range(ExprRange::new(
            None,
            Token::new(Kind::Limit, Span::new(0, 2)),
            Some(LitInt::new(10, Span::new(2, 4))),
        ))
    );
}

#[test]
fn parse_target_with_parameter_table() {
    let result = parse_expr(b"@e[type=\"zombie\",limit=1]").expect("parse");
    let expected = Expr::Target(ExprTarget {
        select: Token::new(Kind::Selector, Span::new(0, 1)),
        target: Ident::new(b"e".to_vec(), Span::new(1, 2)),
        params: Some(Table::new(
            (
                Token::new(Kind::LeftBracket, Span::new(2, 3)),
                Token::new(Kind::RightBracket, Span::new(24, 25)),
            ),
            vec![
                TableField::new(
                    Ident::new(b"type".to_vec(), Span::new(3, 7)),
                    Token::new(Kind::Assign, Span::new(7, 8)),
                    Some(Expr::Lit(Lit::String(LitString::new(
                        b"zombie".to_vec(),
                        Span::new(8, 16),
                    )))),
                    Some(Token::new(Kind::Comma, Span::new(16, 17))),
                ),
                TableField::new(
                    Ident::new(b"limit".to_vec(), Span::new(17, 22)),
                    Token::new(Kind::Assign, Span::new(22, 23)),
                    Some(Expr::Lit(Lit::Int(LitInt::new(1, Span::new(23, 24))))),
                    None,
                ),
            ],
        )),
    });
    assert_eq!(result, expected);
    assert_eq!(result.span(), Span::new(0, 25));
}

#[test]
fn parse_target_without_parameters() {
    let result = parse_expr(b"@p x").expect("parse");
    assert_eq!(
        result,
        Expr::Target(ExprTarget {
            select: Token::new(Kind::Selector, Span::new(0, 1)),
            target: Ident::new(b"p".to_vec(), Span::new(1, 2)),
            params: None,
        })
    );
}

#[test]
fn parse_table_bare_negation_flag() {
    let result = parse_expr(b"@e[a=!]").expect("parse");
    let expected = Expr::Target(ExprTarget {
        select: Token::new(Kind::Selector, Span::new(0, 1)),
        target: Ident::new(b"e".to_vec(), Span::new(1, 2)),
        params: Some(Table::new(
            (
                Token::new(Kind::LeftBracket, Span::new(2, 3)),
                Token::new(Kind::RightBracket, Span::new(6, 7)),
            ),
            vec![TableField::new(
                Ident::new(b"a".to_vec(), Span::new(3, 4)),
                Token::new(Kind::Assign, Span::new(4, 5)),
                Some(Expr::Urnary(ExprUrnary::new(
                    UnOp::Not(Token::new(Kind::Not, Span::new(5, 6))),
                    None,
                ))),
                None,
            )],
        )),
    });
    assert_eq!(result, expected);
}

#[test]
fn parse_table_negated_expression_value() {
    let result = parse_expr(b"@e[a=!,b=!5]").expect("parse");
    let expected = Expr::Target(ExprTarget {
        select: Token::new(Kind::Selector, Span::new(0, 1)),
        target: Ident::new(b"e".to_vec(), Span::new(1, 2)),
        params: Some(Table::new(
            (
                Token::new(Kind::LeftBracket, Span::new(2, 3)),
                Token::new(Kind::RightBracket, Span::new(11, 12)),
            ),
            vec![
                TableField::new(
                    Ident::new(b"a".to_vec(), Span::new(3, 4)),
                    Token::new(Kind::Assign, Span::new(4, 5)),
                    Some(Expr::Urnary(ExprUrnary::new(
                        UnOp::Not(Token::new(Kind::Not, Span::new(5, 6))),
                        None,
                    ))),
                    Some(Token::new(Kind::Comma, Span::new(6, 7))),
                ),
                TableField::new(
                    Ident::new(b"b".to_vec(), Span::new(7, 8)),
                    Token::new(Kind::Assign, Span::new(8, 9)),
                    Some(Expr::Urnary(ExprUrnary::new(
                        UnOp::Not(Token::new(Kind::Not, Span::new(9, 10))),
                        Some(Box::new(Expr::Lit(Lit::Int(LitInt::new(
                            5,
                            Span::new(10, 11),
                        ))))),
                    ))),
                    None,
                ),
            ],
        )),
    });
    assert_eq!(result, expected);
}

#[test]
fn parse_table_flag_field_without_value() {
    let result = parse_expr(b"@e[a=,b=1]").expect("parse");
    let expected = Expr::Target(ExprTarget {
        select: Token::new(Kind::Selector, Span::new(0, 1)),
        target: Ident::new(b"e".to_vec(), Span::new(1, 2)),
        params: Some(Table::new(
            (
                Token::new(Kind::LeftBracket, Span::new(2, 3)),
                Token::new(Kind::RightBracket, Span::new(9, 10)),
            ),
            vec![
                TableField::new(
                    Ident::new(b"a".to_vec(), Span::new(3, 4)),
                    Token::new(Kind::Assign, Span::new(4, 5)),
                    None,
                    Some(Token::new(Kind::Comma, Span::new(5, 6))),
                ),
                TableField::new(
                    Ident::new(b"b".to_vec(), Span::new(6, 7)),
                    Token::new(Kind::Assign, Span::new(7, 8)),
                    Some(Expr::Lit(Lit::Int(LitInt::new(1, Span::new(8, 9))))),
                    None,
                ),
            ],
        )),
    });
    assert_eq!(result, expected);
}

#[test]
fn parse_table_flag_before_closing_bracket() {
    let result = parse_expr(b"@e[a=]").expect("parse");
    let expected = Expr::Target(ExprTarget {
        select: Token::new(Kind::Selector, Span::new(0, 1)),
        target: Ident::new(b"e".to_vec(), Span::new(1, 2)),
        params: Some(Table::new(
            (
                Token::new(Kind::LeftBracket, Span::new(2, 3)),
                Token::new(Kind::RightBracket, Span::new(5, 6)),
            ),
            vec![TableField::new(
                Ident::new(b"a".to_vec(), Span::new(3, 4)),
                Token::new(Kind::Assign, Span::new(4, 5)),
                None,
                None,
            )],
        )),
    });
    assert_eq!(result, expected);
}

#[test]
fn parse_inline_map() {
    let result = parse_expr(b"{\"a\":1}").expect("parse");
    let expected = Expr::Mapping(ExprMap {
        curly_open: Token::new(Kind::LeftBrace, Span::new(0, 1)),
        curly_close: Token::new(Kind::RightBrace, Span::new(6, 7)),
        fields: vec![ExprMapField::new(
            LitString::new(b"a".to_vec(), Span::new(1, 4)),
            Token::new(Kind::Colon, Span::new(4, 5)),
            Expr::Lit(Lit::Int(LitInt::new(1, Span::new(5, 6)))),
            None,
        )],
    });
    assert_eq!(result, expected);
    assert_eq!(result.span(), Span::new(0, 7));
}

#[test]
fn parse_prefix_operations() {
    assert_eq!(
        parse_expr(b"!true").expect("parse"),
        Expr::Urnary(ExprUrnary::new(
            UnOp::Not(Token::new(Kind::Not, Span::new(0, 1))),
            Some(Box::new(Expr::Lit(Lit::Bool(LitBool::new(
                true,
                Span::new(1, 5)
            ))))),
        ))
    );
    assert_eq!(
        parse_expr(b"~1").expect("parse"),
        Expr::Urnary(ExprUrnary::new(
            UnOp::LocalCoordinate(Token::new(Kind::LocalCoordinate, Span::new(0, 1))),
            Some(Box::new(Expr::Lit(Lit::Int(LitInt::new(
                1,
                Span::new(1, 2)
            ))))),
        ))
    );
}

#[test]
fn parse_dangling_operator_is_unexpected_end() {
    assert_eq!(parse(b"/cmd !"), Err(ParseError::Eof));
}

#[test]
fn parse_unrecognized_character_is_lex_failure() {
    match parse(b"/cmd ?") {
        Err(ParseError::LexError(e)) => {
            assert_eq!(e.err, LexErrorItem::Unknown);
            assert_eq!(e.span, Span::new(5, 6));
        }
        other => panic!("expected a lexical failure, got {:?}", other),
    }
}

#[test]
fn parse_bare_identifier_argument_is_invalid_token() {
    match parse(b"/tp here") {
        Err(ParseError::InvalidToken(t)) => {
            assert_eq!(t, Token::new(Kind::Ident(b"here".to_vec()), Span::new(4, 8)));
        }
        other => panic!("expected an invalid token, got {:?}", other),
    }
}

#[test]
fn parse_is_deterministic_on_equal_text() {
    let src = b"/tp @e[limit=1] 0..10";
    assert_eq!(parse(src), parse(src));
    let bad = b"/cmd !";
    assert_eq!(parse(bad), parse(bad));
}

#[test]
fn parse_spans_compose_from_children() {
    let result = parse(b"/fill 1 2").expect("parse");
    assert_eq!(result.span(), Span::new(0, 9));
    match &result.statements[0] {
        Stmt::Command(c) => {
            assert_eq!(c.span(), Span::new(0, 9));
            let args = c.arguments.as_ref().expect("arguments");
            assert_eq!(args[0].span(), Span::new(6, 7));
            assert_eq!(args[1].span(), Span::new(8, 9));
        }
        Stmt::Comment(_) => panic!("expected a command"),
    }
}

#[test]
fn parse_float_and_path_arguments() {
    let result = parse(b"/place stone/top 1.5").expect("parse");
    match &result.statements[0] {
        Stmt::Command(c) => {
            let args = c.arguments.as_ref().expect("arguments");
            assert_eq!(args.len(), 2);
            match &args[0] {
                Expr::Lit(Lit::Path(p)) => assert_eq!(p.value, b"stone/top".to_vec()),
                other => panic!("expected a path, got {:?}", other),
            }
            match &args[1] {
                Expr::Lit(Lit::Float(f)) => assert_eq!(f.text, b"1.5".to_vec()),
                other => panic!("expected a float, got {:?}", other),
            }
        }
        Stmt::Comment(_) => panic!("expected a command"),
    }
}

#[test]
fn span_from_byte_range() {
    let s = cmdparse::span::Span::from(3..7);
    assert_eq!(s, Span::new(3, 7));
}

#[test]
fn command_parser_owns_its_stream() {
    let mut p = cmdparse::parser::CommandParser::new(b"/kill".to_vec());
    let result = Function::parse(&mut p.tokens).expect("parse");
    assert_eq!(result.statements.len(), 1);
}

#[test]
fn tokens_report_their_spans() {
    let t = Token::new(Kind::Not, Span::new(2, 3));
    assert_eq!(t.span(), Span::new(2, 3));
    let u = cmdparse::ast::UnOp::Not(t);
    assert_eq!(u.span(), Span::new(2, 3));
}

#[test]
fn parse_newline_is_no_statement_separator() {
    // a newline is an explicit token, and no grammar alternative accepts it
    match parse(b"# a\n# b") {
        Err(ParseError::InvalidToken(t)) => {
            assert_eq!(t, Token::new(Kind::LineBreak, Span::new(3, 4)));
        }
        other => panic!("expected an invalid token, got {:?}", other),
    }
}

#[test]
fn parse_range_needs_a_token_after_open_end() {
    // an absent upper bound is read by peeking; exhausted input there fails
    assert_eq!(parse_expr(b"0.."), Err(ParseError::Eof));
}
