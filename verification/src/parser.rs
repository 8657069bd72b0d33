//! The parser.
//!
//! Recursive descent with single-token lookahead (one extra token only to
//! tell an integer literal from a range's lower bound). The grammar is
//! written down once, as the `sp_*` specification functions: a mathematical
//! recursive-descent parser over [`token_at`], returning the node's mirror
//! and the position where the scan continues, or the failure that stops the
//! whole parse. Each executable `parse` procedure is verified to return
//! exactly what its `sp_*` function prescribes, so parsing is deterministic,
//! every failure is accounted for, and every span of a returned tree lies
//! inside the source.

use vstd::prelude::*;

use crate::ast::{
    Expr, ExprMap, ExprMapField, ExprMapFieldV, ExprMapV, ExprRange, ExprRangeV, ExprTarget,
    ExprTargetV, ExprUrnary, ExprUrnaryV, ExprV, Function, FunctionV, Ident, IdentV, Lit, LitBool,
    LitFloat, LitFloatV, LitInt, LitPath, LitPathV, LitString, LitStringV, LitV, Stmt,
    StmtCommand, StmtCommandV, StmtComment, StmtCommentV, StmtV, Table, TableField, TableFieldV,
    TableV, UnOp, UnOpV,
};
use crate::span::Span;
use crate::token::{token_at, Kind, KindV, LexError, LexErrorItem, LexStep, Token, TokenIter, TokenV};

verus! {

// ---------------------------------------------------------------------------
// The failure model
// ---------------------------------------------------------------------------

/// Why a parse stopped: a lexical failure, a token no grammar alternative
/// accepts, or input that ended where a token was required.
#[derive(Debug, Clone, PartialEq)]
pub enum ParseError {
    LexError(LexError),
    InvalidToken(Token),
    Eof,
}

/// The mathematical image of a [`ParseError`].
pub enum ParseErrorV {
    LexError(LexError),
    InvalidToken(TokenV),
    Eof,
}

impl View for ParseError {
    type V = ParseErrorV;

    open spec fn view(&self) -> ParseErrorV {
        match self {
            ParseError::LexError(e) => ParseErrorV::LexError(*e),
            ParseError::InvalidToken(t) => ParseErrorV::InvalidToken(t@),
            ParseError::Eof => ParseErrorV::Eof,
        }
    }
}

/// A node or the failure that stopped the whole parse.
pub type ParseResult<T> = Result<T, ParseError>;

// ---------------------------------------------------------------------------
// Small helpers for the grammar functions
// ---------------------------------------------------------------------------

/// The span `[a, b)`.
pub open spec fn mk_span(a: int, b: int) -> Span {
    Span { start: a as usize, end: b as usize }
}

/// The token of kind `k` covering `[a, b)`.
pub open spec fn tok_v(k: KindV, a: int, b: int) -> TokenV {
    TokenV { kind: k, span: mk_span(a, b) }
}

/// The lexical failure `e` covering `[a, b)`.
pub open spec fn lex_err(e: LexErrorItem, a: int, b: int) -> LexError {
    LexError { span: mk_span(a, b), err: e }
}

/// The span `s` lies between the scan positions `p0` and `p1`.
pub open spec fn span_within(s: Span, p0: int, p1: int) -> bool {
    p0 <= s.start && s.end <= p1
}

/// The position a grammar function resumes from after a sub-parse that
/// reached `q`: `q` itself whenever the sub-parse made bounded progress
/// past `p`, and a dummy forward position otherwise. In every reachable
/// state the first branch applies; the fallback only keeps the function
/// well-founded on arguments no run produces.
pub open spec fn step_to(p: int, q: int, len: int) -> int {
    if p < q && q <= len {
        q
    } else if p + 1 <= len {
        p + 1
    } else {
        len
    }
}

// ---------------------------------------------------------------------------
// The grammar, one specification function per production
// ---------------------------------------------------------------------------

/// Grammar: one identifier token.
pub open spec fn sp_ident(src: Seq<u8>, p: int) -> Result<(IdentV, int), ParseErrorV> {
    match token_at(src, p) {
        LexStep::End => Result::Err(ParseErrorV::Eof),
        LexStep::Fail(e, a, b) => Result::Err(ParseErrorV::LexError(lex_err(e, a, b))),
        LexStep::Tok(k, a, b) => match k {
            KindV::Ident(w) => Result::Ok((IdentV { value: w, span: mk_span(a, b) }, b)),
            _ => Result::Err(ParseErrorV::InvalidToken(tok_v(k, a, b))),
        },
    }
}

/// Grammar: one integer-literal token.
pub open spec fn sp_litint(src: Seq<u8>, p: int) -> Result<(LitInt, int), ParseErrorV> {
    match token_at(src, p) {
        LexStep::End => Result::Err(ParseErrorV::Eof),
        LexStep::Fail(e, a, b) => Result::Err(ParseErrorV::LexError(lex_err(e, a, b))),
        LexStep::Tok(k, a, b) => match k {
            KindV::Int(v) => Result::Ok((LitInt { value: v, span: mk_span(a, b) }, b)),
            _ => Result::Err(ParseErrorV::InvalidToken(tok_v(k, a, b))),
        },
    }
}

/// Grammar: one float-literal token.
pub open spec fn sp_litfloat(src: Seq<u8>, p: int) -> Result<(LitFloatV, int), ParseErrorV> {
    match token_at(src, p) {
        LexStep::End => Result::Err(ParseErrorV::Eof),
        LexStep::Fail(e, a, b) => Result::Err(ParseErrorV::LexError(lex_err(e, a, b))),
        LexStep::Tok(k, a, b) => match k {
            KindV::Float(t) => Result::Ok((LitFloatV { text: t, span: mk_span(a, b) }, b)),
            _ => Result::Err(ParseErrorV::InvalidToken(tok_v(k, a, b))),
        },
    }
}

/// Grammar: one string-literal token.
pub open spec fn sp_litstring(src: Seq<u8>, p: int) -> Result<(LitStringV, int), ParseErrorV> {
    match token_at(src, p) {
        LexStep::End => Result::Err(ParseErrorV::Eof),
        LexStep::Fail(e, a, b) => Result::Err(ParseErrorV::LexError(lex_err(e, a, b))),
        LexStep::Tok(k, a, b) => match k {
            KindV::String(t) => Result::Ok((LitStringV { value: t, span: mk_span(a, b) }, b)),
            _ => Result::Err(ParseErrorV::InvalidToken(tok_v(k, a, b))),
        },
    }
}

/// Grammar: one boolean-literal token.
pub open spec fn sp_litbool(src: Seq<u8>, p: int) -> Result<(LitBool, int), ParseErrorV> {
    match token_at(src, p) {
        LexStep::End => Result::Err(ParseErrorV::Eof),
        LexStep::Fail(e, a, b) => Result::Err(ParseErrorV::LexError(lex_err(e, a, b))),
        LexStep::Tok(k, a, b) => match k {
            KindV::Bool(v) => Result::Ok((LitBool { value: v, span: mk_span(a, b) }, b)),
            _ => Result::Err(ParseErrorV::InvalidToken(tok_v(k, a, b))),
        },
    }
}

/// Grammar: one path-literal token.
pub open spec fn sp_litpath(src: Seq<u8>, p: int) -> Result<(LitPathV, int), ParseErrorV> {
    match token_at(src, p) {
        LexStep::End => Result::Err(ParseErrorV::Eof),
        LexStep::Fail(e, a, b) => Result::Err(ParseErrorV::LexError(lex_err(e, a, b))),
        LexStep::Tok(k, a, b) => match k {
            KindV::Path(t) => Result::Ok((LitPathV { value: t, span: mk_span(a, b) }, b)),
            _ => Result::Err(ParseErrorV::InvalidToken(tok_v(k, a, b))),
        },
    }
}

/// Grammar: one comment token, its text and span taken verbatim.
pub open spec fn sp_comment(src: Seq<u8>, p: int) -> Result<(StmtCommentV, int), ParseErrorV> {
    match token_at(src, p) {
        LexStep::End => Result::Err(ParseErrorV::Eof),
        LexStep::Fail(e, a, b) => Result::Err(ParseErrorV::LexError(lex_err(e, a, b))),
        LexStep::Tok(k, a, b) => match k {
            KindV::Comment(t) => Result::Ok((StmtCommentV { value: t, span: mk_span(a, b) }, b)),
            _ => Result::Err(ParseErrorV::InvalidToken(tok_v(k, a, b))),
        },
    }
}

/// Grammar: one literal, dispatched on the lookahead token's kind.
pub open spec fn sp_lit(src: Seq<u8>, p: int) -> Result<(LitV, int), ParseErrorV> {
    match token_at(src, p) {
        LexStep::End => Result::Err(ParseErrorV::Eof),
        LexStep::Fail(e, a, b) => Result::Err(ParseErrorV::LexError(lex_err(e, a, b))),
        LexStep::Tok(k, a, b) => match k {
            KindV::Float(t) => Result::Ok(
                (LitV::Float(LitFloatV { text: t, span: mk_span(a, b) }), b),
            ),
            KindV::Int(v) => Result::Ok((LitV::Int(LitInt { value: v, span: mk_span(a, b) }), b)),
            KindV::String(t) => Result::Ok(
                (LitV::String(LitStringV { value: t, span: mk_span(a, b) }), b),
            ),
            KindV::Path(t) => Result::Ok(
                (LitV::Path(LitPathV { value: t, span: mk_span(a, b) }), b),
            ),
            KindV::Bool(v) => Result::Ok(
                (LitV::Bool(LitBool { value: v, span: mk_span(a, b) }), b),
            ),
            _ => Result::Err(ParseErrorV::InvalidToken(tok_v(k, a, b))),
        },
    }
}

/// Grammar: an optional integer bound of a range — present when the
/// lookahead is an integer, absent on any other token; the end of input
/// here is a failure.
pub open spec fn sp_opt_int(src: Seq<u8>, p: int) -> Result<(Option<LitInt>, int), ParseErrorV> {
    match token_at(src, p) {
        LexStep::End => Result::Err(ParseErrorV::Eof),
        LexStep::Fail(e, a, b) => Result::Err(ParseErrorV::LexError(lex_err(e, a, b))),
        LexStep::Tok(k, a, b) => match k {
            KindV::Int(v) => Result::Ok(
                (Option::Some(LitInt { value: v, span: mk_span(a, b) }), b),
            ),
            _ => Result::Ok((Option::None, p)),
        },
    }
}

/// Grammar: a range `[int] .. [int]`.
pub open spec fn sp_range(src: Seq<u8>, p: int) -> Result<(ExprRangeV, int), ParseErrorV> {
    match sp_opt_int(src, p) {
        Result::Err(e) => Result::Err(e),
        Result::Ok((start, p1)) => match token_at(src, p1) {
            LexStep::End => Result::Err(ParseErrorV::Eof),
            LexStep::Fail(e, a, b) => Result::Err(ParseErrorV::LexError(lex_err(e, a, b))),
            LexStep::Tok(k, a, b) => match k {
                KindV::Limit => match sp_opt_int(src, b) {
                    Result::Err(e) => Result::Err(e),
                    Result::Ok((end, p2)) => Result::Ok(
                        (ExprRangeV { start, limit: tok_v(KindV::Limit, a, b), end }, p2),
                    ),
                },
                _ => Result::Err(ParseErrorV::InvalidToken(tok_v(k, a, b))),
            },
        },
    }
}

/// Grammar: an expression — dispatched on the lookahead token: a literal
/// for literal-start tokens (an integer followed by `..` starts a range
/// instead), a prefix operation for `!` `~` `^` `§`, a range for `..`, an
/// inline map for `{`, a target for `@`; any other token is a failure.
pub open spec fn sp_expr(src: Seq<u8>, p: int) -> Result<(ExprV, int), ParseErrorV>
    decreases src.len() - p, 40int,
{
    match token_at(src, p) {
        LexStep::End => Result::Err(ParseErrorV::Eof),
        LexStep::Fail(e, a, b) => Result::Err(ParseErrorV::LexError(lex_err(e, a, b))),
        LexStep::Tok(k, a, b) => match k {
            KindV::Float(_) => sp_expr_lit(src, p),
            KindV::String(_) => sp_expr_lit(src, p),
            KindV::Path(_) => sp_expr_lit(src, p),
            KindV::Bool(_) => sp_expr_lit(src, p),
            KindV::Int(_) => match token_at(src, b) {
                LexStep::Tok(k2, _, _) => match k2 {
                    KindV::Limit => sp_expr_range(src, p),
                    _ => sp_expr_lit(src, p),
                },
                _ => sp_expr_lit(src, p),
            },
            KindV::Limit => sp_expr_range(src, p),
            KindV::Not => sp_expr_unary(src, p),
            KindV::LocalCoordinate => sp_expr_unary(src, p),
            KindV::RelativeCoordinate => sp_expr_unary(src, p),
            KindV::FormatSelection => sp_expr_unary(src, p),
            KindV::LeftBrace => match sp_map(src, p) {
                Result::Ok((m, j)) => Result::Ok((ExprV::Mapping(m), j)),
                Result::Err(e) => Result::Err(e),
            },
            KindV::Selector => match sp_target(src, p) {
                Result::Ok((t, j)) => Result::Ok((ExprV::Target(t), j)),
                Result::Err(e) => Result::Err(e),
            },
            _ => Result::Err(ParseErrorV::InvalidToken(tok_v(k, a, b))),
        },
    }
}

/// Grammar: an expression that is a literal.
pub open spec fn sp_expr_lit(src: Seq<u8>, p: int) -> Result<(ExprV, int), ParseErrorV> {
    match sp_lit(src, p) {
        Result::Ok((l, j)) => Result::Ok((ExprV::Lit(l), j)),
        Result::Err(e) => Result::Err(e),
    }
}

/// Grammar: an expression that is a range.
pub open spec fn sp_expr_range(src: Seq<u8>, p: int) -> Result<(ExprV, int), ParseErrorV> {
    match sp_range(src, p) {
        Result::Ok((r, j)) => Result::Ok((ExprV::Range(r), j)),
        Result::Err(e) => Result::Err(e),
    }
}

/// Grammar: an expression that is a prefix operation.
pub open spec fn sp_expr_unary(src: Seq<u8>, p: int) -> Result<(ExprV, int), ParseErrorV>
    decreases src.len() - p, 35int,
{
    match sp_unary(src, p) {
        Result::Ok((u, j)) => Result::Ok((ExprV::Urnary(u), j)),
        Result::Err(e) => Result::Err(e),
    }
}

/// Grammar: a prefix operator applied to the expression right after it.
pub open spec fn sp_unary(src: Seq<u8>, p: int) -> Result<(ExprUrnaryV, int), ParseErrorV>
    decreases src.len() - p, 30int,
{
    match token_at(src, p) {
        LexStep::End => Result::Err(ParseErrorV::Eof),
        LexStep::Fail(e, a, b) => Result::Err(ParseErrorV::LexError(lex_err(e, a, b))),
        LexStep::Tok(k, a, b) => {
            let op = match k {
                KindV::Not => Option::Some(UnOpV::Not(tok_v(k, a, b))),
                KindV::LocalCoordinate => Option::Some(UnOpV::LocalCoordinate(tok_v(k, a, b))),
                KindV::RelativeCoordinate => Option::Some(
                    UnOpV::RelativeCoordinate(tok_v(k, a, b)),
                ),
                KindV::FormatSelection => Option::Some(UnOpV::FormatSelection(tok_v(k, a, b))),
                _ => Option::None,
            };
            match op {
                Option::Some(opv) => match sp_expr(src, step_to(p, b, src.len() as int)) {
                    Result::Ok((e2, j)) => Result::Ok(
                        (ExprUrnaryV { op: opv, expr: Option::Some(Box::new(e2)) }, j),
                    ),
                    Result::Err(e) => Result::Err(e),
                },
                Option::None => Result::Err(ParseErrorV::InvalidToken(tok_v(k, a, b))),
            }
        },
    }
}

/// Grammar: an inline map `{ field+ }`.
pub open spec fn sp_map(src: Seq<u8>, p: int) -> Result<(ExprMapV, int), ParseErrorV>
    decreases src.len() - p, 35int,
{
    match token_at(src, p) {
        LexStep::End => Result::Err(ParseErrorV::Eof),
        LexStep::Fail(e, a, b) => Result::Err(ParseErrorV::LexError(lex_err(e, a, b))),
        LexStep::Tok(k, a, b) => match k {
            KindV::LeftBrace => match sp_mapfields(src, step_to(p, b, src.len() as int)) {
                Result::Err(e) => Result::Err(e),
                Result::Ok((fields, p2)) => match token_at(src, p2) {
                    LexStep::End => Result::Err(ParseErrorV::Eof),
                    LexStep::Fail(e, a2, b2) => Result::Err(
                        ParseErrorV::LexError(lex_err(e, a2, b2)),
                    ),
                    LexStep::Tok(k2, a2, b2) => match k2 {
                        KindV::RightBrace => Result::Ok(
                            (
                                ExprMapV {
                                    curly_open: tok_v(k, a, b),
                                    curly_close: tok_v(k2, a2, b2),
                                    fields,
                                },
                                b2,
                            ),
                        ),
                        _ => Result::Err(ParseErrorV::InvalidToken(tok_v(k2, a2, b2))),
                    },
                },
            },
            _ => Result::Err(ParseErrorV::InvalidToken(tok_v(k, a, b))),
        },
    }
}

/// Grammar: one or more map fields, up to (not including) the closing
/// brace; the loop continues whenever the lookahead after a field is any
/// token other than `}`.
pub open spec fn sp_mapfields(src: Seq<u8>, p: int) -> Result<
    (Seq<ExprMapFieldV>, int),
    ParseErrorV,
>
    decreases src.len() - p, 20int,
{
    if src.len() <= p {
        Result::Err(ParseErrorV::Eof)
    } else {
        match sp_mapfield(src, p) {
            Result::Err(e) => Result::Err(e),
            Result::Ok((f, j)) => match token_at(src, j) {
                LexStep::End => Result::Err(ParseErrorV::Eof),
                LexStep::Fail(e, a, b) => Result::Err(ParseErrorV::LexError(lex_err(e, a, b))),
                LexStep::Tok(k, _, _) => match k {
                    KindV::RightBrace => Result::Ok((seq![f], j)),
                    _ => match sp_mapfields(src, step_to(p, j, src.len() as int)) {
                        Result::Ok((rest, p2)) => Result::Ok((seq![f] + rest, p2)),
                        Result::Err(e) => Result::Err(e),
                    },
                },
            },
        }
    }
}

/// Grammar: one map field `"key" : value [,]`.
pub open spec fn sp_mapfield(src: Seq<u8>, p: int) -> Result<(ExprMapFieldV, int), ParseErrorV>
    decreases src.len() - p, 15int,
{
    match sp_litstring(src, p) {
        Result::Err(e) => Result::Err(e),
        Result::Ok((key, p1)) => match token_at(src, p1) {
            LexStep::End => Result::Err(ParseErrorV::Eof),
            LexStep::Fail(e, a, b) => Result::Err(ParseErrorV::LexError(lex_err(e, a, b))),
            LexStep::Tok(k, a, b) => match k {
                KindV::Colon => match sp_expr(src, step_to(p, b, src.len() as int)) {
                    Result::Err(e) => Result::Err(e),
                    Result::Ok((v, p2)) => match token_at(src, p2) {
                        LexStep::Tok(k2, a2, b2) => match k2 {
                            KindV::Comma => Result::Ok(
                                (
                                    ExprMapFieldV {
                                        key,
                                        colon: tok_v(k, a, b),
                                        value: Box::new(v),
                                        comma: Option::Some(tok_v(k2, a2, b2)),
                                    },
                                    b2,
                                ),
                            ),
                            _ => Result::Ok(
                                (
                                    ExprMapFieldV {
                                        key,
                                        colon: tok_v(k, a, b),
                                        value: Box::new(v),
                                        comma: Option::None,
                                    },
                                    p2,
                                ),
                            ),
                        },
                        _ => Result::Ok(
                            (
                                ExprMapFieldV {
                                    key,
                                    colon: tok_v(k, a, b),
                                    value: Box::new(v),
                                    comma: Option::None,
                                },
                                p2,
                            ),
                        ),
                    },
                },
                _ => Result::Err(ParseErrorV::InvalidToken(tok_v(k, a, b))),
            },
        },
    }
}

/// Grammar: a selector target `@ class [ '[' table ']' ]`.
pub open spec fn sp_target(src: Seq<u8>, p: int) -> Result<(ExprTargetV, int), ParseErrorV>
    decreases src.len() - p, 35int,
{
    match token_at(src, p) {
        LexStep::End => Result::Err(ParseErrorV::Eof),
        LexStep::Fail(e, a, b) => Result::Err(ParseErrorV::LexError(lex_err(e, a, b))),
        LexStep::Tok(k, a, b) => match k {
            KindV::Selector => match sp_ident(src, step_to(p, b, src.len() as int)) {
                Result::Err(e) => Result::Err(e),
                Result::Ok((id, p1)) => match token_at(src, p1) {
                    LexStep::Tok(k2, _, _) => match k2 {
                        KindV::LeftBracket => match sp_table(
                            src,
                            step_to(p, p1, src.len() as int),
                        ) {
                            Result::Err(e) => Result::Err(e),
                            Result::Ok((tb, p2)) => Result::Ok(
                                (
                                    ExprTargetV {
                                        select: tok_v(k, a, b),
                                        target: id,
                                        params: Option::Some(tb),
                                    },
                                    p2,
                                ),
                            ),
                        },
                        _ => Result::Ok(
                            (
                                ExprTargetV {
                                    select: tok_v(k, a, b),
                                    target: id,
                                    params: Option::None,
                                },
                                p1,
                            ),
                        ),
                    },
                    _ => Result::Ok(
                        (
                            ExprTargetV { select: tok_v(k, a, b), target: id, params: Option::None },
                            p1,
                        ),
                    ),
                },
            },
            _ => Result::Err(ParseErrorV::InvalidToken(tok_v(k, a, b))),
        },
    }
}

/// Grammar: a parameter table `'[' field+ ']'`.
pub open spec fn sp_table(src: Seq<u8>, p: int) -> Result<(TableV, int), ParseErrorV>
    decreases src.len() - p, 25int,
{
    match token_at(src, p) {
        LexStep::End => Result::Err(ParseErrorV::Eof),
        LexStep::Fail(e, a, b) => Result::Err(ParseErrorV::LexError(lex_err(e, a, b))),
        LexStep::Tok(k, a, b) => match k {
            KindV::LeftBracket => match sp_tablefields(src, step_to(p, b, src.len() as int)) {
                Result::Err(e) => Result::Err(e),
                Result::Ok((fields, p2)) => match token_at(src, p2) {
                    LexStep::End => Result::Err(ParseErrorV::Eof),
                    LexStep::Fail(e, a2, b2) => Result::Err(
                        ParseErrorV::LexError(lex_err(e, a2, b2)),
                    ),
                    LexStep::Tok(k2, a2, b2) => match k2 {
                        KindV::RightBracket => Result::Ok(
                            (
                                TableV {
                                    bracket_open: tok_v(k, a, b),
                                    bracket_close: tok_v(k2, a2, b2),
                                    fields,
                                },
                                b2,
                            ),
                        ),
                        _ => Result::Err(ParseErrorV::InvalidToken(tok_v(k2, a2, b2))),
                    },
                },
            },
            _ => Result::Err(ParseErrorV::InvalidToken(tok_v(k, a, b))),
        },
    }
}

/// Grammar: one or more table fields, up to (not including) the closing
/// bracket.
pub open spec fn sp_tablefields(src: Seq<u8>, p: int) -> Result<
    (Seq<TableFieldV>, int),
    ParseErrorV,
>
    decreases src.len() - p, 20int,
{
    if src.len() <= p {
        Result::Err(ParseErrorV::Eof)
    } else {
        match sp_tablefield(src, p) {
            Result::Err(e) => Result::Err(e),
            Result::Ok((f, j)) => match token_at(src, j) {
                LexStep::End => Result::Err(ParseErrorV::Eof),
                LexStep::Fail(e, a, b) => Result::Err(ParseErrorV::LexError(lex_err(e, a, b))),
                LexStep::Tok(k, _, _) => match k {
                    KindV::RightBracket => Result::Ok((seq![f], j)),
                    _ => match sp_tablefields(src, step_to(p, j, src.len() as int)) {
                        Result::Ok((rest, p2)) => Result::Ok((seq![f] + rest, p2)),
                        Result::Err(e) => Result::Err(e),
                    },
                },
            },
        }
    }
}

/// Grammar: one table field `key = …` where after the `=`:
/// a comma or the closing bracket makes a flag field with no value; `!`
/// makes a negation whose operand is absent before a comma or the closing
/// bracket and is a full expression otherwise; anything else is a full
/// expression value; a trailing comma is consumed when present.
pub open spec fn sp_tablefield(src: Seq<u8>, p: int) -> Result<(TableFieldV, int), ParseErrorV>
    decreases src.len() - p, 15int,
{
    match sp_ident(src, p) {
        Result::Err(e) => Result::Err(e),
        Result::Ok((key, p1)) => match token_at(src, p1) {
            LexStep::End => Result::Err(ParseErrorV::Eof),
            LexStep::Fail(e, a, b) => Result::Err(ParseErrorV::LexError(lex_err(e, a, b))),
            LexStep::Tok(k, a, b) => match k {
                KindV::Assign => sp_tablefield_value(src, p, key, tok_v(k, a, b), b),
                _ => Result::Err(ParseErrorV::InvalidToken(tok_v(k, a, b))),
            },
        },
    }
}

/// Grammar: the part of a table field after its `=` sign, which starts at
/// `p1`; `p` is where the whole field started.
pub open spec fn sp_tablefield_value(
    src: Seq<u8>,
    p: int,
    key: IdentV,
    eq: TokenV,
    p1: int,
) -> Result<(TableFieldV, int), ParseErrorV>
    decreases src.len() - p, 10int,
{
    if src.len() <= p {
        Result::Err(ParseErrorV::Eof)
    } else {
    match token_at(src, p1) {
        LexStep::End => Result::Err(ParseErrorV::Eof),
        LexStep::Fail(e, a, b) => Result::Err(ParseErrorV::LexError(lex_err(e, a, b))),
        LexStep::Tok(k, a, b) => match k {
            KindV::Comma => Result::Ok(
                (
                    TableFieldV {
                        key,
                        eq,
                        value: Option::None,
                        comma: Option::Some(tok_v(k, a, b)),
                    },
                    b,
                ),
            ),
            KindV::RightBracket => Result::Ok(
                (TableFieldV { key, eq, value: Option::None, comma: Option::None }, p1),
            ),
            KindV::Not => sp_tablefield_not(src, p, key, eq, tok_v(k, a, b), b),
            _ => match sp_expr(src, step_to(p, p1, src.len() as int)) {
                Result::Err(e) => Result::Err(e),
                Result::Ok((v, p2)) => match token_at(src, p2) {
                    LexStep::Tok(k2, a2, b2) => match k2 {
                        KindV::Comma => Result::Ok(
                            (
                                TableFieldV {
                                    key,
                                    eq,
                                    value: Option::Some(Box::new(v)),
                                    comma: Option::Some(tok_v(k2, a2, b2)),
                                },
                                b2,
                            ),
                        ),
                        _ => Result::Ok(
                            (
                                TableFieldV {
                                    key,
                                    eq,
                                    value: Option::Some(Box::new(v)),
                                    comma: Option::None,
                                },
                                p2,
                            ),
                        ),
                    },
                    _ => Result::Ok(
                        (
                            TableFieldV {
                                key,
                                eq,
                                value: Option::Some(Box::new(v)),
                                comma: Option::None,
                            },
                            p2,
                        ),
                    ),
                },
            },
        },
    }
}
}
/// Grammar: the part of a table field after `key = !`, which starts at
/// `p2`; `p` is where the whole field started. Before a comma or the
/// closing bracket the negation has no operand; otherwise its operand is
/// the expression right after it.
pub open spec fn sp_tablefield_not(
    src: Seq<u8>,
    p: int,
    key: IdentV,
    eq: TokenV,
    not: TokenV,
    p2: int,
) -> Result<(TableFieldV, int), ParseErrorV>
    decreases src.len() - p, 5int,
{
    if src.len() <= p {
        Result::Err(ParseErrorV::Eof)
    } else {
    match token_at(src, p2) {
        LexStep::Tok(k, a, b) => match k {
            KindV::Comma => Result::Ok(
                (
                    TableFieldV {
                        key,
                        eq,
                        value: Option::Some(
                            Box::new(
                                ExprV::Urnary(ExprUrnaryV { op: UnOpV::Not(not), expr: Option::None }),
                            ),
                        ),
                        comma: Option::Some(tok_v(k, a, b)),
                    },
                    b,
                ),
            ),
            KindV::RightBracket => Result::Ok(
                (
                    TableFieldV {
                        key,
                        eq,
                        value: Option::Some(
                            Box::new(
                                ExprV::Urnary(ExprUrnaryV { op: UnOpV::Not(not), expr: Option::None }),
                            ),
                        ),
                        comma: Option::None,
                    },
                    p2,
                ),
            ),
            _ => sp_tablefield_not_expr(src, p, key, eq, not, p2),
        },
        _ => sp_tablefield_not_expr(src, p, key, eq, not, p2),
    }
}
}
/// Grammar: a negated expression value `key = ! expr [,]`, the expression
/// starting at `p2`; `p` is where the whole field started.
pub open spec fn sp_tablefield_not_expr(
    src: Seq<u8>,
    p: int,
    key: IdentV,
    eq: TokenV,
    not: TokenV,
    p2: int,
) -> Result<(TableFieldV, int), ParseErrorV>
    decreases src.len() - p, 2int,
{
    if src.len() <= p {
        Result::Err(ParseErrorV::Eof)
    } else {
    match sp_expr(src, step_to(p, p2, src.len() as int)) {
        Result::Err(e) => Result::Err(e),
        Result::Ok((v, p3)) => {
            let value = Option::Some(
                Box::new(
                    ExprV::Urnary(
                        ExprUrnaryV { op: UnOpV::Not(not), expr: Option::Some(Box::new(v)) },
                    ),
                ),
            );
            match token_at(src, p3) {
                LexStep::Tok(k2, a2, b2) => match k2 {
                    KindV::Comma => Result::Ok(
                        (
                            TableFieldV { key, eq, value, comma: Option::Some(tok_v(k2, a2, b2)) },
                            b2,
                        ),
                    ),
                    _ => Result::Ok((TableFieldV { key, eq, value, comma: Option::None }, p3)),
                },
                _ => Result::Ok((TableFieldV { key, eq, value, comma: Option::None }, p3)),
            }
        },
    }
}
}
/// Grammar: a command's arguments — one expression after another, greedily,
/// until the input is exhausted.
pub open spec fn sp_args(src: Seq<u8>, p: int) -> Result<(Seq<ExprV>, int), ParseErrorV>
    decreases src.len() - p,
{
    match sp_expr(src, p) {
        Result::Err(e) => Result::Err(e),
        Result::Ok((e1, j)) => match token_at(src, j) {
            LexStep::End => Result::Ok((seq![e1], j)),
            _ => match sp_args(src, step_to(p, j, src.len() as int)) {
                Result::Ok((rest, p2)) => Result::Ok((seq![e1] + rest, p2)),
                Result::Err(e) => Result::Err(e),
            },
        },
    }
}

/// Grammar: a command `[/] name expr*`; its arguments are absent exactly
/// when the input ends right after the name.
pub open spec fn sp_command(src: Seq<u8>, p: int) -> Result<(StmtCommandV, int), ParseErrorV> {
    let slash_p1: (Option<TokenV>, int) = match token_at(src, p) {
        LexStep::Tok(k, a, b) => match k {
            KindV::Slash => (Option::Some(tok_v(k, a, b)), b),
            _ => (Option::None, p),
        },
        _ => (Option::None, p),
    };
    match sp_ident(src, slash_p1.1) {
        Result::Err(e) => Result::Err(e),
        Result::Ok((id, p2)) => match token_at(src, p2) {
            LexStep::End => Result::Ok(
                (StmtCommandV { slash: slash_p1.0, ident: id, arguments: Option::None }, p2),
            ),
            _ => match sp_args(src, p2) {
                Result::Err(e) => Result::Err(e),
                Result::Ok((args, p3)) => Result::Ok(
                    (
                        StmtCommandV { slash: slash_p1.0, ident: id, arguments: Option::Some(args) },
                        p3,
                    ),
                ),
            },
        },
    }
}

/// Grammar: a statement — a comment when the lookahead is a comment token,
/// a command on any other token; a lexical failure or exhausted input here
/// is a failure.
pub open spec fn sp_stmt(src: Seq<u8>, p: int) -> Result<(StmtV, int), ParseErrorV> {
    match token_at(src, p) {
        LexStep::End => Result::Err(ParseErrorV::Eof),
        LexStep::Fail(e, a, b) => Result::Err(ParseErrorV::LexError(lex_err(e, a, b))),
        LexStep::Tok(k, a, b) => match k {
            KindV::Comment(_) => match sp_comment(src, p) {
                Result::Ok((c, j)) => Result::Ok((StmtV::Comment(c), j)),
                Result::Err(e) => Result::Err(e),
            },
            _ => match sp_command(src, p) {
                Result::Ok((c, j)) => Result::Ok((StmtV::Command(c), j)),
                Result::Err(e) => Result::Err(e),
            },
        },
    }
}

/// Grammar: statements until the input is exhausted; none is a valid
/// program.
pub open spec fn sp_stmts(src: Seq<u8>, p: int) -> Result<(Seq<StmtV>, int), ParseErrorV>
    decreases src.len() - p,
{
    match token_at(src, p) {
        LexStep::End => Result::Ok((Seq::empty(), p)),
        _ => match sp_stmt(src, p) {
            Result::Err(e) => Result::Err(e),
            Result::Ok((s1, j)) => match sp_stmts(src, step_to(p, j, src.len() as int)) {
                Result::Ok((rest, p2)) => Result::Ok((seq![s1] + rest, p2)),
                Result::Err(e) => Result::Err(e),
            },
        },
    }
}

/// Grammar: a whole program read from position `p`.
pub open spec fn sp_function_from(src: Seq<u8>, p: int) -> Result<(FunctionV, int), ParseErrorV> {
    match sp_stmts(src, p) {
        Result::Ok((stmts, j)) => Result::Ok((FunctionV { statements: stmts }, j)),
        Result::Err(e) => Result::Err(e),
    }
}

/// The language: what parsing a source text yields — a program's mirror or
/// the failure that stops the parse. A single mathematical function of the
/// source text alone.
pub open spec fn sp_parse(src: Seq<u8>) -> Result<FunctionV, ParseErrorV> {
    match sp_function_from(src, 0) {
        Result::Ok((f, _)) => Result::Ok(f),
        Result::Err(e) => Result::Err(e),
    }
}

} // verus!

verus! {

// ---------------------------------------------------------------------------
// Executable parsing, verified against the grammar functions
// ---------------------------------------------------------------------------

impl Ident {
    /// Reads one identifier token off the stream.
    pub fn parse(tokens: &mut TokenIter) -> (r: ParseResult<Ident>)
        requires
            old(tokens).wf(),
        ensures
            final(tokens).wf(),
            final(tokens).src@ == old(tokens).src@,
            ({
                let len = old(tokens).src@.len() as int;
                match sp_ident(old(tokens).src@, old(tokens).pos as int) {
                    Result::Ok((v, j)) => {
                        &&& (match r {
                            Result::Ok(x) => x@ == v,
                            Result::Err(_) => false,
                        })
                        &&& final(tokens).pos == j
                        &&& old(tokens).pos < final(tokens).pos
                        &&& crate::ast::wf_span(v.span, len)
                        &&& span_within(v.span, old(tokens).pos as int, j)
                    },
                    Result::Err(e) => (match r {
                        Result::Err(x) => x@ == e,
                        Result::Ok(_) => false,
                    }),
                }
            }),
    {
        match tokens.next() {
            Option::None => Err(ParseError::Eof),
            Option::Some(Result::Err(e)) => Err(ParseError::LexError(e)),
            Option::Some(Result::Ok(t)) => match t.kind {
                Kind::Ident(w) => Ok(Ident::new(w, t.span)),
                _ => Err(ParseError::InvalidToken(t)),
            },
        }
    }
}

impl LitInt {
    /// Reads one integer-literal token off the stream.
    pub fn parse(tokens: &mut TokenIter) -> (r: ParseResult<LitInt>)
        requires
            old(tokens).wf(),
        ensures
            final(tokens).wf(),
            final(tokens).src@ == old(tokens).src@,
            ({
                let len = old(tokens).src@.len() as int;
                match sp_litint(old(tokens).src@, old(tokens).pos as int) {
                    Result::Ok((v, j)) => {
                        &&& (match r {
                            Result::Ok(x) => x == v,
                            Result::Err(_) => false,
                        })
                        &&& final(tokens).pos == j
                        &&& old(tokens).pos < final(tokens).pos
                        &&& crate::ast::wf_span(v.span, len)
                        &&& span_within(v.span, old(tokens).pos as int, j)
                    },
                    Result::Err(e) => (match r {
                        Result::Err(x) => x@ == e,
                        Result::Ok(_) => false,
                    }),
                }
            }),
    {
        match tokens.next() {
            Option::None => Err(ParseError::Eof),
            Option::Some(Result::Err(e)) => Err(ParseError::LexError(e)),
            Option::Some(Result::Ok(t)) => match t.kind {
                Kind::Int(v) => Ok(LitInt::new(v, t.span)),
                _ => Err(ParseError::InvalidToken(t)),
            },
        }
    }
}

impl LitFloat {
    /// Reads one float-literal token off the stream.
    pub fn parse(tokens: &mut TokenIter) -> (r: ParseResult<LitFloat>)
        requires
            old(tokens).wf(),
        ensures
            final(tokens).wf(),
            final(tokens).src@ == old(tokens).src@,
            ({
                let len = old(tokens).src@.len() as int;
                match sp_litfloat(old(tokens).src@, old(tokens).pos as int) {
                    Result::Ok((v, j)) => {
                        &&& (match r {
                            Result::Ok(x) => x@ == v,
                            Result::Err(_) => false,
                        })
                        &&& final(tokens).pos == j
                        &&& old(tokens).pos < final(tokens).pos
                        &&& crate::ast::wf_span(v.span, len)
                        &&& span_within(v.span, old(tokens).pos as int, j)
                    },
                    Result::Err(e) => (match r {
                        Result::Err(x) => x@ == e,
                        Result::Ok(_) => false,
                    }),
                }
            }),
    {
        match tokens.next() {
            Option::None => Err(ParseError::Eof),
            Option::Some(Result::Err(e)) => Err(ParseError::LexError(e)),
            Option::Some(Result::Ok(t)) => match t.kind {
                Kind::Float(w) => Ok(LitFloat::new(w, t.span)),
                _ => Err(ParseError::InvalidToken(t)),
            },
        }
    }
}

impl LitString {
    /// Reads one string-literal token off the stream.
    pub fn parse(tokens: &mut TokenIter) -> (r: ParseResult<LitString>)
        requires
            old(tokens).wf(),
        ensures
            final(tokens).wf(),
            final(tokens).src@ == old(tokens).src@,
            ({
                let len = old(tokens).src@.len() as int;
                match sp_litstring(old(tokens).src@, old(tokens).pos as int) {
                    Result::Ok((v, j)) => {
                        &&& (match r {
                            Result::Ok(x) => x@ == v,
                            Result::Err(_) => false,
                        })
                        &&& final(tokens).pos == j
                        &&& old(tokens).pos < final(tokens).pos
                        &&& crate::ast::wf_span(v.span, len)
                        &&& span_within(v.span, old(tokens).pos as int, j)
                    },
                    Result::Err(e) => (match r {
                        Result::Err(x) => x@ == e,
                        Result::Ok(_) => false,
                    }),
                }
            }),
    {
        match tokens.next() {
            Option::None => Err(ParseError::Eof),
            Option::Some(Result::Err(e)) => Err(ParseError::LexError(e)),
            Option::Some(Result::Ok(t)) => match t.kind {
                Kind::String(w) => Ok(LitString::new(w, t.span)),
                _ => Err(ParseError::InvalidToken(t)),
            },
        }
    }
}

impl LitBool {
    /// Reads one boolean-literal token off the stream.
    pub fn parse(tokens: &mut TokenIter) -> (r: ParseResult<LitBool>)
        requires
            old(tokens).wf(),
        ensures
            final(tokens).wf(),
            final(tokens).src@ == old(tokens).src@,
            ({
                let len = old(tokens).src@.len() as int;
                match sp_litbool(old(tokens).src@, old(tokens).pos as int) {
                    Result::Ok((v, j)) => {
                        &&& (match r {
                            Result::Ok(x) => x == v,
                            Result::Err(_) => false,
                        })
                        &&& final(tokens).pos == j
                        &&& old(tokens).pos < final(tokens).pos
                        &&& crate::ast::wf_span(v.span, len)
                        &&& span_within(v.span, old(tokens).pos as int, j)
                    },
                    Result::Err(e) => (match r {
                        Result::Err(x) => x@ == e,
                        Result::Ok(_) => false,
                    }),
                }
            }),
    {
        match tokens.next() {
            Option::None => Err(ParseError::Eof),
            Option::Some(Result::Err(e)) => Err(ParseError::LexError(e)),
            Option::Some(Result::Ok(t)) => match t.kind {
                Kind::Bool(v) => Ok(LitBool::new(v, t.span)),
                _ => Err(ParseError::InvalidToken(t)),
            },
        }
    }
}

impl LitPath {
    /// Reads one path-literal token off the stream.
    pub fn parse(tokens: &mut TokenIter) -> (r: ParseResult<LitPath>)
        requires
            old(tokens).wf(),
        ensures
            final(tokens).wf(),
            final(tokens).src@ == old(tokens).src@,
            ({
                let len = old(tokens).src@.len() as int;
                match sp_litpath(old(tokens).src@, old(tokens).pos as int) {
                    Result::Ok((v, j)) => {
                        &&& (match r {
                            Result::Ok(x) => x@ == v,
                            Result::Err(_) => false,
                        })
                        &&& final(tokens).pos == j
                        &&& old(tokens).pos < final(tokens).pos
                        &&& crate::ast::wf_span(v.span, len)
                        &&& span_within(v.span, old(tokens).pos as int, j)
                    },
                    Result::Err(e) => (match r {
                        Result::Err(x) => x@ == e,
                        Result::Ok(_) => false,
                    }),
                }
            }),
    {
        match tokens.next() {
            Option::None => Err(ParseError::Eof),
            Option::Some(Result::Err(e)) => Err(ParseError::LexError(e)),
            Option::Some(Result::Ok(t)) => match t.kind {
                Kind::Path(w) => Ok(LitPath::new(w, t.span)),
                _ => Err(ParseError::InvalidToken(t)),
            },
        }
    }
}

impl StmtComment {
    /// Reads one comment token off the stream, copying its text and span
    /// verbatim.
    pub fn parse(tokens: &mut TokenIter) -> (r: ParseResult<StmtComment>)
        requires
            old(tokens).wf(),
        ensures
            final(tokens).wf(),
            final(tokens).src@ == old(tokens).src@,
            ({
                let len = old(tokens).src@.len() as int;
                match sp_comment(old(tokens).src@, old(tokens).pos as int) {
                    Result::Ok((v, j)) => {
                        &&& (match r {
                            Result::Ok(x) => x@ == v,
                            Result::Err(_) => false,
                        })
                        &&& final(tokens).pos == j
                        &&& old(tokens).pos < final(tokens).pos
                        &&& crate::ast::wf_span(v.span, len)
                        &&& span_within(v.span, old(tokens).pos as int, j)
                    },
                    Result::Err(e) => (match r {
                        Result::Err(x) => x@ == e,
                        Result::Ok(_) => false,
                    }),
                }
            }),
    {
        match tokens.next() {
            Option::None => Err(ParseError::Eof),
            Option::Some(Result::Err(e)) => Err(ParseError::LexError(e)),
            Option::Some(Result::Ok(t)) => match t.kind {
                Kind::Comment(w) => Ok(StmtComment::new(w, t.span)),
                _ => Err(ParseError::InvalidToken(t)),
            },
        }
    }
}

impl Lit {
    /// Reads one literal, dispatching on the lookahead token's kind.
    pub fn parse(tokens: &mut TokenIter) -> (r: ParseResult<Lit>)
        requires
            old(tokens).wf(),
        ensures
            final(tokens).wf(),
            final(tokens).src@ == old(tokens).src@,
            ({
                let len = old(tokens).src@.len() as int;
                match sp_lit(old(tokens).src@, old(tokens).pos as int) {
                    Result::Ok((v, j)) => {
                        &&& (match r {
                            Result::Ok(x) => x@ == v,
                            Result::Err(_) => false,
                        })
                        &&& final(tokens).pos == j
                        &&& old(tokens).pos < final(tokens).pos
                        &&& crate::ast::wf_span(crate::ast::span_of_lit(v), len)
                        &&& span_within(crate::ast::span_of_lit(v), old(tokens).pos as int, j)
                    },
                    Result::Err(e) => (match r {
                        Result::Err(x) => x@ == e,
                        Result::Ok(_) => false,
                    }),
                }
            }),
    {
        match tokens.peek() {
            Option::None => Err(ParseError::Eof),
            Option::Some(Result::Err(e)) => Err(ParseError::LexError(e)),
            Option::Some(Result::Ok(t)) => match &t.kind {
                Kind::Float(_) => match LitFloat::parse(tokens) {
                    Ok(l) => Ok(Lit::Float(l)),
                    Err(e) => Err(e),
                },
                Kind::Int(_) => match LitInt::parse(tokens) {
                    Ok(l) => Ok(Lit::Int(l)),
                    Err(e) => Err(e),
                },
                Kind::String(_) => match LitString::parse(tokens) {
                    Ok(l) => Ok(Lit::String(l)),
                    Err(e) => Err(e),
                },
                Kind::Path(_) => match LitPath::parse(tokens) {
                    Ok(l) => Ok(Lit::Path(l)),
                    Err(e) => Err(e),
                },
                Kind::Bool(_) => match LitBool::parse(tokens) {
                    Ok(l) => Ok(Lit::Bool(l)),
                    Err(e) => Err(e),
                },
                _ => Err(ParseError::InvalidToken(t)),
            },
        }
    }
}

/// Reads an optional integer range bound: present when the lookahead is an
/// integer literal, absent on any other token.
fn parse_opt_int(tokens: &mut TokenIter) -> (r: ParseResult<Option<LitInt>>)
    requires
        old(tokens).wf(),
    ensures
        final(tokens).wf(),
        final(tokens).src@ == old(tokens).src@,
        ({
            let len = old(tokens).src@.len() as int;
            match sp_opt_int(old(tokens).src@, old(tokens).pos as int) {
                Result::Ok((v, j)) => {
                    &&& (match r {
                        Result::Ok(x) => x == v,
                        Result::Err(_) => false,
                    })
                    &&& final(tokens).pos == j
                    &&& old(tokens).pos <= final(tokens).pos
                    &&& (match v {
                        Option::Some(li) => crate::ast::wf_span(li.span, len) && span_within(
                            li.span,
                            old(tokens).pos as int,
                            j,
                        ) && old(tokens).pos < j,
                        Option::None => j == old(tokens).pos,
                    })
                },
                Result::Err(e) => (match r {
                    Result::Err(x) => x@ == e,
                    Result::Ok(_) => false,
                }),
            }
        }),
{
    match tokens.peek() {
        Option::None => Err(ParseError::Eof),
        Option::Some(Result::Err(e)) => Err(ParseError::LexError(e)),
        Option::Some(Result::Ok(t)) => match &t.kind {
            Kind::Int(_) => match LitInt::parse(tokens) {
                Ok(l) => Ok(Some(l)),
                Err(e) => Err(e),
            },
            _ => Ok(None),
        },
    }
}

impl ExprRange {
    /// Reads a range: an optional integer bound, the `..` marker, and an
    /// optional integer bound.
    pub fn parse(tokens: &mut TokenIter) -> (r: ParseResult<ExprRange>)
        requires
            old(tokens).wf(),
        ensures
            final(tokens).wf(),
            final(tokens).src@ == old(tokens).src@,
            ({
                let len = old(tokens).src@.len() as int;
                match sp_range(old(tokens).src@, old(tokens).pos as int) {
                    Result::Ok((v, j)) => {
                        &&& (match r {
                            Result::Ok(x) => crate::ast::view_expr(Expr::Range(x)) == ExprV::Range(
                                v,
                            ),
                            Result::Err(_) => false,
                        })
                        &&& final(tokens).pos == j
                        &&& old(tokens).pos < final(tokens).pos
                        &&& crate::ast::wf_range(v, len)
                        &&& span_within(
                            crate::ast::span_of_range(v),
                            old(tokens).pos as int,
                            j,
                        )
                    },
                    Result::Err(e) => (match r {
                        Result::Err(x) => x@ == e,
                        Result::Ok(_) => false,
                    }),
                }
            }),
    {
        let start = match parse_opt_int(tokens) {
            Ok(s) => s,
            Err(e) => return Err(e),
        };
        let limit = match tokens.next() {
            Option::None => return Err(ParseError::Eof),
            Option::Some(Result::Err(e)) => return Err(ParseError::LexError(e)),
            Option::Some(Result::Ok(t)) => match &t.kind {
                Kind::Limit => t,
                _ => return Err(ParseError::InvalidToken(t)),
            },
        };
        let end = match parse_opt_int(tokens) {
            Ok(s) => s,
            Err(e) => return Err(e),
        };
        Ok(ExprRange::new(start, limit, end))
    }
}

/// Consumes the lookahead token when it is a comma, as the optional
/// trailing comma of a field.
fn take_comma(tokens: &mut TokenIter) -> (r: Option<Token>)
    requires
        old(tokens).wf(),
    ensures
        final(tokens).wf(),
        final(tokens).src@ == old(tokens).src@,
        ({
            let len = old(tokens).src@.len() as int;
            match token_at(old(tokens).src@, old(tokens).pos as int) {
                LexStep::Tok(k, a, b) => match k {
                    KindV::Comma => (match r {
                        Option::Some(t) => t@ == tok_v(k, a, b),
                        Option::None => false,
                    }) && final(tokens).pos == b && old(tokens).pos <= a && a < b && b <= len,
                    _ => r is None && final(tokens).pos == old(tokens).pos,
                },
                _ => r is None && final(tokens).pos == old(tokens).pos,
            }
        }),
{
    let is_comma = match tokens.peek() {
        Option::Some(Result::Ok(t)) => match &t.kind {
            Kind::Comma => true,
            _ => false,
        },
        _ => false,
    };
    if is_comma {
        match tokens.next() {
            Option::Some(Result::Ok(t)) => Some(t),
            _ => None,
        }
    } else {
        None
    }
}

/// Consumes the lookahead token when it is a slash, as a command's
/// optional leading slash.
fn take_slash(tokens: &mut TokenIter) -> (r: Option<Token>)
    requires
        old(tokens).wf(),
    ensures
        final(tokens).wf(),
        final(tokens).src@ == old(tokens).src@,
        ({
            let len = old(tokens).src@.len() as int;
            match token_at(old(tokens).src@, old(tokens).pos as int) {
                LexStep::Tok(k, a, b) => match k {
                    KindV::Slash => (match r {
                        Option::Some(t) => t@ == tok_v(k, a, b),
                        Option::None => false,
                    }) && final(tokens).pos == b && old(tokens).pos <= a && a < b && b <= len,
                    _ => r is None && final(tokens).pos == old(tokens).pos,
                },
                _ => r is None && final(tokens).pos == old(tokens).pos,
            }
        }),
{
    let is_slash = match tokens.peek() {
        Option::Some(Result::Ok(t)) => match &t.kind {
            Kind::Slash => true,
            _ => false,
        },
        _ => false,
    };
    if is_slash {
        match tokens.next() {
            Option::Some(Result::Ok(t)) => Some(t),
            _ => None,
        }
    } else {
        None
    }
}

} // verus!

verus! {

// ---------------------------------------------------------------------------
// List bookkeeping for the field and argument loops
// ---------------------------------------------------------------------------

use crate::ast::{
    lemma_view_exprs, lemma_view_stmts,
    span_of_command, span_of_expr, span_of_function, span_of_lit, span_of_mapfield,
    span_of_mapping, span_of_range, span_of_stmt, span_of_table, span_of_target, span_of_unop,
    span_of_urnary, view_command, view_expr, view_exprs, view_map, view_mapfield, view_mapfields,
    view_stmt, view_stmts, view_table, view_tablefield, view_tablefields, view_target,
    view_urnary, wf_command, wf_expr, wf_exprs, wf_function, wf_mapfield, wf_mapfields,
    wf_mapping, wf_range, wf_span, wf_stmt, wf_stmts, wf_table, wf_tablefield, wf_tablefields,
    wf_target, wf_urnary,
};

/// Prefixes `acc` onto the fields of a map-field-list result.
pub open spec fn prepend_mapfields(
    acc: Seq<ExprMapFieldV>,
    r: Result<(Seq<ExprMapFieldV>, int), ParseErrorV>,
) -> Result<(Seq<ExprMapFieldV>, int), ParseErrorV> {
    match r {
        Result::Ok((rest, q)) => Result::Ok((acc + rest, q)),
        Result::Err(e) => Result::Err(e),
    }
}

/// Prefixes `acc` onto the fields of a table-field-list result.
pub open spec fn prepend_tablefields(
    acc: Seq<TableFieldV>,
    r: Result<(Seq<TableFieldV>, int), ParseErrorV>,
) -> Result<(Seq<TableFieldV>, int), ParseErrorV> {
    match r {
        Result::Ok((rest, q)) => Result::Ok((acc + rest, q)),
        Result::Err(e) => Result::Err(e),
    }
}

/// Prefixes `acc` onto the expressions of an argument-list result.
pub open spec fn prepend_exprs(acc: Seq<ExprV>, r: Result<(Seq<ExprV>, int), ParseErrorV>) -> Result<
    (Seq<ExprV>, int),
    ParseErrorV,
> {
    match r {
        Result::Ok((rest, q)) => Result::Ok((acc + rest, q)),
        Result::Err(e) => Result::Err(e),
    }
}

/// Prefixes `acc` onto the statements of a statement-list result.
pub open spec fn prepend_stmts(acc: Seq<StmtV>, r: Result<(Seq<StmtV>, int), ParseErrorV>) -> Result<
    (Seq<StmtV>, int),
    ParseErrorV,
> {
    match r {
        Result::Ok((rest, q)) => Result::Ok((acc + rest, q)),
        Result::Err(e) => Result::Err(e),
    }
}

proof fn lemma_mapfields_push(s: Seq<ExprMapField>, f: ExprMapField)
    ensures
        view_mapfields(s.push(f)) == view_mapfields(s) + seq![view_mapfield(f)],
        view_mapfields(s.push(f)) == view_mapfields(s).push(view_mapfield(f)),
{
    assert(s.push(f).drop_last() =~= s);
    assert(s.push(f).last() == f);
    assert(view_mapfields(s) + seq![view_mapfield(f)] =~= view_mapfields(s).push(
        view_mapfield(f),
    ));
}

proof fn lemma_tablefields_push(s: Seq<TableField>, f: TableField)
    ensures
        view_tablefields(s.push(f)) == view_tablefields(s) + seq![view_tablefield(f)],
        view_tablefields(s.push(f)) == view_tablefields(s).push(view_tablefield(f)),
{
    assert(s.push(f).drop_last() =~= s);
    assert(s.push(f).last() == f);
    assert(view_tablefields(s) + seq![view_tablefield(f)] =~= view_tablefields(s).push(
        view_tablefield(f),
    ));
}

proof fn lemma_exprs_push(s: Seq<Expr>, e: Expr)
    ensures
        view_exprs(s.push(e)) == view_exprs(s) + seq![view_expr(e)],
        view_exprs(s.push(e)) == view_exprs(s).push(view_expr(e)),
{
    assert(s.push(e).drop_last() =~= s);
    assert(s.push(e).last() == e);
    assert(view_exprs(s) + seq![view_expr(e)] =~= view_exprs(s).push(view_expr(e)));
}

proof fn lemma_stmts_push(s: Seq<Stmt>, e: Stmt)
    ensures
        view_stmts(s.push(e)) == view_stmts(s) + seq![view_stmt(e)],
        view_stmts(s.push(e)) == view_stmts(s).push(view_stmt(e)),
{
    assert(s.push(e).drop_last() =~= s);
    assert(s.push(e).last() == e);
    assert(view_stmts(s) + seq![view_stmt(e)] =~= view_stmts(s).push(view_stmt(e)));
}

proof fn lemma_wf_mapfields_push(v: Seq<ExprMapFieldV>, f: ExprMapFieldV, len: int)
    requires
        wf_mapfields(v, len),
        wf_mapfield(f, len),
    ensures
        wf_mapfields(v.push(f), len),
{
    assert(v.push(f).drop_last() =~= v);
}

proof fn lemma_wf_tablefields_push(v: Seq<TableFieldV>, f: TableFieldV, len: int)
    requires
        wf_tablefields(v, len),
        wf_tablefield(f, len),
    ensures
        wf_tablefields(v.push(f), len),
{
    assert(v.push(f).drop_last() =~= v);
}

proof fn lemma_wf_exprs_push(v: Seq<ExprV>, e: ExprV, len: int)
    requires
        wf_exprs(v, len),
        wf_expr(e, len),
    ensures
        wf_exprs(v.push(e), len),
{
    assert(v.push(e).drop_last() =~= v);
}

proof fn lemma_wf_stmts_push(v: Seq<StmtV>, s: StmtV, len: int)
    requires
        wf_stmts(v, len),
        wf_stmt(s, len),
    ensures
        wf_stmts(v.push(s), len),
{
    assert(v.push(s).drop_last() =~= v);
}

proof fn lemma_prepend_mapfields_assoc(
    a: Seq<ExprMapFieldV>,
    b: Seq<ExprMapFieldV>,
    r: Result<(Seq<ExprMapFieldV>, int), ParseErrorV>,
)
    ensures
        prepend_mapfields(a + b, r) == prepend_mapfields(a, prepend_mapfields(b, r)),
{
    match r {
        Result::Ok(p) => {
            assert((a + b) + p.0 =~= a + (b + p.0));
        },
        Result::Err(_) => {},
    }
}

proof fn lemma_prepend_tablefields_assoc(
    a: Seq<TableFieldV>,
    b: Seq<TableFieldV>,
    r: Result<(Seq<TableFieldV>, int), ParseErrorV>,
)
    ensures
        prepend_tablefields(a + b, r) == prepend_tablefields(a, prepend_tablefields(b, r)),
{
    match r {
        Result::Ok(p) => {
            assert((a + b) + p.0 =~= a + (b + p.0));
        },
        Result::Err(_) => {},
    }
}

proof fn lemma_prepend_exprs_assoc(
    a: Seq<ExprV>,
    b: Seq<ExprV>,
    r: Result<(Seq<ExprV>, int), ParseErrorV>,
)
    ensures
        prepend_exprs(a + b, r) == prepend_exprs(a, prepend_exprs(b, r)),
{
    match r {
        Result::Ok(p) => {
            assert((a + b) + p.0 =~= a + (b + p.0));
        },
        Result::Err(_) => {},
    }
}

proof fn lemma_prepend_stmts_assoc(
    a: Seq<StmtV>,
    b: Seq<StmtV>,
    r: Result<(Seq<StmtV>, int), ParseErrorV>,
)
    ensures
        prepend_stmts(a + b, r) == prepend_stmts(a, prepend_stmts(b, r)),
{
    match r {
        Result::Ok(p) => {
            assert((a + b) + p.0 =~= a + (b + p.0));
        },
        Result::Err(_) => {},
    }
}

// ---------------------------------------------------------------------------
// The recursive expression parsers
// ---------------------------------------------------------------------------

impl ExprUrnary {
    /// Reads a prefix operator and, right after it, its operand
    /// expression.
    pub fn parse(tokens: &mut TokenIter) -> (r: ParseResult<ExprUrnary>)
        requires
            old(tokens).wf(),
        ensures
            final(tokens).wf(),
            final(tokens).src@ == old(tokens).src@,
            ({
                let len = old(tokens).src@.len() as int;
                match sp_unary(old(tokens).src@, old(tokens).pos as int) {
                    Result::Ok((v, j)) => {
                        &&& (match r {
                            Result::Ok(x) => view_urnary(x) == v,
                            Result::Err(_) => false,
                        })
                        &&& final(tokens).pos == j
                        &&& old(tokens).pos < final(tokens).pos
                        &&& wf_urnary(v, len)
                        &&& span_within(span_of_urnary(v), old(tokens).pos as int, j)
                    },
                    Result::Err(e) => (match r {
                        Result::Err(x) => x@ == e,
                        Result::Ok(_) => false,
                    }),
                }
            }),
        decreases old(tokens).src.len() - old(tokens).pos, 30int,
    {
        let op = match tokens.next() {
            Option::None => return Err(ParseError::Eof),
            Option::Some(Result::Err(e)) => return Err(ParseError::LexError(e)),
            Option::Some(Result::Ok(t)) => match &t.kind {
                Kind::Not => UnOp::Not(t),
                Kind::LocalCoordinate => UnOp::LocalCoordinate(t),
                Kind::RelativeCoordinate => UnOp::RelativeCoordinate(t),
                Kind::FormatSelection => UnOp::FormatSelection(t),
                _ => return Err(ParseError::InvalidToken(t)),
            },
        };
        let expr = match Expr::parse(tokens) {
            Ok(e) => e,
            Err(e) => return Err(e),
        };
        Ok(ExprUrnary::new(op, Some(Box::new(expr))))
    }
}

impl ExprMapField {
    /// Reads one map field: a string-literal key, `:`, a value
    /// expression, and an optional trailing comma.
    pub fn parse(tokens: &mut TokenIter) -> (r: ParseResult<ExprMapField>)
        requires
            old(tokens).wf(),
        ensures
            final(tokens).wf(),
            final(tokens).src@ == old(tokens).src@,
            ({
                let len = old(tokens).src@.len() as int;
                match sp_mapfield(old(tokens).src@, old(tokens).pos as int) {
                    Result::Ok((v, j)) => {
                        &&& (match r {
                            Result::Ok(x) => view_mapfield(x) == v,
                            Result::Err(_) => false,
                        })
                        &&& final(tokens).pos == j
                        &&& old(tokens).pos < final(tokens).pos
                        &&& wf_mapfield(v, len)
                        &&& span_within(span_of_mapfield(v), old(tokens).pos as int, j)
                    },
                    Result::Err(e) => (match r {
                        Result::Err(x) => x@ == e,
                        Result::Ok(_) => false,
                    }),
                }
            }),
        decreases old(tokens).src.len() - old(tokens).pos, 15int,
    {
        let key = match LitString::parse(tokens) {
            Ok(k) => k,
            Err(e) => return Err(e),
        };
        let colon = match tokens.next() {
            Option::None => return Err(ParseError::Eof),
            Option::Some(Result::Err(e)) => return Err(ParseError::LexError(e)),
            Option::Some(Result::Ok(t)) => match &t.kind {
                Kind::Colon => t,
                _ => return Err(ParseError::InvalidToken(t)),
            },
        };
        let value = match Expr::parse(tokens) {
            Ok(v) => v,
            Err(e) => return Err(e),
        };
        let comma = take_comma(tokens);
        Ok(ExprMapField::new(key, colon, value, comma))
    }
}

impl ExprMap {
    /// Reads an inline map: `{`, one or more fields, `}`.
    #[verifier::rlimit(60)]
    pub fn parse(tokens: &mut TokenIter) -> (r: ParseResult<ExprMap>)
        requires
            old(tokens).wf(),
        ensures
            final(tokens).wf(),
            final(tokens).src@ == old(tokens).src@,
            ({
                let len = old(tokens).src@.len() as int;
                match sp_map(old(tokens).src@, old(tokens).pos as int) {
                    Result::Ok((v, j)) => {
                        &&& (match r {
                            Result::Ok(x) => view_map(x) == v,
                            Result::Err(_) => false,
                        })
                        &&& final(tokens).pos == j
                        &&& old(tokens).pos < final(tokens).pos
                        &&& wf_mapping(v, len)
                        &&& span_within(span_of_mapping(v), old(tokens).pos as int, j)
                    },
                    Result::Err(e) => (match r {
                        Result::Err(x) => x@ == e,
                        Result::Ok(_) => false,
                    }),
                }
            }),
        decreases old(tokens).src.len() - old(tokens).pos, 35int,
    {
        let open_tok = match tokens.next() {
            Option::None => return Err(ParseError::Eof),
            Option::Some(Result::Err(e)) => return Err(ParseError::LexError(e)),
            Option::Some(Result::Ok(t)) => match &t.kind {
                Kind::LeftBrace => t,
                _ => return Err(ParseError::InvalidToken(t)),
            },
        };
        let ghost src = tokens.src@;
        let ghost len = src.len() as int;
        let ghost p0 = old(tokens).pos as int;
        let ghost p1 = tokens.pos as int;
        let mut fields: Vec<ExprMapField> = Vec::new();
        let mut done = false;
        proof {
            match sp_mapfields(src, p1) {
                Result::Ok(p) => {
                    assert(Seq::<ExprMapFieldV>::empty() + p.0 =~= p.0);
                },
                Result::Err(_) => {},
            }
            assert(view_mapfields(fields@) =~= Seq::<ExprMapFieldV>::empty());
        }
        while !done
            invariant
                tokens.wf(),
                tokens.src@ == src,
                len == src.len() as int,
                old(tokens).src@ == src,
                old(tokens).pos == p0,
                p0 < p1 <= tokens.pos,
                (match token_at(src, p0) {
                    LexStep::Tok(k, a, b) => k is LeftBrace && b == p1,
                    _ => false,
                }),
                wf_mapfields(view_mapfields(fields@), len),
                !done ==> sp_mapfields(src, p1) == prepend_mapfields(
                    view_mapfields(fields@),
                    sp_mapfields(src, tokens.pos as int),
                ),
                done ==> sp_mapfields(src, p1) == Result::<
                    (Seq<ExprMapFieldV>, int),
                    ParseErrorV,
                >::Ok((view_mapfields(fields@), tokens.pos as int)),
                done ==> (match token_at(src, tokens.pos as int) {
                    LexStep::Tok(k, _, _) => k is RightBrace,
                    _ => false,
                }),
            decreases src.len() - tokens.pos + (if done {
                0int
            } else {
                1int
            }),
        {
            let ghost p_cur = tokens.pos as int;
            let ghost acc0 = fields@;
            let f = match ExprMapField::parse(tokens) {
                Ok(f) => f,
                Err(e) => {
                    proof {
                        if len <= p_cur {
                            assert(sp_mapfields(src, p_cur) == Result::<
                                (Seq<ExprMapFieldV>, int),
                                ParseErrorV,
                            >::Err(ParseErrorV::Eof));
                        }
                    }
                    return Err(e);
                },
            };
            fields.push(f);
            proof {
                lemma_mapfields_push(acc0, f);
                lemma_wf_mapfields_push(view_mapfields(acc0), view_mapfield(f), len);
                lemma_prepend_mapfields_assoc(
                    view_mapfields(acc0),
                    seq![view_mapfield(f)],
                    sp_mapfields(src, tokens.pos as int),
                );
            }
            match tokens.peek() {
                Option::None => {
                    return Err(ParseError::Eof);
                },
                Option::Some(Result::Err(e)) => {
                    return Err(ParseError::LexError(e));
                },
                Option::Some(Result::Ok(t)) => match &t.kind {
                    Kind::RightBrace => {
                        done = true;
                    },
                    _ => {
                        proof {
                            lemma_prepend_mapfields_assoc(
                                view_mapfields(acc0),
                                seq![view_mapfield(f)],
                                sp_mapfields(src, tokens.pos as int),
                            );
                        }
                    },
                },
            }
        }
        let close_tok = match tokens.next() {
            Option::None => return Err(ParseError::Eof),
            Option::Some(Result::Err(e)) => return Err(ParseError::LexError(e)),
            Option::Some(Result::Ok(t)) => match &t.kind {
                Kind::RightBrace => t,
                _ => return Err(ParseError::InvalidToken(t)),
            },
        };
        Ok(ExprMap { curly_open: open_tok, curly_close: close_tok, fields })
    }
}

} // verus!

verus! {

impl Expr {
    /// Reads one expression, dispatching on the lookahead token (and one
    /// more token after an integer, to tell a literal from a range).
    #[verifier::rlimit(60)]
    pub fn parse(tokens: &mut TokenIter) -> (r: ParseResult<Expr>)
        requires
            old(tokens).wf(),
        ensures
            final(tokens).wf(),
            final(tokens).src@ == old(tokens).src@,
            ({
                let len = old(tokens).src@.len() as int;
                match sp_expr(old(tokens).src@, old(tokens).pos as int) {
                    Result::Ok((v, j)) => {
                        &&& (match r {
                            Result::Ok(x) => view_expr(x) == v,
                            Result::Err(_) => false,
                        })
                        &&& final(tokens).pos == j
                        &&& old(tokens).pos < final(tokens).pos
                        &&& wf_expr(v, len)
                        &&& span_within(span_of_expr(v), old(tokens).pos as int, j)
                    },
                    Result::Err(e) => (match r {
                        Result::Err(x) => x@ == e,
                        Result::Ok(_) => false,
                    }),
                }
            }),
        decreases old(tokens).src.len() - old(tokens).pos, 40int,
    {
        match tokens.peek() {
            Option::None => Err(ParseError::Eof),
            Option::Some(Result::Err(e)) => Err(ParseError::LexError(e)),
            Option::Some(Result::Ok(t)) => match &t.kind {
                Kind::Float(_) | Kind::String(_) | Kind::Path(_) | Kind::Bool(_) => match Lit::parse(
                    tokens,
                ) {
                    Ok(l) => Ok(Expr::Lit(l)),
                    Err(e) => Err(e),
                },
                Kind::Int(_) => {
                    let second_is_limit = match tokens.peek_second() {
                        Option::Some(Result::Ok(t2)) => match &t2.kind {
                            Kind::Limit => true,
                            _ => false,
                        },
                        _ => false,
                    };
                    if second_is_limit {
                        match ExprRange::parse(tokens) {
                            Ok(x) => Ok(Expr::Range(x)),
                            Err(e) => Err(e),
                        }
                    } else {
                        match Lit::parse(tokens) {
                            Ok(l) => Ok(Expr::Lit(l)),
                            Err(e) => Err(e),
                        }
                    }
                },
                Kind::Limit => match ExprRange::parse(tokens) {
                    Ok(x) => Ok(Expr::Range(x)),
                    Err(e) => Err(e),
                },
                Kind::Not | Kind::LocalCoordinate | Kind::RelativeCoordinate
                    | Kind::FormatSelection => match ExprUrnary::parse(tokens) {
                    Ok(u) => Ok(Expr::Urnary(u)),
                    Err(e) => Err(e),
                },
                Kind::LeftBrace => match ExprMap::parse(tokens) {
                    Ok(m) => Ok(Expr::Mapping(m)),
                    Err(e) => Err(e),
                },
                Kind::Selector => match ExprTarget::parse(tokens) {
                    Ok(x) => Ok(Expr::Target(x)),
                    Err(e) => Err(e),
                },
                _ => Err(ParseError::InvalidToken(t)),
            },
        }
    }
}

impl ExprTarget {
    /// Reads a selector target: `@`, the target class, and, when the
    /// lookahead is `[`, a parameter table.
    pub fn parse(tokens: &mut TokenIter) -> (r: ParseResult<ExprTarget>)
        requires
            old(tokens).wf(),
        ensures
            final(tokens).wf(),
            final(tokens).src@ == old(tokens).src@,
            ({
                let len = old(tokens).src@.len() as int;
                match sp_target(old(tokens).src@, old(tokens).pos as int) {
                    Result::Ok((v, j)) => {
                        &&& (match r {
                            Result::Ok(x) => view_target(x) == v,
                            Result::Err(_) => false,
                        })
                        &&& final(tokens).pos == j
                        &&& old(tokens).pos < final(tokens).pos
                        &&& wf_target(v, len)
                        &&& span_within(span_of_target(v), old(tokens).pos as int, j)
                    },
                    Result::Err(e) => (match r {
                        Result::Err(x) => x@ == e,
                        Result::Ok(_) => false,
                    }),
                }
            }),
        decreases old(tokens).src.len() - old(tokens).pos, 35int,
    {
        let select = match tokens.next() {
            Option::None => return Err(ParseError::Eof),
            Option::Some(Result::Err(e)) => return Err(ParseError::LexError(e)),
            Option::Some(Result::Ok(t)) => match &t.kind {
                Kind::Selector => t,
                _ => return Err(ParseError::InvalidToken(t)),
            },
        };
        let target = match Ident::parse(tokens) {
            Ok(i) => i,
            Err(e) => return Err(e),
        };
        let has_table = match tokens.peek() {
            Option::Some(Result::Ok(t)) => match &t.kind {
                Kind::LeftBracket => true,
                _ => false,
            },
            _ => false,
        };
        if has_table {
            let tb = match Table::parse(tokens) {
                Ok(t) => t,
                Err(e) => return Err(e),
            };
            Ok(ExprTarget { select, target, params: Some(tb) })
        } else {
            Ok(ExprTarget { select, target, params: None })
        }
    }
}

impl Table {
    /// Reads a parameter table: `[`, one or more fields, `]`.
    #[verifier::rlimit(60)]
    pub fn parse(tokens: &mut TokenIter) -> (r: ParseResult<Table>)
        requires
            old(tokens).wf(),
        ensures
            final(tokens).wf(),
            final(tokens).src@ == old(tokens).src@,
            ({
                let len = old(tokens).src@.len() as int;
                match sp_table(old(tokens).src@, old(tokens).pos as int) {
                    Result::Ok((v, j)) => {
                        &&& (match r {
                            Result::Ok(x) => view_table(x) == v,
                            Result::Err(_) => false,
                        })
                        &&& final(tokens).pos == j
                        &&& old(tokens).pos < final(tokens).pos
                        &&& wf_table(v, len)
                        &&& span_within(span_of_table(v), old(tokens).pos as int, j)
                    },
                    Result::Err(e) => (match r {
                        Result::Err(x) => x@ == e,
                        Result::Ok(_) => false,
                    }),
                }
            }),
        decreases old(tokens).src.len() - old(tokens).pos, 25int,
    {
        let open_tok = match tokens.next() {
            Option::None => return Err(ParseError::Eof),
            Option::Some(Result::Err(e)) => return Err(ParseError::LexError(e)),
            Option::Some(Result::Ok(t)) => match &t.kind {
                Kind::LeftBracket => t,
                _ => return Err(ParseError::InvalidToken(t)),
            },
        };
        let ghost src = tokens.src@;
        let ghost len = src.len() as int;
        let ghost p0 = old(tokens).pos as int;
        let ghost p1 = tokens.pos as int;
        let mut fields: Vec<TableField> = Vec::new();
        let mut done = false;
        proof {
            match sp_tablefields(src, p1) {
                Result::Ok(p) => {
                    assert(Seq::<TableFieldV>::empty() + p.0 =~= p.0);
                },
                Result::Err(_) => {},
            }
            assert(view_tablefields(fields@) =~= Seq::<TableFieldV>::empty());
        }
        while !done
            invariant
                tokens.wf(),
                tokens.src@ == src,
                len == src.len() as int,
                old(tokens).src@ == src,
                old(tokens).pos == p0,
                p0 < p1 <= tokens.pos,
                (match token_at(src, p0) {
                    LexStep::Tok(k, a, b) => k is LeftBracket && b == p1,
                    _ => false,
                }),
                wf_tablefields(view_tablefields(fields@), len),
                !done ==> sp_tablefields(src, p1) == prepend_tablefields(
                    view_tablefields(fields@),
                    sp_tablefields(src, tokens.pos as int),
                ),
                done ==> sp_tablefields(src, p1) == Result::<
                    (Seq<TableFieldV>, int),
                    ParseErrorV,
                >::Ok((view_tablefields(fields@), tokens.pos as int)),
                done ==> (match token_at(src, tokens.pos as int) {
                    LexStep::Tok(k, _, _) => k is RightBracket,
                    _ => false,
                }),
            decreases src.len() - tokens.pos + (if done {
                0int
            } else {
                1int
            }),
        {
            let ghost p_cur = tokens.pos as int;
            let ghost acc0 = fields@;
            let f = match TableField::parse(tokens) {
                Ok(f) => f,
                Err(e) => {
                    proof {
                        if len <= p_cur {
                            assert(sp_tablefields(src, p_cur) == Result::<
                                (Seq<TableFieldV>, int),
                                ParseErrorV,
                            >::Err(ParseErrorV::Eof));
                        }
                    }
                    return Err(e);
                },
            };
            fields.push(f);
            proof {
                lemma_tablefields_push(acc0, f);
                lemma_wf_tablefields_push(view_tablefields(acc0), view_tablefield(f), len);
                lemma_prepend_tablefields_assoc(
                    view_tablefields(acc0),
                    seq![view_tablefield(f)],
                    sp_tablefields(src, tokens.pos as int),
                );
            }
            match tokens.peek() {
                Option::None => {
                    return Err(ParseError::Eof);
                },
                Option::Some(Result::Err(e)) => {
                    return Err(ParseError::LexError(e));
                },
                Option::Some(Result::Ok(t)) => match &t.kind {
                    Kind::RightBracket => {
                        done = true;
                    },
                    _ => {},
                },
            }
        }
        let close_tok = match tokens.next() {
            Option::None => return Err(ParseError::Eof),
            Option::Some(Result::Err(e)) => return Err(ParseError::LexError(e)),
            Option::Some(Result::Ok(t)) => match &t.kind {
                Kind::RightBracket => t,
                _ => return Err(ParseError::InvalidToken(t)),
            },
        };
        Ok(Table { bracket_open: open_tok, bracket_close: close_tok, fields })
    }
}

impl TableField {
    /// Reads one table field: an identifier key, `=`, and then a comma or
    /// the closing bracket (a flag with no value), `!` with an optional
    /// negated operand, or a full expression value; a trailing comma is
    /// consumed when present.
    #[verifier::rlimit(60)]
    pub fn parse(tokens: &mut TokenIter) -> (r: ParseResult<TableField>)
        requires
            old(tokens).wf(),
        ensures
            final(tokens).wf(),
            final(tokens).src@ == old(tokens).src@,
            ({
                let len = old(tokens).src@.len() as int;
                match sp_tablefield(old(tokens).src@, old(tokens).pos as int) {
                    Result::Ok((v, j)) => {
                        &&& (match r {
                            Result::Ok(x) => view_tablefield(x) == v,
                            Result::Err(_) => false,
                        })
                        &&& final(tokens).pos == j
                        &&& old(tokens).pos < final(tokens).pos
                        &&& wf_tablefield(v, len)
                    },
                    Result::Err(e) => (match r {
                        Result::Err(x) => x@ == e,
                        Result::Ok(_) => false,
                    }),
                }
            }),
        decreases old(tokens).src.len() - old(tokens).pos, 15int,
    {
        let key = match Ident::parse(tokens) {
            Ok(i) => i,
            Err(e) => return Err(e),
        };
        let assign = match tokens.next() {
            Option::None => return Err(ParseError::Eof),
            Option::Some(Result::Err(e)) => return Err(ParseError::LexError(e)),
            Option::Some(Result::Ok(t)) => match &t.kind {
                Kind::Assign => t,
                _ => return Err(ParseError::InvalidToken(t)),
            },
        };
        match tokens.peek() {
            Option::None => Err(ParseError::Eof),
            Option::Some(Result::Err(e)) => Err(ParseError::LexError(e)),
            Option::Some(Result::Ok(t)) => match &t.kind {
                Kind::Comma => {
                    let comma = take_comma(tokens);
                    Ok(TableField::new(key, assign, None, comma))
                },
                Kind::RightBracket => Ok(TableField::new(key, assign, None, None)),
                Kind::Not => {
                    let not_tok = match tokens.next() {
                        Option::Some(Result::Ok(t2)) => t2,
                        _ => return Err(ParseError::Eof),
                    };
                    let is_flag_end = match tokens.peek() {
                        Option::Some(Result::Ok(t2)) => match &t2.kind {
                            Kind::Comma => 1u8,
                            Kind::RightBracket => 2u8,
                            _ => 0u8,
                        },
                        _ => 0u8,
                    };
                    if is_flag_end == 1 {
                        let comma = take_comma(tokens);
                        Ok(
                            TableField::new(
                                key,
                                assign,
                                Some(Expr::Urnary(ExprUrnary::new(UnOp::Not(not_tok), None))),
                                comma,
                            ),
                        )
                    } else if is_flag_end == 2 {
                        Ok(
                            TableField::new(
                                key,
                                assign,
                                Some(Expr::Urnary(ExprUrnary::new(UnOp::Not(not_tok), None))),
                                None,
                            ),
                        )
                    } else {
                        let inner = match Expr::parse(tokens) {
                            Ok(e) => e,
                            Err(e) => return Err(e),
                        };
                        let comma = take_comma(tokens);
                        Ok(
                            TableField::new(
                                key,
                                assign,
                                Some(
                                    Expr::Urnary(
                                        ExprUrnary::new(UnOp::Not(not_tok), Some(Box::new(inner))),
                                    ),
                                ),
                                comma,
                            ),
                        )
                    }
                },
                _ => {
                    let value = match Expr::parse(tokens) {
                        Ok(v) => v,
                        Err(e) => return Err(e),
                    };
                    let comma = take_comma(tokens);
                    Ok(TableField::new(key, assign, Some(value), comma))
                },
            },
        }
    }
}

} // verus!

verus! {

impl Stmt {
    /// Reads one statement: a comment when the lookahead is a comment
    /// token, a command otherwise.
    pub fn parse(tokens: &mut TokenIter) -> (r: ParseResult<Stmt>)
        requires
            old(tokens).wf(),
        ensures
            final(tokens).wf(),
            final(tokens).src@ == old(tokens).src@,
            ({
                let len = old(tokens).src@.len() as int;
                match sp_stmt(old(tokens).src@, old(tokens).pos as int) {
                    Result::Ok((v, j)) => {
                        &&& (match r {
                            Result::Ok(x) => view_stmt(x) == v,
                            Result::Err(_) => false,
                        })
                        &&& final(tokens).pos == j
                        &&& old(tokens).pos < final(tokens).pos
                        &&& wf_stmt(v, len)
                        &&& span_within(span_of_stmt(v), old(tokens).pos as int, j)
                    },
                    Result::Err(e) => (match r {
                        Result::Err(x) => x@ == e,
                        Result::Ok(_) => false,
                    }),
                }
            }),
    {
        match tokens.peek() {
            Option::None => Err(ParseError::Eof),
            Option::Some(Result::Err(e)) => Err(ParseError::LexError(e)),
            Option::Some(Result::Ok(t)) => match &t.kind {
                Kind::Comment(_) => match StmtComment::parse(tokens) {
                    Ok(c) => Ok(Stmt::Comment(c)),
                    Err(e) => Err(e),
                },
                _ => match StmtCommand::parse(tokens) {
                    Ok(c) => Ok(Stmt::Command(c)),
                    Err(e) => Err(e),
                },
            },
        }
    }
}

impl StmtCommand {
    /// Reads a command: an optional leading slash, the name, and then its
    /// arguments, one expression after another until the input is
    /// exhausted; the argument list is absent when the input ends right
    /// after the name.
    #[verifier::rlimit(60)]
    pub fn parse(tokens: &mut TokenIter) -> (r: ParseResult<StmtCommand>)
        requires
            old(tokens).wf(),
        ensures
            final(tokens).wf(),
            final(tokens).src@ == old(tokens).src@,
            ({
                let len = old(tokens).src@.len() as int;
                match sp_command(old(tokens).src@, old(tokens).pos as int) {
                    Result::Ok((v, j)) => {
                        &&& (match r {
                            Result::Ok(x) => view_command(x) == v,
                            Result::Err(_) => false,
                        })
                        &&& final(tokens).pos == j
                        &&& old(tokens).pos < final(tokens).pos
                        &&& wf_command(v, len)
                        &&& span_within(span_of_command(v), old(tokens).pos as int, j)
                    },
                    Result::Err(e) => (match r {
                        Result::Err(x) => x@ == e,
                        Result::Ok(_) => false,
                    }),
                }
            }),
    {
        let ghost src = old(tokens).src@;
        let ghost len = src.len() as int;
        let ghost p0 = old(tokens).pos as int;
        let slash = take_slash(tokens);
        let ghost p1 = tokens.pos as int;
        let ident = match Ident::parse(tokens) {
            Ok(i) => i,
            Err(e) => return Err(e),
        };
        let ghost p2 = tokens.pos as int;
        let more = match tokens.peek() {
            Option::Some(_) => true,
            Option::None => false,
        };
        if !more {
            return Ok(StmtCommand::new(slash, ident, None));
        }
        let mut arguments: Vec<Expr> = Vec::new();
        let mut done = false;
        proof {
            match sp_args(src, p2) {
                Result::Ok(p) => {
                    assert(Seq::<ExprV>::empty() + p.0 =~= p.0);
                },
                Result::Err(_) => {},
            }
            assert(view_exprs(arguments@) =~= Seq::<ExprV>::empty());
        }
        while !done
            invariant
                tokens.wf(),
                tokens.src@ == src,
                len == src.len() as int,
                old(tokens).src@ == src,
                old(tokens).pos == p0,
                p0 <= p2 <= tokens.pos,
                ident.span.end <= p2,
                wf_exprs(view_exprs(arguments@), len),
                sp_command(src, p0) == (match sp_args(src, p2) {
                    Result::Ok((args, p3)) => Result::Ok(
                        (
                            StmtCommandV {
                                slash: (match slash {
                                    Option::Some(t) => Option::Some(t@),
                                    Option::None => Option::None,
                                }),
                                ident: ident@,
                                arguments: Option::Some(args),
                            },
                            p3,
                        ),
                    ),
                    Result::Err(e) => Result::Err(e),
                }),
                !done ==> sp_args(src, p2) == prepend_exprs(
                    view_exprs(arguments@),
                    sp_args(src, tokens.pos as int),
                ),
                done ==> sp_args(src, p2) == Result::<(Seq<ExprV>, int), ParseErrorV>::Ok(
                    (view_exprs(arguments@), tokens.pos as int),
                ),
                done ==> arguments@.len() > 0,
                arguments@.len() > 0 ==> ident.span.end <= span_of_expr(
                    view_exprs(arguments@)[arguments@.len() - 1],
                ).end && span_of_expr(view_exprs(arguments@)[arguments@.len() - 1]).end
                    <= tokens.pos,
            decreases src.len() - tokens.pos,
        {
            let ghost p_cur = tokens.pos as int;
            let ghost acc0 = arguments@;
            let expr = match Expr::parse(tokens) {
                Ok(e) => e,
                Err(e) => return Err(e),
            };
            arguments.push(expr);
            proof {
                lemma_exprs_push(acc0, expr);
                lemma_wf_exprs_push(view_exprs(acc0), view_expr(expr), len);
                lemma_view_exprs(acc0);
                lemma_view_exprs(arguments@);
                lemma_prepend_exprs_assoc(
                    view_exprs(acc0),
                    seq![view_expr(expr)],
                    sp_args(src, tokens.pos as int),
                );
            }
            let more2 = match tokens.peek() {
                Option::Some(_) => true,
                Option::None => false,
            };
            if !more2 {
                done = true;
            }
        }
        proof {
            lemma_view_exprs(arguments@);
        }
        Ok(StmtCommand::new(slash, ident, Some(arguments)))
    }
}

impl Function {
    /// Reads a whole program: statements until the input is exhausted.
    /// Empty input yields a program with no statements.
    ///
    /// The result is exactly `sp_function_from` of the source at the
    /// stream's position — a function of the text alone — so parsing the
    /// same text twice yields structurally equal results, and every span
    /// of a returned tree lies within the source.
    #[verifier::rlimit(60)]
    pub fn parse(tokens: &mut TokenIter) -> (r: ParseResult<Function>)
        requires
            old(tokens).wf(),
        ensures
            final(tokens).wf(),
            final(tokens).src@ == old(tokens).src@,
            ({
                let len = old(tokens).src@.len() as int;
                match sp_function_from(old(tokens).src@, old(tokens).pos as int) {
                    Result::Ok((v, j)) => {
                        &&& (match r {
                            Result::Ok(x) => x@ == v,
                            Result::Err(_) => false,
                        })
                        &&& final(tokens).pos == j
                        &&& old(tokens).pos <= final(tokens).pos
                        &&& wf_function(v, len)
                    },
                    Result::Err(e) => (match r {
                        Result::Err(x) => x@ == e,
                        Result::Ok(_) => false,
                    }),
                }
            }),
    {
        let ghost src = old(tokens).src@;
        let ghost len = src.len() as int;
        let ghost p0 = old(tokens).pos as int;
        let mut statements: Vec<Stmt> = Vec::new();
        let mut done = match tokens.peek() {
            Option::Some(_) => false,
            Option::None => true,
        };
        proof {
            match sp_stmts(src, p0) {
                Result::Ok(p) => {
                    assert(Seq::<StmtV>::empty() + p.0 =~= p.0);
                },
                Result::Err(_) => {},
            }
            assert(view_stmts(statements@) =~= Seq::<StmtV>::empty());
        }
        while !done
            invariant
                tokens.wf(),
                tokens.src@ == src,
                len == src.len() as int,
                old(tokens).src@ == src,
                old(tokens).pos == p0,
                p0 <= tokens.pos,
                wf_stmts(view_stmts(statements@), len),
                !done ==> !(token_at(src, tokens.pos as int) is End),
                !done ==> sp_stmts(src, p0) == prepend_stmts(
                    view_stmts(statements@),
                    sp_stmts(src, tokens.pos as int),
                ),
                done ==> sp_stmts(src, p0) == Result::<(Seq<StmtV>, int), ParseErrorV>::Ok(
                    (view_stmts(statements@), tokens.pos as int),
                ),
                statements@.len() > 0 ==> p0 <= span_of_stmt(view_stmts(statements@)[0]).start
                    && span_of_stmt(view_stmts(statements@)[0]).start <= span_of_stmt(
                    view_stmts(statements@)[statements@.len() - 1],
                ).end && span_of_stmt(view_stmts(statements@)[statements@.len() - 1]).end
                    <= tokens.pos,
            decreases src.len() - tokens.pos,
        {
            let ghost p_cur = tokens.pos as int;
            let ghost acc0 = statements@;
            let stmt = match Stmt::parse(tokens) {
                Ok(s) => s,
                Err(e) => return Err(e),
            };
            statements.push(stmt);
            proof {
                lemma_stmts_push(acc0, stmt);
                lemma_wf_stmts_push(view_stmts(acc0), view_stmt(stmt), len);
                lemma_view_stmts(acc0);
                lemma_view_stmts(statements@);
                lemma_prepend_stmts_assoc(
                    view_stmts(acc0),
                    seq![view_stmt(stmt)],
                    sp_stmts(src, tokens.pos as int),
                );
            }
            let more = match tokens.peek() {
                Option::Some(_) => true,
                Option::None => false,
            };
            if !more {
                done = true;
                proof {
                    assert(seq![view_stmt(stmt)] + Seq::<StmtV>::empty() =~= seq![
                        view_stmt(stmt),
                    ]);
                }
            }
        }
        proof {
            lemma_view_stmts(statements@);
        }
        Ok(Function::new(statements))
    }
}

/// Owns the token stream one parse reads from; each parse builds its own,
/// so runs never share state.
pub struct CommandParser {
    pub tokens: TokenIter,
}

impl CommandParser {
    /// Starts a parser over a source text.
    pub fn new(src: Vec<u8>) -> (p: CommandParser)
        ensures
            p.tokens.src@ == src@,
            p.tokens.pos == 0,
            p.tokens.wf(),
    {
        CommandParser { tokens: TokenIter::new(src) }
    }
}

/// Parsing is deterministic. Every run of [`Function::parse`] over a fresh
/// stream returns exactly `sp_parse` of the source text — a mathematical
/// function of the text alone — so any two results obtained from equal
/// texts are structurally equal, whether trees or failures.
pub proof fn lemma_parse_deterministic(
    src: Seq<u8>,
    r1: Result<FunctionV, ParseErrorV>,
    r2: Result<FunctionV, ParseErrorV>,
)
    requires
        r1 == sp_parse(src),
        r2 == sp_parse(src),
    ensures
        r1 == r2,
{
}

/// Every node of a successfully parsed program reports a span inside the
/// source: [`Function::parse`] ensures `wf_function` of everything it
/// returns, and from it the program's own span and every statement's span
/// lie within the source's bounds.
pub proof fn lemma_parse_spans_bounded(v: FunctionV, len: int, i: int)
    requires
        wf_function(v, len),
        0 <= i < v.statements.len(),
    ensures
        crate::ast::wf_span(span_of_function(v), len),
        crate::ast::wf_span(span_of_stmt(v.statements[i]), len),
{
    crate::ast::lemma_wf_stmts_index(v.statements, len, i);
}

} // verus!
