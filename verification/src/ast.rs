//! The syntax tree.
//!
//! One node type per grammar production: a [`Function`] is the whole
//! program, a sequence of statements; a statement is a command or a
//! comment; an expression is a literal, a prefix operation, a range, an
//! inline map or a selector target. Each node owns its children and can
//! report its own span by composing theirs.
//!
//! Every node type has a mathematical mirror (`FunctionV`, `ExprV`, ...)
//! with byte sequences in place of vectors; the parser's contracts are
//! stated over those mirrors. `span_of_*` give each mirror's span and
//! `wf_*` say that every span in a tree is well-formed and lies within the
//! source: what the parser guarantees of everything it returns.

use vstd::prelude::*;

use crate::span::{Span, Spanned};
use crate::token::{Token, TokenV};

verus! {

// ---------------------------------------------------------------------------
// Node types
// ---------------------------------------------------------------------------

/// A whole program: an ordered sequence of statements.
#[derive(Debug, PartialEq)]
pub struct Function {
    pub statements: Vec<Stmt>,
}

/// One statement: a command or a line comment.
#[derive(Debug, PartialEq)]
pub enum Stmt {
    Command(StmtCommand),
    Comment(StmtComment),
}

/// A command: an optional leading slash, a name, and optionally its
/// argument expressions (absent only when input ended right after the
/// name).
#[derive(Debug, PartialEq)]
pub struct StmtCommand {
    pub slash: Option<Token>,
    pub ident: Ident,
    pub arguments: Option<Vec<Expr>>,
}

/// An expression.
#[derive(Debug, PartialEq)]
pub enum Expr {
    Lit(Lit),
    Urnary(ExprUrnary),
    Range(ExprRange),
    Mapping(ExprMap),
    Target(ExprTarget),
}

/// A selector target: the `@` marker, the target class, and an optional
/// bracketed parameter table.
#[derive(Debug, PartialEq)]
pub struct ExprTarget {
    /// `@`
    pub select: Token,
    pub target: Ident,
    pub params: Option<Table>,
}

/// A bracket-delimited sequence of `key = value` fields with identifier
/// keys.
#[derive(Debug, PartialEq)]
pub struct Table {
    /// The opening `[`.
    pub bracket_open: Token,
    /// The closing `]`.
    pub bracket_close: Token,
    pub fields: Vec<TableField>,
}

/// One table field: `key = value`, `key = !value`, or the flag forms
/// `key =` and `key = !` with no value, each with an optional trailing
/// comma.
#[derive(Debug, PartialEq)]
pub struct TableField {
    pub key: Ident,
    pub eq: Token,
    pub value: Option<Expr>,
    pub comma: Option<Token>,
}

/// A bare identifier and where it stood.
#[derive(Debug, Clone, PartialEq)]
pub struct Ident {
    pub value: Vec<u8>,
    pub span: Span,
}

/// A numeric range `start .. end`; either bound may be absent.
#[derive(Debug, Clone, PartialEq)]
pub struct ExprRange {
    pub start: Option<LitInt>,
    /// `..`
    pub limit: Token,
    pub end: Option<LitInt>,
}

/// A prefix operation; the operand is absent only for the bare negation
/// flag inside a table field.
#[derive(Debug, PartialEq)]
pub struct ExprUrnary {
    pub op: UnOp,
    pub expr: Option<Box<Expr>>,
}

/// A prefix operator, carrying its token.
#[derive(Debug, Clone, PartialEq)]
pub enum UnOp {
    /// `!`
    Not(Token),
    /// `~`
    LocalCoordinate(Token),
    /// `^`
    RelativeCoordinate(Token),
    /// `§`
    FormatSelection(Token),
}

/// A literal.
#[derive(Debug, Clone, PartialEq)]
pub enum Lit {
    Int(LitInt),
    String(LitString),
    Bool(LitBool),
    Float(LitFloat),
    Path(LitPath),
}

/// An integer literal, decoded.
#[derive(Debug, Clone, PartialEq)]
pub struct LitInt {
    pub value: i32,
    pub span: Span,
}

/// A float literal, kept as its source text; callers decode it as the
/// numeric type of their choice.
#[derive(Debug, Clone, PartialEq)]
pub struct LitFloat {
    pub text: Vec<u8>,
    pub span: Span,
}

/// A quoted string literal, without the quotes.
#[derive(Debug, Clone, PartialEq)]
pub struct LitString {
    pub value: Vec<u8>,
    pub span: Span,
}

/// A brace-delimited map of string keys to expressions.
#[derive(Debug, PartialEq)]
pub struct ExprMap {
    /// The opening `{`.
    pub curly_open: Token,
    /// The closing `}`.
    pub curly_close: Token,
    pub fields: Vec<ExprMapField>,
}

/// One map entry: `"key" : value`, with an optional trailing comma.
#[derive(Debug, PartialEq)]
pub struct ExprMapField {
    pub key: LitString,
    pub colon: Token,
    pub value: Expr,
    pub comma: Option<Token>,
}

/// A boolean literal, decoded.
#[derive(Debug, Clone, PartialEq)]
pub struct LitBool {
    pub value: bool,
    pub span: Span,
}

/// A scoreboard operator and where it stood.
#[derive(Debug, Clone, PartialEq)]
pub struct ExprOperator {
    pub value: Operator,
    pub span: Span,
}

/// The scoreboard operators.
#[derive(Debug, Clone, PartialEq)]
pub enum Operator {
    /// `<>` or `=`
    Equal,
    AddAssign,
    SubAssign,
    MulAssign,
    DivAssign,
    Gt,
    Lt,
    Wildcard,
}

/// A line comment's text (leading `#`s and surrounding whitespace
/// stripped) and where it stood.
#[derive(Debug, Clone, PartialEq)]
pub struct StmtComment {
    pub value: Vec<u8>,
    pub span: Span,
}

/// A slash-segmented path literal.
#[derive(Debug, Clone, PartialEq)]
pub struct LitPath {
    pub value: Vec<u8>,
    pub span: Span,
}

// ---------------------------------------------------------------------------
// Mathematical mirrors
// ---------------------------------------------------------------------------

/// Mirror of [`Function`].
pub struct FunctionV {
    pub statements: Seq<StmtV>,
}

/// Mirror of [`Stmt`].
pub enum StmtV {
    Command(StmtCommandV),
    Comment(StmtCommentV),
}

/// Mirror of [`StmtCommand`].
pub struct StmtCommandV {
    pub slash: Option<TokenV>,
    pub ident: IdentV,
    pub arguments: Option<Seq<ExprV>>,
}

/// Mirror of [`Expr`].
pub enum ExprV {
    Lit(LitV),
    Urnary(ExprUrnaryV),
    Range(ExprRangeV),
    Mapping(ExprMapV),
    Target(ExprTargetV),
}

/// Mirror of [`ExprTarget`].
pub struct ExprTargetV {
    pub select: TokenV,
    pub target: IdentV,
    pub params: Option<TableV>,
}

/// Mirror of [`Table`].
pub struct TableV {
    pub bracket_open: TokenV,
    pub bracket_close: TokenV,
    pub fields: Seq<TableFieldV>,
}

/// Mirror of [`TableField`].
pub struct TableFieldV {
    pub key: IdentV,
    pub eq: TokenV,
    pub value: Option<Box<ExprV>>,
    pub comma: Option<TokenV>,
}

/// Mirror of [`Ident`].
pub struct IdentV {
    pub value: Seq<u8>,
    pub span: Span,
}

/// Mirror of [`ExprRange`].
pub struct ExprRangeV {
    pub start: Option<LitInt>,
    pub limit: TokenV,
    pub end: Option<LitInt>,
}

/// Mirror of [`ExprUrnary`].
pub struct ExprUrnaryV {
    pub op: UnOpV,
    pub expr: Option<Box<ExprV>>,
}

/// Mirror of [`UnOp`].
pub enum UnOpV {
    Not(TokenV),
    LocalCoordinate(TokenV),
    RelativeCoordinate(TokenV),
    FormatSelection(TokenV),
}

/// Mirror of [`Lit`].
pub enum LitV {
    Int(LitInt),
    String(LitStringV),
    Bool(LitBool),
    Float(LitFloatV),
    Path(LitPathV),
}

/// Mirror of [`LitString`].
pub struct LitStringV {
    pub value: Seq<u8>,
    pub span: Span,
}

/// Mirror of [`LitFloat`].
pub struct LitFloatV {
    pub text: Seq<u8>,
    pub span: Span,
}

/// Mirror of [`ExprMap`].
pub struct ExprMapV {
    pub curly_open: TokenV,
    pub curly_close: TokenV,
    pub fields: Seq<ExprMapFieldV>,
}

/// Mirror of [`ExprMapField`].
pub struct ExprMapFieldV {
    pub key: LitStringV,
    pub colon: TokenV,
    pub value: Box<ExprV>,
    pub comma: Option<TokenV>,
}

/// Mirror of [`StmtComment`].
pub struct StmtCommentV {
    pub value: Seq<u8>,
    pub span: Span,
}

/// Mirror of [`LitPath`].
pub struct LitPathV {
    pub value: Seq<u8>,
    pub span: Span,
}

// ---------------------------------------------------------------------------
// View functions: each node's mathematical mirror
// ---------------------------------------------------------------------------

impl View for Ident {
    type V = IdentV;

    open spec fn view(&self) -> IdentV {
        IdentV { value: self.value@, span: self.span }
    }
}

impl View for LitString {
    type V = LitStringV;

    open spec fn view(&self) -> LitStringV {
        LitStringV { value: self.value@, span: self.span }
    }
}

impl View for LitFloat {
    type V = LitFloatV;

    open spec fn view(&self) -> LitFloatV {
        LitFloatV { text: self.text@, span: self.span }
    }
}

impl View for StmtComment {
    type V = StmtCommentV;

    open spec fn view(&self) -> StmtCommentV {
        StmtCommentV { value: self.value@, span: self.span }
    }
}

impl View for LitPath {
    type V = LitPathV;

    open spec fn view(&self) -> LitPathV {
        LitPathV { value: self.value@, span: self.span }
    }
}

impl View for UnOp {
    type V = UnOpV;

    open spec fn view(&self) -> UnOpV {
        match self {
            UnOp::Not(t) => UnOpV::Not(t@),
            UnOp::LocalCoordinate(t) => UnOpV::LocalCoordinate(t@),
            UnOp::RelativeCoordinate(t) => UnOpV::RelativeCoordinate(t@),
            UnOp::FormatSelection(t) => UnOpV::FormatSelection(t@),
        }
    }
}

impl View for Lit {
    type V = LitV;

    open spec fn view(&self) -> LitV {
        match self {
            Lit::Int(l) => LitV::Int(*l),
            Lit::String(l) => LitV::String(l@),
            Lit::Bool(l) => LitV::Bool(*l),
            Lit::Float(l) => LitV::Float(l@),
            Lit::Path(l) => LitV::Path(l@),
        }
    }
}

/// Mirror of an expression.
pub open spec fn view_expr(e: Expr) -> ExprV
    decreases e,
{
    match e {
        Expr::Lit(l) => ExprV::Lit(l@),
        Expr::Urnary(u) => ExprV::Urnary(view_urnary(u)),
        Expr::Range(r) => ExprV::Range(
            ExprRangeV { start: r.start, limit: r.limit@, end: r.end },
        ),
        Expr::Mapping(m) => ExprV::Mapping(view_map(m)),
        Expr::Target(t) => ExprV::Target(view_target(t)),
    }
}

/// Mirror of a prefix operation.
pub open spec fn view_urnary(u: ExprUrnary) -> ExprUrnaryV
    decreases u,
{
    ExprUrnaryV {
        op: u.op@,
        expr: match u.expr {
            Option::Some(b) => Option::Some(Box::new(view_expr(*b))),
            Option::None => Option::None,
        },
    }
}

/// Mirror of an inline map.
pub open spec fn view_map(m: ExprMap) -> ExprMapV
    decreases m,
{
    ExprMapV {
        curly_open: m.curly_open@,
        curly_close: m.curly_close@,
        fields: view_mapfields(m.fields@),
    }
}

/// Mirror of a sequence of map fields.
pub open spec fn view_mapfields(v: Seq<ExprMapField>) -> Seq<ExprMapFieldV>
    decreases v,
{
    if v.len() == 0 {
        Seq::empty()
    } else {
        view_mapfields(v.drop_last()).push(view_mapfield(v.last()))
    }
}

/// Mirror of one map field.
pub open spec fn view_mapfield(f: ExprMapField) -> ExprMapFieldV
    decreases f,
{
    ExprMapFieldV {
        key: f.key@,
        colon: f.colon@,
        value: Box::new(view_expr(f.value)),
        comma: match f.comma {
            Option::Some(t) => Option::Some(t@),
            Option::None => Option::None,
        },
    }
}

/// Mirror of a selector target.
pub open spec fn view_target(t: ExprTarget) -> ExprTargetV
    decreases t,
{
    ExprTargetV {
        select: t.select@,
        target: t.target@,
        params: match t.params {
            Option::Some(tb) => Option::Some(view_table(tb)),
            Option::None => Option::None,
        },
    }
}

/// Mirror of a parameter table.
pub open spec fn view_table(t: Table) -> TableV
    decreases t,
{
    TableV {
        bracket_open: t.bracket_open@,
        bracket_close: t.bracket_close@,
        fields: view_tablefields(t.fields@),
    }
}

/// Mirror of a sequence of table fields.
pub open spec fn view_tablefields(v: Seq<TableField>) -> Seq<TableFieldV>
    decreases v,
{
    if v.len() == 0 {
        Seq::empty()
    } else {
        view_tablefields(v.drop_last()).push(view_tablefield(v.last()))
    }
}

/// Mirror of one table field.
pub open spec fn view_tablefield(f: TableField) -> TableFieldV
    decreases f,
{
    TableFieldV {
        key: f.key@,
        eq: f.eq@,
        value: match f.value {
            Option::Some(e) => Option::Some(Box::new(view_expr(e))),
            Option::None => Option::None,
        },
        comma: match f.comma {
            Option::Some(t) => Option::Some(t@),
            Option::None => Option::None,
        },
    }
}

/// Mirror of a statement.
pub open spec fn view_stmt(s: Stmt) -> StmtV {
    match s {
        Stmt::Command(c) => StmtV::Command(view_command(c)),
        Stmt::Comment(c) => StmtV::Comment(c@),
    }
}

/// Mirror of a command.
pub open spec fn view_command(c: StmtCommand) -> StmtCommandV {
    StmtCommandV {
        slash: match c.slash {
            Option::Some(t) => Option::Some(t@),
            Option::None => Option::None,
        },
        ident: c.ident@,
        arguments: match c.arguments {
            Option::Some(args) => Option::Some(view_exprs(args@)),
            Option::None => Option::None,
        },
    }
}

/// Mirror of a sequence of expressions.
pub open spec fn view_exprs(v: Seq<Expr>) -> Seq<ExprV>
    decreases v,
{
    if v.len() == 0 {
        Seq::empty()
    } else {
        view_exprs(v.drop_last()).push(view_expr(v.last()))
    }
}

/// Mirror of a sequence of statements.
pub open spec fn view_stmts(v: Seq<Stmt>) -> Seq<StmtV>
    decreases v,
{
    if v.len() == 0 {
        Seq::empty()
    } else {
        view_stmts(v.drop_last()).push(view_stmt(v.last()))
    }
}

impl View for Expr {
    type V = ExprV;

    open spec fn view(&self) -> ExprV {
        view_expr(*self)
    }
}

impl View for Stmt {
    type V = StmtV;

    open spec fn view(&self) -> StmtV {
        view_stmt(*self)
    }
}

impl View for Function {
    type V = FunctionV;

    open spec fn view(&self) -> FunctionV {
        FunctionV { statements: view_stmts(self.statements@) }
    }
}

} // verus!

verus! {

// ---------------------------------------------------------------------------
// Spans of the mirrors
// ---------------------------------------------------------------------------

/// Span of a prefix operator.
pub open spec fn span_of_unop(op: UnOpV) -> Span {
    match op {
        UnOpV::Not(t) => t.span,
        UnOpV::LocalCoordinate(t) => t.span,
        UnOpV::RelativeCoordinate(t) => t.span,
        UnOpV::FormatSelection(t) => t.span,
    }
}

/// Span of a literal.
pub open spec fn span_of_lit(l: LitV) -> Span {
    match l {
        LitV::Int(x) => x.span,
        LitV::String(x) => x.span,
        LitV::Bool(x) => x.span,
        LitV::Float(x) => x.span,
        LitV::Path(x) => x.span,
    }
}

/// Span of a range: from its first child to its last.
pub open spec fn span_of_range(r: ExprRangeV) -> Span {
    Span {
        start: match r.start {
            Option::Some(i) => i.span.start,
            Option::None => r.limit.span.start,
        },
        end: match r.end {
            Option::Some(i) => i.span.end,
            Option::None => r.limit.span.end,
        },
    }
}

/// Span of an inline map: from `{` to `}`.
pub open spec fn span_of_mapping(m: ExprMapV) -> Span {
    Span { start: m.curly_open.span.start, end: m.curly_close.span.end }
}

/// Span of a parameter table: from `[` to `]`.
pub open spec fn span_of_table(t: TableV) -> Span {
    Span { start: t.bracket_open.span.start, end: t.bracket_close.span.end }
}

/// Span of a selector target: from `@` to the table's `]` or the class.
pub open spec fn span_of_target(t: ExprTargetV) -> Span {
    Span {
        start: t.select.span.start,
        end: match t.params {
            Option::Some(tb) => tb.bracket_close.span.end,
            Option::None => t.target.span.end,
        },
    }
}

/// Span of an expression: the union of its first and last child's spans.
pub open spec fn span_of_expr(e: ExprV) -> Span
    decreases e,
{
    match e {
        ExprV::Lit(l) => span_of_lit(l),
        ExprV::Urnary(u) => span_of_urnary(u),
        ExprV::Range(r) => span_of_range(r),
        ExprV::Mapping(m) => span_of_mapping(m),
        ExprV::Target(t) => span_of_target(t),
    }
}

/// Span of a prefix operation: from the operator to its operand's end.
pub open spec fn span_of_urnary(u: ExprUrnaryV) -> Span
    decreases u,
{
    Span {
        start: span_of_unop(u.op).start,
        end: match u.expr {
            Option::Some(b) => span_of_expr(*b).end,
            Option::None => span_of_unop(u.op).end,
        },
    }
}

/// Span of one map field: from the key to the comma or the value.
pub open spec fn span_of_mapfield(f: ExprMapFieldV) -> Span {
    Span {
        start: f.key.span.start,
        end: match f.comma {
            Option::Some(c) => c.span.end,
            Option::None => span_of_expr(*f.value).end,
        },
    }
}

/// Span of a command: from the slash or the name to the last argument or
/// the name.
pub open spec fn span_of_command(c: StmtCommandV) -> Span {
    Span {
        start: match c.slash {
            Option::Some(t) => t.span.start,
            Option::None => c.ident.span.start,
        },
        end: match c.arguments {
            Option::Some(args) => if args.len() > 0 {
                span_of_expr(args[args.len() - 1]).end
            } else {
                c.ident.span.end
            },
            Option::None => c.ident.span.end,
        },
    }
}

/// Span of a statement.
pub open spec fn span_of_stmt(s: StmtV) -> Span {
    match s {
        StmtV::Command(c) => span_of_command(c),
        StmtV::Comment(c) => c.span,
    }
}

/// Span of a whole program: the union of its first and last statement's
/// spans, or the zero-width span at offset 0 when it has none.
pub open spec fn span_of_function(f: FunctionV) -> Span {
    Span {
        start: if f.statements.len() > 0 {
            span_of_stmt(f.statements[0]).start
        } else {
            0
        },
        end: if f.statements.len() > 0 {
            span_of_stmt(f.statements[f.statements.len() - 1]).end
        } else {
            0
        },
    }
}

// ---------------------------------------------------------------------------
// Well-formedness: every span in a tree lies inside the source
// ---------------------------------------------------------------------------

/// A span is well-formed for a source of length `len` when it is ordered
/// and lies within the source.
pub open spec fn wf_span(s: Span, len: int) -> bool {
    s.start <= s.end && s.end <= len
}

/// Well-formedness of an optional stored token.
pub open spec fn wf_opt_token(t: Option<TokenV>, len: int) -> bool {
    match t {
        Option::Some(t) => wf_span(t.span, len),
        Option::None => true,
    }
}

/// Every span in an expression lies inside the source.
pub open spec fn wf_expr(e: ExprV, len: int) -> bool
    decreases e,
{
    match e {
        ExprV::Lit(l) => wf_span(span_of_lit(l), len),
        ExprV::Urnary(u) => wf_urnary(u, len),
        ExprV::Range(r) => wf_range(r, len),
        ExprV::Mapping(m) => wf_mapping(m, len),
        ExprV::Target(t) => wf_target(t, len),
    }
}

/// Every span in a prefix operation lies inside the source.
pub open spec fn wf_urnary(u: ExprUrnaryV, len: int) -> bool
    decreases u,
{
    wf_span(span_of_unop(u.op), len) && wf_span(span_of_urnary(u), len) && (match u.expr {
        Option::Some(b) => wf_expr(*b, len),
        Option::None => true,
    })
}

/// Every span in a range lies inside the source.
pub open spec fn wf_range(r: ExprRangeV, len: int) -> bool {
    wf_span(r.limit.span, len) && (match r.start {
        Option::Some(i) => wf_span(i.span, len),
        Option::None => true,
    }) && (match r.end {
        Option::Some(i) => wf_span(i.span, len),
        Option::None => true,
    }) && wf_span(span_of_range(r), len)
}

/// Every span in an inline map lies inside the source.
pub open spec fn wf_mapping(m: ExprMapV, len: int) -> bool
    decreases m,
{
    wf_span(m.curly_open.span, len) && wf_span(m.curly_close.span, len) && wf_span(
        span_of_mapping(m),
        len,
    ) && wf_mapfields(m.fields, len)
}

/// Every span in a sequence of map fields lies inside the source.
pub open spec fn wf_mapfields(v: Seq<ExprMapFieldV>, len: int) -> bool
    decreases v,
{
    v.len() == 0 || (wf_mapfields(v.drop_last(), len) && wf_mapfield(v.last(), len))
}

/// Every span in one map field lies inside the source.
pub open spec fn wf_mapfield(f: ExprMapFieldV, len: int) -> bool
    decreases f,
{
    wf_span(f.key.span, len) && wf_span(f.colon.span, len) && wf_opt_token(f.comma, len)
        && wf_expr(*f.value, len) && wf_span(span_of_mapfield(f), len)
}

/// Every span in a selector target lies inside the source.
pub open spec fn wf_target(t: ExprTargetV, len: int) -> bool
    decreases t,
{
    wf_span(t.select.span, len) && wf_span(t.target.span, len) && wf_span(span_of_target(t), len)
        && (match t.params {
        Option::Some(tb) => wf_table(tb, len),
        Option::None => true,
    })
}

/// Every span in a parameter table lies inside the source.
pub open spec fn wf_table(t: TableV, len: int) -> bool
    decreases t,
{
    wf_span(t.bracket_open.span, len) && wf_span(t.bracket_close.span, len) && wf_span(
        span_of_table(t),
        len,
    ) && wf_tablefields(t.fields, len)
}

/// Every span in a sequence of table fields lies inside the source.
pub open spec fn wf_tablefields(v: Seq<TableFieldV>, len: int) -> bool
    decreases v,
{
    v.len() == 0 || (wf_tablefields(v.drop_last(), len) && wf_tablefield(v.last(), len))
}

/// Every span in one table field lies inside the source.
pub open spec fn wf_tablefield(f: TableFieldV, len: int) -> bool
    decreases f,
{
    wf_span(f.key.span, len) && wf_span(f.eq.span, len) && wf_opt_token(f.comma, len) && (match f
        .value {
        Option::Some(b) => wf_expr(*b, len),
        Option::None => true,
    })
}

/// Every span in a sequence of expressions lies inside the source.
pub open spec fn wf_exprs(v: Seq<ExprV>, len: int) -> bool
    decreases v,
{
    v.len() == 0 || (wf_exprs(v.drop_last(), len) && wf_expr(v.last(), len))
}

/// Every span in a command lies inside the source.
pub open spec fn wf_command(c: StmtCommandV, len: int) -> bool {
    wf_opt_token(c.slash, len) && wf_span(c.ident.span, len) && wf_span(span_of_command(c), len)
        && (match c.arguments {
        Option::Some(args) => wf_exprs(args, len),
        Option::None => true,
    })
}

/// Every span in a statement lies inside the source.
pub open spec fn wf_stmt(s: StmtV, len: int) -> bool {
    match s {
        StmtV::Command(c) => wf_command(c, len),
        StmtV::Comment(c) => wf_span(c.span, len),
    }
}

/// Every span in a sequence of statements lies inside the source.
pub open spec fn wf_stmts(v: Seq<StmtV>, len: int) -> bool
    decreases v,
{
    v.len() == 0 || (wf_stmts(v.drop_last(), len) && wf_stmt(v.last(), len))
}

/// Every span in a whole program lies inside the source.
pub open spec fn wf_function(f: FunctionV, len: int) -> bool {
    wf_span(span_of_function(f), len) && wf_stmts(f.statements, len)
}

// ---------------------------------------------------------------------------
// List view lemmas
// ---------------------------------------------------------------------------

/// `view_stmts` maps the mirror over the elements, index by index.
pub proof fn lemma_view_stmts(v: Seq<Stmt>)
    ensures
        view_stmts(v).len() == v.len(),
        forall|i: int| 0 <= i < v.len() ==> view_stmts(v)[i] == view_stmt(v[i]),
    decreases v,
{
    if v.len() > 0 {
        lemma_view_stmts(v.drop_last());
    }
}

/// `view_exprs` maps the mirror over the elements, index by index.
pub proof fn lemma_view_exprs(v: Seq<Expr>)
    ensures
        view_exprs(v).len() == v.len(),
        forall|i: int| 0 <= i < v.len() ==> view_exprs(v)[i] == view_expr(v[i]),
    decreases v,
{
    if v.len() > 0 {
        lemma_view_exprs(v.drop_last());
    }
}

} // verus!

verus! {

// ---------------------------------------------------------------------------
// Reporting spans
// ---------------------------------------------------------------------------

impl Spanned for Function {
    open spec fn spec_span(&self) -> Span {
        span_of_function(self@)
    }

    fn span(&self) -> (s: Span) {
        proof {
            lemma_view_stmts(self.statements@);
        }
        let n = self.statements.len();
        let start = if n > 0 {
            self.statements[0].span().start
        } else {
            0
        };
        let end = if n > 0 {
            self.statements[n - 1].span().end
        } else {
            0
        };
        Span::new(start, end)
    }
}

impl Spanned for Stmt {
    open spec fn spec_span(&self) -> Span {
        span_of_stmt(view_stmt(*self))
    }

    fn span(&self) -> (s: Span) {
        match self {
            Stmt::Command(c) => c.span(),
            Stmt::Comment(c) => c.span(),
        }
    }
}

impl Spanned for StmtCommand {
    open spec fn spec_span(&self) -> Span {
        span_of_command(view_command(*self))
    }

    fn span(&self) -> (s: Span) {
        let start = match &self.slash {
            Option::Some(t) => t.span.start,
            Option::None => self.ident.span.start,
        };
        let end = match &self.arguments {
            Option::Some(args) => if args.len() > 0 {
                proof {
                    lemma_view_exprs(args@);
                }
                args[args.len() - 1].span().end
            } else {
                self.ident.span.end
            },
            Option::None => self.ident.span.end,
        };
        Span::new(start, end)
    }
}

impl Spanned for Expr {
    open spec fn spec_span(&self) -> Span {
        span_of_expr(view_expr(*self))
    }

    fn span(&self) -> (s: Span)
        decreases *self,
    {
        match self {
            Expr::Lit(l) => l.span(),
            Expr::Urnary(u) => u.span(),
            Expr::Range(r) => r.span(),
            Expr::Mapping(m) => m.span(),
            Expr::Target(t) => t.span(),
        }
    }
}

impl Spanned for ExprUrnary {
    open spec fn spec_span(&self) -> Span {
        span_of_urnary(view_urnary(*self))
    }

    fn span(&self) -> (s: Span)
        decreases *self,
    {
        let op_span = self.op.span();
        let end = match &self.expr {
            Option::Some(e) => (&**e).span().end,
            Option::None => op_span.end,
        };
        Span::new(op_span.start, end)
    }
}

impl Spanned for UnOp {
    open spec fn spec_span(&self) -> Span {
        span_of_unop(self@)
    }

    fn span(&self) -> (s: Span) {
        match self {
            UnOp::Not(t) => t.span,
            UnOp::LocalCoordinate(t) => t.span,
            UnOp::RelativeCoordinate(t) => t.span,
            UnOp::FormatSelection(t) => t.span,
        }
    }
}

impl Spanned for ExprRange {
    open spec fn spec_span(&self) -> Span {
        span_of_range(ExprRangeV { start: self.start, limit: self.limit@, end: self.end })
    }

    fn span(&self) -> (s: Span) {
        let start = match &self.start {
            Option::Some(i) => i.span.start,
            Option::None => self.limit.span.start,
        };
        let end = match &self.end {
            Option::Some(i) => i.span.end,
            Option::None => self.limit.span.end,
        };
        Span::new(start, end)
    }
}

impl Spanned for ExprMap {
    open spec fn spec_span(&self) -> Span {
        span_of_mapping(view_map(*self))
    }

    fn span(&self) -> (s: Span) {
        Span::new(self.curly_open.span.start, self.curly_close.span.end)
    }
}

impl Spanned for ExprMapField {
    open spec fn spec_span(&self) -> Span {
        span_of_mapfield(view_mapfield(*self))
    }

    fn span(&self) -> (s: Span) {
        let end = match &self.comma {
            Option::Some(c) => c.span.end,
            Option::None => self.value.span().end,
        };
        Span::new(self.key.span.start, end)
    }
}

impl Spanned for ExprTarget {
    open spec fn spec_span(&self) -> Span {
        span_of_target(view_target(*self))
    }

    fn span(&self) -> (s: Span) {
        let end = match &self.params {
            Option::Some(t) => t.bracket_close.span.end,
            Option::None => self.target.span.end,
        };
        Span::new(self.select.span.start, end)
    }
}

impl Spanned for Table {
    open spec fn spec_span(&self) -> Span {
        span_of_table(view_table(*self))
    }

    fn span(&self) -> (s: Span) {
        Span::new(self.bracket_open.span.start, self.bracket_close.span.end)
    }
}

impl Spanned for Lit {
    open spec fn spec_span(&self) -> Span {
        span_of_lit(self@)
    }

    fn span(&self) -> (s: Span) {
        match self {
            Lit::Int(l) => l.span,
            Lit::String(l) => l.span,
            Lit::Bool(l) => l.span,
            Lit::Float(l) => l.span,
            Lit::Path(l) => l.span,
        }
    }
}

impl Spanned for Ident {
    open spec fn spec_span(&self) -> Span {
        self.span
    }

    fn span(&self) -> (s: Span) {
        self.span
    }
}

impl Spanned for LitInt {
    open spec fn spec_span(&self) -> Span {
        self.span
    }

    fn span(&self) -> (s: Span) {
        self.span
    }
}

impl Spanned for LitFloat {
    open spec fn spec_span(&self) -> Span {
        self.span
    }

    fn span(&self) -> (s: Span) {
        self.span
    }
}

impl Spanned for LitString {
    open spec fn spec_span(&self) -> Span {
        self.span
    }

    fn span(&self) -> (s: Span) {
        self.span
    }
}

impl Spanned for LitBool {
    open spec fn spec_span(&self) -> Span {
        self.span
    }

    fn span(&self) -> (s: Span) {
        self.span
    }
}

impl Spanned for LitPath {
    open spec fn spec_span(&self) -> Span {
        self.span
    }

    fn span(&self) -> (s: Span) {
        self.span
    }
}

impl Spanned for StmtComment {
    open spec fn spec_span(&self) -> Span {
        self.span
    }

    fn span(&self) -> (s: Span) {
        self.span
    }
}

// ---------------------------------------------------------------------------
// Constructors
// ---------------------------------------------------------------------------

impl Function {
    /// Builds a program from its statements.
    pub fn new(statements: Vec<Stmt>) -> (f: Function)
        ensures
            f.statements == statements,
    {
        Function { statements }
    }
}

impl StmtCommand {
    /// Builds a command from its parts.
    pub fn new(slash: Option<Token>, ident: Ident, arguments: Option<Vec<Expr>>) -> (c:
        StmtCommand)
        ensures
            c.slash == slash,
            c.ident == ident,
            c.arguments == arguments,
    {
        StmtCommand { slash, ident, arguments }
    }
}

impl Table {
    /// Builds a table from its bracket pair and fields.
    pub fn new(brackets: (Token, Token), fields: Vec<TableField>) -> (t: Table)
        ensures
            t.bracket_open == brackets.0,
            t.bracket_close == brackets.1,
            t.fields == fields,
    {
        Table { bracket_open: brackets.0, bracket_close: brackets.1, fields }
    }
}

impl TableField {
    /// Builds a table field from its parts.
    pub fn new(key: Ident, assign: Token, value: Option<Expr>, comma: Option<Token>) -> (f:
        TableField)
        ensures
            f.key == key,
            f.eq == assign,
            f.value == value,
            f.comma == comma,
    {
        TableField { key, eq: assign, value, comma }
    }
}

impl Ident {
    /// Builds an identifier from its text and span.
    pub fn new(value: Vec<u8>, span: Span) -> (x: Ident)
        ensures
            x.value == value,
            x.span == span,
    {
        Ident { value, span }
    }
}

impl ExprRange {
    /// Builds a range from its parts.
    pub fn new(start: Option<LitInt>, limit: Token, end: Option<LitInt>) -> (r: ExprRange)
        ensures
            r.start == start,
            r.limit == limit,
            r.end == end,
    {
        ExprRange { start, limit, end }
    }
}

impl ExprUrnary {
    /// Builds a prefix operation from its operator and optional operand.
    pub fn new(op: UnOp, expr: Option<Box<Expr>>) -> (u: ExprUrnary)
        ensures
            u.op == op,
            u.expr == expr,
    {
        ExprUrnary { op, expr }
    }
}

impl LitInt {
    /// Builds an integer literal.
    pub fn new(value: i32, span: Span) -> (x: LitInt)
        ensures
            x.value == value,
            x.span == span,
    {
        LitInt { value, span }
    }
}

impl LitFloat {
    /// Builds a float literal from its source text.
    pub fn new(text: Vec<u8>, span: Span) -> (x: LitFloat)
        ensures
            x.text == text,
            x.span == span,
    {
        LitFloat { text, span }
    }
}

impl LitString {
    /// Builds a string literal.
    pub fn new(value: Vec<u8>, span: Span) -> (x: LitString)
        ensures
            x.value == value,
            x.span == span,
    {
        LitString { value, span }
    }
}

impl ExprMapField {
    /// Builds a map field from its parts.
    pub fn new(key: LitString, colon: Token, value: Expr, comma: Option<Token>) -> (f:
        ExprMapField)
        ensures
            f.key == key,
            f.colon == colon,
            f.value == value,
            f.comma == comma,
    {
        ExprMapField { key, colon, value, comma }
    }
}

impl LitBool {
    /// Builds a boolean literal.
    pub fn new(value: bool, span: Span) -> (x: LitBool)
        ensures
            x.value == value,
            x.span == span,
    {
        LitBool { value, span }
    }
}

impl StmtComment {
    /// Builds a comment statement from its text and span.
    pub fn new(value: Vec<u8>, span: Span) -> (x: StmtComment)
        ensures
            x.value == value,
            x.span == span,
    {
        StmtComment { value, span }
    }
}

impl LitPath {
    /// Builds a path literal.
    pub fn new(value: Vec<u8>, span: Span) -> (x: LitPath)
        ensures
            x.value == value,
            x.span == span,
    {
        LitPath { value, span }
    }
}

} // verus!

verus! {

/// Within a well-formed statement sequence, every statement is
/// well-formed: every node of a successfully parsed program, at any
/// depth, reports a span inside the source.
pub proof fn lemma_wf_stmts_index(v: Seq<StmtV>, len: int, i: int)
    requires
        wf_stmts(v, len),
        0 <= i < v.len(),
    ensures
        wf_stmt(v[i], len),
    decreases v,
{
    if i < v.len() - 1 {
        lemma_wf_stmts_index(v.drop_last(), len, i);
    }
}

} // verus!
