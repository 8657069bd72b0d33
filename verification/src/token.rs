//! Lexical analysis.
//!
//! The lexer turns the source bytes into a lazy, finite sequence of
//! `(kind, span)` tokens, one token per pull. The lexical grammar itself is
//! written down once, as the specification function [`token_at`]: given the
//! source and a scan position it says exactly which token (or lexical
//! failure) starts there and where the scan continues. The executable
//! [`TokenIter`] is verified to produce precisely that sequence, so lexing
//! is deterministic by construction.
//!
//! Whitespace (space, tab, carriage return) is skipped between tokens;
//! newline is a token of its own. Numeric literals take precedence over the
//! identifier pattern; the slash-segmented path pattern applies only when a
//! word is followed by an internal `/`. A literal with a decimal point is a
//! float, otherwise an int; `true` and `false` are the boolean literals; a
//! line comment runs from `#` to the next newline, stored with the leading
//! `#`s and surrounding whitespace stripped.

use vstd::prelude::*;

use crate::span::{Span, Spanned};

verus! {

// ---------------------------------------------------------------------------
// Token kinds and lexical errors
// ---------------------------------------------------------------------------

/// The classification of one token, with decoded or sliced-out payloads.
///
/// Text payloads (identifiers, paths, string and float literals, comments)
/// are byte strings copied out of the source.
#[derive(Debug, Clone, PartialEq)]
pub enum Kind {
    /// End of input; never produced by the stream (it ends instead).
    Eof,
    /// `§` followed by one character.
    FormatSelection,
    /// A numeric literal containing a decimal point, kept as its source text.
    Float(Vec<u8>),
    /// An integer literal, decoded.
    Int(i32),
    /// A quoted string literal; the payload excludes the quotes.
    String(Vec<u8>),
    /// A bare word.
    Ident(Vec<u8>),
    /// A slash-segmented path such as `a/b/c`.
    Path(Vec<u8>),
    /// `/`
    Slash,
    /// `}`
    RightBrace,
    /// `{`
    LeftBrace,
    /// `[`
    LeftBracket,
    /// `]`
    RightBracket,
    /// `@`
    Selector,
    /// `,`
    Comma,
    /// `-`
    Neg,
    /// `!`
    Not,
    /// `..`
    Limit,
    /// `=`; acts as `Equal` for scoreboards.
    Assign,
    /// `<>`
    Equal,
    /// `+=`
    AddAssign,
    /// `-=`
    SubAssign,
    /// `*=`
    MulAssign,
    /// `/=`
    DivAssign,
    /// `>`
    Gt,
    /// `<`
    Lt,
    /// `*`
    Wildcard,
    /// `true` or `false`, decoded.
    Bool(bool),
    /// `~`
    LocalCoordinate,
    /// `^`
    RelativeCoordinate,
    /// A line comment, stripped of leading `#`s and surrounding whitespace.
    Comment(Vec<u8>),
    /// `\n`
    LineBreak,
    /// `:`
    Colon,
}

/// The mathematical image of a [`Kind`]: payloads as byte sequences.
pub enum KindV {
    Eof,
    FormatSelection,
    Float(Seq<u8>),
    Int(i32),
    String(Seq<u8>),
    Ident(Seq<u8>),
    Path(Seq<u8>),
    Slash,
    RightBrace,
    LeftBrace,
    LeftBracket,
    RightBracket,
    Selector,
    Comma,
    Neg,
    Not,
    Limit,
    Assign,
    Equal,
    AddAssign,
    SubAssign,
    MulAssign,
    DivAssign,
    Gt,
    Lt,
    Wildcard,
    Bool(bool),
    LocalCoordinate,
    RelativeCoordinate,
    Comment(Seq<u8>),
    LineBreak,
    Colon,
}

impl View for Kind {
    type V = KindV;

    open spec fn view(&self) -> KindV {
        match self {
            Kind::Eof => KindV::Eof,
            Kind::FormatSelection => KindV::FormatSelection,
            Kind::Float(t) => KindV::Float(t@),
            Kind::Int(v) => KindV::Int(*v),
            Kind::String(t) => KindV::String(t@),
            Kind::Ident(t) => KindV::Ident(t@),
            Kind::Path(t) => KindV::Path(t@),
            Kind::Slash => KindV::Slash,
            Kind::RightBrace => KindV::RightBrace,
            Kind::LeftBrace => KindV::LeftBrace,
            Kind::LeftBracket => KindV::LeftBracket,
            Kind::RightBracket => KindV::RightBracket,
            Kind::Selector => KindV::Selector,
            Kind::Comma => KindV::Comma,
            Kind::Neg => KindV::Neg,
            Kind::Not => KindV::Not,
            Kind::Limit => KindV::Limit,
            Kind::Assign => KindV::Assign,
            Kind::Equal => KindV::Equal,
            Kind::AddAssign => KindV::AddAssign,
            Kind::SubAssign => KindV::SubAssign,
            Kind::MulAssign => KindV::MulAssign,
            Kind::DivAssign => KindV::DivAssign,
            Kind::Gt => KindV::Gt,
            Kind::Lt => KindV::Lt,
            Kind::Wildcard => KindV::Wildcard,
            Kind::Bool(b) => KindV::Bool(*b),
            Kind::LocalCoordinate => KindV::LocalCoordinate,
            Kind::RelativeCoordinate => KindV::RelativeCoordinate,
            Kind::Comment(t) => KindV::Comment(t@),
            Kind::LineBreak => KindV::LineBreak,
            Kind::Colon => KindV::Colon,
        }
    }
}

/// One token: a classification together with the byte range it covers.
#[derive(Debug, Clone, PartialEq)]
pub struct Token {
    pub kind: Kind,
    pub span: Span,
}

/// The mathematical image of a [`Token`].
pub struct TokenV {
    pub kind: KindV,
    pub span: Span,
}

impl View for Token {
    type V = TokenV;

    open spec fn view(&self) -> TokenV {
        TokenV { kind: self.kind@, span: self.span }
    }
}

impl Token {
    /// Builds a token from its parts.
    pub fn new(kind: Kind, span: Span) -> (t: Token)
        ensures
            t.kind == kind,
            t.span == span,
    {
        Token { kind, span }
    }
}

impl Spanned for Token {
    open spec fn spec_span(&self) -> Span {
        self.span
    }

    fn span(&self) -> (s: Span) {
        self.span
    }
}

/// What went wrong inside one would-be token.
#[derive(Debug, Clone, PartialEq)]
pub enum LexErrorItem {
    /// A float pattern whose text could not be decoded.
    InvalidFloat,
    /// An integer literal that does not fit the decoded type.
    InvalidInt,
    /// A boolean pattern whose text could not be decoded.
    InvalidBool,
    /// A character matched by no token pattern.
    Unknown,
}

/// A lexical failure: the offending byte range and what went wrong there.
#[derive(Debug, Clone, PartialEq)]
pub struct LexError {
    pub span: Span,
    pub err: LexErrorItem,
}

impl LexError {
    /// Builds a lexical failure from its parts.
    pub fn new(err: LexErrorItem, span: Span) -> (e: LexError)
        ensures
            e.err == err,
            e.span == span,
    {
        LexError { span, err }
    }
}

impl Spanned for LexError {
    open spec fn spec_span(&self) -> Span {
        self.span
    }

    fn span(&self) -> (s: Span) {
        self.span
    }
}

/// Either a token or the lexical failure found in its place.
pub type LexResult<T> = Result<T, LexError>;

// ---------------------------------------------------------------------------
// The lexical grammar, as specification functions
// ---------------------------------------------------------------------------

/// Inter-token whitespace: space, tab, carriage return.
pub open spec fn is_ws(b: u8) -> bool {
    b == 32 || b == 9 || b == 13
}

/// An ASCII decimal digit.
pub open spec fn is_digit(b: u8) -> bool {
    48 <= b && b <= 57
}

/// A byte of a bare word: letters, digits, `_`, `.`.
pub open spec fn is_ident_byte(b: u8) -> bool {
    is_digit(b) || (97 <= b && b <= 122) || (65 <= b && b <= 90) || b == 95 || b == 46
}

/// A byte of a path's first segment: a word byte or `:`.
pub open spec fn is_seg_byte(b: u8) -> bool {
    is_ident_byte(b) || b == 58
}

/// A byte of a path's tail: a segment byte or `/`.
pub open spec fn is_tail_byte(b: u8) -> bool {
    is_seg_byte(b) || b == 47
}

/// Whitespace stripped from the ends of a comment's text.
pub open spec fn is_trim_ws(b: u8) -> bool {
    b == 32 || b == 9 || b == 13 || b == 11 || b == 12
}

/// The first position at or after `p` holding a byte that is not
/// inter-token whitespace (or the end of the source).
pub open spec fn ws_end(src: Seq<u8>, p: int) -> int
    decreases src.len() - p,
{
    if 0 <= p && p < src.len() && is_ws(src[p]) {
        ws_end(src, p + 1)
    } else {
        p
    }
}

/// The end of the maximal digit run starting at `p`.
pub open spec fn digits_end(src: Seq<u8>, p: int) -> int
    decreases src.len() - p,
{
    if 0 <= p && p < src.len() && is_digit(src[p]) {
        digits_end(src, p + 1)
    } else {
        p
    }
}

/// The end of the maximal word run starting at `p`.
pub open spec fn ident_end(src: Seq<u8>, p: int) -> int
    decreases src.len() - p,
{
    if 0 <= p && p < src.len() && is_ident_byte(src[p]) {
        ident_end(src, p + 1)
    } else {
        p
    }
}

/// The end of the maximal path-first-segment run starting at `p`.
pub open spec fn seg_end(src: Seq<u8>, p: int) -> int
    decreases src.len() - p,
{
    if 0 <= p && p < src.len() && is_seg_byte(src[p]) {
        seg_end(src, p + 1)
    } else {
        p
    }
}

/// The end of the maximal path-tail run starting at `p`.
pub open spec fn tail_end(src: Seq<u8>, p: int) -> int
    decreases src.len() - p,
{
    if 0 <= p && p < src.len() && is_tail_byte(src[p]) {
        tail_end(src, p + 1)
    } else {
        p
    }
}

/// The end of the maximal run of non-newline bytes starting at `p`.
pub open spec fn line_end(src: Seq<u8>, p: int) -> int
    decreases src.len() - p,
{
    if 0 <= p && p < src.len() && src[p] != 10 {
        line_end(src, p + 1)
    } else {
        p
    }
}

/// The end of the maximal run of `#` bytes starting at `p`.
pub open spec fn hash_end(src: Seq<u8>, p: int) -> int
    decreases src.len() - p,
{
    if 0 <= p && p < src.len() && src[p] == 35 {
        hash_end(src, p + 1)
    } else {
        p
    }
}

/// The first position at or after `p` holding a `"` (or the end).
pub open spec fn quote_end(src: Seq<u8>, p: int) -> int
    decreases src.len() - p,
{
    if 0 <= p && p < src.len() && src[p] != 34 {
        quote_end(src, p + 1)
    } else {
        p
    }
}

/// The start of `[a, b)` after stripping leading trim whitespace.
pub open spec fn trim_from(src: Seq<u8>, a: int, b: int) -> int
    decreases b - a,
{
    if 0 <= a && a < b && b <= src.len() && is_trim_ws(src[a]) {
        trim_from(src, a + 1, b)
    } else {
        a
    }
}

/// The end of `[a, b)` after stripping trailing trim whitespace.
pub open spec fn trim_to(src: Seq<u8>, a: int, b: int) -> int
    decreases b - a,
{
    if 0 <= a && a < b && b <= src.len() && is_trim_ws(src[b - 1]) {
        trim_to(src, a, b - 1)
    } else {
        b
    }
}

/// The value of the digit run `[a, b)` read in base ten.
pub open spec fn digits_val(src: Seq<u8>, a: int, b: int) -> int
    decreases b - a,
{
    if a < b {
        digits_val(src, a, b - 1) * 10 + (src[b - 1] - 48)
    } else {
        0
    }
}

/// The byte length of the UTF-8 character whose first byte is `b`.
pub open spec fn char_len(b: u8) -> int {
    if b < 0x80 {
        1
    } else if b < 0xc0 {
        1
    } else if b < 0xe0 {
        2
    } else if b < 0xf0 {
        3
    } else if b < 0xf8 {
        4
    } else {
        1
    }
}

/// One step of the lexical grammar: the next token, the lexical failure
/// found in its place, or the end of the input. Positions are byte offsets;
/// in `Tok` and `Fail` the scan continues at the third component.
pub enum LexStep {
    End,
    Tok(KindV, int, int),
    Fail(LexErrorItem, int, int),
}

/// Whether position `s` starts a numeric literal: a digit, or `-`/`.`
/// introducing one. Numeric literals take precedence over words and paths.
pub open spec fn num_start(src: Seq<u8>, s: int) -> bool {
    let len = src.len() as int;
    is_digit(src[s]) || (src[s] == 45 && s + 1 < len && (is_digit(src[s + 1]) || (src[s + 1] == 46
        && s + 2 < len && is_digit(src[s + 2])))) || (src[s] == 46 && s + 1 < len && is_digit(
        src[s + 1],
    ))
}

/// The numeric token starting at `s`: a float if a decimal point with a
/// following digit appears after the integer part, else an int, which fails
/// with `InvalidInt` when its value does not fit the decoded type.
pub open spec fn num_token(src: Seq<u8>, s: int) -> LexStep {
    let len = src.len() as int;
    let q0 = if src[s] == 45 {
        s + 1
    } else {
        s
    };
    let ipe = digits_end(src, q0);
    if ipe < len && src[ipe] == 46 && ipe + 1 < len && is_digit(src[ipe + 1]) {
        let fe = digits_end(src, ipe + 1);
        LexStep::Tok(KindV::Float(src.subrange(s, fe)), s, fe)
    } else {
        let v = digits_val(src, q0, ipe);
        let sv = if src[s] == 45 {
            -v
        } else {
            v
        };
        if -0x8000_0000 <= sv && sv <= 0x7fff_ffff {
            LexStep::Tok(KindV::Int(sv as i32), s, ipe)
        } else {
            LexStep::Fail(LexErrorItem::InvalidInt, s, ipe)
        }
    }
}

/// The word starting at `s`: a path when its first segment is followed by
/// `/` and a tail byte; otherwise `:` alone, a boolean literal, or a bare
/// identifier.
pub open spec fn word_token(src: Seq<u8>, s: int) -> LexStep {
    let len = src.len() as int;
    let se = seg_end(src, s);
    if se < len && src[se] == 47 && se + 1 < len && is_tail_byte(src[se + 1]) {
        let te = tail_end(src, se + 1);
        LexStep::Tok(KindV::Path(src.subrange(s, te)), s, te)
    } else if src[s] == 58 {
        LexStep::Tok(KindV::Colon, s, s + 1)
    } else {
        let ie = ident_end(src, s);
        let w = src.subrange(s, ie);
        if w == seq![116u8, 114u8, 117u8, 101u8] {
            LexStep::Tok(KindV::Bool(true), s, ie)
        } else if w == seq![102u8, 97u8, 108u8, 115u8, 101u8] {
            LexStep::Tok(KindV::Bool(false), s, ie)
        } else {
            LexStep::Tok(KindV::Ident(w), s, ie)
        }
    }
}

/// The token starting at the non-whitespace position `s`.
#[verifier::opaque]
pub open spec fn token_from(src: Seq<u8>, s: int) -> LexStep {
    let len = src.len() as int;
    let c = src[s];
    if c == 10 {
        LexStep::Tok(KindV::LineBreak, s, s + 1)
    } else if c == 35 {
        if s + 1 < len && src[s + 1] != 10 {
            let e = line_end(src, s + 1);
            let h = hash_end(src, s);
            let t0 = trim_from(src, h, e);
            let t1 = trim_to(src, t0, e);
            LexStep::Tok(KindV::Comment(src.subrange(t0, t1)), s, e)
        } else {
            LexStep::Fail(LexErrorItem::Unknown, s, s + 1)
        }
    } else if c == 34 {
        let q = quote_end(src, s + 1);
        if q < len && q > s + 1 {
            LexStep::Tok(KindV::String(src.subrange(s + 1, q)), s, q + 1)
        } else {
            LexStep::Fail(LexErrorItem::Unknown, s, s + 1)
        }
    } else if c == 0xc2 && s + 1 < len && src[s + 1] == 0xa7 {
        if s + 2 < len && src[s + 2] != 10 {
            let e = if s + 2 + char_len(src[s + 2]) <= len {
                s + 2 + char_len(src[s + 2])
            } else {
                len
            };
            LexStep::Tok(KindV::FormatSelection, s, e)
        } else {
            LexStep::Fail(LexErrorItem::Unknown, s, s + 2)
        }
    } else if num_start(src, s) {
        num_token(src, s)
    } else if c == 45 {
        if s + 1 < len && src[s + 1] == 61 {
            LexStep::Tok(KindV::SubAssign, s, s + 2)
        } else {
            LexStep::Tok(KindV::Neg, s, s + 1)
        }
    } else if c == 47 {
        if s + 1 < len && src[s + 1] == 61 {
            LexStep::Tok(KindV::DivAssign, s, s + 2)
        } else {
            LexStep::Tok(KindV::Slash, s, s + 1)
        }
    } else if c == 123 {
        LexStep::Tok(KindV::LeftBrace, s, s + 1)
    } else if c == 125 {
        LexStep::Tok(KindV::RightBrace, s, s + 1)
    } else if c == 91 {
        LexStep::Tok(KindV::LeftBracket, s, s + 1)
    } else if c == 93 {
        LexStep::Tok(KindV::RightBracket, s, s + 1)
    } else if c == 64 {
        LexStep::Tok(KindV::Selector, s, s + 1)
    } else if c == 44 {
        LexStep::Tok(KindV::Comma, s, s + 1)
    } else if c == 33 {
        LexStep::Tok(KindV::Not, s, s + 1)
    } else if c == 61 {
        LexStep::Tok(KindV::Assign, s, s + 1)
    } else if c == 46 && s + 1 < len && src[s + 1] == 46 {
        LexStep::Tok(KindV::Limit, s, s + 2)
    } else if c == 60 {
        if s + 1 < len && src[s + 1] == 62 {
            LexStep::Tok(KindV::Equal, s, s + 2)
        } else {
            LexStep::Tok(KindV::Lt, s, s + 1)
        }
    } else if c == 62 {
        LexStep::Tok(KindV::Gt, s, s + 1)
    } else if c == 43 {
        if s + 1 < len && src[s + 1] == 61 {
            LexStep::Tok(KindV::AddAssign, s, s + 2)
        } else {
            LexStep::Fail(LexErrorItem::Unknown, s, s + 1)
        }
    } else if c == 42 {
        if s + 1 < len && src[s + 1] == 61 {
            LexStep::Tok(KindV::MulAssign, s, s + 2)
        } else {
            LexStep::Tok(KindV::Wildcard, s, s + 1)
        }
    } else if c == 126 {
        LexStep::Tok(KindV::LocalCoordinate, s, s + 1)
    } else if c == 94 {
        LexStep::Tok(KindV::RelativeCoordinate, s, s + 1)
    } else if is_seg_byte(c) {
        word_token(src, s)
    } else {
        let e = if s + char_len(c) <= len {
            s + char_len(c)
        } else {
            len
        };
        LexStep::Fail(LexErrorItem::Unknown, s, e)
    }
}

/// The lexical grammar: from scan position `p`, skip whitespace, then read
/// one token. This function fully determines the token sequence of any
/// source text.
pub open spec fn token_at(src: Seq<u8>, p: int) -> LexStep {
    let s = ws_end(src, p);
    if s >= src.len() {
        LexStep::End
    } else {
        token_from(src, s)
    }
}

/// The scan position after one step of [`token_at`] from `p`.
pub open spec fn after_step(src: Seq<u8>, p: int) -> int {
    match token_at(src, p) {
        LexStep::End => src.len() as int,
        LexStep::Tok(_, _, b) => b,
        LexStep::Fail(_, _, b) => b,
    }
}

/// The positions of a lexical step taken from `p` are ordered and lie
/// within the source: its item covers `[a, b)` with `p <= a < b <= len`.
pub open spec fn step_bounds(st: LexStep, p: int, len: int) -> bool {
    match st {
        LexStep::End => true,
        LexStep::Tok(_, a, b) => p <= a && a < b && b <= len,
        LexStep::Fail(_, a, b) => p <= a && a < b && b <= len,
    }
}

} // verus!

verus! {

// ---------------------------------------------------------------------------
// Executable scanning helpers, each verified against its run function
// ---------------------------------------------------------------------------

/// Ten to the power `n`.
pub open spec fn pow10(n: nat) -> int
    decreases n,
{
    if n == 0 {
        1
    } else {
        10 * pow10((n - 1) as nat)
    }
}

proof fn lemma_pow10_pos(n: nat)
    ensures
        pow10(n) >= 1,
    decreases n,
{
    if n > 0 {
        lemma_pow10_pos((n - 1) as nat);
    }
}

proof fn lemma_pow10_mono(m: nat, n: nat)
    requires
        m <= n,
    ensures
        pow10(m) <= pow10(n),
        pow10(m) >= 1,
    decreases n,
{
    lemma_pow10_pos(m);
    if m < n {
        lemma_pow10_mono(m, (n - 1) as nat);
        lemma_pow10_pos((n - 1) as nat);
    }
}

proof fn lemma_digits_strip_zero(src: Seq<u8>, a: int, b: int)
    requires
        a < b,
        src[a] == 48,
    ensures
        digits_val(src, a, b) == digits_val(src, a + 1, b),
    decreases b - a,
{
    if a + 1 < b {
        lemma_digits_strip_zero(src, a, b - 1);
    } else {
        assert(digits_val(src, a, a) == 0);
        assert(digits_val(src, a + 1, b) == 0);
    }
}

proof fn lemma_digits_lower(src: Seq<u8>, a: int, b: int)
    requires
        a < b,
        49 <= src[a],
        forall|i: int| a <= i < b ==> is_digit(src[i]),
    ensures
        digits_val(src, a, b) >= pow10((b - a - 1) as nat),
    decreases b - a,
{
    if a + 1 < b {
        lemma_digits_lower(src, a, b - 1);
        lemma_pow10_pos((b - a - 2) as nat);
        assert(src[b - 1] - 48 >= 0);
    } else {
        assert(digits_val(src, a, a) == 0);
        assert(pow10(0) == 1);
    }
}

fn exec_is_digit(b: u8) -> (r: bool)
    ensures
        r == is_digit(b),
{
    48 <= b && b <= 57
}

fn exec_is_ident_byte(b: u8) -> (r: bool)
    ensures
        r == is_ident_byte(b),
{
    (48 <= b && b <= 57) || (97 <= b && b <= 122) || (65 <= b && b <= 90) || b == 95 || b == 46
}

fn exec_is_seg_byte(b: u8) -> (r: bool)
    ensures
        r == is_seg_byte(b),
{
    exec_is_ident_byte(b) || b == 58
}

fn exec_is_tail_byte(b: u8) -> (r: bool)
    ensures
        r == is_tail_byte(b),
{
    exec_is_seg_byte(b) || b == 47
}

fn exec_char_len(b: u8) -> (r: usize)
    ensures
        r as int == char_len(b),
        1 <= r <= 4,
{
    if b < 0x80 {
        1
    } else if b < 0xc0 {
        1
    } else if b < 0xe0 {
        2
    } else if b < 0xf0 {
        3
    } else if b < 0xf8 {
        4
    } else {
        1
    }
}

fn scan_ws(src: &Vec<u8>, from: usize) -> (e: usize)
    requires
        from <= src.len(),
    ensures
        e as int == ws_end(src@, from as int),
        from <= e <= src.len(),
        e < src.len() ==> !is_ws(src@[e as int]),
{
    let mut i = from;
    while i < src.len() && (src[i] == 32 || src[i] == 9 || src[i] == 13)
        invariant
            from <= i <= src.len(),
            ws_end(src@, from as int) == ws_end(src@, i as int),
        decreases src.len() - i,
    {
        i = i + 1;
    }
    i
}

fn scan_digits(src: &Vec<u8>, from: usize) -> (e: usize)
    requires
        from <= src.len(),
    ensures
        e as int == digits_end(src@, from as int),
        from <= e <= src.len(),
        forall|j: int| from <= j < e ==> is_digit(src@[j]),
        from < src.len() && is_digit(src@[from as int]) ==> e > from,
{
    let mut i = from;
    while i < src.len() && exec_is_digit(src[i])
        invariant
            from <= i <= src.len(),
            digits_end(src@, from as int) == digits_end(src@, i as int),
            forall|j: int| from <= j < i ==> is_digit(src@[j]),
        decreases src.len() - i,
    {
        i = i + 1;
    }
    i
}

fn scan_ident(src: &Vec<u8>, from: usize) -> (e: usize)
    requires
        from <= src.len(),
    ensures
        e as int == ident_end(src@, from as int),
        from <= e <= src.len(),
        from < src.len() && is_ident_byte(src@[from as int]) ==> e > from,
{
    let mut i = from;
    while i < src.len() && exec_is_ident_byte(src[i])
        invariant
            from <= i <= src.len(),
            ident_end(src@, from as int) == ident_end(src@, i as int),
        decreases src.len() - i,
    {
        i = i + 1;
    }
    i
}

fn scan_seg(src: &Vec<u8>, from: usize) -> (e: usize)
    requires
        from <= src.len(),
    ensures
        e as int == seg_end(src@, from as int),
        from <= e <= src.len(),
{
    let mut i = from;
    while i < src.len() && exec_is_seg_byte(src[i])
        invariant
            from <= i <= src.len(),
            seg_end(src@, from as int) == seg_end(src@, i as int),
        decreases src.len() - i,
    {
        i = i + 1;
    }
    i
}

fn scan_tail(src: &Vec<u8>, from: usize) -> (e: usize)
    requires
        from <= src.len(),
    ensures
        e as int == tail_end(src@, from as int),
        from <= e <= src.len(),
{
    let mut i = from;
    while i < src.len() && exec_is_tail_byte(src[i])
        invariant
            from <= i <= src.len(),
            tail_end(src@, from as int) == tail_end(src@, i as int),
        decreases src.len() - i,
    {
        i = i + 1;
    }
    i
}

fn scan_line(src: &Vec<u8>, from: usize) -> (e: usize)
    requires
        from <= src.len(),
    ensures
        e as int == line_end(src@, from as int),
        from <= e <= src.len(),
{
    let mut i = from;
    while i < src.len() && src[i] != 10
        invariant
            from <= i <= src.len(),
            line_end(src@, from as int) == line_end(src@, i as int),
        decreases src.len() - i,
    {
        i = i + 1;
    }
    i
}

fn scan_hash(src: &Vec<u8>, from: usize) -> (e: usize)
    requires
        from <= src.len(),
    ensures
        e as int == hash_end(src@, from as int),
        from <= e <= src.len(),
        forall|j: int| from <= j < e ==> src@[j] == 35,
        from < src.len() && src@[from as int] == 35 ==> e > from,
{
    let mut i = from;
    while i < src.len() && src[i] == 35
        invariant
            from <= i <= src.len(),
            hash_end(src@, from as int) == hash_end(src@, i as int),
            forall|j: int| from <= j < i ==> src@[j] == 35,
        decreases src.len() - i,
    {
        i = i + 1;
    }
    i
}

fn scan_quote(src: &Vec<u8>, from: usize) -> (e: usize)
    requires
        from <= src.len(),
    ensures
        e as int == quote_end(src@, from as int),
        from <= e <= src.len(),
{
    let mut i = from;
    while i < src.len() && src[i] != 34
        invariant
            from <= i <= src.len(),
            quote_end(src@, from as int) == quote_end(src@, i as int),
        decreases src.len() - i,
    {
        i = i + 1;
    }
    i
}

proof fn lemma_line_end_ge_self(src: Seq<u8>, p: int)
    ensures
        line_end(src, p) >= p,
    decreases src.len() - p,
{
    if 0 <= p && p < src.len() && src[p] != 10 {
        lemma_line_end_ge_self(src, p + 1);
    }
}

proof fn lemma_line_end_ge(src: Seq<u8>, a: int, b: int)
    requires
        0 <= a <= b <= src.len(),
        forall|i: int| a <= i < b ==> src[i] != 10,
    ensures
        line_end(src, a) >= b,
    decreases b - a,
{
    if a < b {
        lemma_line_end_ge(src, a + 1, b);
    } else {
        lemma_line_end_ge_self(src, a);
    }
}

fn trim_range(src: &Vec<u8>, a: usize, b: usize) -> (r: (usize, usize))
    requires
        a <= b <= src.len(),
    ensures
        r.0 as int == trim_from(src@, a as int, b as int),
        r.1 as int == trim_to(src@, r.0 as int, b as int),
        a <= r.0 <= r.1 <= b,
{
    let mut t0 = a;
    while t0 < b && (src[t0] == 32 || src[t0] == 9 || src[t0] == 13 || src[t0] == 11 || src[t0]
        == 12)
        invariant
            a <= t0 <= b <= src.len(),
            trim_from(src@, a as int, b as int) == trim_from(src@, t0 as int, b as int),
        decreases b - t0,
    {
        t0 = t0 + 1;
    }
    let mut t1 = b;
    while t1 > t0 && (src[t1 - 1] == 32 || src[t1 - 1] == 9 || src[t1 - 1] == 13 || src[t1 - 1]
        == 11 || src[t1 - 1] == 12)
        invariant
            t0 <= t1 <= b <= src.len(),
            trim_to(src@, t0 as int, b as int) == trim_to(src@, t0 as int, t1 as int),
        decreases t1,
    {
        t1 = t1 - 1;
    }
    (t0, t1)
}

/// Copies the byte range `[a, b)` of the source out into a fresh vector.
fn copy_range(src: &Vec<u8>, a: usize, b: usize) -> (v: Vec<u8>)
    requires
        a <= b <= src.len(),
    ensures
        v@ == src@.subrange(a as int, b as int),
{
    let mut v: Vec<u8> = Vec::new();
    let mut i = a;
    while i < b
        invariant
            a <= i <= b <= src.len(),
            v@ == src@.subrange(a as int, i as int),
        decreases b - i,
    {
        v.push(src[i]);
        proof {
            assert(v@ =~= src@.subrange(a as int, i + 1));
        }
        i = i + 1;
    }
    v
}

/// Decodes the digit run `[a, b)` (negated when `neg`) into the integer
/// literal's value, or `None` when the value does not fit.
fn digits_to_i32(src: &Vec<u8>, a: usize, b: usize, neg: bool) -> (r: Option<i32>)
    requires
        a < b <= src.len(),
        forall|i: int| a <= i < b ==> is_digit(src@[i]),
    ensures
        ({
            let v = digits_val(src@, a as int, b as int);
            let sv: int = if neg {
                -v
            } else {
                v
            };
            if -0x8000_0000 <= sv && sv <= 0x7fff_ffff {
                match r {
                    Option::Some(x) => x as int == sv,
                    Option::None => false,
                }
            } else {
                r is None
            }
        }),
{
    let mut z = a;
    while z < b && src[z] == 48
        invariant
            a <= z <= b <= src.len(),
            digits_val(src@, a as int, b as int) == digits_val(src@, z as int, b as int),
            forall|i: int| a as int <= i < b ==> is_digit(src@[i]),
        decreases b - z,
    {
        proof {
            lemma_digits_strip_zero(src@, z as int, b as int);
        }
        z = z + 1;
    }
    if z == b {
        // all zeros: the value is zero
        return Some(0);
    }
    if b - z > 10 {
        // at least eleven significant digits: out of range either way
        proof {
            assert(src@[z as int] != 48 && is_digit(src@[z as int]));
            lemma_digits_lower(src@, z as int, b as int);
            lemma_pow10_mono(10, (b - z - 1) as nat);
            reveal_with_fuel(pow10, 11);
            assert(pow10(10) == 10000000000);
        }
        return None;
    }
    let mut acc: u64 = 0;
    let mut i = z;
    proof {
        reveal_with_fuel(pow10, 11);
        assert(pow10(10) == 10000000000);
    }
    while i < b
        invariant
            z <= i <= b <= src.len(),
            b - z <= 10,
            acc as int == digits_val(src@, z as int, i as int),
            acc < pow10((i - z) as nat),
            pow10(10) == 10000000000,
            forall|j: int| z as int <= j < b ==> is_digit(src@[j]),
        decreases b - i,
    {
        proof {
            lemma_pow10_mono(((i - z) as nat), 10);
            assert(pow10(((i + 1 - z) as nat)) == 10 * pow10((i - z) as nat));
        }
        let d = src[i] - 48;
        acc = acc * 10 + (d as u64);
        i = i + 1;
    }
    proof {
        lemma_pow10_mono(((b - z) as nat), 10);
    }
    if neg {
        if acc <= 0x8000_0000u64 {
            let sv = -(acc as i64);
            Some(sv as i32)
        } else {
            None
        }
    } else {
        if acc <= 0x7fff_ffffu64 {
            Some(acc as i32)
        } else {
            None
        }
    }
}

} // verus!

verus! {

// ---------------------------------------------------------------------------
// The executable lexer
// ---------------------------------------------------------------------------

/// Whether the pair `(r0, r1)` — the produced item and the new scan
/// position — is exactly what the lexical step `st` prescribes.
pub open spec fn scan_matches(st: LexStep, r0: Option<LexResult<Token>>, r1: int, len: int) -> bool {
    match st {
        LexStep::End => r0 is None && r1 == len,
        LexStep::Tok(k, a, b) => match r0 {
            Option::Some(Result::Ok(t)) => t@.kind == k && t@.span.start == a && t@.span.end == b
                && r1 == b,
            _ => false,
        },
        LexStep::Fail(e, a, b) => match r0 {
            Option::Some(Result::Err(le)) => le.err == e && le.span.start == a && le.span.end == b
                && r1 == b,
            _ => false,
        },
    }
}

/// Reads the comment token starting at the `#` at position `s`.
fn lex_comment(src: &Vec<u8>, s: usize) -> (r: (LexResult<Token>, usize))
    requires
        s < src.len(),
        src@[s as int] == 35,
        s + 1 < src.len(),
        src@[s + 1] != 10,
    ensures
        scan_matches(token_from(src@, s as int), Some(r.0), r.1 as int, src@.len() as int),
        step_bounds(token_from(src@, s as int), s as int, src@.len() as int),
        s < r.1 <= src.len(),
{
    proof {
        reveal(crate::token::token_from);
    }
    let e = scan_line(src, s + 1);
    let h = scan_hash(src, s);
    proof {
        lemma_line_end_ge(src@, s + 1, h as int);
    }
    let (t0, t1) = trim_range(src, h, e);
    let text = copy_range(src, t0, t1);
    (Ok(Token::new(Kind::Comment(text), Span::new(s, e))), e)
}

/// Reads the string literal (or failure) starting at the `"` at `s`.
fn lex_string(src: &Vec<u8>, s: usize) -> (r: (LexResult<Token>, usize))
    requires
        s < src.len(),
        src@[s as int] == 34,
    ensures
        scan_matches(token_from(src@, s as int), Some(r.0), r.1 as int, src@.len() as int),
        step_bounds(token_from(src@, s as int), s as int, src@.len() as int),
        s < r.1 <= src.len(),
{
    proof {
        reveal(crate::token::token_from);
    }
    let q = scan_quote(src, s + 1);
    if q < src.len() && q > s + 1 {
        let text = copy_range(src, s + 1, q);
        (Ok(Token::new(Kind::String(text), Span::new(s, q + 1))), q + 1)
    } else {
        (Err(LexError::new(LexErrorItem::Unknown, Span::new(s, s + 1))), s + 1)
    }
}

/// Reads the numeric literal (or failure) starting at `s`.
fn lex_number(src: &Vec<u8>, s: usize) -> (r: (LexResult<Token>, usize))
    requires
        s < src.len(),
        num_start(src@, s as int),
    ensures
        scan_matches(token_from(src@, s as int), Some(r.0), r.1 as int, src@.len() as int),
        step_bounds(token_from(src@, s as int), s as int, src@.len() as int),
        s < r.1 <= src.len(),
{
    proof {
        reveal(crate::token::token_from);
    }
    let neg = src[s] == 45;
    let q0 = if neg {
        s + 1
    } else {
        s
    };
    let ipe = scan_digits(src, q0);
    if ipe < src.len() && src[ipe] == 46 && ipe + 1 < src.len() && exec_is_digit(src[ipe + 1]) {
        let fe = scan_digits(src, ipe + 1);
        let text = copy_range(src, s, fe);
        (Ok(Token::new(Kind::Float(text), Span::new(s, fe))), fe)
    } else {
        match digits_to_i32(src, q0, ipe, neg) {
            Some(v) => (Ok(Token::new(Kind::Int(v), Span::new(s, ipe))), ipe),
            None => (Err(LexError::new(LexErrorItem::InvalidInt, Span::new(s, ipe))), ipe),
        }
    }
}

/// Reads the word starting at `s`: a path, a lone `:`, a boolean literal
/// or a bare identifier.
fn lex_word(src: &Vec<u8>, s: usize) -> (r: (LexResult<Token>, usize))
    requires
        s < src.len(),
        is_seg_byte(src@[s as int]),
    ensures
        scan_matches(word_token(src@, s as int), Some(r.0), r.1 as int, src@.len() as int),
        step_bounds(word_token(src@, s as int), s as int, src@.len() as int),
        s < r.1 <= src.len(),
{
    let se = scan_seg(src, s);
    if se < src.len() && src[se] == 47 && se + 1 < src.len() && exec_is_tail_byte(src[se + 1]) {
        let te = scan_tail(src, se + 1);
        let text = copy_range(src, s, te);
        (Ok(Token::new(Kind::Path(text), Span::new(s, te))), te)
    } else if src[s] == 58 {
        (Ok(Token::new(Kind::Colon, Span::new(s, s + 1))), s + 1)
    } else {
        let ie = scan_ident(src, s);
        let w = copy_range(src, s, ie);
        if w.len() == 4 && w[0] == 116 && w[1] == 114 && w[2] == 117 && w[3] == 101 {
            proof {
                assert(w@ =~= seq![116u8, 114u8, 117u8, 101u8]);
            }
            (Ok(Token::new(Kind::Bool(true), Span::new(s, ie))), ie)
        } else if w.len() == 5 && w[0] == 102 && w[1] == 97 && w[2] == 108 && w[3] == 115 && w[4]
            == 101 {
            proof {
                assert(w@ =~= seq![102u8, 97u8, 108u8, 115u8, 101u8]);
            }
            (Ok(Token::new(Kind::Bool(false), Span::new(s, ie))), ie)
        } else {
            proof {
                if w@ == seq![116u8, 114u8, 117u8, 101u8] {
                    assert(w@.len() == 4 && w@[0] == 116 && w@[1] == 114 && w@[2] == 117 && w@[3]
                        == 101);
                }
                if w@ == seq![102u8, 97u8, 108u8, 115u8, 101u8] {
                    assert(w@.len() == 5 && w@[0] == 102 && w@[1] == 97 && w@[2] == 108 && w@[3]
                        == 115 && w@[4] == 101);
                }
            }
            (Ok(Token::new(Kind::Ident(w), Span::new(s, ie))), ie)
        }
    }
}

/// Reads one token (or failure) starting at the non-whitespace position `s`.
#[verifier::rlimit(30)]
fn lex_at(src: &Vec<u8>, s: usize) -> (r: (LexResult<Token>, usize))
    requires
        s < src.len(),
        !is_ws(src@[s as int]),
    ensures
        scan_matches(token_from(src@, s as int), Some(r.0), r.1 as int, src@.len() as int),
        step_bounds(token_from(src@, s as int), s as int, src@.len() as int),
        s < r.1 <= src.len(),
{
    proof {
        reveal(crate::token::token_from);
    }
    let len = src.len();
    let c = src[s];
    if c == 10 {
        (Ok(Token::new(Kind::LineBreak, Span::new(s, s + 1))), s + 1)
    } else if c == 35 {
        if s + 1 < len && src[s + 1] != 10 {
            lex_comment(src, s)
        } else {
            (Err(LexError::new(LexErrorItem::Unknown, Span::new(s, s + 1))), s + 1)
        }
    } else if c == 34 {
        lex_string(src, s)
    } else if c == 0xc2 && s + 1 < len && src[s + 1] == 0xa7 {
        if s + 2 < len && src[s + 2] != 10 {
            let cl = exec_char_len(src[s + 2]);
            let rem = len - (s + 2);
            let e = if cl <= rem {
                s + 2 + cl
            } else {
                len
            };
            (Ok(Token::new(Kind::FormatSelection, Span::new(s, e))), e)
        } else {
            (Err(LexError::new(LexErrorItem::Unknown, Span::new(s, s + 2))), s + 2)
        }
    } else if exec_is_digit(c) || (c == 45 && s + 1 < len && (exec_is_digit(src[s + 1]) || (src[s
        + 1] == 46 && s + 2 < len && exec_is_digit(src[s + 2])))) || (c == 46 && s + 1 < len
        && exec_is_digit(src[s + 1])) {
        lex_number(src, s)
    } else if c == 45 {
        if s + 1 < len && src[s + 1] == 61 {
            (Ok(Token::new(Kind::SubAssign, Span::new(s, s + 2))), s + 2)
        } else {
            (Ok(Token::new(Kind::Neg, Span::new(s, s + 1))), s + 1)
        }
    } else if c == 47 {
        if s + 1 < len && src[s + 1] == 61 {
            (Ok(Token::new(Kind::DivAssign, Span::new(s, s + 2))), s + 2)
        } else {
            (Ok(Token::new(Kind::Slash, Span::new(s, s + 1))), s + 1)
        }
    } else if c == 123 {
        (Ok(Token::new(Kind::LeftBrace, Span::new(s, s + 1))), s + 1)
    } else if c == 125 {
        (Ok(Token::new(Kind::RightBrace, Span::new(s, s + 1))), s + 1)
    } else if c == 91 {
        (Ok(Token::new(Kind::LeftBracket, Span::new(s, s + 1))), s + 1)
    } else if c == 93 {
        (Ok(Token::new(Kind::RightBracket, Span::new(s, s + 1))), s + 1)
    } else if c == 64 {
        (Ok(Token::new(Kind::Selector, Span::new(s, s + 1))), s + 1)
    } else if c == 44 {
        (Ok(Token::new(Kind::Comma, Span::new(s, s + 1))), s + 1)
    } else if c == 33 {
        (Ok(Token::new(Kind::Not, Span::new(s, s + 1))), s + 1)
    } else if c == 61 {
        (Ok(Token::new(Kind::Assign, Span::new(s, s + 1))), s + 1)
    } else if c == 46 && s + 1 < len && src[s + 1] == 46 {
        (Ok(Token::new(Kind::Limit, Span::new(s, s + 2))), s + 2)
    } else if c == 60 {
        if s + 1 < len && src[s + 1] == 62 {
            (Ok(Token::new(Kind::Equal, Span::new(s, s + 2))), s + 2)
        } else {
            (Ok(Token::new(Kind::Lt, Span::new(s, s + 1))), s + 1)
        }
    } else if c == 62 {
        (Ok(Token::new(Kind::Gt, Span::new(s, s + 1))), s + 1)
    } else if c == 43 {
        if s + 1 < len && src[s + 1] == 61 {
            (Ok(Token::new(Kind::AddAssign, Span::new(s, s + 2))), s + 2)
        } else {
            (Err(LexError::new(LexErrorItem::Unknown, Span::new(s, s + 1))), s + 1)
        }
    } else if c == 42 {
        if s + 1 < len && src[s + 1] == 61 {
            (Ok(Token::new(Kind::MulAssign, Span::new(s, s + 2))), s + 2)
        } else {
            (Ok(Token::new(Kind::Wildcard, Span::new(s, s + 1))), s + 1)
        }
    } else if c == 126 {
        (Ok(Token::new(Kind::LocalCoordinate, Span::new(s, s + 1))), s + 1)
    } else if c == 94 {
        (Ok(Token::new(Kind::RelativeCoordinate, Span::new(s, s + 1))), s + 1)
    } else if exec_is_seg_byte(c) {
        lex_word(src, s)
    } else {
        let cl = exec_char_len(c);
        let rem = len - s;
        let e = if cl <= rem {
            s + cl
        } else {
            len
        };
        (Err(LexError::new(LexErrorItem::Unknown, Span::new(s, e))), e)
    }
}

/// Skips whitespace from `pos` and reads one token: the full lexical step
/// [`token_at`], executably.
fn scan(src: &Vec<u8>, pos: usize) -> (r: (Option<LexResult<Token>>, usize))
    requires
        pos <= src.len(),
    ensures
        scan_matches(token_at(src@, pos as int), r.0, r.1 as int, src@.len() as int),
        step_bounds(token_at(src@, pos as int), pos as int, src@.len() as int),
        pos <= r.1 <= src.len(),
        r.0 is Some ==> pos < r.1,
        r.1 as int == after_step(src@, pos as int),
{
    let s = scan_ws(src, pos);
    if s == src.len() {
        (None, s)
    } else {
        let (item, np) = lex_at(src, s);
        (Some(item), np)
    }
}

/// The lazy token stream: pulls one token at a time off the source bytes,
/// with single-token lookahead (plus one more for range dispatch).
///
/// Consuming advances the cursor; once exhausted it stays exhausted. To
/// re-scan, build a new stream over the same bytes.
pub struct TokenIter {
    pub src: Vec<u8>,
    pub pos: usize,
}

impl TokenIter {
    /// The cursor never points past the end of the source.
    pub open spec fn wf(&self) -> bool {
        self.pos <= self.src.len()
    }

    /// Starts a stream at the beginning of `src`.
    pub fn new(src: Vec<u8>) -> (it: TokenIter)
        ensures
            it.src@ == src@,
            it.pos == 0,
            it.wf(),
    {
        TokenIter { src, pos: 0 }
    }

    /// Consumes and returns the next token, the lexical failure in its
    /// place, or `None` once the source is exhausted — exactly what
    /// [`token_at`] prescribes at the current cursor.
    pub fn next(&mut self) -> (r: Option<LexResult<Token>>)
        requires
            old(self).wf(),
        ensures
            final(self).wf(),
            final(self).src@ == old(self).src@,
            scan_matches(
                token_at(old(self).src@, old(self).pos as int),
                r,
                final(self).pos as int,
                old(self).src@.len() as int,
            ),
            step_bounds(
                token_at(old(self).src@, old(self).pos as int),
                old(self).pos as int,
                old(self).src@.len() as int,
            ),
            final(self).pos as int == after_step(old(self).src@, old(self).pos as int),
            old(self).pos <= final(self).pos,
            r is Some ==> old(self).pos < final(self).pos,
    {
        let (r, np) = scan(&self.src, self.pos);
        self.pos = np;
        r
    }

    /// Returns what [`Self::next`] would return, without consuming it.
    pub fn peek(&self) -> (r: Option<LexResult<Token>>)
        requires
            self.wf(),
        ensures
            scan_matches(
                token_at(self.src@, self.pos as int),
                r,
                after_step(self.src@, self.pos as int),
                self.src@.len() as int,
            ),
            step_bounds(
                token_at(self.src@, self.pos as int),
                self.pos as int,
                self.src@.len() as int,
            ),
    {
        let (r, _np) = scan(&self.src, self.pos);
        r
    }

    /// Returns the item one past the next one, without consuming anything:
    /// the single extra token of lookahead that range dispatch needs.
    pub fn peek_second(&self) -> (r: Option<LexResult<Token>>)
        requires
            self.wf(),
        ensures
            scan_matches(
                token_at(self.src@, after_step(self.src@, self.pos as int)),
                r,
                after_step(self.src@, after_step(self.src@, self.pos as int)),
                self.src@.len() as int,
            ),
            step_bounds(
                token_at(self.src@, after_step(self.src@, self.pos as int)),
                after_step(self.src@, self.pos as int),
                self.src@.len() as int,
            ),
    {
        let (_r1, np) = scan(&self.src, self.pos);
        let (r, _np2) = scan(&self.src, np);
        r
    }
}

} // verus!
