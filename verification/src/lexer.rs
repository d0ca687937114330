//! The lexer: a total function from source text to a spanned token vector
//! terminated by `Eof`, or a single fatal [`LexError`].
//!
//! The recognized language is fixed here twice: once as the specification
//! functions [`lex_step`] and [`lex_from`] over the source character
//! sequence, and once as executable code.  The executable [`lexer`] is
//! proved to return exactly what [`lex_from`] describes.
//!
//! Longest match wins at every position, with keywords preferred over
//! identifiers of the same length and a sign followed by a digit read as a
//! signed number.  Comments produce no tokens; whitespace and newlines are
//! real tokens because the grammar is layout-sensitive.

use vstd::prelude::*;
use vstd::string::*;
use crate::ast::Span;

verus! {

broadcast use vstd::std_specs::vec::group_vec_axioms, vstd::seq::group_seq_axioms;

/// The closed set of token kinds.  Whitespace and newlines are real tokens:
/// the grammar is layout-sensitive.  A float literal keeps its source text;
/// this crate never computes with floating point.
#[derive(Debug, Clone, PartialEq, Eq)]
pub enum TokenKind {
    Let,
    In,
    If,
    Then,
    Else,
    Match,
    With,
    Type,
    Integer(i64),
    Float(String),
    String(String),
    Char(char),
    True,
    False,
    PCIdentifier(String),
    Identifier(String),
    Pipe,
    Underscore,
    InversedSlash,
    LParen,
    RParen,
    LBracket,
    RBracket,
    Arrow,
    Comma,
    Semicolon,
    DoubleCollon,
    Lt,
    Gt,
    Gte,
    Lte,
    And,
    Or,
    Eq,
    Neq,
    Colon,
    Add,
    Sub,
    Mul,
    Div,
    Exp,
    Mod,
    Assign,
    Space,
    Tab,
    Newline,
    Eof,
}

/// The mathematical image of a [`TokenKind`]: text payloads as character
/// sequences.
pub ghost enum TokKV {
    Let,
    In,
    If,
    Then,
    Else,
    Match,
    With,
    Type,
    Integer(i64),
    Float(Seq<char>),
    Str(Seq<char>),
    CharLit(char),
    True,
    False,
    PCIdentifier(Seq<char>),
    Identifier(Seq<char>),
    Pipe,
    Underscore,
    InversedSlash,
    LParen,
    RParen,
    LBracket,
    RBracket,
    Arrow,
    Comma,
    Semicolon,
    DoubleCollon,
    Lt,
    Gt,
    Gte,
    Lte,
    And,
    Or,
    Eq,
    Neq,
    Colon,
    Add,
    Sub,
    Mul,
    Div,
    Exp,
    Mod,
    Assign,
    Space,
    Tab,
    Newline,
    Eof,
}

impl TokenKind {
    pub open spec fn view(self) -> TokKV {
        match self {
            TokenKind::Let => TokKV::Let,
            TokenKind::In => TokKV::In,
            TokenKind::If => TokKV::If,
            TokenKind::Then => TokKV::Then,
            TokenKind::Else => TokKV::Else,
            TokenKind::Match => TokKV::Match,
            TokenKind::With => TokKV::With,
            TokenKind::Type => TokKV::Type,
            TokenKind::Integer(n) => TokKV::Integer(n),
            TokenKind::Float(s) => TokKV::Float(s@),
            TokenKind::String(s) => TokKV::Str(s@),
            TokenKind::Char(c) => TokKV::CharLit(c),
            TokenKind::True => TokKV::True,
            TokenKind::False => TokKV::False,
            TokenKind::PCIdentifier(s) => TokKV::PCIdentifier(s@),
            TokenKind::Identifier(s) => TokKV::Identifier(s@),
            TokenKind::Pipe => TokKV::Pipe,
            TokenKind::Underscore => TokKV::Underscore,
            TokenKind::InversedSlash => TokKV::InversedSlash,
            TokenKind::LParen => TokKV::LParen,
            TokenKind::RParen => TokKV::RParen,
            TokenKind::LBracket => TokKV::LBracket,
            TokenKind::RBracket => TokKV::RBracket,
            TokenKind::Arrow => TokKV::Arrow,
            TokenKind::Comma => TokKV::Comma,
            TokenKind::Semicolon => TokKV::Semicolon,
            TokenKind::DoubleCollon => TokKV::DoubleCollon,
            TokenKind::Lt => TokKV::Lt,
            TokenKind::Gt => TokKV::Gt,
            TokenKind::Gte => TokKV::Gte,
            TokenKind::Lte => TokKV::Lte,
            TokenKind::And => TokKV::And,
            TokenKind::Or => TokKV::Or,
            TokenKind::Eq => TokKV::Eq,
            TokenKind::Neq => TokKV::Neq,
            TokenKind::Colon => TokKV::Colon,
            TokenKind::Add => TokKV::Add,
            TokenKind::Sub => TokKV::Sub,
            TokenKind::Mul => TokKV::Mul,
            TokenKind::Div => TokKV::Div,
            TokenKind::Exp => TokKV::Exp,
            TokenKind::Mod => TokKV::Mod,
            TokenKind::Assign => TokKV::Assign,
            TokenKind::Space => TokKV::Space,
            TokenKind::Tab => TokKV::Tab,
            TokenKind::Newline => TokKV::Newline,
            TokenKind::Eof => TokKV::Eof,
        }
    }

    pub open spec fn spec_is_literal(self) -> bool {
        match self {
            TokenKind::Integer(_) => true,
            TokenKind::Float(_) => true,
            TokenKind::String(_) => true,
            TokenKind::Char(_) => true,
            TokenKind::True => true,
            TokenKind::False => true,
            _ => false,
        }
    }

    pub open spec fn spec_is_identifier(self) -> bool {
        match self {
            TokenKind::Identifier(_) => true,
            TokenKind::PCIdentifier(_) => true,
            _ => false,
        }
    }

    pub open spec fn spec_is_whitespace(self) -> bool {
        match self {
            TokenKind::Space => true,
            TokenKind::Tab => true,
            TokenKind::Newline => true,
            _ => false,
        }
    }

    pub fn is_literal(&self) -> (r: bool)
        ensures
            r == self.spec_is_literal(),
    {
        match self {
            TokenKind::Integer(_) => true,
            TokenKind::Float(_) => true,
            TokenKind::String(_) => true,
            TokenKind::Char(_) => true,
            TokenKind::True => true,
            TokenKind::False => true,
            _ => false,
        }
    }

    pub fn is_identifier(&self) -> (r: bool)
        ensures
            r == self.spec_is_identifier(),
    {
        match self {
            TokenKind::Identifier(_) => true,
            TokenKind::PCIdentifier(_) => true,
            _ => false,
        }
    }

    pub fn is_whitespace(&self) -> (r: bool)
        ensures
            r == self.spec_is_whitespace(),
    {
        match self {
            TokenKind::Space => true,
            TokenKind::Tab => true,
            TokenKind::Newline => true,
            _ => false,
        }
    }
}

/// A token: its kind and the span of source text it was read from.
#[derive(Debug, Clone, PartialEq, Eq)]
pub struct Token {
    pub kind: TokenKind,
    pub span: Span,
}

/// The mathematical image of a token: its kind image and its character
/// range.  The covered text is determined by the range and the source.
pub ghost struct TokenV {
    pub kind: TokKV,
    pub start: int,
    pub end: int,
}

impl Token {
    pub open spec fn view(self) -> TokenV {
        TokenV { kind: self.kind.view(), start: self.span.start as int, end: self.span.end as int }
    }

    pub fn new(kind: TokenKind, span: Span) -> (r: Token)
        ensures
            r.kind == kind,
            r.span == span,
    {
        Token { kind, span }
    }
}

/// A fatal lexical error: an unrecognized character sequence at `span`.
#[derive(Debug, Clone, PartialEq, Eq)]
pub struct LexError {
    pub span: Span,
}

// ------------------------------------------------------------------
// Character classes
// ------------------------------------------------------------------
pub open spec fn is_digit(c: char) -> bool {
    48 <= c as u32 <= 57
}

pub open spec fn is_lower(c: char) -> bool {
    97 <= c as u32 <= 122
}

pub open spec fn is_upper(c: char) -> bool {
    65 <= c as u32 <= 90
}

/// A character that may continue an identifier: letters, digits and `'`.
pub open spec fn is_ident_cont(c: char) -> bool {
    is_digit(c) || is_lower(c) || is_upper(c) || c == '\''
}

fn digit_c(c: char) -> (r: bool)
    ensures
        r == is_digit(c),
{
    let u = c as u32;
    48 <= u && u <= 57
}

pub(crate) fn lower_c(c: char) -> (r: bool)
    ensures
        r == is_lower(c),
{
    let u = c as u32;
    97 <= u && u <= 122
}

fn upper_c(c: char) -> (r: bool)
    ensures
        r == is_upper(c),
{
    let u = c as u32;
    65 <= u && u <= 90
}

fn ident_cont_c(c: char) -> (r: bool)
    ensures
        r == is_ident_cont(c),
{
    digit_c(c) || lower_c(c) || upper_c(c) || c == '\''
}

// ------------------------------------------------------------------
// Scanning specification functions
// ------------------------------------------------------------------
/// First position at or after `pos` holding a newline, or the end of input.
pub open spec fn line_end(src: Seq<char>, pos: int) -> int
    decreases src.len() - pos,
{
    if pos < 0 || pos >= src.len() {
        src.len() as int
    } else if src[pos] == '\n' {
        pos
    } else {
        line_end(src, pos + 1)
    }
}

/// First position `j` at or after `pos` where `*/` begins, if any.
pub open spec fn block_end(src: Seq<char>, pos: int) -> Option<int>
    decreases src.len() - pos,
{
    if pos < 0 || pos + 2 > src.len() {
        None
    } else if src[pos] == '*' && src[pos + 1] == '/' {
        Some(pos)
    } else {
        block_end(src, pos + 1)
    }
}

/// First position at or after `pos` that does not continue an identifier.
pub open spec fn ident_end(src: Seq<char>, pos: int) -> int
    decreases src.len() - pos,
{
    if pos < 0 || pos >= src.len() {
        src.len() as int
    } else if is_ident_cont(src[pos]) {
        ident_end(src, pos + 1)
    } else {
        pos
    }
}

/// First position at or after `pos` that is not a decimal digit.
pub open spec fn digits_end(src: Seq<char>, pos: int) -> int
    decreases src.len() - pos,
{
    if pos < 0 || pos >= src.len() {
        src.len() as int
    } else if is_digit(src[pos]) {
        digits_end(src, pos + 1)
    } else {
        pos
    }
}

/// First position at or after `pos` holding a double quote, if any.
pub open spec fn quote_end(src: Seq<char>, pos: int) -> Option<int>
    decreases src.len() - pos,
{
    if pos < 0 || pos >= src.len() {
        None
    } else if src[pos] == '"' {
        Some(pos)
    } else {
        quote_end(src, pos + 1)
    }
}

/// The value of the decimal digits `src[lo..hi]`, most significant first.
pub open spec fn digits_val(src: Seq<char>, lo: int, hi: int) -> int
    decreases hi - lo,
{
    if lo >= hi {
        0
    } else {
        digits_val(src, lo, hi - 1) * 10 + (src[hi - 1] as u32 - 48)
    }
}

/// Keywords win over identifiers of the same text.
pub open spec fn ident_kind(text: Seq<char>) -> TokKV {
    if text == "let"@ {
        TokKV::Let
    } else if text == "in"@ {
        TokKV::In
    } else if text == "if"@ {
        TokKV::If
    } else if text == "then"@ {
        TokKV::Then
    } else if text == "else"@ {
        TokKV::Else
    } else if text == "match"@ {
        TokKV::Match
    } else if text == "with"@ {
        TokKV::With
    } else if text == "type"@ {
        TokKV::Type
    } else {
        TokKV::Identifier(text)
    }
}

/// The boolean literals win over constructor identifiers of the same text.
pub open spec fn pc_kind(text: Seq<char>) -> TokKV {
    if text == "True"@ {
        TokKV::True
    } else if text == "False"@ {
        TokKV::False
    } else {
        TokKV::PCIdentifier(text)
    }
}

/// What the lexer does at one position: skip a comment, read one token
/// ending where given, or fail at the given position.
pub ghost enum LexStep {
    Skip(int),
    Tok(TokKV, int),
    Fail(int),
}

/// One step of the lexer at `pos`, `0 <= pos < src.len()`.
pub open spec fn lex_step(src: Seq<char>, pos: int) -> LexStep {
    let n = src.len() as int;
    let c = src[pos];
    if c == '/' && pos + 1 < n && src[pos + 1] == '/' {
        LexStep::Skip(line_end(src, pos + 2))
    } else if c == '/' && pos + 1 < n && src[pos + 1] == '*' {
        match block_end(src, pos + 2) {
            Some(j) => LexStep::Skip(j + 2),
            None => LexStep::Tok(TokKV::Div, pos + 1),
        }
    } else if c == ' ' {
        LexStep::Tok(TokKV::Space, pos + 1)
    } else if c == '\t' {
        LexStep::Tok(TokKV::Tab, pos + 1)
    } else if c == '\n' {
        LexStep::Tok(TokKV::Newline, pos + 1)
    } else if is_digit(c) || ((c == '+' || c == '-') && pos + 1 < n && is_digit(src[pos + 1])) {
        let dstart = if is_digit(c) {
            pos
        } else {
            pos + 1
        };
        let dend = digits_end(src, dstart);
        if dend < n && src[dend] == '.' {
            let fend = digits_end(src, dend + 1);
            LexStep::Tok(TokKV::Float(src.subrange(pos, fend)), fend)
        } else {
            let v: int = if c == '-' {
                -digits_val(src, dstart, dend)
            } else {
                digits_val(src, dstart, dend)
            };
            if v < i64::MIN || v > i64::MAX {
                LexStep::Fail(pos)
            } else {
                LexStep::Tok(TokKV::Integer(v as i64), dend)
            }
        }
    } else if c == '"' {
        match quote_end(src, pos + 1) {
            Some(j) => if j > pos + 1 {
                LexStep::Tok(TokKV::Str(src.subrange(pos + 1, j)), j + 1)
            } else {
                LexStep::Fail(pos)
            },
            None => LexStep::Fail(pos),
        }
    } else if c == '\'' {
        if pos + 2 < n && src[pos + 1] != '\'' && src[pos + 2] == '\'' {
            LexStep::Tok(TokKV::CharLit(src[pos + 1]), pos + 3)
        } else {
            LexStep::Fail(pos)
        }
    } else if is_lower(c) {
        let j = ident_end(src, pos + 1);
        LexStep::Tok(ident_kind(src.subrange(pos, j)), j)
    } else if is_upper(c) {
        let j = ident_end(src, pos + 1);
        LexStep::Tok(pc_kind(src.subrange(pos, j)), j)
    } else if c == '-' && pos + 1 < n && src[pos + 1] == '>' {
        LexStep::Tok(TokKV::Arrow, pos + 2)
    } else if c == ':' && pos + 1 < n && src[pos + 1] == ':' {
        LexStep::Tok(TokKV::DoubleCollon, pos + 2)
    } else if c == '>' && pos + 1 < n && src[pos + 1] == '=' {
        LexStep::Tok(TokKV::Gte, pos + 2)
    } else if c == '<' && pos + 1 < n && src[pos + 1] == '=' {
        LexStep::Tok(TokKV::Lte, pos + 2)
    } else if c == '&' && pos + 1 < n && src[pos + 1] == '&' {
        LexStep::Tok(TokKV::And, pos + 2)
    } else if c == '|' && pos + 1 < n && src[pos + 1] == '|' {
        LexStep::Tok(TokKV::Or, pos + 2)
    } else if c == '=' && pos + 1 < n && src[pos + 1] == '=' {
        LexStep::Tok(TokKV::Eq, pos + 2)
    } else if c == '!' && pos + 1 < n && src[pos + 1] == '=' {
        LexStep::Tok(TokKV::Neq, pos + 2)
    } else if c == '|' {
        LexStep::Tok(TokKV::Pipe, pos + 1)
    } else if c == '_' {
        LexStep::Tok(TokKV::Underscore, pos + 1)
    } else if c == '\\' {
        LexStep::Tok(TokKV::InversedSlash, pos + 1)
    } else if c == '(' {
        LexStep::Tok(TokKV::LParen, pos + 1)
    } else if c == ')' {
        LexStep::Tok(TokKV::RParen, pos + 1)
    } else if c == '[' {
        LexStep::Tok(TokKV::LBracket, pos + 1)
    } else if c == ']' {
        LexStep::Tok(TokKV::RBracket, pos + 1)
    } else if c == ',' {
        LexStep::Tok(TokKV::Comma, pos + 1)
    } else if c == ';' {
        LexStep::Tok(TokKV::Semicolon, pos + 1)
    } else if c == ':' {
        LexStep::Tok(TokKV::Colon, pos + 1)
    } else if c == '<' {
        LexStep::Tok(TokKV::Lt, pos + 1)
    } else if c == '>' {
        LexStep::Tok(TokKV::Gt, pos + 1)
    } else if c == '+' {
        LexStep::Tok(TokKV::Add, pos + 1)
    } else if c == '-' {
        LexStep::Tok(TokKV::Sub, pos + 1)
    } else if c == '*' {
        LexStep::Tok(TokKV::Mul, pos + 1)
    } else if c == '/' {
        LexStep::Tok(TokKV::Div, pos + 1)
    } else if c == '^' {
        LexStep::Tok(TokKV::Exp, pos + 1)
    } else if c == '%' {
        LexStep::Tok(TokKV::Mod, pos + 1)
    } else if c == '=' {
        LexStep::Tok(TokKV::Assign, pos + 1)
    } else {
        LexStep::Fail(pos)
    }
}

/// The token images from `pos` to the end of input, terminated by `Eof`;
/// or the position of the first lexical error.
pub open spec fn lex_from(src: Seq<char>, pos: int) -> Result<Seq<TokenV>, int>
    decreases src.len() - pos,
{
    let n = src.len() as int;
    if pos < 0 || pos >= n {
        Ok(seq![TokenV { kind: TokKV::Eof, start: n, end: n }])
    } else {
        match lex_step(src, pos) {
            LexStep::Skip(p) => if pos < p <= n {
                lex_from(src, p)
            } else {
                Err(pos)
            },
            LexStep::Tok(k, e) => if pos < e <= n {
                match lex_from(src, e) {
                    Ok(rest) => Ok(seq![TokenV { kind: k, start: pos, end: e }] + rest),
                    Err(x) => Err(x),
                }
            } else {
                Err(pos)
            },
            LexStep::Fail(p) => Err(p),
        }
    }
}

/// The image of the whole source: what [`lexer`] returns.
pub open spec fn lex_spec(src: Seq<char>) -> Result<Seq<TokenV>, int> {
    lex_from(src, 0)
}

/// Well-formed token vector over `src`: spans are correct and ordered, and
/// a single `Eof` token stands at the end.
pub open spec fn tokens_wf(toks: Seq<Token>, src: Seq<char>) -> bool {
    &&& toks.len() >= 1
    &&& forall|i: int| 0 <= i < toks.len() ==> (#[trigger] toks[i]).span.wf(src)
    &&& forall|i: int|
        0 <= i < toks.len() - 1 ==> (#[trigger] toks[i]).span.end <= toks[i + 1].span.start
    &&& toks[toks.len() - 1].kind == TokenKind::Eof
    &&& toks[toks.len() - 1].span.start == src.len()
    &&& toks[toks.len() - 1].span.end == src.len()
    &&& forall|i: int| 0 <= i < toks.len() - 1 ==> !((#[trigger] toks[i]).kind matches TokenKind::Eof)
}

// ------------------------------------------------------------------
// Lemmas about the scanners
// ------------------------------------------------------------------
/// The digits value never shrinks as more digits are appended.
proof fn lemma_digits_val_mono(src: Seq<char>, lo: int, j: int, hi: int)
    requires
        lo <= j <= hi <= src.len(),
        forall|k: int| lo <= k < hi ==> is_digit(#[trigger] src[k]),
    ensures
        digits_val(src, lo, j) <= digits_val(src, lo, hi),
        digits_val(src, lo, j) >= 0,
    decreases hi - j,
{
    if j == hi {
        lemma_digits_val_nonneg(src, lo, j);
    } else {
        lemma_digits_val_mono(src, lo, j, hi - 1);
        lemma_digits_val_nonneg(src, lo, hi - 1);
    }
}

proof fn lemma_digits_val_nonneg(src: Seq<char>, lo: int, hi: int)
    requires
        forall|k: int| lo <= k < hi ==> is_digit(#[trigger] src[k]),
    ensures
        digits_val(src, lo, hi) >= 0,
    decreases hi - lo,
{
    if lo < hi {
        lemma_digits_val_nonneg(src, lo, hi - 1);
    }
}

// ------------------------------------------------------------------
// Executable scanners
// ------------------------------------------------------------------
fn find_line_end(src: &str, from: usize, n: usize) -> (r: usize)
    requires
        from <= n,
        n == src@.len(),
    ensures
        r == line_end(src@, from as int),
        from <= r <= n,
    decreases n - from,
{
    let mut j: usize = from;
    while j < n
        invariant
            from <= j <= n,
            n == src@.len(),
            line_end(src@, from as int) == line_end(src@, j as int),
        decreases n - j,
    {
        let c = src.get_char(j);
        if c == '\n' {
            return j;
        }
        j = j + 1;
    }
    j
}

fn find_block_end(src: &str, from: usize, n: usize) -> (r: Option<usize>)
    requires
        from <= n,
        n == src@.len(),
    ensures
        match r {
            Some(j) => block_end(src@, from as int) == Some(j as int) && from <= j && j + 2 <= n,
            None => block_end(src@, from as int) is None,
        },
{
    let mut j: usize = from;
    loop
        invariant
            from <= j <= n,
            n == src@.len(),
            block_end(src@, from as int) == block_end(src@, j as int),
        decreases n - j,
    {
        if n - j < 2 {
            return None;
        }
        let c = src.get_char(j);
        if c == '*' && src.get_char(j + 1) == '/' {
            return Some(j);
        }
        j = j + 1;
    }
}

fn find_ident_end(src: &str, from: usize, n: usize) -> (r: usize)
    requires
        from <= n,
        n == src@.len(),
    ensures
        r == ident_end(src@, from as int),
        from <= r <= n,
{
    let mut j: usize = from;
    while j < n
        invariant
            from <= j <= n,
            n == src@.len(),
            ident_end(src@, from as int) == ident_end(src@, j as int),
        decreases n - j,
    {
        let c = src.get_char(j);
        if !ident_cont_c(c) {
            return j;
        }
        j = j + 1;
    }
    j
}

fn find_digits_end(src: &str, from: usize, n: usize) -> (r: usize)
    requires
        from <= n,
        n == src@.len(),
    ensures
        r == digits_end(src@, from as int),
        from <= r <= n,
        forall|k: int| from <= k < r ==> is_digit(#[trigger] src@[k]),
        from < n && is_digit(src@[from as int]) ==> r > from,
{
    let mut j: usize = from;
    while j < n
        invariant
            from <= j <= n,
            n == src@.len(),
            digits_end(src@, from as int) == digits_end(src@, j as int),
            forall|k: int| from <= k < j ==> is_digit(#[trigger] src@[k]),
        decreases n - j,
    {
        let c = src.get_char(j);
        if !digit_c(c) {
            return j;
        }
        j = j + 1;
    }
    j
}

fn find_quote(src: &str, from: usize, n: usize) -> (r: Option<usize>)
    requires
        from <= n,
        n == src@.len(),
    ensures
        match r {
            Some(j) => quote_end(src@, from as int) == Some(j as int) && from <= j < n,
            None => quote_end(src@, from as int) is None,
        },
{
    let mut j: usize = from;
    while j < n
        invariant
            from <= j <= n,
            n == src@.len(),
            quote_end(src@, from as int) == quote_end(src@, j as int),
        decreases n - j,
    {
        let c = src.get_char(j);
        if c == '"' {
            return Some(j);
        }
        j = j + 1;
    }
    None
}

/// Compares two string slices character by character.
pub fn str_eq(a: &str, b: &str) -> (r: bool)
    ensures
        r == (a@ == b@),
{
    let na = a.unicode_len();
    let nb = b.unicode_len();
    if na != nb {
        assert(a@ != b@) by {
            assert(a@.len() != b@.len());
        }
        return false;
    }
    let mut i: usize = 0;
    while i < na
        invariant
            0 <= i <= na,
            na == a@.len(),
            na == b@.len(),
            forall|k: int| 0 <= k < i ==> a@[k] == b@[k],
        decreases na - i,
    {
        if a.get_char(i) != b.get_char(i) {
            return false;
        }
        i = i + 1;
    }
    proof {
        assert(a@ =~= b@);
    }
    true
}

/// Parses the decimal digits `src[lo..hi]` into an `i64` with the given
/// sign, or reports that the value does not fit.
fn parse_int_digits(src: &str, lo: usize, hi: usize, neg: bool) -> (r: Option<i64>)
    requires
        lo <= hi <= src@.len(),
        forall|k: int| lo <= k < hi ==> is_digit(#[trigger] src@[k]),
    ensures
        ({
            let v: int = if neg {
                -digits_val(src@, lo as int, hi as int)
            } else {
                digits_val(src@, lo as int, hi as int)
            };
            match r {
                Some(x) => i64::MIN <= v <= i64::MAX && x as int == v,
                None => v < i64::MIN || v > i64::MAX,
            }
        }),
{
    let limit: u128 = if neg {
        9223372036854775808
    } else {
        9223372036854775807
    };
    let mut mag: u128 = 0;
    let mut j: usize = lo;
    while j < hi
        invariant
            lo <= j <= hi <= src@.len(),
            forall|k: int| lo <= k < hi ==> is_digit(#[trigger] src@[k]),
            mag as int == digits_val(src@, lo as int, j as int),
            mag <= limit,
            limit == (if neg {
                9223372036854775808u128
            } else {
                9223372036854775807u128
            }),
        decreases hi - j,
    {
        let c = src.get_char(j);
        let d: u128 = ((c as u32) - 48) as u128;
        let new: u128 = mag * 10 + d;
        assert(new as int == digits_val(src@, lo as int, j + 1));
        if new > limit {
            proof {
                lemma_digits_val_mono(src@, lo as int, j + 1, hi as int);
            }
            return None;
        }
        mag = new;
        j = j + 1;
    }
    let m: i128 = mag as i128;
    if neg {
        Some((-m) as i64)
    } else {
        Some(m as i64)
    }
}

/// What the executable lexer does at one position.
enum NextTok {
    Skip(usize),
    Tok(Token),
    Fail(LexError),
}

/// Builds the span `pos..e` over `src`, with its exact text.
fn make_span(src: &str, pos: usize, e: usize, n: usize) -> (r: Span)
    requires
        pos <= e <= n,
        n == src@.len(),
    ensures
        r.start == pos,
        r.end == e,
        r.input@ == src@.subrange(pos as int, e as int),
        r.wf(src@),
{
    let text = src.substring_char(pos, e);
    Span { start: pos, end: e, input: String::from_str(text) }
}

/// One step of the executable lexer, proved equal to [`lex_step`].
fn next_token(src: &str, pos: usize, n: usize) -> (r: NextTok)
    requires
        pos < n,
        n == src@.len(),
    ensures
        match r {
            NextTok::Skip(q) => lex_step(src@, pos as int) == LexStep::Skip(q as int) && pos < q
                <= n,
            NextTok::Tok(t) => {
                &&& lex_step(src@, pos as int) == LexStep::Tok(t.kind.view(), t.span.end as int)
                &&& t.span.start == pos
                &&& pos < t.span.end <= n
                &&& t.span.wf(src@)
                &&& !(t.kind matches TokenKind::Eof)
            },
            NextTok::Fail(e) => {
                &&& lex_step(src@, pos as int) matches LexStep::Fail(p) && e.span.start == p
                &&& e.span.end == e.span.start + 1
                &&& e.span.wf(src@)
            },
        },
{
    let c = src.get_char(pos);
    if c == '/' && pos + 1 < n && src.get_char(pos + 1) == '/' {
        let q = find_line_end(src, pos + 2, n);
        NextTok::Skip(q)
    } else if c == '/' && pos + 1 < n && src.get_char(pos + 1) == '*' {
        match find_block_end(src, pos + 2, n) {
            Some(j) => NextTok::Skip(j + 2),
            None => NextTok::Tok(Token { kind: TokenKind::Div, span: make_span(src, pos, pos + 1, n) }),
        }
    } else if c == ' ' {
        NextTok::Tok(Token { kind: TokenKind::Space, span: make_span(src, pos, pos + 1, n) })
    } else if c == '\t' {
        NextTok::Tok(Token { kind: TokenKind::Tab, span: make_span(src, pos, pos + 1, n) })
    } else if c == '\n' {
        NextTok::Tok(Token { kind: TokenKind::Newline, span: make_span(src, pos, pos + 1, n) })
    } else if digit_c(c) || ((c == '+' || c == '-') && pos + 1 < n && digit_c(src.get_char(pos + 1))) {
        let dstart: usize = if digit_c(c) {
            pos
        } else {
            pos + 1
        };
        let dend = find_digits_end(src, dstart, n);
        if dend < n && src.get_char(dend) == '.' {
            let fend = find_digits_end(src, dend + 1, n);
            let span = make_span(src, pos, fend, n);
            let text = String::from_str(src.substring_char(pos, fend));
            NextTok::Tok(Token { kind: TokenKind::Float(text), span })
        } else {
            match parse_int_digits(src, dstart, dend, c == '-') {
                Some(v) => NextTok::Tok(
                    Token { kind: TokenKind::Integer(v), span: make_span(src, pos, dend, n) },
                ),
                None => NextTok::Fail(LexError { span: make_span(src, pos, pos + 1, n) }),
            }
        }
    } else if c == '"' {
        match find_quote(src, pos + 1, n) {
            Some(j) => if j > pos + 1 {
                let inner = String::from_str(src.substring_char(pos + 1, j));
                NextTok::Tok(
                    Token { kind: TokenKind::String(inner), span: make_span(src, pos, j + 1, n) },
                )
            } else {
                NextTok::Fail(LexError { span: make_span(src, pos, pos + 1, n) })
            },
            None => NextTok::Fail(LexError { span: make_span(src, pos, pos + 1, n) }),
        }
    } else if c == '\'' {
        if n - pos > 2 && src.get_char(pos + 1) != '\'' && src.get_char(pos + 2) == '\'' {
            NextTok::Tok(
                Token {
                    kind: TokenKind::Char(src.get_char(pos + 1)),
                    span: make_span(src, pos, pos + 3, n),
                },
            )
        } else {
            NextTok::Fail(LexError { span: make_span(src, pos, pos + 1, n) })
        }
    } else if lower_c(c) {
        let j = find_ident_end(src, pos + 1, n);
        let text = src.substring_char(pos, j);
        let kind: TokenKind = if str_eq(text, "let") {
            TokenKind::Let
        } else if str_eq(text, "in") {
            TokenKind::In
        } else if str_eq(text, "if") {
            TokenKind::If
        } else if str_eq(text, "then") {
            TokenKind::Then
        } else if str_eq(text, "else") {
            TokenKind::Else
        } else if str_eq(text, "match") {
            TokenKind::Match
        } else if str_eq(text, "with") {
            TokenKind::With
        } else if str_eq(text, "type") {
            TokenKind::Type
        } else {
            TokenKind::Identifier(String::from_str(text))
        };
        NextTok::Tok(Token { kind, span: make_span(src, pos, j, n) })
    } else if upper_c(c) {
        let j = find_ident_end(src, pos + 1, n);
        let text = src.substring_char(pos, j);
        let kind: TokenKind = if str_eq(text, "True") {
            TokenKind::True
        } else if str_eq(text, "False") {
            TokenKind::False
        } else {
            TokenKind::PCIdentifier(String::from_str(text))
        };
        NextTok::Tok(Token { kind, span: make_span(src, pos, j, n) })
    } else if c == '-' && pos + 1 < n && src.get_char(pos + 1) == '>' {
        NextTok::Tok(Token { kind: TokenKind::Arrow, span: make_span(src, pos, pos + 2, n) })
    } else if c == ':' && pos + 1 < n && src.get_char(pos + 1) == ':' {
        NextTok::Tok(Token { kind: TokenKind::DoubleCollon, span: make_span(src, pos, pos + 2, n) })
    } else if c == '>' && pos + 1 < n && src.get_char(pos + 1) == '=' {
        NextTok::Tok(Token { kind: TokenKind::Gte, span: make_span(src, pos, pos + 2, n) })
    } else if c == '<' && pos + 1 < n && src.get_char(pos + 1) == '=' {
        NextTok::Tok(Token { kind: TokenKind::Lte, span: make_span(src, pos, pos + 2, n) })
    } else if c == '&' && pos + 1 < n && src.get_char(pos + 1) == '&' {
        NextTok::Tok(Token { kind: TokenKind::And, span: make_span(src, pos, pos + 2, n) })
    } else if c == '|' && pos + 1 < n && src.get_char(pos + 1) == '|' {
        NextTok::Tok(Token { kind: TokenKind::Or, span: make_span(src, pos, pos + 2, n) })
    } else if c == '=' && pos + 1 < n && src.get_char(pos + 1) == '=' {
        NextTok::Tok(Token { kind: TokenKind::Eq, span: make_span(src, pos, pos + 2, n) })
    } else if c == '!' && pos + 1 < n && src.get_char(pos + 1) == '=' {
        NextTok::Tok(Token { kind: TokenKind::Neq, span: make_span(src, pos, pos + 2, n) })
    } else if c == '|' {
        NextTok::Tok(Token { kind: TokenKind::Pipe, span: make_span(src, pos, pos + 1, n) })
    } else if c == '_' {
        NextTok::Tok(Token { kind: TokenKind::Underscore, span: make_span(src, pos, pos + 1, n) })
    } else if c == '\\' {
        NextTok::Tok(Token { kind: TokenKind::InversedSlash, span: make_span(src, pos, pos + 1, n) })
    } else if c == '(' {
        NextTok::Tok(Token { kind: TokenKind::LParen, span: make_span(src, pos, pos + 1, n) })
    } else if c == ')' {
        NextTok::Tok(Token { kind: TokenKind::RParen, span: make_span(src, pos, pos + 1, n) })
    } else if c == '[' {
        NextTok::Tok(Token { kind: TokenKind::LBracket, span: make_span(src, pos, pos + 1, n) })
    } else if c == ']' {
        NextTok::Tok(Token { kind: TokenKind::RBracket, span: make_span(src, pos, pos + 1, n) })
    } else if c == ',' {
        NextTok::Tok(Token { kind: TokenKind::Comma, span: make_span(src, pos, pos + 1, n) })
    } else if c == ';' {
        NextTok::Tok(Token { kind: TokenKind::Semicolon, span: make_span(src, pos, pos + 1, n) })
    } else if c == ':' {
        NextTok::Tok(Token { kind: TokenKind::Colon, span: make_span(src, pos, pos + 1, n) })
    } else if c == '<' {
        NextTok::Tok(Token { kind: TokenKind::Lt, span: make_span(src, pos, pos + 1, n) })
    } else if c == '>' {
        NextTok::Tok(Token { kind: TokenKind::Gt, span: make_span(src, pos, pos + 1, n) })
    } else if c == '+' {
        NextTok::Tok(Token { kind: TokenKind::Add, span: make_span(src, pos, pos + 1, n) })
    } else if c == '-' {
        NextTok::Tok(Token { kind: TokenKind::Sub, span: make_span(src, pos, pos + 1, n) })
    } else if c == '*' {
        NextTok::Tok(Token { kind: TokenKind::Mul, span: make_span(src, pos, pos + 1, n) })
    } else if c == '/' {
        NextTok::Tok(Token { kind: TokenKind::Div, span: make_span(src, pos, pos + 1, n) })
    } else if c == '^' {
        NextTok::Tok(Token { kind: TokenKind::Exp, span: make_span(src, pos, pos + 1, n) })
    } else if c == '%' {
        NextTok::Tok(Token { kind: TokenKind::Mod, span: make_span(src, pos, pos + 1, n) })
    } else if c == '=' {
        NextTok::Tok(Token { kind: TokenKind::Assign, span: make_span(src, pos, pos + 1, n) })
    } else {
        NextTok::Fail(LexError { span: make_span(src, pos, pos + 1, n) })
    }
}

/// Tokenizes the whole input, or fails at the first unrecognized character
/// sequence.  The result is exactly the token sequence that [`lex_spec`]
/// describes, and it is well formed over the input.
pub fn lexer(input: &str) -> (r: Result<Vec<Token>, LexError>)
    ensures
        match r {
            Ok(toks) => {
                &&& lex_spec(input@) == Ok::<Seq<TokenV>, int>(
                    toks@.map_values(|t: Token| t.view()),
                )
                &&& tokens_wf(toks@, input@)
            },
            Err(e) => {
                &&& lex_spec(input@) matches Err(p) && e.span.start == p
                &&& e.span.end == e.span.start + 1
                &&& e.span.wf(input@)
            },
        },
{
    let n = input.unicode_len();
    let mut toks: Vec<Token> = Vec::new();
    let mut pos: usize = 0;
    while pos < n
        invariant
            0 <= pos <= n,
            n == input@.len(),
            match lex_from(input@, pos as int) {
                Ok(rest) => lex_spec(input@) == Ok::<Seq<TokenV>, int>(
                    toks@.map_values(|t: Token| t.view()) + rest,
                ),
                Err(p) => lex_spec(input@) == Err::<Seq<TokenV>, int>(p),
            },
            forall|i: int| 0 <= i < toks@.len() ==> (#[trigger] toks@[i]).span.wf(input@),
            forall|i: int| 0 <= i < toks@.len() ==> (#[trigger] toks@[i]).span.end <= pos,
            forall|i: int|
                0 <= i < toks@.len() - 1 ==> (#[trigger] toks@[i]).span.end <= toks@[i
                    + 1].span.start,
            forall|i: int|
                0 <= i < toks@.len() ==> !((#[trigger] toks@[i]).kind matches TokenKind::Eof),
            toks@.len() > 0 ==> toks@[toks@.len() - 1].span.end <= pos,
        decreases n - pos,
    {
        let ghost prev = toks@;
        match next_token(input, pos, n) {
            NextTok::Skip(q) => {
                pos = q;
            },
            NextTok::Tok(t) => {
                let ghost tv = t.view();
                let ghost e = t.span.end as int;
                let newpos = t.span.end;
                toks.push(t);
                proof {
                    assert(toks@.map_values(|t: Token| t.view()) =~= prev.map_values(
                        |t: Token| t.view(),
                    ) + seq![tv]);
                    assert(match lex_from(input@, e) {
                        Ok(rest) => lex_spec(input@) == Ok::<Seq<TokenV>, int>(
                            toks@.map_values(|t: Token| t.view()) + rest,
                        ),
                        Err(p) => lex_spec(input@) == Err::<Seq<TokenV>, int>(p),
                    }) by {
                        match lex_from(input@, e) {
                            Ok(rest) => {
                                assert(prev.map_values(|t: Token| t.view()) + (seq![tv] + rest)
                                    =~= toks@.map_values(|t: Token| t.view()) + rest);
                            },
                            Err(p) => {},
                        }
                    }
                }
                pos = newpos;
            },
            NextTok::Fail(e) => {
                return Err(e);
            },
        }
    }
    let eof = Token {
        kind: TokenKind::Eof,
        span: Span { start: n, end: n, input: String::new() },
    };
    proof {
        assert(eof.span.input@ =~= input@.subrange(n as int, n as int));
    }
    let ghost prev = toks@;
    toks.push(eof);
    proof {
        assert(toks@.map_values(|t: Token| t.view()) =~= prev.map_values(|t: Token| t.view())
            + seq![eof.view()]);
        assert(lex_from(input@, pos as int) == Ok::<Seq<TokenV>, int>(
            seq![TokenV { kind: TokKV::Eof, start: n as int, end: n as int }],
        ));
        assert(prev.map_values(|t: Token| t.view()) + seq![
            TokenV { kind: TokKV::Eof, start: n as int, end: n as int },
        ] =~= toks@.map_values(|t: Token| t.view()));
    }
    Ok(toks)
}

} // verus!
