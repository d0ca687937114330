//! The recursive-descent parser.
//!
//! The grammar is fixed here twice, as the lexer's is: once as the
//! `sp_parse_*` specification functions over the token vector and a
//! cursor, and once as executable code.  Each executable parse function is
//! proved to return exactly the node image, error image and cursor that
//! its specification twin describes, so the parser's whole behavior —
//! which inputs parse, into which tree, with which spans, and which error
//! ends a failing parse — is pinned by [`Parser::sp_parse_program`] and
//! the twins below it.
//!
//! The parser owns the token vector produced by the lexer and an index
//! cursor into it; backtracking for the speculative application syntax is
//! a saved cursor, restored verbatim when an attempt fails, so a failed
//! attempt leaves no observable state behind (see [`Parser::try_expr_arg`]
//! and its siblings).  Besides the exact contracts, every parse function
//! is verified to keep the cursor inside the token vector, to consume at
//! least one token on success, and to return only nodes whose every span
//! lies inside the source and reproduces its text.

use vstd::prelude::*;
use vstd::string::*;
use crate::ast::{
    arms_v, bind_v, binds_v, expr_v, exprs_v, ident_v, idents_v, lemma_arms_v_push,
    lemma_binds_v_push, lemma_exprs_v_push, lemma_idents_v_push, lemma_pats_v_push,
    lemma_stmts_v_push, lemma_tys_v_push, lemma_variants_v_push, lit_v, litkind_v, pats_v, pattern_v,
    span_v, stmt_v, stmts_v, type_v, typeassign_v, typedecl_v, tys_v, variant_v, variants_v, App,
    Bind, BinOp, BindV, Bool, Expr, ExprV, IdentV, Identifier, LitKV, LitV, Literal, LiteralKind,
    PatV, Pattern, Program, Span, SpanV, Statement, StmtV, TyV, Type, TypeAssign, TypeAssignV,
    TypeDecl, TypeDeclV, Variant, VariantV,
};
use crate::error::{err_v, ErrKV, ErrV, Error, ErrorKind};
use crate::lexer::{lexer, tokens_wf, LexError, Token, TokenKind};

verus! {

broadcast use vstd::std_specs::vec::group_vec_axioms, vstd::seq::group_seq_axioms,
    crate::ast::lemma_pats_v_len, crate::ast::lemma_tys_v_len, crate::ast::lemma_exprs_v_len,
    crate::ast::lemma_binds_v_len, crate::ast::lemma_arms_v_len, crate::ast::lemma_idents_v_len,
    crate::ast::lemma_variants_v_len, crate::ast::lemma_stmts_v_len;

/// The parser's cursor: the index of the current token and the layout flag.
/// While `ol` ("one line") is set, a newline ends the current parse instead
/// of being skipped.
#[derive(Clone, Copy, Debug, PartialEq, Eq, Structural)]
pub struct St {
    pub pos: usize,
    pub ol: bool,
}

/// The result of one parse function: the node and the cursor after it, or
/// the fatal error and the cursor where parsing stopped.
pub type PRes<T> = Result<(T, St), (Error, St)>;

/// The cursor a parse result stopped at, whichever way it went.
pub open spec fn res_st<T>(r: PRes<T>) -> St {
    match r {
        Ok((_, s)) => s,
        Err((_, s)) => s,
    }
}

/// The result of one level of the grammar specification: the node image
/// and the cursor after it, or the error image and the cursor where the
/// specification parse stopped.
pub type SpRes<T> = Result<(T, St), (ErrV, St)>;

/// What `advance` does, as a function of the token vector and the cursor:
/// move past the current token and all following whitespace (newlines only
/// while `ol` is off), or report why it cannot.
pub ghost enum AdvOut {
    /// The new position.
    Next(int),
    /// The cursor stands on `Eof`.
    EndOfInput,
    /// The cursor stands on a newline while `ol` is set.
    NewlineStop,
}

pub open spec fn adv(toks: Seq<Token>, pos: int, ol: bool) -> AdvOut
    decreases toks.len() - pos,
{
    if pos < 0 || pos >= toks.len() {
        AdvOut::EndOfInput
    } else if (toks[pos].kind matches TokenKind::Eof) {
        AdvOut::EndOfInput
    } else if ol && (toks[pos].kind matches TokenKind::Newline) {
        AdvOut::NewlineStop
    } else if toks[pos + 1].kind.spec_is_whitespace() && !(ol && (toks[pos + 1].kind
        matches TokenKind::Newline)) {
        adv(toks, pos + 1, ol)
    } else {
        AdvOut::Next(pos + 1)
    }
}

/// The literal image a token carries, if it is a literal token.
pub open spec fn lit_kv(k: TokenKind) -> Option<LitKV> {
    match k {
        TokenKind::Integer(i) => Some(LitKV::Integer(i)),
        TokenKind::Float(s) => Some(LitKV::Float(s@)),
        TokenKind::String(s) => Some(LitKV::Str(s@)),
        TokenKind::Char(c) => Some(LitKV::CharL(c)),
        TokenKind::True => Some(LitKV::Bool(Bool::True)),
        TokenKind::False => Some(LitKV::Bool(Bool::False)),
        _ => None,
    }
}

// The operator tables, one per precedence level, loosest first.
pub open spec fn op_addsub(k: TokenKind) -> Option<BinOp> {
    match k {
        TokenKind::Add => Some(BinOp::Add),
        TokenKind::Sub => Some(BinOp::Sub),
        _ => None,
    }
}

pub open spec fn op_muldiv(k: TokenKind) -> Option<BinOp> {
    match k {
        TokenKind::Mul => Some(BinOp::Mul),
        TokenKind::Div => Some(BinOp::Div),
        TokenKind::Mod => Some(BinOp::Mod),
        _ => None,
    }
}

pub open spec fn op_orand(k: TokenKind) -> Option<BinOp> {
    match k {
        TokenKind::Or => Some(BinOp::Or),
        TokenKind::And => Some(BinOp::And),
        _ => None,
    }
}

pub open spec fn op_cmp(k: TokenKind) -> Option<BinOp> {
    match k {
        TokenKind::Eq => Some(BinOp::Eq),
        TokenKind::Neq => Some(BinOp::Ineq),
        TokenKind::Lt => Some(BinOp::LessThan),
        TokenKind::Gt => Some(BinOp::GreaterThan),
        TokenKind::Lte => Some(BinOp::LessThanOrEq),
        TokenKind::Gte => Some(BinOp::GreaterThanOrEq),
        _ => None,
    }
}

pub open spec fn op_exp(k: TokenKind) -> Option<BinOp> {
    match k {
        TokenKind::Exp => Some(BinOp::Exp),
        _ => None,
    }
}

pub open spec fn op_cons(k: TokenKind) -> Option<BinOp> {
    match k {
        TokenKind::DoubleCollon => Some(BinOp::ListCons),
        _ => None,
    }
}

/// Trims trailing whitespace tokens: the least `e` in `[start_idx, end_idx]`
/// such that `toks[start_idx..e]` ends in a non-whitespace token, or
/// `start_idx` if they all are whitespace.
pub open spec fn trim_ws(toks: Seq<Token>, start_idx: int, end_idx: int) -> int
    decreases end_idx - start_idx,
{
    if end_idx <= start_idx {
        start_idx
    } else if toks[end_idx - 1].kind.spec_is_whitespace() {
        trim_ws(toks, start_idx, end_idx - 1)
    } else {
        end_idx
    }
}

/// Token starts never decrease along the vector.
proof fn lemma_tokens_ordered(toks: Seq<Token>, src: Seq<char>, i: int, j: int)
    requires
        tokens_wf(toks, src),
        0 <= i <= j < toks.len(),
    ensures
        toks[i].span.start <= toks[j].span.start,
    decreases j - i,
{
    if i < j {
        assert(toks[i].span.end <= toks[i + 1].span.start);
        lemma_tokens_ordered(toks, src, i + 1, j);
    }
}

/// The parser: the source text, its tokens, and the cursor.
#[derive(Debug)]
pub struct Parser {
    pub content: String,
    pub tokens: Vec<Token>,
    pub current: usize,
    pub oneline: bool,
}

impl Parser {
    /// The parser's tokens were produced over its content, and the cursor
    /// is in range.
    pub open spec fn wf(self) -> bool {
        &&& tokens_wf(self.tokens@, self.content@)
        &&& self.current < self.tokens@.len()
    }

    /// A cursor in range for this parser.
    pub open spec fn ok_st(self, st: St) -> bool {
        st.pos < self.tokens@.len()
    }

    /// The usual guarantee of a parse step: the cursor stays in range and
    /// never moves backwards; success consumes at least one token; errors
    /// carry well-formed spans.
    pub open spec fn frame<T>(self, st: St, r: PRes<T>) -> bool {
        &&& res_st(r).pos < self.tokens@.len()
        &&& res_st(r).pos >= st.pos
        &&& (r matches Ok(p) ==> p.1.pos > st.pos)
        &&& (r matches Err(p) ==> p.0.wf(self.content@))
    }

    /// The character range that recording from token `start_idx` to token
    /// `cur` (exclusive) covers, trailing whitespace trimmed.
    pub open spec fn sp_rec_start(self, start_idx: int) -> int {
        self.tokens@[start_idx].span.start as int
    }

    pub open spec fn sp_rec_end(self, start_idx: int, cur: int) -> int {
        let e = trim_ws(self.tokens@, start_idx, cur);
        if e == start_idx {
            self.sp_rec_start(start_idx)
        } else {
            self.tokens@[e - 1].span.end as int
        }
    }

    /// A span recorded from `start_idx` to `cur` has these exact bounds and
    /// covers exactly the text between them.
    pub open spec fn sp_rec_span(self, start_idx: int, cur: int, r: Span) -> bool {
        &&& r.start == self.sp_rec_start(start_idx)
        &&& r.end == self.sp_rec_end(start_idx, cur)
        &&& r.wf(self.content@)
    }
}

// ------------------------------------------------------------------
// The grammar, as specification functions: one per parse function,
// defined over the token vector and a cursor.  Each executable parse
// function below is proved to return exactly what its specification
// twin describes.  A recursive call is guarded by `moved`, which the
// executable parser always satisfies; the `sp_no_progress` branches are
// never reached by it.
// ------------------------------------------------------------------
impl Parser {
    /// Whether a sub-parse moved the cursor forward and kept it in range.
    pub open spec fn moved(self, a: St, b: St) -> bool {
        a.pos < b.pos < self.tokens@.len()
    }

    /// The image of the span recorded from token `start_idx` to `cur`.
    pub open spec fn sp_rec(self, start_idx: int, cur: int) -> SpanV {
        SpanV { start: self.sp_rec_start(start_idx), end: self.sp_rec_end(start_idx, cur) }
    }

    /// The image of the error `advance` reports at this cursor.
    pub open spec fn sp_step_err(self, st: St) -> ErrV {
        let sv = span_v(self.tokens@[st.pos as int].span);
        if (self.tokens@[st.pos as int].kind matches TokenKind::Eof) {
            ErrV { kind: ErrKV::UnexpectedEndOfInput, span: sv }
        } else {
            ErrV { kind: ErrKV::ExpectedNewline { found: sv }, span: sv }
        }
    }

    /// What `advance` does: the new cursor, or the error image.
    pub open spec fn sp_step(self, st: St) -> Result<St, ErrV> {
        match adv(self.tokens@, st.pos as int, st.ol) {
            AdvOut::Next(p) => Ok(St { pos: p as usize, ol: st.ol }),
            AdvOut::EndOfInput => Err(self.sp_step_err(st)),
            AdvOut::NewlineStop => Err(self.sp_step_err(st)),
        }
    }

    /// The image of an `UnexpectedToken` error at the current token.
    pub open spec fn sp_err_here(self, st: St, what: Seq<char>) -> ErrV {
        let sv = span_v(self.tokens@[st.pos as int].span);
        ErrV { kind: ErrKV::UnexpectedToken { expected: what, found: sv }, span: sv }
    }

    /// The dead branch behind a `moved` guard: the executable parser
    /// always makes progress, so this value is never its result.
    pub open spec fn sp_no_progress<T>(self, st: St) -> SpRes<T> {
        Err((ErrV { kind: ErrKV::UnexpectedEndOfInput, span: SpanV { start: 0, end: 0 } }, st))
    }

    /// What `match_token` does.
    pub open spec fn sp_match(self, st: St, kind: TokenKind) -> (St, Result<bool, ErrV>) {
        if kind_like(self.tokens@[st.pos as int].kind, kind) {
            match self.sp_step(st) {
                Ok(st2) => (st2, Ok(true)),
                Err(e) => (st, Err(e)),
            }
        } else {
            (st, Ok(false))
        }
    }

    /// What `expect_current` does.
    pub open spec fn sp_expect_current(self, st: St, kind: TokenKind, what: Seq<char>) -> SpRes<
        (),
    > {
        if kind_like(self.tokens@[st.pos as int].kind, kind) {
            match self.sp_step(st) {
                Ok(st2) => Ok(((), st2)),
                Err(e) => Err((e, st)),
            }
        } else {
            Err((self.sp_err_here(st, what), st))
        }
    }

    /// What `expect_identifier` does.
    pub open spec fn sp_expect_identifier(self, st: St) -> SpRes<IdentV> {
        let tok = self.tokens@[st.pos as int];
        match tok.kind {
            TokenKind::Identifier(nm) => match self.sp_step(st) {
                Ok(st2) => Ok((IdentV { name: nm@, span: span_v(tok.span) }, st2)),
                Err(e) => Err((e, st)),
            },
            _ => Err((self.sp_err_here(st, "identifier"@), st)),
        }
    }

    /// What `expect_pc_identifier` does.
    pub open spec fn sp_expect_pc_identifier(self, st: St) -> SpRes<IdentV> {
        let tok = self.tokens@[st.pos as int];
        match tok.kind {
            TokenKind::PCIdentifier(nm) => match self.sp_step(st) {
                Ok(st2) => Ok((IdentV { name: nm@, span: span_v(tok.span) }, st2)),
                Err(e) => Err((e, st)),
            },
            _ => Err((self.sp_err_here(st, "pascal case identifier"@), st)),
        }
    }

    /// What `expect_any_identifier` does.
    pub open spec fn sp_expect_any_identifier(self, st: St) -> SpRes<IdentV> {
        let tok = self.tokens@[st.pos as int];
        match tok.kind {
            TokenKind::Identifier(nm) => match self.sp_step(st) {
                Ok(st2) => Ok((IdentV { name: nm@, span: span_v(tok.span) }, st2)),
                Err(e) => Err((e, st)),
            },
            TokenKind::PCIdentifier(nm) => match self.sp_step(st) {
                Ok(st2) => Ok((IdentV { name: nm@, span: span_v(tok.span) }, st2)),
                Err(e) => Err((e, st)),
            },
            _ => Err((self.sp_err_here(st, "identifier"@), st)),
        }
    }

    /// The speculative constructor-argument accumulation for patterns:
    /// arguments are appended while a pattern parses; the first failure
    /// leaves the cursor exactly where the last success ended.
    pub open spec fn sp_pat_args(self, st: St, acc: Seq<PatV>) -> (Seq<PatV>, St)
        decreases self.tokens@.len() - st.pos, 13int,
    {
        match self.sp_parse_pattern(st) {
            Ok((p, st2)) => if self.moved(st, st2) {
                self.sp_pat_args(st2, acc.push(p))
            } else {
                (acc, st)
            },
            Err(_) => (acc, st),
        }
    }

    /// What `parse_pattern_primary` does.
    pub open spec fn sp_parse_pattern_primary(self, st: St) -> SpRes<PatV>
        decreases self.tokens@.len() - st.pos, 11int,
    {
        let tok = self.tokens@[st.pos as int];
        if tok.kind.spec_is_literal() {
            match self.sp_parse_literal(st) {
                Ok((l, st1)) => Ok((PatV::Literal(l), st1)),
                Err(p) => Err(p),
            }
        } else if (tok.kind matches TokenKind::Identifier(..)) {
            match self.sp_expect_identifier(st) {
                Ok((id, st1)) => Ok((PatV::Variable(id), st1)),
                Err(p) => Err(p),
            }
        } else if (tok.kind matches TokenKind::PCIdentifier(..)) {
            match self.sp_expect_pc_identifier(st) {
                Ok((id, st1)) => if self.moved(st, st1) {
                    let (args, st2) = self.sp_pat_args(st1, Seq::empty());
                    if args.len() > 0 {
                        Ok((PatV::App(id, args, self.sp_rec(st.pos as int, st2.pos as int)), st2))
                    } else {
                        Ok((PatV::Id(id), st1))
                    }
                } else {
                    self.sp_no_progress(st)
                },
                Err(p) => Err(p),
            }
        } else if (tok.kind matches TokenKind::Underscore) {
            match self.sp_step(st) {
                Ok(st1) => Ok(
                    (PatV::Wildcard(self.sp_rec(st.pos as int, st1.pos as int)), st1),
                ),
                Err(e) => Err((e, st)),
            }
        } else {
            Err((self.sp_err_here(st, "pattern"@), st))
        }
    }

    /// What `parse_pattern` does: a primary pattern, optionally `: tail`.
    pub open spec fn sp_parse_pattern(self, st: St) -> SpRes<PatV>
        decreases self.tokens@.len() - st.pos, 12int,
    {
        match self.sp_parse_pattern_primary(st) {
            Ok((pat, st1)) => {
                let (st2, m) = self.sp_match(st1, TokenKind::Colon);
                match m {
                    Err(e) => Err((e, st2)),
                    Ok(true) => if self.moved(st, st2) {
                        match self.sp_parse_pattern(st2) {
                            Ok((pat2, st3)) => Ok(
                                (
                                    PatV::ListCons(
                                        Box::new(pat),
                                        Box::new(pat2),
                                        self.sp_rec(st.pos as int, st3.pos as int),
                                    ),
                                    st3,
                                ),
                            ),
                            Err(p) => Err(p),
                        }
                    } else {
                        self.sp_no_progress(st)
                    },
                    Ok(false) => Ok((pat, st1)),
                }
            },
            Err(p) => Err(p),
        }
    }

    /// The speculative type-argument accumulation.
    pub open spec fn sp_type_args(self, st: St, acc: Seq<TyV>) -> (Seq<TyV>, St)
        decreases self.tokens@.len() - st.pos, 16int,
    {
        match self.sp_parse_type(st) {
            Ok((t, st2)) => if self.moved(st, st2) {
                self.sp_type_args(st2, acc.push(t))
            } else {
                (acc, st)
            },
            Err(_) => (acc, st),
        }
    }

    /// The tail of a tuple type after its first element: `, Type` until the
    /// closing parenthesis.
    pub open spec fn sp_ttuple_rest(self, st: St, acc: Seq<TyV>, index: int) -> SpRes<TyV>
        decreases self.tokens@.len() - st.pos, 16int,
    {
        let (stx, m) = self.sp_match(st, TokenKind::RParen);
        match m {
            Err(e) => Err((e, stx)),
            Ok(true) => Ok((TyV::Tuple(acc, self.sp_rec(index, stx.pos as int)), stx)),
            Ok(false) => match self.sp_expect_current(st, TokenKind::Comma, "`,`"@) {
                Ok((u, sty)) => if self.moved(st, sty) {
                    match self.sp_parse_type(sty) {
                        Ok((ty, stz)) => if self.moved(st, stz) {
                            self.sp_ttuple_rest(stz, acc.push(ty), index)
                        } else {
                            self.sp_no_progress(st)
                        },
                        Err(p) => Err(p),
                    }
                } else {
                    self.sp_no_progress(st)
                },
                Err(p) => Err(p),
            },
        }
    }

    /// What `parse_type_primary` does.
    pub open spec fn sp_parse_type_primary(self, st: St) -> SpRes<TyV>
        decreases self.tokens@.len() - st.pos, 14int,
    {
        let tok = self.tokens@[st.pos as int];
        if (tok.kind matches TokenKind::Identifier(..)) {
            match self.sp_expect_identifier(st) {
                Ok((id, st1)) => Ok((TyV::Generic(id), st1)),
                Err(p) => Err(p),
            }
        } else if (tok.kind matches TokenKind::PCIdentifier(..)) {
            match self.sp_expect_pc_identifier(st) {
                Ok((id, st1)) => if self.moved(st, st1) {
                    let (args, st2) = self.sp_type_args(st1, Seq::empty());
                    if args.len() > 0 {
                        Ok((TyV::App(id, args, self.sp_rec(st.pos as int, st2.pos as int)), st2))
                    } else {
                        Ok((TyV::Id(id), st1))
                    }
                } else {
                    self.sp_no_progress(st)
                },
                Err(p) => Err(p),
            }
        } else if (tok.kind matches TokenKind::LBracket) {
            match self.sp_step(st) {
                Err(e) => Err((e, st)),
                Ok(st1) => if self.moved(st, st1) {
                    match self.sp_parse_type(st1) {
                        Ok((ty, st2)) => match self.sp_expect_current(
                            st2,
                            TokenKind::RBracket,
                            "`]`"@,
                        ) {
                            Ok((u, st3)) => Ok((ty, st3)),
                            Err(p) => Err(p),
                        },
                        Err(p) => Err(p),
                    }
                } else {
                    self.sp_no_progress(st)
                },
            }
        } else if (tok.kind matches TokenKind::LParen) {
            match self.sp_step(st) {
                Err(e) => Err((e, st)),
                Ok(st1) => if self.moved(st, st1) {
                    match self.sp_parse_type(st1) {
                        Ok((first, st2)) => if self.moved(st, st2) {
                            self.sp_ttuple_rest(st2, seq![first], st.pos as int)
                        } else {
                            self.sp_no_progress(st)
                        },
                        Err(p) => Err(p),
                    }
                } else {
                    self.sp_no_progress(st)
                },
            }
        } else {
            Err((self.sp_err_here(st, "type"@), st))
        }
    }

    /// What `parse_type` does: a primary type, optionally `-> codomain`.
    pub open spec fn sp_parse_type(self, st: St) -> SpRes<TyV>
        decreases self.tokens@.len() - st.pos, 15int,
    {
        match self.sp_parse_type_primary(st) {
            Ok((lhs, st1)) => {
                let (st2, m) = self.sp_match(st1, TokenKind::Arrow);
                match m {
                    Err(e) => Err((e, st2)),
                    Ok(true) => if self.moved(st, st2) {
                        match self.sp_parse_type(st2) {
                            Ok((rhs, st3)) => Ok(
                                (
                                    TyV::Func(
                                        Box::new(lhs),
                                        seq![rhs],
                                        self.sp_rec(st.pos as int, st3.pos as int),
                                    ),
                                    st3,
                                ),
                            ),
                            Err(p) => Err(p),
                        }
                    } else {
                        self.sp_no_progress(st)
                    },
                    Ok(false) => Ok((lhs, st1)),
                }
            },
            Err(p) => Err(p),
        }
    }

    /// What `parse_literal` does: the current token's literal image,
    /// spanned like the token.
    pub open spec fn sp_parse_literal(self, st: St) -> SpRes<LitV> {
        let tok = self.tokens@[st.pos as int];
        match lit_kv(tok.kind) {
            Some(lk) => match self.sp_step(st) {
                Ok(st1) => Ok((LitV { lit: lk, span: span_v(tok.span) }, st1)),
                Err(e) => Err((e, st)),
            },
            None => Err((self.sp_err_here(st, "literal"@), st)),
        }
    }

    /// The speculative application-argument accumulation for expressions.
    pub open spec fn sp_app_args(self, st: St, acc: Seq<ExprV>) -> (Seq<ExprV>, St)
        decreases self.tokens@.len() - st.pos, 11int,
    {
        match self.sp_parse_expr(st) {
            Ok((e, st2)) => if self.moved(st, st2) {
                self.sp_app_args(st2, acc.push(e))
            } else {
                (acc, st)
            },
            Err(_) => (acc, st),
        }
    }

    /// The tail of a tuple expression after its first element.
    pub open spec fn sp_tuple_rest(self, st: St, acc: Seq<ExprV>, index: int) -> SpRes<ExprV>
        decreases self.tokens@.len() - st.pos, 10int,
    {
        let (stx, m) = self.sp_match(st, TokenKind::RParen);
        match m {
            Err(e) => Err((e, stx)),
            Ok(true) => Ok((ExprV::Tuple(acc, self.sp_rec(index, stx.pos as int)), stx)),
            Ok(false) => match self.sp_expect_current(st, TokenKind::Comma, "`,`"@) {
                Ok((u, sty)) => if self.moved(st, sty) {
                    match self.sp_parse_expr(sty) {
                        Ok((e, stz)) => if self.moved(st, stz) {
                            self.sp_tuple_rest(stz, acc.push(e), index)
                        } else {
                            self.sp_no_progress(st)
                        },
                        Err(p) => Err(p),
                    }
                } else {
                    self.sp_no_progress(st)
                },
                Err(p) => Err(p),
            },
        }
    }

    /// The elements of a list expression after the opening bracket.
    pub open spec fn sp_list_rest(self, st: St, acc: Seq<ExprV>, index: int) -> SpRes<ExprV>
        decreases self.tokens@.len() - st.pos, 10int,
    {
        let (stx, m) = self.sp_match(st, TokenKind::RBracket);
        match m {
            Err(e) => Err((e, stx)),
            Ok(true) => Ok((ExprV::List(acc, self.sp_rec(index, stx.pos as int)), stx)),
            Ok(false) => match self.sp_expect_current(st, TokenKind::Comma, "`,`"@) {
                Ok((u, sty)) => if self.moved(st, sty) {
                    match self.sp_parse_expr(sty) {
                        Ok((e, stz)) => if self.moved(st, stz) {
                            self.sp_list_rest(stz, acc.push(e), index)
                        } else {
                            self.sp_no_progress(st)
                        },
                        Err(p) => Err(p),
                    }
                } else {
                    self.sp_no_progress(st)
                },
                Err(p) => Err(p),
            },
        }
    }

    /// The bindings of a `let`, each closed by `;`, up to `in`.
    pub open spec fn sp_let_binds(self, st: St, acc: Seq<BindV>) -> SpRes<Seq<BindV>>
        decreases self.tokens@.len() - st.pos, 18int,
    {
        let (stx, m) = self.sp_match(st, TokenKind::In);
        match m {
            Err(e) => Err((e, stx)),
            Ok(true) => Ok((acc, stx)),
            Ok(false) => match self.sp_parse_bind(st) {
                Ok((b, sty)) => match self.sp_expect_current(sty, TokenKind::Semicolon, "`;`"@) {
                    Ok((u, stz)) => if self.moved(st, stz) {
                        self.sp_let_binds(stz, acc.push(b))
                    } else {
                        self.sp_no_progress(st)
                    },
                    Err(p) => Err(p),
                },
                Err(p) => Err(p),
            },
        }
    }

    /// Further parenthesized match arms after the first.
    pub open spec fn sp_arms_rest(self, st: St, acc: Seq<(PatV, ExprV)>) -> SpRes<
        Seq<(PatV, ExprV)>,
    >
        decreases self.tokens@.len() - st.pos, 13int,
    {
        let (stx, m) = self.sp_match(st, TokenKind::LParen);
        match m {
            Err(e) => Err((e, stx)),
            Ok(false) => Ok((acc, st)),
            Ok(true) => if self.moved(st, stx) {
                match self.sp_parse_pattern(stx) {
                    Ok((p, sta)) => match self.sp_expect_current(sta, TokenKind::Arrow, "`->`"@) {
                        Ok((u, stb)) => if self.moved(st, stb) {
                            match self.sp_parse_expr(stb) {
                                Ok((e, stc)) => match self.sp_expect_current(
                                    stc,
                                    TokenKind::RParen,
                                    "`)`"@,
                                ) {
                                    Ok((u2, std2)) => if self.moved(st, std2) {
                                        self.sp_arms_rest(std2, acc.push((p, e)))
                                    } else {
                                        self.sp_no_progress(st)
                                    },
                                    Err(p2) => Err(p2),
                                },
                                Err(p2) => Err(p2),
                            }
                        } else {
                            self.sp_no_progress(st)
                        },
                        Err(p2) => Err(p2),
                    },
                    Err(p2) => Err(p2),
                }
            } else {
                self.sp_no_progress(st)
            },
        }
    }

    /// Lambda parameter patterns up to the arrow.
    pub open spec fn sp_lambda_pats(self, st: St, acc: Seq<PatV>) -> SpRes<Seq<PatV>>
        decreases self.tokens@.len() - st.pos, 13int,
    {
        let (stx, m) = self.sp_match(st, TokenKind::Arrow);
        match m {
            Err(e) => Err((e, stx)),
            Ok(true) => Ok((acc, stx)),
            Ok(false) => match self.sp_parse_pattern(st) {
                Ok((p, sty)) => if self.moved(st, sty) {
                    self.sp_lambda_pats(sty, acc.push(p))
                } else {
                    self.sp_no_progress(st)
                },
                Err(p2) => Err(p2),
            },
        }
    }

    /// The rest of an `if` after its `Then` keyword: the two branch
    /// expressions, spanned from the `if` at `orig`.
    pub open spec fn sp_if_tail(self, orig: St, st: St, cond: ExprV) -> SpRes<ExprV>
        decreases self.tokens@.len() - st.pos, 11int,
    {
        match self.sp_parse_expr(st) {
            Err(p) => Err(p),
            Ok((thn, st4)) => match self.sp_expect_current(st4, TokenKind::Else, "Else"@) {
                Err(p) => Err(p),
                Ok((u2, st5)) => if self.moved(st, st5) {
                    match self.sp_parse_expr(st5) {
                        Err(p) => Err(p),
                        Ok((els, st6)) => Ok(
                            (
                                ExprV::Condition(
                                    Box::new(cond),
                                    Box::new(thn),
                                    Box::new(els),
                                    self.sp_rec(orig.pos as int, st6.pos as int),
                                ),
                                st6,
                            ),
                        ),
                    }
                } else {
                    self.sp_no_progress(st)
                },
            },
        }
    }

    /// The rest of a `match` after its `With` keyword: one or more
    /// parenthesized arms, spanned from the `match` at `orig`; afterwards
    /// the one-line layout flag is set again.
    pub open spec fn sp_match_tail(self, orig: St, st: St, referral: ExprV) -> SpRes<ExprV>
        decreases self.tokens@.len() - st.pos, 11int,
    {
        match self.sp_expect_current(st, TokenKind::LParen, "`(`"@) {
            Err(p) => Err(p),
            Ok((u, st4)) => if self.moved(st, st4) {
                match self.sp_parse_pattern(st4) {
                    Err(p) => Err(p),
                    Ok((pat1, st5)) => match self.sp_expect_current(
                        st5,
                        TokenKind::Arrow,
                        "`->`"@,
                    ) {
                        Err(p) => Err(p),
                        Ok((u2, st6)) => if self.moved(st, st6) {
                            match self.sp_parse_expr(st6) {
                                Err(p) => Err(p),
                                Ok((ex1, st7)) => match self.sp_expect_current(
                                    st7,
                                    TokenKind::RParen,
                                    "`)`"@,
                                ) {
                                    Err(p) => Err(p),
                                    Ok((u3, st8)) => if self.moved(st, st8) {
                                        match self.sp_arms_rest(st8, seq![(pat1, ex1)]) {
                                            Err(p) => Err(p),
                                            Ok((arms, st9)) => Ok(
                                                (
                                                    ExprV::Match(
                                                        Box::new(referral),
                                                        arms,
                                                        self.sp_rec(
                                                            orig.pos as int,
                                                            st9.pos as int,
                                                        ),
                                                    ),
                                                    St { pos: st9.pos, ol: true },
                                                ),
                                            ),
                                        }
                                    } else {
                                        self.sp_no_progress(st)
                                    },
                                },
                            }
                        } else {
                            self.sp_no_progress(st)
                        },
                    },
                }
            } else {
                self.sp_no_progress(st)
            },
        }
    }

    /// What `parse_primary` does.
    pub open spec fn sp_parse_primary(self, st: St) -> SpRes<ExprV>
        decreases self.tokens@.len() - st.pos, 2int,
    {
        let tok = self.tokens@[st.pos as int];
        if tok.kind.spec_is_literal() {
            match self.sp_parse_literal(st) {
                Ok((l, st1)) => Ok((ExprV::Literal(l), st1)),
                Err(p) => Err(p),
            }
        } else if tok.kind.spec_is_identifier() {
            match self.sp_expect_any_identifier(st) {
                Ok((id, st1)) => if self.moved(st, st1) {
                    let (args, st2) = self.sp_app_args(st1, Seq::empty());
                    if args.len() > 0 {
                        Ok((ExprV::App(id, args, self.sp_rec(st.pos as int, st2.pos as int)), st2))
                    } else if (tok.kind matches TokenKind::Identifier(..)) {
                        Ok((ExprV::Identifier(id), st1))
                    } else {
                        Ok((ExprV::PCIdentifier(id), st1))
                    }
                } else {
                    self.sp_no_progress(st)
                },
                Err(p) => Err(p),
            }
        } else if (tok.kind matches TokenKind::LParen) {
            match self.sp_step(st) {
                Err(e) => Err((e, st)),
                Ok(st1) => if self.moved(st, st1) {
                    match self.sp_parse_expr(st1) {
                        Err(p) => Err(p),
                        Ok((first, st2)) => if (self.tokens@[st2.pos as int].kind
                            matches TokenKind::Comma) {
                            if self.moved(st, st2) {
                                self.sp_tuple_rest(st2, seq![first], st.pos as int)
                            } else {
                                self.sp_no_progress(st)
                            }
                        } else {
                            match self.sp_expect_current(st2, TokenKind::RParen, "`)`"@) {
                                Ok((u, st3)) => Ok((first, st3)),
                                Err(p) => Err(p),
                            }
                        },
                    }
                } else {
                    self.sp_no_progress(st)
                },
            }
        } else if (tok.kind matches TokenKind::Let) {
            match self.sp_step(st) {
                Err(e) => Err((e, st)),
                Ok(st1) => if self.moved(st, st1) {
                    match self.sp_let_binds(st1, Seq::empty()) {
                        Err(p) => Err(p),
                        Ok((binds, st2)) => if self.moved(st, st2) {
                            match self.sp_parse_expr(st2) {
                                Ok((ret, st3)) => Ok(
                                    (
                                        ExprV::Let(
                                            binds,
                                            Box::new(ret),
                                            self.sp_rec(st.pos as int, st3.pos as int),
                                        ),
                                        st3,
                                    ),
                                ),
                                Err(p) => Err(p),
                            }
                        } else {
                            self.sp_no_progress(st)
                        },
                    }
                } else {
                    self.sp_no_progress(st)
                },
            }
        } else if (tok.kind matches TokenKind::If) {
            match self.sp_step(st) {
                Err(e) => Err((e, st)),
                Ok(st1) => if self.moved(st, st1) {
                    match self.sp_parse_expr(st1) {
                        Err(p) => Err(p),
                        Ok((cond, st2)) => match self.sp_expect_current(
                            st2,
                            TokenKind::Then,
                            "Then"@,
                        ) {
                            Err(p) => Err(p),
                            Ok((u, st3)) => if self.moved(st, st3) {
                                self.sp_if_tail(st, st3, cond)
                            } else {
                                self.sp_no_progress(st)
                            },
                        },
                    }
                } else {
                    self.sp_no_progress(st)
                },
            }
        } else if (tok.kind matches TokenKind::Match) {
            let st0 = St { pos: st.pos, ol: false };
            match self.sp_step(st0) {
                Err(e) => Err((e, st0)),
                Ok(st1) => if self.moved(st, st1) {
                    match self.sp_parse_expr(st1) {
                        Err(p) => Err(p),
                        Ok((referral, st2)) => match self.sp_expect_current(
                            st2,
                            TokenKind::With,
                            "With"@,
                        ) {
                            Err(p) => Err(p),
                            Ok((u, st3)) => if self.moved(st, st3) {
                                self.sp_match_tail(st, st3, referral)
                            } else {
                                self.sp_no_progress(st)
                            },
                        },
                    }
                } else {
                    self.sp_no_progress(st)
                },
            }
        } else if (tok.kind matches TokenKind::InversedSlash) {
            match self.sp_step(st) {
                Err(e) => Err((e, st)),
                Ok(st1) => if self.moved(st, st1) {
                    match self.sp_lambda_pats(st1, Seq::empty()) {
                        Err(p) => Err(p),
                        Ok((pats, st2)) => if self.moved(st, st2) {
                            match self.sp_parse_expr(st2) {
                                Err(p) => Err(p),
                                Ok((ret, st3)) => Ok(
                                    (
                                        ExprV::Lambda(
                                            pats,
                                            Box::new(ret),
                                            self.sp_rec(st.pos as int, st3.pos as int),
                                        ),
                                        st3,
                                    ),
                                ),
                            }
                        } else {
                            self.sp_no_progress(st)
                        },
                    }
                } else {
                    self.sp_no_progress(st)
                },
            }
        } else if (tok.kind matches TokenKind::LBracket) {
            match self.sp_step(st) {
                Err(e) => Err((e, st)),
                Ok(st1) => if self.moved(st, st1) {
                    let (st2, m0) = self.sp_match(st1, TokenKind::RBracket);
                    match m0 {
                        Err(e) => Err((e, st2)),
                        Ok(true) => Ok(
                            (
                                ExprV::List(
                                    Seq::empty(),
                                    self.sp_rec(st.pos as int, st2.pos as int),
                                ),
                                st2,
                            ),
                        ),
                        Ok(false) => match self.sp_parse_expr(st1) {
                            Err(p) => Err(p),
                            Ok((first, sta)) => if self.moved(st, sta) {
                                self.sp_list_rest(sta, seq![first], st.pos as int)
                            } else {
                                self.sp_no_progress(st)
                            },
                        },
                    }
                } else {
                    self.sp_no_progress(st)
                },
            }
        } else {
            Err((self.sp_err_here(st, "primary expression"@), st))
        }
    }

    /// What `parse_annotation` does.
    pub open spec fn sp_parse_annotation(self, st: St) -> SpRes<ExprV>
        decreases self.tokens@.len() - st.pos, 3int,
    {
        match self.sp_parse_primary(st) {
            Ok((lhs, st1)) => {
                let (st2, m) = self.sp_match(st1, TokenKind::DoubleCollon);
                match m {
                    Err(e) => Err((e, st2)),
                    Ok(true) => if self.moved(st, st2) {
                        match self.sp_parse_type(st2) {
                            Ok((ty, st3)) => Ok(
                                (
                                    ExprV::Ann(
                                        Box::new(lhs),
                                        ty,
                                        self.sp_rec(st.pos as int, st3.pos as int),
                                    ),
                                    st3,
                                ),
                            ),
                            Err(p) => Err(p),
                        }
                    } else {
                        self.sp_no_progress(st)
                    },
                    Ok(false) => Ok((lhs, st1)),
                }
            },
            Err(p) => Err(p),
        }
    }

    /// One left-fold step chain per operator level, tightest first.
    pub open spec fn sp_cons_rest(self, st: St, lhs: ExprV, index: int) -> SpRes<ExprV>
        decreases self.tokens@.len() - st.pos, 4int,
    {
        match op_cons(self.tokens@[st.pos as int].kind) {
            None => Ok((lhs, st)),
            Some(op) => match self.sp_step(st) {
                Err(e) => Err((e, st)),
                Ok(st1) => if self.moved(st, st1) {
                    match self.sp_parse_annotation(st1) {
                        Ok((rhs, st2)) => if self.moved(st, st2) {
                            self.sp_cons_rest(
                                st2,
                                ExprV::BinOp(
                                    op,
                                    Box::new(lhs),
                                    Box::new(rhs),
                                    self.sp_rec(index, st2.pos as int),
                                ),
                                index,
                            )
                        } else {
                            self.sp_no_progress(st)
                        },
                        Err(p) => Err(p),
                    }
                } else {
                    self.sp_no_progress(st)
                },
            },
        }
    }

    pub open spec fn sp_parse_list_cons(self, st: St) -> SpRes<ExprV>
        decreases self.tokens@.len() - st.pos, 5int,
    {
        match self.sp_parse_annotation(st) {
            Ok((first, st1)) => if self.moved(st, st1) {
                self.sp_cons_rest(st1, first, st.pos as int)
            } else {
                self.sp_no_progress(st)
            },
            Err(p) => Err(p),
        }
    }

    pub open spec fn sp_exp_rest(self, st: St, lhs: ExprV, index: int) -> SpRes<ExprV>
        decreases self.tokens@.len() - st.pos, 5int,
    {
        match op_exp(self.tokens@[st.pos as int].kind) {
            None => Ok((lhs, st)),
            Some(op) => match self.sp_step(st) {
                Err(e) => Err((e, st)),
                Ok(st1) => if self.moved(st, st1) {
                    match self.sp_parse_list_cons(st1) {
                        Ok((rhs, st2)) => if self.moved(st, st2) {
                            self.sp_exp_rest(
                                st2,
                                ExprV::BinOp(
                                    op,
                                    Box::new(lhs),
                                    Box::new(rhs),
                                    self.sp_rec(index, st2.pos as int),
                                ),
                                index,
                            )
                        } else {
                            self.sp_no_progress(st)
                        },
                        Err(p) => Err(p),
                    }
                } else {
                    self.sp_no_progress(st)
                },
            },
        }
    }

    pub open spec fn sp_parse_exp(self, st: St) -> SpRes<ExprV>
        decreases self.tokens@.len() - st.pos, 6int,
    {
        match self.sp_parse_list_cons(st) {
            Ok((first, st1)) => if self.moved(st, st1) {
                self.sp_exp_rest(st1, first, st.pos as int)
            } else {
                self.sp_no_progress(st)
            },
            Err(p) => Err(p),
        }
    }

    pub open spec fn sp_cmp_rest(self, st: St, lhs: ExprV, index: int) -> SpRes<ExprV>
        decreases self.tokens@.len() - st.pos, 6int,
    {
        match op_cmp(self.tokens@[st.pos as int].kind) {
            None => Ok((lhs, st)),
            Some(op) => match self.sp_step(st) {
                Err(e) => Err((e, st)),
                Ok(st1) => if self.moved(st, st1) {
                    match self.sp_parse_exp(st1) {
                        Ok((rhs, st2)) => if self.moved(st, st2) {
                            self.sp_cmp_rest(
                                st2,
                                ExprV::BinOp(
                                    op,
                                    Box::new(lhs),
                                    Box::new(rhs),
                                    self.sp_rec(index, st2.pos as int),
                                ),
                                index,
                            )
                        } else {
                            self.sp_no_progress(st)
                        },
                        Err(p) => Err(p),
                    }
                } else {
                    self.sp_no_progress(st)
                },
            },
        }
    }

    pub open spec fn sp_parse_cmp(self, st: St) -> SpRes<ExprV>
        decreases self.tokens@.len() - st.pos, 7int,
    {
        match self.sp_parse_exp(st) {
            Ok((first, st1)) => if self.moved(st, st1) {
                self.sp_cmp_rest(st1, first, st.pos as int)
            } else {
                self.sp_no_progress(st)
            },
            Err(p) => Err(p),
        }
    }

    pub open spec fn sp_orand_rest(self, st: St, lhs: ExprV, index: int) -> SpRes<ExprV>
        decreases self.tokens@.len() - st.pos, 7int,
    {
        match op_orand(self.tokens@[st.pos as int].kind) {
            None => Ok((lhs, st)),
            Some(op) => match self.sp_step(st) {
                Err(e) => Err((e, st)),
                Ok(st1) => if self.moved(st, st1) {
                    match self.sp_parse_cmp(st1) {
                        Ok((rhs, st2)) => if self.moved(st, st2) {
                            self.sp_orand_rest(
                                st2,
                                ExprV::BinOp(
                                    op,
                                    Box::new(lhs),
                                    Box::new(rhs),
                                    self.sp_rec(index, st2.pos as int),
                                ),
                                index,
                            )
                        } else {
                            self.sp_no_progress(st)
                        },
                        Err(p) => Err(p),
                    }
                } else {
                    self.sp_no_progress(st)
                },
            },
        }
    }

    pub open spec fn sp_parse_or_and(self, st: St) -> SpRes<ExprV>
        decreases self.tokens@.len() - st.pos, 8int,
    {
        match self.sp_parse_cmp(st) {
            Ok((first, st1)) => if self.moved(st, st1) {
                self.sp_orand_rest(st1, first, st.pos as int)
            } else {
                self.sp_no_progress(st)
            },
            Err(p) => Err(p),
        }
    }

    pub open spec fn sp_muldiv_rest(self, st: St, lhs: ExprV, index: int) -> SpRes<ExprV>
        decreases self.tokens@.len() - st.pos, 8int,
    {
        match op_muldiv(self.tokens@[st.pos as int].kind) {
            None => Ok((lhs, st)),
            Some(op) => match self.sp_step(st) {
                Err(e) => Err((e, st)),
                Ok(st1) => if self.moved(st, st1) {
                    match self.sp_parse_or_and(st1) {
                        Ok((rhs, st2)) => if self.moved(st, st2) {
                            self.sp_muldiv_rest(
                                st2,
                                ExprV::BinOp(
                                    op,
                                    Box::new(lhs),
                                    Box::new(rhs),
                                    self.sp_rec(index, st2.pos as int),
                                ),
                                index,
                            )
                        } else {
                            self.sp_no_progress(st)
                        },
                        Err(p) => Err(p),
                    }
                } else {
                    self.sp_no_progress(st)
                },
            },
        }
    }

    pub open spec fn sp_parse_factor(self, st: St) -> SpRes<ExprV>
        decreases self.tokens@.len() - st.pos, 9int,
    {
        match self.sp_parse_or_and(st) {
            Ok((first, st1)) => if self.moved(st, st1) {
                self.sp_muldiv_rest(st1, first, st.pos as int)
            } else {
                self.sp_no_progress(st)
            },
            Err(p) => Err(p),
        }
    }

    pub open spec fn sp_addsub_rest(self, st: St, lhs: ExprV, index: int) -> SpRes<ExprV>
        decreases self.tokens@.len() - st.pos, 9int,
    {
        match op_addsub(self.tokens@[st.pos as int].kind) {
            None => Ok((lhs, st)),
            Some(op) => match self.sp_step(st) {
                Err(e) => Err((e, st)),
                Ok(st1) => if self.moved(st, st1) {
                    match self.sp_parse_factor(st1) {
                        Ok((rhs, st2)) => if self.moved(st, st2) {
                            self.sp_addsub_rest(
                                st2,
                                ExprV::BinOp(
                                    op,
                                    Box::new(lhs),
                                    Box::new(rhs),
                                    self.sp_rec(index, st2.pos as int),
                                ),
                                index,
                            )
                        } else {
                            self.sp_no_progress(st)
                        },
                        Err(p) => Err(p),
                    }
                } else {
                    self.sp_no_progress(st)
                },
            },
        }
    }

    /// What `parse_expr` does: the loosest level of the expression
    /// grammar.
    pub open spec fn sp_parse_expr(self, st: St) -> SpRes<ExprV>
        decreases self.tokens@.len() - st.pos, 10int,
    {
        match self.sp_parse_factor(st) {
            Ok((first, st1)) => if self.moved(st, st1) {
                self.sp_addsub_rest(st1, first, st.pos as int)
            } else {
                self.sp_no_progress(st)
            },
            Err(p) => Err(p),
        }
    }

    /// A binding's parameter patterns up to `=`.
    pub open spec fn sp_bind_args(self, st: St, acc: Seq<PatV>) -> SpRes<Seq<PatV>>
        decreases self.tokens@.len() - st.pos, 13int,
    {
        let (stx, m) = self.sp_match(st, TokenKind::Assign);
        match m {
            Err(e) => Err((e, stx)),
            Ok(true) => Ok((acc, stx)),
            Ok(false) => match self.sp_parse_pattern(st) {
                Ok((p, sty)) => if self.moved(st, sty) {
                    self.sp_bind_args(sty, acc.push(p))
                } else {
                    self.sp_no_progress(st)
                },
                Err(p2) => Err(p2),
            },
        }
    }

    /// What `parse_bind` does: `name pat* = expr`.
    pub open spec fn sp_parse_bind(self, st: St) -> SpRes<BindV>
        decreases self.tokens@.len() - st.pos, 17int,
    {
        match self.sp_expect_identifier(st) {
            Err(p) => Err(p),
            Ok((id, st1)) => if self.moved(st, st1) {
                match self.sp_bind_args(st1, Seq::empty()) {
                    Err(p) => Err(p),
                    Ok((args, st2)) => if self.moved(st, st2) {
                        match self.sp_parse_expr(st2) {
                            Ok((e, st3)) => Ok(
                                (
                                    BindV {
                                        name: id,
                                        args,
                                        expr: Box::new(e),
                                        span: self.sp_rec(st.pos as int, st3.pos as int),
                                    },
                                    st3,
                                ),
                            ),
                            Err(p) => Err(p),
                        }
                    } else {
                        self.sp_no_progress(st)
                    },
                }
            } else {
                self.sp_no_progress(st)
            },
        }
    }

    /// A variant's field types, read until a type no longer parses; the
    /// failed attempt's cursor is kept, as the parser keeps it.
    pub open spec fn sp_variant_tys(self, st: St, acc: Seq<TyV>) -> (Seq<TyV>, St)
        decreases self.tokens@.len() - st.pos, 16int,
    {
        match self.sp_parse_type(st) {
            Ok((ty, stx)) => if self.moved(st, stx) {
                self.sp_variant_tys(stx, acc.push(ty))
            } else {
                (acc, st)
            },
            Err((e, stx)) => (acc, stx),
        }
    }

    /// What `parse_variant` does.
    pub open spec fn sp_parse_variant(self, st: St) -> SpRes<VariantV>
        decreases self.tokens@.len() - st.pos, 18int,
    {
        match self.sp_expect_pc_identifier(st) {
            Err(p) => Err(p),
            Ok((id, st1)) => if self.moved(st, st1) {
                let (tys, st2) = self.sp_variant_tys(st1, Seq::empty());
                Ok(
                    (
                        VariantV { id, types: tys, span: self.sp_rec(st.pos as int, st2.pos as int) },
                        st2,
                    ),
                )
            } else {
                self.sp_no_progress(st)
            },
        }
    }

    /// A type declaration's type variables up to `=`.
    pub open spec fn sp_decl_vars(self, st: St, acc: Seq<IdentV>) -> SpRes<Seq<IdentV>>
        decreases self.tokens@.len() - st.pos, 19int,
    {
        let (stx, m) = self.sp_match(st, TokenKind::Assign);
        match m {
            Err(e) => Err((e, stx)),
            Ok(true) => Ok((acc, stx)),
            Ok(false) => match self.sp_expect_identifier(st) {
                Ok((v, sty)) => if self.moved(st, sty) {
                    self.sp_decl_vars(sty, acc.push(v))
                } else {
                    self.sp_no_progress(st)
                },
                Err(p) => Err(p),
            },
        }
    }

    /// Further `|`-separated variants after the first.
    pub open spec fn sp_variants_rest(self, st: St, acc: Seq<VariantV>) -> SpRes<Seq<VariantV>>
        decreases self.tokens@.len() - st.pos, 19int,
    {
        let (stx, m) = self.sp_match(st, TokenKind::Pipe);
        match m {
            Err(e) => Err((e, stx)),
            Ok(false) => Ok((acc, st)),
            Ok(true) => if self.moved(st, stx) {
                match self.sp_parse_variant(stx) {
                    Ok((v, sty)) => if self.moved(st, sty) {
                        self.sp_variants_rest(sty, acc.push(v))
                    } else {
                        self.sp_no_progress(st)
                    },
                    Err(p) => Err(p),
                }
            } else {
                self.sp_no_progress(st)
            },
        }
    }

    /// What `parse_type_decl` does, on one physical line.
    pub open spec fn sp_parse_type_decl(self, st: St) -> SpRes<StmtV>
        decreases self.tokens@.len() - st.pos, 20int,
    {
        let st0 = St { pos: st.pos, ol: true };
        match self.sp_step(st0) {
            Err(e) => Err((e, st0)),
            Ok(st1) => if self.moved(st, st1) {
                match self.sp_expect_pc_identifier(st1) {
                    Err(p) => Err(p),
                    Ok((id, st2)) => if self.moved(st, st2) {
                        match self.sp_decl_vars(st2, Seq::empty()) {
                            Err(p) => Err(p),
                            Ok((vars, st3)) => if self.moved(st, st3) {
                                match self.sp_parse_variant(st3) {
                                    Err(p) => Err(p),
                                    Ok((v1, st4)) => if self.moved(st, st4) {
                                        match self.sp_variants_rest(st4, seq![v1]) {
                                            Err(p) => Err(p),
                                            Ok((vs, st5)) => Ok(
                                                (
                                                    StmtV::TypeDecl(
                                                        TypeDeclV {
                                                            name: id,
                                                            typevars: vars,
                                                            variants: vs,
                                                            span: self.sp_rec(
                                                                st.pos as int,
                                                                st5.pos as int,
                                                            ),
                                                        },
                                                    ),
                                                    st5,
                                                ),
                                            ),
                                        }
                                    } else {
                                        self.sp_no_progress(st)
                                    },
                                }
                            } else {
                                self.sp_no_progress(st)
                            },
                        }
                    } else {
                        self.sp_no_progress(st)
                    },
                }
            } else {
                self.sp_no_progress(st)
            },
        }
    }

    /// What `parse_stmt_identifier` does: a type signature after `::`, or
    /// a binding re-parsed from the identifier.
    pub open spec fn sp_parse_stmt_identifier(self, st: St) -> SpRes<StmtV>
        decreases self.tokens@.len() - st.pos, 21int,
    {
        let st0 = St { pos: st.pos, ol: true };
        match self.sp_expect_identifier(st0) {
            Err(p) => Err(p),
            Ok((id, st1)) => if (self.tokens@[st1.pos as int].kind
                matches TokenKind::DoubleCollon) {
                match self.sp_step(st1) {
                    Err(e) => Err((e, st1)),
                    Ok(st2) => if self.moved(st, st2) {
                        match self.sp_parse_type(st2) {
                            Err(p) => Err(p),
                            Ok((ty, st3)) => Ok(
                                (
                                    StmtV::TypeAssign(
                                        TypeAssignV {
                                            id,
                                            ty,
                                            span: self.sp_rec(st.pos as int, st3.pos as int),
                                        },
                                    ),
                                    st3,
                                ),
                            ),
                        }
                    } else {
                        self.sp_no_progress(st)
                    },
                }
            } else {
                match self.sp_parse_bind(St { pos: st.pos, ol: true }) {
                    Ok((b, st4)) => Ok((StmtV::Bind(b), st4)),
                    Err(p) => Err(p),
                }
            },
        }
    }

    /// What `parse_statement` does, trailing-token check included.
    pub open spec fn sp_parse_statement(self, st: St) -> SpRes<StmtV>
        decreases self.tokens@.len() - st.pos, 22int,
    {
        let st0 = St { pos: st.pos, ol: false };
        let tok = self.tokens@[st0.pos as int];
        let res = if (tok.kind matches TokenKind::Identifier(..)) {
            self.sp_parse_stmt_identifier(st0)
        } else if (tok.kind matches TokenKind::Type) {
            self.sp_parse_type_decl(st0)
        } else {
            Err((self.sp_err_here(st0, "statement"@), st0))
        };
        match res {
            Err(p) => Err(p),
            Ok((stmt, st1)) => {
                let t2 = self.tokens@[st1.pos as int];
                if !(t2.kind matches TokenKind::Eof) && !(t2.kind matches TokenKind::Newline) {
                    Err(
                        (
                            ErrV {
                                kind: ErrKV::TooMuchExpr { found: span_v(t2.span) },
                                span: span_v(t2.span),
                            },
                            st1,
                        ),
                    )
                } else {
                    Ok((stmt, st1))
                }
            },
        }
    }

    /// What `parse` does from a cursor: statements separated by newlines,
    /// ending at `Eof`.
    pub open spec fn sp_program_rest(self, st: St, acc: Seq<StmtV>) -> Result<
        Seq<StmtV>,
        (ErrV, St),
    >
        decreases self.tokens@.len() - st.pos, 23int,
    {
        let st0 = St { pos: st.pos, ol: false };
        let k = self.tokens@[st0.pos as int].kind;
        if (k matches TokenKind::Eof) {
            Ok(acc)
        } else if (k matches TokenKind::Newline) {
            match self.sp_step(st0) {
                Ok(st1) => if self.moved(st, st1) {
                    self.sp_program_rest(st1, acc)
                } else {
                    Err(
                        (
                            ErrV {
                                kind: ErrKV::UnexpectedEndOfInput,
                                span: SpanV { start: 0, end: 0 },
                            },
                            st,
                        ),
                    )
                },
                Err(e) => Err((e, st0)),
            }
        } else {
            match self.sp_parse_statement(st0) {
                Ok((stmt, st1)) => if self.moved(st, st1) {
                    self.sp_program_rest(st1, acc.push(stmt))
                } else {
                    Err(
                        (
                            ErrV {
                                kind: ErrKV::UnexpectedEndOfInput,
                                span: SpanV { start: 0, end: 0 },
                            },
                            st,
                        ),
                    )
                },
                Err(p) => Err(p),
            }
        }
    }

    /// The whole unit: what [`Parser::parse`] returns.
    pub open spec fn sp_parse_program(self, st: St) -> Result<Seq<StmtV>, (ErrV, St)> {
        self.sp_program_rest(st, Seq::empty())
    }
}

impl Parser {
    /// Lexes `content` and positions the cursor at the first token.
    pub fn new(content: &str) -> (r: Result<Parser, LexError>)
        ensures
            r matches Ok(p) ==> {
                &&& p.wf()
                &&& p.content@ == content@
                &&& p.current == 0
                &&& p.oneline == false
                &&& crate::lexer::lex_spec(content@) == Ok::<_, int>(
                    p.tokens@.map_values(|t: Token| t.view()),
                )
            },
            r matches Err(e) ==> crate::lexer::lex_spec(content@) matches Err(p) && e.span.start
                == p && e.span.wf(content@),
    {
        match lexer(content) {
            Ok(tokens) => Ok(
                Parser {
                    content: String::from_str(content),
                    tokens,
                    current: 0,
                    oneline: false,
                },
            ),
            Err(e) => Err(e),
        }
    }

    /// The current token.
    fn peek(&self, st: St) -> (t: &Token)
        requires
            self.ok_st(st),
        ensures
            *t == self.tokens@[st.pos as int],
    {
        &self.tokens[st.pos]
    }

    /// Remembers the cursor so a span can be recorded from here.
    fn start_recording(&self, st: St) -> (r: usize)
        ensures
            r == st.pos,
    {
        st.pos
    }

    /// The span from token `start_idx` up to the cursor, trailing
    /// whitespace excluded, with the exact source slice it covers.
    fn end_recording(&self, start_idx: usize, cur: usize) -> (r: Span)
        requires
            self.wf(),
            start_idx <= cur < self.tokens@.len(),
        ensures
            self.sp_rec_span(start_idx as int, cur as int, r),
    {
        let mut e: usize = cur;
        while e > start_idx && self.tokens[e - 1].kind.is_whitespace()
            invariant
                start_idx <= e <= cur < self.tokens@.len(),
                trim_ws(self.tokens@, start_idx as int, cur as int) == trim_ws(
                    self.tokens@,
                    start_idx as int,
                    e as int,
                ),
            decreases e,
        {
            e = e - 1;
        }
        let start = self.tokens[start_idx].span.start;
        let end = if e == start_idx {
            start
        } else {
            let t = &self.tokens[e - 1];
            proof {
                lemma_tokens_ordered(self.tokens@, self.content@, start_idx as int, e - 1);
            }
            t.span.end
        };
        let text = self.content.as_str().substring_char(start, end);
        Span { start, end, input: String::from_str(text) }
    }

    /// Consumes the current token, then skips whitespace (newlines only
    /// while `ol` is off).  Fails on `Eof`, and on a newline while `ol` is
    /// set; otherwise it succeeds, moves strictly forward, and everything
    /// it skipped was whitespace.
    #[verifier::rlimit(100)]
    fn advance(&self, st: St) -> (r: (St, Result<(), Error>))
        requires
            self.wf(),
            self.ok_st(st),
        ensures
            r.0.ol == st.ol,
            st.pos <= r.0.pos < self.tokens@.len(),
            r.1 is Err ==> r.0.pos == st.pos,
            r.1 matches Err(e) ==> e.wf(self.content@),
            r.1 is Ok ==> r.0.pos > st.pos && (forall|k: int|
                st.pos < k < r.0.pos ==> (#[trigger] self.tokens@[k]).kind.spec_is_whitespace()),
            (r.1 is Ok) <==> (!(self.tokens@[st.pos as int].kind matches TokenKind::Eof) && !(st.ol
                && (self.tokens@[st.pos as int].kind matches TokenKind::Newline))),
            r.1 matches Err(e) ==> if (self.tokens@[st.pos as int].kind matches TokenKind::Eof) {
                (e.kind matches ErrorKind::UnexpectedEndOfInput) && e.span == self.tokens@[st.pos
                    as int].span
            } else {
                (e.kind matches ErrorKind::ExpectedNewline { found } && found == self.tokens@[st.pos
                    as int].span) && e.span == self.tokens@[st.pos as int].span
            },
            match self.sp_step(st) {
                Ok(st2) => r.1 is Ok && r.0 == st2,
                Err(ev) => r.1 matches Err(e) && err_v(e) == ev && r.0 == st,
            },
    {
        let t = self.peek(st);
        if matches!(t.kind, TokenKind::Eof) {
            let sp = t.span.duplicate();
            return (st, Err(Error { kind: ErrorKind::UnexpectedEndOfInput, span: sp }));
        }
        if st.ol && matches!(t.kind, TokenKind::Newline) {
            let sp = t.span.duplicate();
            let sp2 = t.span.duplicate();
            return (
                st,
                Err(Error { kind: ErrorKind::ExpectedNewline { found: sp }, span: sp2 }),
            );
        }
        let n = self.tokens.len();
        let mut pos: usize = st.pos;
        loop
            invariant
                self.wf(),
                n == self.tokens@.len(),
                st.pos <= pos < self.tokens@.len(),
                !(self.tokens@[pos as int].kind matches TokenKind::Eof),
                !(self.tokens@[st.pos as int].kind matches TokenKind::Eof),
                !(st.ol && (self.tokens@[st.pos as int].kind matches TokenKind::Newline)),
                !(st.ol && (self.tokens@[pos as int].kind matches TokenKind::Newline)),
                adv(self.tokens@, st.pos as int, st.ol) == adv(self.tokens@, pos as int, st.ol),
                forall|k: int|
                    st.pos < k <= pos ==> (#[trigger] self.tokens@[k]).kind.spec_is_whitespace(),
            decreases self.tokens@.len() - pos,
        {
            proof {
                assert(pos < n - 1);
            }
            pos = pos + 1;
            let t2 = &self.tokens[pos];
            if t2.kind.is_whitespace() && !(st.ol && matches!(t2.kind, TokenKind::Newline)) {
                // keep skipping
            } else {
                return (St { pos, ol: st.ol }, Ok(()));
            }
        }
    }

    /// Builds an `UnexpectedToken` error pointing at the current token.
    fn err_here(&self, st: St, what: &str) -> (e: Error)
        requires
            self.wf(),
            self.ok_st(st),
        ensures
            e.kind matches ErrorKind::UnexpectedToken { expected, found } && expected@ == what@
                && found == self.tokens@[st.pos as int].span,
            e.span == self.tokens@[st.pos as int].span,
            e.wf(self.content@),
            err_v(e) == self.sp_err_here(st, what@),
    {
        let found = self.peek(st).span.duplicate();
        let span = self.peek(st).span.duplicate();
        Error {
            kind: ErrorKind::UnexpectedToken { expected: String::from_str(what), found },
            span,
        }
    }

    /// Whether the current token has exactly this kind; if so, consumes it.
    fn match_token(&self, st: St, kind: &TokenKind) -> (r: (St, Result<bool, Error>))
        requires
            self.wf(),
            self.ok_st(st),
        ensures
            r.0.ol == st.ol,
            st.pos <= r.0.pos < self.tokens@.len(),
            r.1 matches Ok(b) && b ==> r.0.pos > st.pos,
            r.1 matches Ok(b) && !b ==> r.0 == st,
            r.1 is Err ==> r.0.pos == st.pos,
            r.1 matches Err(e) ==> e.wf(self.content@),
            ({
                let (sps, spr) = self.sp_match(st, *kind);
                &&& r.0 == sps
                &&& match (r.1, spr) {
                    (Ok(b1), Ok(b2)) => b1 == b2,
                    (Err(e1), Err(e2)) => err_v(e1) == e2,
                    _ => false,
                }
            }),
    {
        let t = self.peek(st);
        if kind_eq(&t.kind, kind) {
            let (st2, a) = self.advance(st);
            match a {
                Ok(_) => (st2, Ok(true)),
                Err(e) => (st2, Err(e)),
            }
        } else {
            (st, Ok(false))
        }
    }

    /// Requires the current token to have exactly this kind and consumes
    /// it; `what` names the expectation in the error otherwise.
    fn expect_current(&self, st: St, kind: &TokenKind, what: &str) -> (r: PRes<()>)
        requires
            self.wf(),
            self.ok_st(st),
        ensures
            self.frame(st, r),
            res_st(r).ol == st.ol,
            match (r, self.sp_expect_current(st, *kind, what@)) {
                (Ok(((), st2)), Ok(((), sp2))) => st2 == sp2,
                (Err((e, st2)), Err((ev, spe))) => err_v(e) == ev && st2 == spe,
                _ => false,
            },
    {
        let t = self.peek(st);
        if kind_eq(&t.kind, kind) {
            let (st2, a) = self.advance(st);
            match a {
                Ok(_) => Ok(((), st2)),
                Err(e) => Err((e, st2)),
            }
        } else {
            Err((self.err_here(st, what), st))
        }
    }

    /// Requires a lowercase identifier and consumes it.
    fn expect_identifier(&self, st: St) -> (r: PRes<Identifier>)
        requires
            self.wf(),
            self.ok_st(st),
        ensures
            self.frame(st, r),
            res_st(r).ol == st.ol,
            r matches Ok(p) ==> {
                &&& self.tokens@[st.pos as int].kind matches TokenKind::Identifier(nm) && p.0.name
                    == nm
                &&& p.0.span == self.tokens@[st.pos as int].span
                &&& p.0.wf(self.content@)
            },
            match (r, self.sp_expect_identifier(st)) {
                (Ok((id, st2)), Ok((iv, sp2))) => ident_v(id) == iv && st2 == sp2,
                (Err((e, st2)), Err((ev, spe))) => err_v(e) == ev && st2 == spe,
                _ => false,
            },
    {
        let t = self.peek(st);
        match &t.kind {
            TokenKind::Identifier(s) => {
                let name = s.clone();
                let span = t.span.duplicate();
                let (st2, a) = self.advance(st);
                match a {
                    Ok(_) => Ok((Identifier { name, span }, st2)),
                    Err(e) => Err((e, st2)),
                }
            },
            _ => Err((self.err_here(st, "identifier"), st)),
        }
    }

    /// Requires an uppercase (constructor or type) identifier and consumes
    /// it.
    fn expect_pc_identifier(&self, st: St) -> (r: PRes<Identifier>)
        requires
            self.wf(),
            self.ok_st(st),
        ensures
            self.frame(st, r),
            res_st(r).ol == st.ol,
            r matches Ok(p) ==> {
                &&& self.tokens@[st.pos as int].kind matches TokenKind::PCIdentifier(nm) && p.0.name
                    == nm
                &&& p.0.span == self.tokens@[st.pos as int].span
                &&& p.0.wf(self.content@)
            },
            match (r, self.sp_expect_pc_identifier(st)) {
                (Ok((id, st2)), Ok((iv, sp2))) => ident_v(id) == iv && st2 == sp2,
                (Err((e, st2)), Err((ev, spe))) => err_v(e) == ev && st2 == spe,
                _ => false,
            },
    {
        let t = self.peek(st);
        match &t.kind {
            TokenKind::PCIdentifier(s) => {
                let name = s.clone();
                let span = t.span.duplicate();
                let (st2, a) = self.advance(st);
                match a {
                    Ok(_) => Ok((Identifier { name, span }, st2)),
                    Err(e) => Err((e, st2)),
                }
            },
            _ => Err((self.err_here(st, "pascal case identifier"), st)),
        }
    }

    /// Requires an identifier of either case and consumes it.
    fn expect_any_identifier(&self, st: St) -> (r: PRes<Identifier>)
        requires
            self.wf(),
            self.ok_st(st),
        ensures
            self.frame(st, r),
            res_st(r).ol == st.ol,
            r matches Ok(p) ==> {
                &&& (self.tokens@[st.pos as int].kind matches TokenKind::Identifier(nm) && p.0.name
                    == nm) || (self.tokens@[st.pos as int].kind matches TokenKind::PCIdentifier(nm)
                    && p.0.name == nm)
                &&& p.0.span == self.tokens@[st.pos as int].span
                &&& p.0.wf(self.content@)
            },
            match (r, self.sp_expect_any_identifier(st)) {
                (Ok((id, st2)), Ok((iv, sp2))) => ident_v(id) == iv && st2 == sp2,
                (Err((e, st2)), Err((ev, spe))) => err_v(e) == ev && st2 == spe,
                _ => false,
            },
    {
        let t = self.peek(st);
        match &t.kind {
            TokenKind::Identifier(s) => {
                let name = s.clone();
                let span = t.span.duplicate();
                let (st2, a) = self.advance(st);
                match a {
                    Ok(_) => Ok((Identifier { name, span }, st2)),
                    Err(e) => Err((e, st2)),
                }
            },
            TokenKind::PCIdentifier(s) => {
                let name = s.clone();
                let span = t.span.duplicate();
                let (st2, a) = self.advance(st);
                match a {
                    Ok(_) => Ok((Identifier { name, span }, st2)),
                    Err(e) => Err((e, st2)),
                }
            },
            _ => Err((self.err_here(st, "identifier"), st)),
        }
    }
}

/// Over a run of whitespace tokens after a non-whitespace one, trimming
/// stops right after the non-whitespace token.
proof fn lemma_trim_ws_run(toks: Seq<Token>, s: int, e: int)
    requires
        0 <= s < e <= toks.len(),
        forall|k: int| s < k < e ==> (#[trigger] toks[k]).kind.spec_is_whitespace(),
        !toks[s].kind.spec_is_whitespace(),
    ensures
        trim_ws(toks, s, e) == s + 1,
    decreases e - s,
{
    if e > s + 1 {
        lemma_trim_ws_run(toks, s, e - 1);
    }
}

impl Parser {
    /// Parses one literal.  The result is exactly the current token's
    /// literal value, spanned like the token; any other token is an
    /// `UnexpectedToken` error expecting a literal.
    fn parse_literal(&self, st: St) -> (r: PRes<Literal>)
        requires
            self.wf(),
            self.ok_st(st),
        ensures
            self.frame(st, r),
            r matches Ok(p) ==> p.0.wf(self.content@),
            match (r, self.sp_parse_literal(st)) {
                (Ok((l, st2)), Ok((lv, sp2))) => lit_v(l) == lv && st2 == sp2,
                (Err((e, st2)), Err((ev, spe))) => err_v(e) == ev && st2 == spe,
                _ => false,
            },
        decreases self.tokens@.len() - st.pos, 1int,
    {
        let t = self.peek(st);
        let lk: LiteralKind = match &t.kind {
            TokenKind::Integer(i) => LiteralKind::Integer(*i),
            TokenKind::Float(s) => LiteralKind::Float(s.clone()),
            TokenKind::String(s) => LiteralKind::String(s.clone()),
            TokenKind::Char(c) => LiteralKind::Char(*c),
            TokenKind::True => LiteralKind::Bool(Bool::True),
            TokenKind::False => LiteralKind::Bool(Bool::False),
            _ => {
                return Err((self.err_here(st, "literal"), st));
            },
        };
        let index = self.start_recording(st);
        let (st2, a) = self.advance(st);
        match a {
            Ok(_) => {
                let span = self.end_recording(index, st2.pos);
                proof {
                    lemma_trim_ws_run(self.tokens@, st.pos as int, st2.pos as int);
                }
                Ok((Literal { lit: lk, span }, st2))
            },
            Err(e) => Err((e, st2)),
        }
    }

    /// A speculative attempt at one more constructor-argument pattern.  A
    /// failed attempt leaves no observable state behind: the returned
    /// cursor is exactly the one given.
    pub fn try_pat_arg(&self, st: St) -> (r: (St, Option<Pattern>))
        requires
            self.wf(),
            self.ok_st(st),
        ensures
            r.0.pos < self.tokens@.len(),
            r.1 is None ==> r.0 == st,
            r.1 matches Some(p) ==> r.0.pos > st.pos && p.wf(self.content@),
            match self.sp_parse_pattern(st) {
                Ok((pv, sp2)) => r.1 matches Some(p) && pattern_v(p) == pv && r.0 == sp2,
                Err(_) => r.1 is None && r.0 == st,
            },
        decreases self.tokens@.len() - st.pos, 13int,
    {
        match self.parse_pattern(st) {
            Ok((p, st2)) => (st2, Some(p)),
            Err(_) => (st, None),
        }
    }

    /// Parses a primary pattern: a literal, a wildcard, a binder, or a
    /// constructor speculatively applied to sub-patterns.
    #[verifier::rlimit(100)]
    fn parse_pattern_primary(&self, st: St) -> (r: PRes<Pattern>)
        requires
            self.wf(),
            self.ok_st(st),
        ensures
            self.frame(st, r),
            r matches Ok(p) ==> p.0.wf(self.content@),
            match (r, self.sp_parse_pattern_primary(st)) {
                (Ok((p, st2)), Ok((pv, sp2))) => pattern_v(p) == pv && st2 == sp2,
                (Err((e, st2)), Err((ev, spe))) => err_v(e) == ev && st2 == spe,
                _ => false,
            },
        decreases self.tokens@.len() - st.pos, 11int,
    {
        let t = self.peek(st);
        if t.kind.is_literal() {
            let (lit, st1) = self.parse_literal(st)?;
            Ok((Pattern::Literal(lit), st1))
        } else if matches!(&t.kind, TokenKind::Identifier(_)) {
            let (id, st1) = self.expect_identifier(st)?;
            Ok((Pattern::Variable(id), st1))
        } else if matches!(&t.kind, TokenKind::PCIdentifier(_)) {
            let index = self.start_recording(st);
            let (id, st1) = self.expect_pc_identifier(st)?;
            let mut args: Vec<Pattern> = Vec::new();
            let mut cur: St = st1;
            loop
                invariant
                    self.wf(),
                    st.pos < st1.pos <= cur.pos < self.tokens@.len(),
                    forall|i: int| 0 <= i < args@.len() ==> (#[trigger] args@[i]).wf(self.content@),
                    id.wf(self.content@),
                    args@.len() == 0 ==> cur == st1,
                    self.sp_pat_args(st1, Seq::empty()) == self.sp_pat_args(cur, pats_v(args@)),
                ensures
                    self.wf(),
                    st.pos < st1.pos <= cur.pos < self.tokens@.len(),
                    forall|i: int| 0 <= i < args@.len() ==> (#[trigger] args@[i]).wf(self.content@),
                    id.wf(self.content@),
                    args@.len() == 0 ==> cur == st1,
                    self.sp_pat_args(st1, Seq::empty()) == (pats_v(args@), cur),
                decreases self.tokens@.len() - cur.pos,
            {
                let (nxt, opt) = self.try_pat_arg(cur);
                match opt {
                    Some(p) => {
                        proof {
                            lemma_pats_v_push(args@, p);
                        }
                        args.push(p);
                        cur = nxt;
                    },
                    None => {
                        break;
                    },
                }
            }
            if args.len() > 0 {
                let span = self.end_recording(index, cur.pos);
                proof {
                    crate::ast::lemma_pattern_all_wf(args@, self.content@);
                }
                Ok((Pattern::App(id, args, span), cur))
            } else {
                Ok((Pattern::Id(id), st1))
            }
        } else if matches!(&t.kind, TokenKind::Underscore) {
            let index = self.start_recording(st);
            let (st1, a) = self.advance(st);
            match a {
                Ok(_) => {
                    let span = self.end_recording(index, st1.pos);
                    Ok((Pattern::Wildcard(span), st1))
                },
                Err(e) => Err((e, st1)),
            }
        } else {
            Err((self.err_here(st, "pattern"), st))
        }
    }

    /// Parses a pattern: a primary pattern, optionally `: tail` building a
    /// right-nested cons chain.
    fn parse_pattern(&self, st: St) -> (r: PRes<Pattern>)
        requires
            self.wf(),
            self.ok_st(st),
        ensures
            self.frame(st, r),
            r matches Ok(p) ==> p.0.wf(self.content@),
            match (r, self.sp_parse_pattern(st)) {
                (Ok((p, st2)), Ok((pv, sp2))) => pattern_v(p) == pv && st2 == sp2,
                (Err((e, st2)), Err((ev, spe))) => err_v(e) == ev && st2 == spe,
                _ => false,
            },
        decreases self.tokens@.len() - st.pos, 12int,
    {
        let index = self.start_recording(st);
        let (pat, st1) = self.parse_pattern_primary(st)?;
        let (st2, m) = self.match_token(st1, &TokenKind::Colon);
        match m {
            Err(e) => Err((e, st2)),
            Ok(true) => {
                let (pat2, st3) = self.parse_pattern(st2)?;
                let span = self.end_recording(index, st3.pos);
                Ok((Pattern::ListCons(Box::new(pat), Box::new(pat2), span), st3))
            },
            Ok(false) => Ok((pat, st1)),
        }
    }

    /// A speculative attempt at one more type-constructor argument.  A
    /// failed attempt leaves no observable state behind: the returned
    /// cursor is exactly the one given.
    pub fn try_type_arg(&self, st: St) -> (r: (St, Option<Type>))
        requires
            self.wf(),
            self.ok_st(st),
        ensures
            r.0.pos < self.tokens@.len(),
            r.1 is None ==> r.0 == st,
            r.1 matches Some(t) ==> r.0.pos > st.pos && t.wf(self.content@),
            match self.sp_parse_type(st) {
                Ok((tv, sp2)) => r.1 matches Some(t) && type_v(t) == tv && r.0 == sp2,
                Err(_) => r.1 is None && r.0 == st,
            },
        decreases self.tokens@.len() - st.pos, 16int,
    {
        match self.parse_type(st) {
            Ok((t, st2)) => (st2, Some(t)),
            Err(_) => (st, None),
        }
    }

    /// Parses a primary type: a type variable, a named type (speculatively
    /// applied to type arguments), a bracketed type, or a tuple type.
    #[verifier::rlimit(100)]
    fn parse_type_primary(&self, st: St) -> (r: PRes<Type>)
        requires
            self.wf(),
            self.ok_st(st),
        ensures
            self.frame(st, r),
            r matches Ok(p) ==> p.0.wf(self.content@),
            match (r, self.sp_parse_type_primary(st)) {
                (Ok((t, st2)), Ok((tv, sp2))) => type_v(t) == tv && st2 == sp2,
                (Err((e, st2)), Err((ev, spe))) => err_v(e) == ev && st2 == spe,
                _ => false,
            },
        decreases self.tokens@.len() - st.pos, 14int,
    {
        let t = self.peek(st);
        if matches!(&t.kind, TokenKind::Identifier(_)) {
            let (id, st1) = self.expect_identifier(st)?;
            Ok((Type::Generic(id), st1))
        } else if matches!(&t.kind, TokenKind::PCIdentifier(_)) {
            let index = self.start_recording(st);
            let (id, st1) = self.expect_pc_identifier(st)?;
            let mut args: Vec<Type> = Vec::new();
            let mut cur: St = st1;
            loop
                invariant
                    self.wf(),
                    st.pos < st1.pos <= cur.pos < self.tokens@.len(),
                    forall|i: int| 0 <= i < args@.len() ==> (#[trigger] args@[i]).wf(self.content@),
                    id.wf(self.content@),
                    args@.len() == 0 ==> cur == st1,
                    self.sp_type_args(st1, Seq::empty()) == self.sp_type_args(cur, tys_v(args@)),
                ensures
                    self.wf(),
                    st.pos < st1.pos <= cur.pos < self.tokens@.len(),
                    forall|i: int| 0 <= i < args@.len() ==> (#[trigger] args@[i]).wf(self.content@),
                    id.wf(self.content@),
                    args@.len() == 0 ==> cur == st1,
                    self.sp_type_args(st1, Seq::empty()) == (tys_v(args@), cur),
                decreases self.tokens@.len() - cur.pos,
            {
                let (nxt, opt) = self.try_type_arg(cur);
                match opt {
                    Some(ty) => {
                        proof {
                            lemma_tys_v_push(args@, ty);
                        }
                        args.push(ty);
                        cur = nxt;
                    },
                    None => {
                        break;
                    },
                }
            }
            if args.len() > 0 {
                let span = self.end_recording(index, cur.pos);
                proof {
                    crate::ast::lemma_type_all_wf(args@, self.content@);
                }
                Ok((Type::App(id, args, span), cur))
            } else {
                Ok((Type::Id(id), st1))
            }
        } else if matches!(&t.kind, TokenKind::LBracket) {
            let (st1, a) = self.advance(st);
            match a {
                Err(e) => {
                    return Err((e, st1));
                },
                Ok(_) => {},
            }
            let (ty, st2) = self.parse_type(st1)?;
            let ((), st3) = self.expect_current(st2, &TokenKind::RBracket, "`]`")?;
            Ok((ty, st3))
        } else if matches!(&t.kind, TokenKind::LParen) {
            let index = self.start_recording(st);
            let (st1, a) = self.advance(st);
            match a {
                Err(e) => {
                    return Err((e, st1));
                },
                Ok(_) => {},
            }
            let (first, st2) = self.parse_type(st1)?;
            let mut tys: Vec<Type> = Vec::new();
            tys.push(first);
            proof {
                assert(tys_v(tys@) =~= seq![type_v(first)]);
            }
            self.tuple_type_rest(st2, tys, index)
        } else {
            Err((self.err_here(st, "type"), st))
        }
    }

    /// Parses the remaining `, Type` elements of a tuple type, as
    /// [`Parser::sp_ttuple_rest`] describes.
    #[verifier::rlimit(100)]
    fn tuple_type_rest(&self, st: St, tys: Vec<Type>, index: usize) -> (r: PRes<Type>)
        requires
            self.wf(),
            self.ok_st(st),
            index <= st.pos,
            forall|i: int| 0 <= i < tys@.len() ==> (#[trigger] tys@[i]).wf(self.content@),
        ensures
            self.frame(st, r),
            r matches Ok(p) ==> p.0.wf(self.content@),
            match (r, self.sp_ttuple_rest(st, tys_v(tys@), index as int)) {
                (Ok((t, st2)), Ok((tv, sp2))) => type_v(t) == tv && st2 == sp2,
                (Err((e, st2)), Err((ev, spe))) => err_v(e) == ev && st2 == spe,
                _ => false,
            },
        decreases self.tokens@.len() - st.pos, 16int,
    {
        let (stx, m) = self.match_token(st, &TokenKind::RParen);
        match m {
            Err(e) => Err((e, stx)),
            Ok(true) => {
                let span = self.end_recording(index, stx.pos);
                proof {
                    crate::ast::lemma_type_all_wf(tys@, self.content@);
                }
                Ok((Type::Tuple(tys, span), stx))
            },
            Ok(false) => {
                let ((), sty) = self.expect_current(st, &TokenKind::Comma, "`,`")?;
                let (ty, stz) = self.parse_type(sty)?;
                proof {
                    lemma_tys_v_push(tys@, ty);
                }
                let mut tys2 = tys;
                tys2.push(ty);
                self.tuple_type_rest(stz, tys2, index)
            },
        }
    }

    /// Parses a type: a primary type, optionally `-> codomain` building a
    /// curried arrow chain.
    #[verifier::rlimit(100)]
    fn parse_type(&self, st: St) -> (r: PRes<Type>)
        requires
            self.wf(),
            self.ok_st(st),
        ensures
            self.frame(st, r),
            r matches Ok(p) ==> p.0.wf(self.content@),
            match (r, self.sp_parse_type(st)) {
                (Ok((t, st2)), Ok((tv, sp2))) => type_v(t) == tv && st2 == sp2,
                (Err((e, st2)), Err((ev, spe))) => err_v(e) == ev && st2 == spe,
                _ => false,
            },
        decreases self.tokens@.len() - st.pos, 15int,
    {
        let ghost spg = self.sp_parse_type(st);
        let index = self.start_recording(st);
        match self.parse_type_primary(st) {
            Err((e, ste)) => {
                proof {
                    assert(spg matches Err(pe) && err_v(e) == pe.0 && ste == pe.1);
                }
                Err((e, ste))
            },
            Ok((lhs, st1)) => {
                let (st2, m) = self.match_token(st1, &TokenKind::Arrow);
                match m {
                    Err(e) => {
                        proof {
                            assert(spg matches Err(pe) && err_v(e) == pe.0 && st2 == pe.1);
                        }
                        Err((e, st2))
                    },
                    Ok(true) => {
                        match self.parse_type(st2) {
                            Err((e, ste2)) => {
                                proof {
                                    assert(spg matches Err(pe) && err_v(e) == pe.0 && ste2
                                        == pe.1);
                                }
                                Err((e, ste2))
                            },
                            Ok((rhs, st3)) => {
                                let ghost rhsv = type_v(rhs);
                                let mut cod: Vec<Type> = Vec::new();
                                cod.push(rhs);
                                let span = self.end_recording(index, st3.pos);
                                proof {
                                    crate::ast::lemma_type_all_wf(cod@, self.content@);
                                    assert(tys_v(cod@) =~= seq![rhsv]);
                                }
                                let node = Type::Func(Box::new(lhs), cod, span);
                                proof {
                                    assert(spg matches Ok(pv) && type_v(node) == pv.0 && st3
                                        == pv.1);
                                }
                                Ok((node, st3))
                            },
                        }
                    },
                    Ok(false) => {
                        proof {
                            assert(spg matches Ok(pv) && type_v(lhs) == pv.0 && st1 == pv.1);
                        }
                        Ok((lhs, st1))
                    },
                }
            },
        }
    }
}

impl Parser {
    /// A speculative attempt at one more application argument.  A failed
    /// attempt leaves no observable state behind: the returned cursor is
    /// exactly the one given, so the node built so far is identical to one
    /// built without the attempt.
    pub fn try_expr_arg(&self, st: St) -> (r: (St, Option<Expr>))
        requires
            self.wf(),
            self.ok_st(st),
        ensures
            r.0.pos < self.tokens@.len(),
            r.1 is None ==> r.0 == st,
            r.1 matches Some(e) ==> r.0.pos > st.pos && e.wf(self.content@),
            match self.sp_parse_expr(st) {
                Ok((ev, sp2)) => r.1 matches Some(e) && expr_v(e) == ev && r.0 == sp2,
                Err(_) => r.1 is None && r.0 == st,
            },
        decreases self.tokens@.len() - st.pos, 11int,
    {
        match self.parse_expr(st) {
            Ok((e, st2)) => (st2, Some(e)),
            Err(_) => (st, None),
        }
    }

    /// Parses the remaining `, expr` elements of a tuple, as
    /// [`Parser::sp_tuple_rest`] describes.
    #[verifier::rlimit(100)]
    fn tuple_rest(&self, st: St, exprs: Vec<Expr>, index: usize) -> (r: PRes<Expr>)
        requires
            self.wf(),
            self.ok_st(st),
            index <= st.pos,
            forall|i: int| 0 <= i < exprs@.len() ==> (#[trigger] exprs@[i]).wf(self.content@),
        ensures
            self.frame(st, r),
            r matches Ok(p) ==> p.0.wf(self.content@),
            match (r, self.sp_tuple_rest(st, exprs_v(exprs@), index as int)) {
                (Ok((e, st2)), Ok((ev, sp2))) => expr_v(e) == ev && st2 == sp2,
                (Err((e, st2)), Err((ev, spe))) => err_v(e) == ev && st2 == spe,
                _ => false,
            },
        decreases self.tokens@.len() - st.pos, 10int,
    {
        let (stx, m) = self.match_token(st, &TokenKind::RParen);
        match m {
            Err(e) => Err((e, stx)),
            Ok(true) => {
                let span = self.end_recording(index, stx.pos);
                proof {
                    crate::ast::lemma_expr_all_wf(exprs@, self.content@);
                }
                Ok((Expr::Tuple { list: exprs, ann: span }, stx))
            },
            Ok(false) => {
                let ((), sty) = self.expect_current(st, &TokenKind::Comma, "`,`")?;
                let (e2, stz) = self.parse_expr(sty)?;
                proof {
                    lemma_exprs_v_push(exprs@, e2);
                }
                let mut exprs2 = exprs;
                exprs2.push(e2);
                self.tuple_rest(stz, exprs2, index)
            },
        }
    }

    /// Parses the remaining `, expr` elements of a list, as
    /// [`Parser::sp_list_rest`] describes.
    #[verifier::rlimit(100)]
    fn list_rest(&self, st: St, exprs: Vec<Expr>, index: usize) -> (r: PRes<Expr>)
        requires
            self.wf(),
            self.ok_st(st),
            index <= st.pos,
            forall|i: int| 0 <= i < exprs@.len() ==> (#[trigger] exprs@[i]).wf(self.content@),
        ensures
            self.frame(st, r),
            r matches Ok(p) ==> p.0.wf(self.content@),
            match (r, self.sp_list_rest(st, exprs_v(exprs@), index as int)) {
                (Ok((e, st2)), Ok((ev, sp2))) => expr_v(e) == ev && st2 == sp2,
                (Err((e, st2)), Err((ev, spe))) => err_v(e) == ev && st2 == spe,
                _ => false,
            },
        decreases self.tokens@.len() - st.pos, 10int,
    {
        let (stx, m) = self.match_token(st, &TokenKind::RBracket);
        match m {
            Err(e) => Err((e, stx)),
            Ok(true) => {
                let span = self.end_recording(index, stx.pos);
                proof {
                    crate::ast::lemma_expr_all_wf(exprs@, self.content@);
                }
                Ok((Expr::List { list: exprs, ann: span }, stx))
            },
            Ok(false) => {
                let ((), sty) = self.expect_current(st, &TokenKind::Comma, "`,`")?;
                let (e2, stz) = self.parse_expr(sty)?;
                proof {
                    lemma_exprs_v_push(exprs@, e2);
                }
                let mut exprs2 = exprs;
                exprs2.push(e2);
                self.list_rest(stz, exprs2, index)
            },
        }
    }

    /// Parses the bindings of a `let` up to `in`, as
    /// [`Parser::sp_let_binds`] describes.
    #[verifier::rlimit(100)]
    fn let_binds_rest(&self, st: St, binds: Vec<Bind>) -> (r: PRes<Vec<Bind>>)
        requires
            self.wf(),
            self.ok_st(st),
            forall|i: int| 0 <= i < binds@.len() ==> (#[trigger] binds@[i]).wf(self.content@),
        ensures
            res_st(r).pos < self.tokens@.len(),
            res_st(r).pos >= st.pos,
            r matches Err(p) ==> p.0.wf(self.content@),
            r matches Ok(p) ==> p.1.pos > st.pos && forall|i: int|
                0 <= i < p.0@.len() ==> (#[trigger] p.0@[i]).wf(self.content@),
            match (r, self.sp_let_binds(st, binds_v(binds@))) {
                (Ok((bs, st2)), Ok((bv, sp2))) => binds_v(bs@) == bv && st2 == sp2,
                (Err((e, st2)), Err((ev, spe))) => err_v(e) == ev && st2 == spe,
                _ => false,
            },
        decreases self.tokens@.len() - st.pos, 18int,
    {
        let (stx, m) = self.match_token(st, &TokenKind::In);
        match m {
            Err(e) => Err((e, stx)),
            Ok(true) => Ok((binds, stx)),
            Ok(false) => {
                let (b, sty) = self.parse_bind(st)?;
                let ((), stz) = self.expect_current(sty, &TokenKind::Semicolon, "`;`")?;
                proof {
                    lemma_binds_v_push(binds@, b);
                }
                let mut binds2 = binds;
                binds2.push(b);
                self.let_binds_rest(stz, binds2)
            },
        }
    }

    /// Parses further parenthesized match arms, as
    /// [`Parser::sp_arms_rest`] describes.
    #[verifier::rlimit(100)]
    fn arms_rest(&self, st: St, cases: Vec<(Pattern, Expr)>) -> (r: PRes<Vec<(Pattern, Expr)>>)
        requires
            self.wf(),
            self.ok_st(st),
            forall|i: int|
                0 <= i < cases@.len() ==> (#[trigger] cases@[i]).0.wf(self.content@)
                    && cases@[i].1.wf(self.content@),
        ensures
            res_st(r).pos < self.tokens@.len(),
            res_st(r).pos >= st.pos,
            r matches Err(p) ==> p.0.wf(self.content@),
            r matches Ok(p) ==> forall|i: int|
                0 <= i < p.0@.len() ==> (#[trigger] p.0@[i]).0.wf(self.content@)
                    && p.0@[i].1.wf(self.content@),
            match (r, self.sp_arms_rest(st, arms_v(cases@))) {
                (Ok((cs, st2)), Ok((cv, sp2))) => arms_v(cs@) == cv && st2 == sp2,
                (Err((e, st2)), Err((ev, spe))) => err_v(e) == ev && st2 == spe,
                _ => false,
            },
        decreases self.tokens@.len() - st.pos, 13int,
    {
        let (stx, m) = self.match_token(st, &TokenKind::LParen);
        match m {
            Err(e) => Err((e, stx)),
            Ok(false) => Ok((cases, st)),
            Ok(true) => {
                let (p2, sta) = self.parse_pattern(stx)?;
                let ((), stb) = self.expect_current(sta, &TokenKind::Arrow, "`->`")?;
                let (e2, stc) = self.parse_expr(stb)?;
                let ((), std2) = self.expect_current(stc, &TokenKind::RParen, "`)`")?;
                proof {
                    lemma_arms_v_push(cases@, (p2, e2));
                }
                let mut cases2 = cases;
                cases2.push((p2, e2));
                self.arms_rest(std2, cases2)
            },
        }
    }

    /// Parses lambda parameter patterns up to the arrow, as
    /// [`Parser::sp_lambda_pats`] describes.
    #[verifier::rlimit(100)]
    fn lambda_pats_rest(&self, st: St, pats: Vec<Pattern>) -> (r: PRes<Vec<Pattern>>)
        requires
            self.wf(),
            self.ok_st(st),
            forall|i: int| 0 <= i < pats@.len() ==> (#[trigger] pats@[i]).wf(self.content@),
        ensures
            res_st(r).pos < self.tokens@.len(),
            res_st(r).pos >= st.pos,
            r matches Err(p) ==> p.0.wf(self.content@),
            r matches Ok(p) ==> p.1.pos > st.pos && forall|i: int|
                0 <= i < p.0@.len() ==> (#[trigger] p.0@[i]).wf(self.content@),
            match (r, self.sp_lambda_pats(st, pats_v(pats@))) {
                (Ok((ps, st2)), Ok((pv, sp2))) => pats_v(ps@) == pv && st2 == sp2,
                (Err((e, st2)), Err((ev, spe))) => err_v(e) == ev && st2 == spe,
                _ => false,
            },
        decreases self.tokens@.len() - st.pos, 13int,
    {
        let (stx, m) = self.match_token(st, &TokenKind::Arrow);
        match m {
            Err(e) => Err((e, stx)),
            Ok(true) => Ok((pats, stx)),
            Ok(false) => {
                let (p, sty) = self.parse_pattern(st)?;
                proof {
                    lemma_pats_v_push(pats@, p);
                }
                let mut pats2 = pats;
                pats2.push(p);
                self.lambda_pats_rest(sty, pats2)
            },
        }
    }

    /// One primary form, as the matching case of
    /// [`Parser::sp_parse_primary`] describes.
    #[verifier::rlimit(100)]
    fn primary_reference(&self, st: St) -> (r: PRes<Expr>)
        requires
            self.wf(),
            self.ok_st(st),
            self.tokens@[st.pos as int].kind.spec_is_identifier(),
        ensures
            self.frame(st, r),
            r matches Ok(p) ==> p.0.wf(self.content@),
            match (r, self.sp_parse_primary(st)) {
                (Ok((e, st2)), Ok((ev, sp2))) => expr_v(e) == ev && st2 == sp2,
                (Err((e, st2)), Err((ev, spe))) => err_v(e) == ev && st2 == spe,
                _ => false,
            },
        decreases self.tokens@.len() - st.pos, 1int,
    {
        let ghost spg = self.sp_parse_primary(st);
        let t = self.peek(st);
        let is_lower = matches!(&t.kind, TokenKind::Identifier(_));
        let index = self.start_recording(st);
        let (id, st1) = self.expect_any_identifier(st)?;
        let mut args: Vec<Expr> = Vec::new();
        let mut cur: St = st1;
        loop
            invariant
                self.wf(),
                st.pos < st1.pos <= cur.pos < self.tokens@.len(),
                forall|i: int| 0 <= i < args@.len() ==> (#[trigger] args@[i]).wf(self.content@),
                id.wf(self.content@),
                args@.len() == 0 ==> cur == st1,
                self.sp_app_args(st1, Seq::empty()) == self.sp_app_args(cur, exprs_v(args@)),
            ensures
                self.wf(),
                st.pos < st1.pos <= cur.pos < self.tokens@.len(),
                forall|i: int| 0 <= i < args@.len() ==> (#[trigger] args@[i]).wf(self.content@),
                id.wf(self.content@),
                args@.len() == 0 ==> cur == st1,
                self.sp_app_args(st1, Seq::empty()) == (exprs_v(args@), cur),
            decreases self.tokens@.len() - cur.pos,
        {
            let (nxt, opt) = self.try_expr_arg(cur);
            match opt {
                Some(e) => {
                    proof {
                        lemma_exprs_v_push(args@, e);
                    }
                    args.push(e);
                    cur = nxt;
                },
                None => {
                    break;
                },
            }
        }
        if args.len() > 0 {
            let span = self.end_recording(index, cur.pos);
            proof {
                crate::ast::lemma_expr_all_wf(args@, self.content@);
            }
            let node = Expr::App(App { ident: id, args, span });
            proof {
                assert(spg matches Ok(pv) && pv.0 == expr_v(node) && pv.1 == cur);
            }
            Ok((node, cur))
        } else if is_lower {
            let node = Expr::Identifier { id };
            proof {
                assert(spg matches Ok(pv) && pv.0 == expr_v(node) && pv.1 == st1);
            }
            Ok((node, st1))
        } else {
            let node = Expr::PCIdentifier { id };
            proof {
                assert(spg matches Ok(pv) && pv.0 == expr_v(node) && pv.1 == st1);
            }
            Ok((node, st1))
        }
    }

    /// One primary form, as the matching case of
    /// [`Parser::sp_parse_primary`] describes.
    #[verifier::rlimit(100)]
    fn primary_paren(&self, st: St) -> (r: PRes<Expr>)
        requires
            self.wf(),
            self.ok_st(st),
            self.tokens@[st.pos as int].kind matches TokenKind::LParen,
        ensures
            self.frame(st, r),
            r matches Ok(p) ==> p.0.wf(self.content@),
            match (r, self.sp_parse_primary(st)) {
                (Ok((e, st2)), Ok((ev, sp2))) => expr_v(e) == ev && st2 == sp2,
                (Err((e, st2)), Err((ev, spe))) => err_v(e) == ev && st2 == spe,
                _ => false,
            },
        decreases self.tokens@.len() - st.pos, 1int,
    {
        let ghost spg = self.sp_parse_primary(st);
        let index = self.start_recording(st);
        let (st1, a) = self.advance(st);
        match a {
            Err(e) => {
                return Err((e, st1));
            },
            Ok(_) => {},
        }
        let (first, st2) = self.parse_expr(st1)?;
        if matches!(&self.peek(st2).kind, TokenKind::Comma) {
            let mut exprs: Vec<Expr> = Vec::new();
            let ghost firstv = expr_v(first);
            exprs.push(first);
            proof {
                assert(exprs_v(exprs@) =~= seq![firstv]);
            }
            self.tuple_rest(st2, exprs, index)
        } else {
            let ((), st3) = self.expect_current(st2, &TokenKind::RParen, "`)`")?;
            proof {
                assert(spg matches Ok(pv) && pv.0 == expr_v(first) && pv.1 == st3);
            }
            Ok((first, st3))
        }
    }

    /// One primary form, as the matching case of
    /// [`Parser::sp_parse_primary`] describes.
    #[verifier::rlimit(100)]
    fn primary_let(&self, st: St) -> (r: PRes<Expr>)
        requires
            self.wf(),
            self.ok_st(st),
            self.tokens@[st.pos as int].kind matches TokenKind::Let,
        ensures
            self.frame(st, r),
            r matches Ok(p) ==> p.0.wf(self.content@),
            match (r, self.sp_parse_primary(st)) {
                (Ok((e, st2)), Ok((ev, sp2))) => expr_v(e) == ev && st2 == sp2,
                (Err((e, st2)), Err((ev, spe))) => err_v(e) == ev && st2 == spe,
                _ => false,
            },
        decreases self.tokens@.len() - st.pos, 1int,
    {
        let ghost spg = self.sp_parse_primary(st);
        let index = self.start_recording(st);
        let (st1, a) = self.advance(st);
        match a {
            Err(e) => {
                return Err((e, st1));
            },
            Ok(_) => {},
        }
        let binds0: Vec<Bind> = Vec::new();
        proof {
            assert(binds_v(binds0@) =~= Seq::<BindV>::empty());
        }
        let (binds, st2) = self.let_binds_rest(st1, binds0)?;
        let (ret, st3) = self.parse_expr(st2)?;
        let span = self.end_recording(index, st3.pos);
        proof {
            crate::ast::lemma_bind_all_wf(binds@, self.content@);
        }
        let node = Expr::Let { binds, ret: Box::new(ret), ann: span };
        proof {
            assert(spg matches Ok(pv) && pv.0 == expr_v(node) && pv.1 == st3);
        }
        Ok((node, st3))
    }

    /// The rest of an `if` after its `Then` keyword, as
    /// [`Parser::sp_if_tail`] describes.
    #[verifier::rlimit(100)]
    fn if_tail(&self, orig: St, st: St, cond: Expr, index: usize) -> (r: PRes<Expr>)
        requires
            self.wf(),
            self.ok_st(st),
            self.ok_st(orig),
            index == orig.pos,
            orig.pos <= st.pos,
            cond.wf(self.content@),
        ensures
            res_st(r).pos < self.tokens@.len(),
            res_st(r).pos >= st.pos,
            r matches Err(p) ==> p.0.wf(self.content@),
            r matches Ok(p) ==> p.0.wf(self.content@) && p.1.pos > st.pos,
            match (r, self.sp_if_tail(orig, st, expr_v(cond))) {
                (Ok((e, st2)), Ok((ev, sp2))) => expr_v(e) == ev && st2 == sp2,
                (Err((e, st2)), Err((ev, spe))) => err_v(e) == ev && st2 == spe,
                _ => false,
            },
        decreases self.tokens@.len() - st.pos, 11int,
    {
        let (thn, st4) = self.parse_expr(st)?;
        let ((), st5) = self.expect_current(st4, &TokenKind::Else, "Else")?;
        let (els, st6) = self.parse_expr(st5)?;
        let span = self.end_recording(index, st6.pos);
        let node = Expr::Condition {
            cond: Box::new(cond),
            then_branch: Box::new(thn),
            els: Box::new(els),
            ann: span,
        };
        Ok((node, st6))
    }

    /// One primary form, as the matching case of
    /// [`Parser::sp_parse_primary`] describes.
    #[verifier::rlimit(100)]
    fn primary_if(&self, st: St) -> (r: PRes<Expr>)
        requires
            self.wf(),
            self.ok_st(st),
            self.tokens@[st.pos as int].kind matches TokenKind::If,
        ensures
            self.frame(st, r),
            r matches Ok(p) ==> p.0.wf(self.content@),
            match (r, self.sp_parse_primary(st)) {
                (Ok((e, st2)), Ok((ev, sp2))) => expr_v(e) == ev && st2 == sp2,
                (Err((e, st2)), Err((ev, spe))) => err_v(e) == ev && st2 == spe,
                _ => false,
            },
        decreases self.tokens@.len() - st.pos, 1int,
    {
        let ghost spg = self.sp_parse_primary(st);
        let index = self.start_recording(st);
        let (st1, a) = self.advance(st);
        match a {
            Err(e) => {
                proof {
                    assert(spg matches Err(pe) && err_v(e) == pe.0 && st1 == pe.1);
                }
                Err((e, st1))
            },
            Ok(_) => {
                match self.parse_expr(st1) {
                    Err((e, ste)) => {
                        proof {
                            assert(spg matches Err(pe) && err_v(e) == pe.0 && ste == pe.1);
                        }
                        Err((e, ste))
                    },
                    Ok((cond, st2)) => {
                        match self.expect_current(st2, &TokenKind::Then, "Then") {
                            Err((e, ste)) => {
                                proof {
                                    assert(spg matches Err(pe) && err_v(e) == pe.0 && ste
                                        == pe.1);
                                }
                                Err((e, ste))
                            },
                            Ok(((), st3)) => {
                                proof {
                                    assert(spg == self.sp_if_tail(st, st3, expr_v(cond)));
                                }
                                self.if_tail(st, st3, cond, index)
                            },
                        }
                    },
                }
            },
        }
    }

    /// The rest of a `match` after its `With` keyword, as
    /// [`Parser::sp_match_tail`] describes.
    #[verifier::rlimit(100)]
    fn match_tail(&self, orig: St, st: St, referral: Expr, index: usize) -> (r: PRes<Expr>)
        requires
            self.wf(),
            self.ok_st(st),
            self.ok_st(orig),
            index == orig.pos,
            orig.pos <= st.pos,
            referral.wf(self.content@),
        ensures
            res_st(r).pos < self.tokens@.len(),
            res_st(r).pos >= st.pos,
            r matches Err(p) ==> p.0.wf(self.content@),
            r matches Ok(p) ==> p.0.wf(self.content@) && p.1.pos > st.pos,
            match (r, self.sp_match_tail(orig, st, expr_v(referral))) {
                (Ok((e, st2)), Ok((ev, sp2))) => expr_v(e) == ev && st2 == sp2,
                (Err((e, st2)), Err((ev, spe))) => err_v(e) == ev && st2 == spe,
                _ => false,
            },
        decreases self.tokens@.len() - st.pos, 11int,
    {
        let ((), st4) = self.expect_current(st, &TokenKind::LParen, "`(`")?;
        let (pat1, st5) = self.parse_pattern(st4)?;
        let ((), st6) = self.expect_current(st5, &TokenKind::Arrow, "`->`")?;
        let (ex1, st7) = self.parse_expr(st6)?;
        let ((), st8) = self.expect_current(st7, &TokenKind::RParen, "`)`")?;
        let cases0: Vec<(Pattern, Expr)> = Vec::new();
        let ghost arm1 = (pattern_v(pat1), expr_v(ex1));
        let mut cases1 = cases0;
        cases1.push((pat1, ex1));
        proof {
            assert(arms_v(cases1@) =~= seq![arm1]);
        }
        let (cases, st9) = self.arms_rest(st8, cases1)?;
        let span = self.end_recording(index, st9.pos);
        proof {
            crate::ast::lemma_arms_wf(cases@, self.content@);
        }
        let node = Expr::Match { referral: Box::new(referral), cases, ann: span };
        Ok((node, St { pos: st9.pos, ol: true }))
    }

    /// One primary form, as the matching case of
    /// [`Parser::sp_parse_primary`] describes.
    #[verifier::rlimit(100)]
    fn primary_match(&self, st: St) -> (r: PRes<Expr>)
        requires
            self.wf(),
            self.ok_st(st),
            self.tokens@[st.pos as int].kind matches TokenKind::Match,
        ensures
            self.frame(st, r),
            r matches Ok(p) ==> p.0.wf(self.content@),
            match (r, self.sp_parse_primary(st)) {
                (Ok((e, st2)), Ok((ev, sp2))) => expr_v(e) == ev && st2 == sp2,
                (Err((e, st2)), Err((ev, spe))) => err_v(e) == ev && st2 == spe,
                _ => false,
            },
        decreases self.tokens@.len() - st.pos, 1int,
    {
        let ghost spg = self.sp_parse_primary(st);
        let index = self.start_recording(st);
        let st0 = St { pos: st.pos, ol: false };
        let (st1, a) = self.advance(st0);
        match a {
            Err(e) => {
                proof {
                    assert(spg matches Err(pe) && err_v(e) == pe.0 && st1 == pe.1);
                }
                Err((e, st1))
            },
            Ok(_) => {
                match self.parse_expr(st1) {
                    Err((e, ste)) => {
                        proof {
                            assert(spg matches Err(pe) && err_v(e) == pe.0 && ste == pe.1);
                        }
                        Err((e, ste))
                    },
                    Ok((referral, st2)) => {
                        match self.expect_current(st2, &TokenKind::With, "With") {
                            Err((e, ste)) => {
                                proof {
                                    assert(spg matches Err(pe) && err_v(e) == pe.0 && ste
                                        == pe.1);
                                }
                                Err((e, ste))
                            },
                            Ok(((), st3)) => {
                                proof {
                                    assert(spg == self.sp_match_tail(
                                        st,
                                        st3,
                                        expr_v(referral),
                                    ));
                                }
                                self.match_tail(st, st3, referral, index)
                            },
                        }
                    },
                }
            },
        }
    }

    /// One primary form, as the matching case of
    /// [`Parser::sp_parse_primary`] describes.
    #[verifier::rlimit(100)]
    fn primary_lambda(&self, st: St) -> (r: PRes<Expr>)
        requires
            self.wf(),
            self.ok_st(st),
            self.tokens@[st.pos as int].kind matches TokenKind::InversedSlash,
        ensures
            self.frame(st, r),
            r matches Ok(p) ==> p.0.wf(self.content@),
            match (r, self.sp_parse_primary(st)) {
                (Ok((e, st2)), Ok((ev, sp2))) => expr_v(e) == ev && st2 == sp2,
                (Err((e, st2)), Err((ev, spe))) => err_v(e) == ev && st2 == spe,
                _ => false,
            },
        decreases self.tokens@.len() - st.pos, 1int,
    {
        let ghost spg = self.sp_parse_primary(st);
        let index = self.start_recording(st);
        let (st1, a) = self.advance(st);
        match a {
            Err(e) => {
                return Err((e, st1));
            },
            Ok(_) => {},
        }
        let pats0: Vec<Pattern> = Vec::new();
        proof {
            assert(pats_v(pats0@) =~= Seq::<PatV>::empty());
        }
        let (pats, st2) = self.lambda_pats_rest(st1, pats0)?;
        let (ret, st3) = self.parse_expr(st2)?;
        let span = self.end_recording(index, st3.pos);
        proof {
            crate::ast::lemma_pattern_all_wf(pats@, self.content@);
        }
        let node = Expr::Lambda { args: pats, ret: Box::new(ret), ann: span };
        proof {
            assert(spg matches Ok(pv) && pv.0 == expr_v(node) && pv.1 == st3);
        }
        Ok((node, st3))
    }

    /// One primary form, as the matching case of
    /// [`Parser::sp_parse_primary`] describes.
    #[verifier::rlimit(100)]
    fn primary_list(&self, st: St) -> (r: PRes<Expr>)
        requires
            self.wf(),
            self.ok_st(st),
            self.tokens@[st.pos as int].kind matches TokenKind::LBracket,
        ensures
            self.frame(st, r),
            r matches Ok(p) ==> p.0.wf(self.content@),
            match (r, self.sp_parse_primary(st)) {
                (Ok((e, st2)), Ok((ev, sp2))) => expr_v(e) == ev && st2 == sp2,
                (Err((e, st2)), Err((ev, spe))) => err_v(e) == ev && st2 == spe,
                _ => false,
            },
        decreases self.tokens@.len() - st.pos, 1int,
    {
        let ghost spg = self.sp_parse_primary(st);
        let index = self.start_recording(st);
        let (st1, a) = self.advance(st);
        match a {
            Err(e) => {
                return Err((e, st1));
            },
            Ok(_) => {},
        }
        let (st2, m0) = self.match_token(st1, &TokenKind::RBracket);
        match m0 {
            Err(e) => Err((e, st2)),
            Ok(true) => {
                let exprs: Vec<Expr> = Vec::new();
                let span = self.end_recording(index, st2.pos);
                proof {
                    assert(exprs_v(exprs@) =~= Seq::<ExprV>::empty());
                    crate::ast::lemma_expr_all_wf(exprs@, self.content@);
                }
                let node = Expr::List { list: exprs, ann: span };
                proof {
                    assert(spg matches Ok(pv) && pv.0 == expr_v(node) && pv.1 == st2);
                }
                Ok((node, st2))
            },
            Ok(false) => {
                let (first, sta) = self.parse_expr(st1)?;
                let mut exprs: Vec<Expr> = Vec::new();
                let ghost firstv = expr_v(first);
                exprs.push(first);
                proof {
                    assert(exprs_v(exprs@) =~= seq![firstv]);
                }
                self.list_rest(sta, exprs, index)
            },
        }
    }

    /// Parses a primary expression: a literal, an identifier or constructor
    /// (speculatively applied to arguments), a parenthesized expression or
    /// tuple, `let`, `if`, `match`, a lambda, or a list.
    #[verifier::rlimit(100)]
    fn parse_primary(&self, st: St) -> (r: PRes<Expr>)
        requires
            self.wf(),
            self.ok_st(st),
        ensures
            self.frame(st, r),
            r matches Ok(p) ==> p.0.wf(self.content@),
            match (r, self.sp_parse_primary(st)) {
                (Ok((e, st2)), Ok((ev, sp2))) => expr_v(e) == ev && st2 == sp2,
                (Err((e, st2)), Err((ev, spe))) => err_v(e) == ev && st2 == spe,
                _ => false,
            },
        decreases self.tokens@.len() - st.pos, 2int,
    {
        let ghost spg = self.sp_parse_primary(st);
        let t = self.peek(st);
        if t.kind.is_literal() {
            let (lit, st1) = self.parse_literal(st)?;
            let node = Expr::Literal(lit);
            proof {
                assert(spg matches Ok(pv) && pv.0 == expr_v(node) && pv.1 == st1);
            }
            Ok((node, st1))
        } else if t.kind.is_identifier() {
            self.primary_reference(st)
        } else if matches!(&t.kind, TokenKind::LParen) {
            self.primary_paren(st)
        } else if matches!(&t.kind, TokenKind::Let) {
            self.primary_let(st)
        } else if matches!(&t.kind, TokenKind::If) {
            self.primary_if(st)
        } else if matches!(&t.kind, TokenKind::Match) {
            self.primary_match(st)
        } else if matches!(&t.kind, TokenKind::InversedSlash) {
            self.primary_lambda(st)
        } else if matches!(&t.kind, TokenKind::LBracket) {
            self.primary_list(st)
        } else {
            Err((self.err_here(st, "primary expression"), st))
        }
    }

    /// Parses a primary expression optionally annotated `:: Type`.
    #[verifier::rlimit(100)]
    fn parse_annotation(&self, st: St) -> (r: PRes<Expr>)
        requires
            self.wf(),
            self.ok_st(st),
        ensures
            self.frame(st, r),
            r matches Ok(p) ==> p.0.wf(self.content@),
            match (r, self.sp_parse_annotation(st)) {
                (Ok((e, st2)), Ok((ev, sp2))) => expr_v(e) == ev && st2 == sp2,
                (Err((e, st2)), Err((ev, spe))) => err_v(e) == ev && st2 == spe,
                _ => false,
            },
        decreases self.tokens@.len() - st.pos, 3int,
    {
        let index = self.start_recording(st);
        let (lhs, st1) = self.parse_primary(st)?;
        let (st2, m) = self.match_token(st1, &TokenKind::DoubleCollon);
        match m {
            Err(e) => Err((e, st2)),
            Ok(true) => {
                let (ty, st3) = self.parse_type(st2)?;
                let span = self.end_recording(index, st3.pos);
                Ok((Expr::Ann { expr: Box::new(lhs), ty, ann: span }, st3))
            },
            Ok(false) => Ok((lhs, st1)),
        }
    }

    /// Folds further `::` cons operators onto `lhs`, as
    /// [`Parser::sp_cons_rest`] describes.
    #[verifier::rlimit(100)]
    fn cons_rest(&self, st: St, lhs: Expr, index: usize) -> (r: PRes<Expr>)
        requires
            self.wf(),
            self.ok_st(st),
            index <= st.pos,
            lhs.wf(self.content@),
        ensures
            res_st(r).pos < self.tokens@.len(),
            res_st(r).pos >= st.pos,
            r matches Err(p) ==> p.0.wf(self.content@),
            r matches Ok(p) ==> p.0.wf(self.content@),
            match (r, self.sp_cons_rest(st, expr_v(lhs), index as int)) {
                (Ok((e, st2)), Ok((ev, sp2))) => expr_v(e) == ev && st2 == sp2,
                (Err((e, st2)), Err((ev, spe))) => err_v(e) == ev && st2 == spe,
                _ => false,
            },
        decreases self.tokens@.len() - st.pos, 4int,
    {
        let op: Option<BinOp> = match &self.peek(st).kind {
            TokenKind::DoubleCollon => Some(BinOp::ListCons),
            _ => None,
        };
        proof {
            assert(op == op_cons(self.tokens@[st.pos as int].kind));
        }
        match op {
            None => Ok((lhs, st)),
            Some(op) => {
                let (st1, a) = self.advance(st);
                match a {
                    Err(e) => Err((e, st1)),
                    Ok(_) => {
                        let (rhs, st2) = self.parse_annotation(st1)?;
                        let span = self.end_recording(index, st2.pos);
                        let node = Expr::BinOp {
                            op,
                            lhs: Box::new(lhs),
                            rhs: Box::new(rhs),
                            ann: span,
                        };
                        self.cons_rest(st2, node, index)
                    },
                }
            },
        }
    }

    /// Parses a left-folded chain of `::` list-cons operators.
    fn parse_list_cons(&self, st: St) -> (r: PRes<Expr>)
        requires
            self.wf(),
            self.ok_st(st),
        ensures
            self.frame(st, r),
            r matches Ok(p) ==> p.0.wf(self.content@),
            match (r, self.sp_parse_list_cons(st)) {
                (Ok((e, st2)), Ok((ev, sp2))) => expr_v(e) == ev && st2 == sp2,
                (Err((e, st2)), Err((ev, spe))) => err_v(e) == ev && st2 == spe,
                _ => false,
            },
        decreases self.tokens@.len() - st.pos, 5int,
    {
        let index = self.start_recording(st);
        let (first, st1) = self.parse_annotation(st)?;
        self.cons_rest(st1, first, index)
    }

    /// Folds further `^` operators onto `lhs`, left-associatively like
    /// every level, as [`Parser::sp_exp_rest`] describes.
    #[verifier::rlimit(100)]
    fn exp_rest(&self, st: St, lhs: Expr, index: usize) -> (r: PRes<Expr>)
        requires
            self.wf(),
            self.ok_st(st),
            index <= st.pos,
            lhs.wf(self.content@),
        ensures
            res_st(r).pos < self.tokens@.len(),
            res_st(r).pos >= st.pos,
            r matches Err(p) ==> p.0.wf(self.content@),
            r matches Ok(p) ==> p.0.wf(self.content@),
            match (r, self.sp_exp_rest(st, expr_v(lhs), index as int)) {
                (Ok((e, st2)), Ok((ev, sp2))) => expr_v(e) == ev && st2 == sp2,
                (Err((e, st2)), Err((ev, spe))) => err_v(e) == ev && st2 == spe,
                _ => false,
            },
        decreases self.tokens@.len() - st.pos, 5int,
    {
        let op: Option<BinOp> = match &self.peek(st).kind {
            TokenKind::Exp => Some(BinOp::Exp),
            _ => None,
        };
        proof {
            assert(op == op_exp(self.tokens@[st.pos as int].kind));
        }
        match op {
            None => Ok((lhs, st)),
            Some(op) => {
                let (st1, a) = self.advance(st);
                match a {
                    Err(e) => Err((e, st1)),
                    Ok(_) => {
                        let (rhs, st2) = self.parse_list_cons(st1)?;
                        let span = self.end_recording(index, st2.pos);
                        let node = Expr::BinOp {
                            op,
                            lhs: Box::new(lhs),
                            rhs: Box::new(rhs),
                            ann: span,
                        };
                        self.exp_rest(st2, node, index)
                    },
                }
            },
        }
    }

    /// Parses a left-folded chain of `^` operators.
    fn parse_exp(&self, st: St) -> (r: PRes<Expr>)
        requires
            self.wf(),
            self.ok_st(st),
        ensures
            self.frame(st, r),
            r matches Ok(p) ==> p.0.wf(self.content@),
            match (r, self.sp_parse_exp(st)) {
                (Ok((e, st2)), Ok((ev, sp2))) => expr_v(e) == ev && st2 == sp2,
                (Err((e, st2)), Err((ev, spe))) => err_v(e) == ev && st2 == spe,
                _ => false,
            },
        decreases self.tokens@.len() - st.pos, 6int,
    {
        let index = self.start_recording(st);
        let (first, st1) = self.parse_list_cons(st)?;
        self.exp_rest(st1, first, index)
    }

    /// Folds further comparison operators onto `lhs`, as
    /// [`Parser::sp_cmp_rest`] describes.
    #[verifier::rlimit(100)]
    fn cmp_rest(&self, st: St, lhs: Expr, index: usize) -> (r: PRes<Expr>)
        requires
            self.wf(),
            self.ok_st(st),
            index <= st.pos,
            lhs.wf(self.content@),
        ensures
            res_st(r).pos < self.tokens@.len(),
            res_st(r).pos >= st.pos,
            r matches Err(p) ==> p.0.wf(self.content@),
            r matches Ok(p) ==> p.0.wf(self.content@),
            match (r, self.sp_cmp_rest(st, expr_v(lhs), index as int)) {
                (Ok((e, st2)), Ok((ev, sp2))) => expr_v(e) == ev && st2 == sp2,
                (Err((e, st2)), Err((ev, spe))) => err_v(e) == ev && st2 == spe,
                _ => false,
            },
        decreases self.tokens@.len() - st.pos, 6int,
    {
        let op: Option<BinOp> = match &self.peek(st).kind {
            TokenKind::Eq => Some(BinOp::Eq),
            TokenKind::Neq => Some(BinOp::Ineq),
            TokenKind::Lt => Some(BinOp::LessThan),
            TokenKind::Gt => Some(BinOp::GreaterThan),
            TokenKind::Lte => Some(BinOp::LessThanOrEq),
            TokenKind::Gte => Some(BinOp::GreaterThanOrEq),
            _ => None,
        };
        proof {
            assert(op == op_cmp(self.tokens@[st.pos as int].kind));
        }
        match op {
            None => Ok((lhs, st)),
            Some(op) => {
                let (st1, a) = self.advance(st);
                match a {
                    Err(e) => Err((e, st1)),
                    Ok(_) => {
                        let (rhs, st2) = self.parse_exp(st1)?;
                        let span = self.end_recording(index, st2.pos);
                        let node = Expr::BinOp {
                            op,
                            lhs: Box::new(lhs),
                            rhs: Box::new(rhs),
                            ann: span,
                        };
                        self.cmp_rest(st2, node, index)
                    },
                }
            },
        }
    }

    /// Parses a left-folded chain of comparison operators.
    fn parse_cmp(&self, st: St) -> (r: PRes<Expr>)
        requires
            self.wf(),
            self.ok_st(st),
        ensures
            self.frame(st, r),
            r matches Ok(p) ==> p.0.wf(self.content@),
            match (r, self.sp_parse_cmp(st)) {
                (Ok((e, st2)), Ok((ev, sp2))) => expr_v(e) == ev && st2 == sp2,
                (Err((e, st2)), Err((ev, spe))) => err_v(e) == ev && st2 == spe,
                _ => false,
            },
        decreases self.tokens@.len() - st.pos, 7int,
    {
        let index = self.start_recording(st);
        let (first, st1) = self.parse_exp(st)?;
        self.cmp_rest(st1, first, index)
    }

    /// Folds further `||` and `&&` operators onto `lhs`, as
    /// [`Parser::sp_orand_rest`] describes.
    #[verifier::rlimit(100)]
    fn orand_rest(&self, st: St, lhs: Expr, index: usize) -> (r: PRes<Expr>)
        requires
            self.wf(),
            self.ok_st(st),
            index <= st.pos,
            lhs.wf(self.content@),
        ensures
            res_st(r).pos < self.tokens@.len(),
            res_st(r).pos >= st.pos,
            r matches Err(p) ==> p.0.wf(self.content@),
            r matches Ok(p) ==> p.0.wf(self.content@),
            match (r, self.sp_orand_rest(st, expr_v(lhs), index as int)) {
                (Ok((e, st2)), Ok((ev, sp2))) => expr_v(e) == ev && st2 == sp2,
                (Err((e, st2)), Err((ev, spe))) => err_v(e) == ev && st2 == spe,
                _ => false,
            },
        decreases self.tokens@.len() - st.pos, 7int,
    {
        let op: Option<BinOp> = match &self.peek(st).kind {
            TokenKind::Or => Some(BinOp::Or),
            TokenKind::And => Some(BinOp::And),
            _ => None,
        };
        proof {
            assert(op == op_orand(self.tokens@[st.pos as int].kind));
        }
        match op {
            None => Ok((lhs, st)),
            Some(op) => {
                let (st1, a) = self.advance(st);
                match a {
                    Err(e) => Err((e, st1)),
                    Ok(_) => {
                        let (rhs, st2) = self.parse_cmp(st1)?;
                        let span = self.end_recording(index, st2.pos);
                        let node = Expr::BinOp {
                            op,
                            lhs: Box::new(lhs),
                            rhs: Box::new(rhs),
                            ann: span,
                        };
                        self.orand_rest(st2, node, index)
                    },
                }
            },
        }
    }

    /// Parses a left-folded chain of `||` and `&&` operators.
    fn parse_or_and(&self, st: St) -> (r: PRes<Expr>)
        requires
            self.wf(),
            self.ok_st(st),
        ensures
            self.frame(st, r),
            r matches Ok(p) ==> p.0.wf(self.content@),
            match (r, self.sp_parse_or_and(st)) {
                (Ok((e, st2)), Ok((ev, sp2))) => expr_v(e) == ev && st2 == sp2,
                (Err((e, st2)), Err((ev, spe))) => err_v(e) == ev && st2 == spe,
                _ => false,
            },
        decreases self.tokens@.len() - st.pos, 8int,
    {
        let index = self.start_recording(st);
        let (first, st1) = self.parse_cmp(st)?;
        self.orand_rest(st1, first, index)
    }

    /// Folds further `*`, `/` and `%` operators onto `lhs`, as
    /// [`Parser::sp_muldiv_rest`] describes.
    #[verifier::rlimit(100)]
    fn muldiv_rest(&self, st: St, lhs: Expr, index: usize) -> (r: PRes<Expr>)
        requires
            self.wf(),
            self.ok_st(st),
            index <= st.pos,
            lhs.wf(self.content@),
        ensures
            res_st(r).pos < self.tokens@.len(),
            res_st(r).pos >= st.pos,
            r matches Err(p) ==> p.0.wf(self.content@),
            r matches Ok(p) ==> p.0.wf(self.content@),
            match (r, self.sp_muldiv_rest(st, expr_v(lhs), index as int)) {
                (Ok((e, st2)), Ok((ev, sp2))) => expr_v(e) == ev && st2 == sp2,
                (Err((e, st2)), Err((ev, spe))) => err_v(e) == ev && st2 == spe,
                _ => false,
            },
        decreases self.tokens@.len() - st.pos, 8int,
    {
        let op: Option<BinOp> = match &self.peek(st).kind {
            TokenKind::Mul => Some(BinOp::Mul),
            TokenKind::Div => Some(BinOp::Div),
            TokenKind::Mod => Some(BinOp::Mod),
            _ => None,
        };
        proof {
            assert(op == op_muldiv(self.tokens@[st.pos as int].kind));
        }
        match op {
            None => Ok((lhs, st)),
            Some(op) => {
                let (st1, a) = self.advance(st);
                match a {
                    Err(e) => Err((e, st1)),
                    Ok(_) => {
                        let (rhs, st2) = self.parse_or_and(st1)?;
                        let span = self.end_recording(index, st2.pos);
                        let node = Expr::BinOp {
                            op,
                            lhs: Box::new(lhs),
                            rhs: Box::new(rhs),
                            ann: span,
                        };
                        self.muldiv_rest(st2, node, index)
                    },
                }
            },
        }
    }

    /// Parses a left-folded chain of `*`, `/` and `%` operators.
    fn parse_factor(&self, st: St) -> (r: PRes<Expr>)
        requires
            self.wf(),
            self.ok_st(st),
        ensures
            self.frame(st, r),
            r matches Ok(p) ==> p.0.wf(self.content@),
            match (r, self.sp_parse_factor(st)) {
                (Ok((e, st2)), Ok((ev, sp2))) => expr_v(e) == ev && st2 == sp2,
                (Err((e, st2)), Err((ev, spe))) => err_v(e) == ev && st2 == spe,
                _ => false,
            },
        decreases self.tokens@.len() - st.pos, 9int,
    {
        let index = self.start_recording(st);
        let (first, st1) = self.parse_or_and(st)?;
        self.muldiv_rest(st1, first, index)
    }

    /// Folds further `+` and `-` operators onto `lhs`, as
    /// [`Parser::sp_addsub_rest`] describes.
    #[verifier::rlimit(100)]
    fn addsub_rest(&self, st: St, lhs: Expr, index: usize) -> (r: PRes<Expr>)
        requires
            self.wf(),
            self.ok_st(st),
            index <= st.pos,
            lhs.wf(self.content@),
        ensures
            res_st(r).pos < self.tokens@.len(),
            res_st(r).pos >= st.pos,
            r matches Err(p) ==> p.0.wf(self.content@),
            r matches Ok(p) ==> p.0.wf(self.content@),
            match (r, self.sp_addsub_rest(st, expr_v(lhs), index as int)) {
                (Ok((e, st2)), Ok((ev, sp2))) => expr_v(e) == ev && st2 == sp2,
                (Err((e, st2)), Err((ev, spe))) => err_v(e) == ev && st2 == spe,
                _ => false,
            },
        decreases self.tokens@.len() - st.pos, 9int,
    {
        let op: Option<BinOp> = match &self.peek(st).kind {
            TokenKind::Add => Some(BinOp::Add),
            TokenKind::Sub => Some(BinOp::Sub),
            _ => None,
        };
        proof {
            assert(op == op_addsub(self.tokens@[st.pos as int].kind));
        }
        match op {
            None => Ok((lhs, st)),
            Some(op) => {
                let (st1, a) = self.advance(st);
                match a {
                    Err(e) => Err((e, st1)),
                    Ok(_) => {
                        let (rhs, st2) = self.parse_factor(st1)?;
                        let span = self.end_recording(index, st2.pos);
                        let node = Expr::BinOp {
                            op,
                            lhs: Box::new(lhs),
                            rhs: Box::new(rhs),
                            ann: span,
                        };
                        self.addsub_rest(st2, node, index)
                    },
                }
            },
        }
    }

    /// Parses an expression: a left-folded chain of `+` and `-` operators
    /// over the tighter levels.
    fn parse_expr(&self, st: St) -> (r: PRes<Expr>)
        requires
            self.wf(),
            self.ok_st(st),
        ensures
            self.frame(st, r),
            r matches Ok(p) ==> p.0.wf(self.content@),
            match (r, self.sp_parse_expr(st)) {
                (Ok((e, st2)), Ok((ev, sp2))) => expr_v(e) == ev && st2 == sp2,
                (Err((e, st2)), Err((ev, spe))) => err_v(e) == ev && st2 == spe,
                _ => false,
            },
        decreases self.tokens@.len() - st.pos, 10int,
    {
        let index = self.start_recording(st);
        let (first, st1) = self.parse_factor(st)?;
        self.addsub_rest(st1, first, index)
    }

    /// Parses a binding's parameter patterns up to `=`, as
    /// [`Parser::sp_bind_args`] describes.
    #[verifier::rlimit(100)]
    fn bind_args_rest(&self, st: St, args: Vec<Pattern>) -> (r: PRes<Vec<Pattern>>)
        requires
            self.wf(),
            self.ok_st(st),
            forall|i: int| 0 <= i < args@.len() ==> (#[trigger] args@[i]).wf(self.content@),
        ensures
            res_st(r).pos < self.tokens@.len(),
            res_st(r).pos >= st.pos,
            r matches Err(p) ==> p.0.wf(self.content@),
            r matches Ok(p) ==> p.1.pos > st.pos && forall|i: int|
                0 <= i < p.0@.len() ==> (#[trigger] p.0@[i]).wf(self.content@),
            match (r, self.sp_bind_args(st, pats_v(args@))) {
                (Ok((ps, st2)), Ok((pv, sp2))) => pats_v(ps@) == pv && st2 == sp2,
                (Err((e, st2)), Err((ev, spe))) => err_v(e) == ev && st2 == spe,
                _ => false,
            },
        decreases self.tokens@.len() - st.pos, 13int,
    {
        let (stx, m) = self.match_token(st, &TokenKind::Assign);
        match m {
            Err(e) => Err((e, stx)),
            Ok(true) => Ok((args, stx)),
            Ok(false) => {
                let (p, sty) = self.parse_pattern(st)?;
                proof {
                    lemma_pats_v_push(args@, p);
                }
                let mut args2 = args;
                args2.push(p);
                self.bind_args_rest(sty, args2)
            },
        }
    }

    /// Parses `name pat* = expr`.
    #[verifier::rlimit(100)]
    fn parse_bind(&self, st: St) -> (r: PRes<Bind>)
        requires
            self.wf(),
            self.ok_st(st),
        ensures
            self.frame(st, r),
            r matches Ok(p) ==> p.0.wf(self.content@),
            match (r, self.sp_parse_bind(st)) {
                (Ok((b, st2)), Ok((bv, sp2))) => bind_v(b) == bv && st2 == sp2,
                (Err((e, st2)), Err((ev, spe))) => err_v(e) == ev && st2 == spe,
                _ => false,
            },
        decreases self.tokens@.len() - st.pos, 17int,
    {
        let index = self.start_recording(st);
        let (id, st1) = self.expect_identifier(st)?;
        let args0: Vec<Pattern> = Vec::new();
        proof {
            assert(pats_v(args0@) =~= Seq::<PatV>::empty());
        }
        let (args, st2) = self.bind_args_rest(st1, args0)?;
        let (expr, st3) = self.parse_expr(st2)?;
        let span = self.end_recording(index, st3.pos);
        proof {
            crate::ast::lemma_pattern_all_wf(args@, self.content@);
        }
        Ok((Bind { name: id, args, expr, span }, st3))
    }

    /// Parses a variant's field types until a type no longer parses, as
    /// [`Parser::sp_variant_tys`] describes; the failed attempt's cursor
    /// is kept.
    #[verifier::rlimit(100)]
    fn variant_tys_rest(&self, st: St, tys: Vec<Type>) -> (r: (Vec<Type>, St))
        requires
            self.wf(),
            self.ok_st(st),
            forall|i: int| 0 <= i < tys@.len() ==> (#[trigger] tys@[i]).wf(self.content@),
        ensures
            r.1.pos < self.tokens@.len(),
            r.1.pos >= st.pos,
            forall|i: int| 0 <= i < r.0@.len() ==> (#[trigger] r.0@[i]).wf(self.content@),
            self.sp_variant_tys(st, tys_v(tys@)) == (tys_v(r.0@), r.1),
        decreases self.tokens@.len() - st.pos, 16int,
    {
        match self.parse_type(st) {
            Ok((ty, stx)) => {
                proof {
                    lemma_tys_v_push(tys@, ty);
                }
                let mut tys2 = tys;
                tys2.push(ty);
                self.variant_tys_rest(stx, tys2)
            },
            Err((_, stx)) => (tys, stx),
        }
    }

    /// Parses one variant of a type declaration: a constructor and its
    /// field types.
    #[verifier::rlimit(100)]
    fn parse_variant(&self, st: St) -> (r: PRes<Variant>)
        requires
            self.wf(),
            self.ok_st(st),
        ensures
            self.frame(st, r),
            r matches Ok(p) ==> p.0.wf(self.content@),
            match (r, self.sp_parse_variant(st)) {
                (Ok((v, st2)), Ok((vv, sp2))) => variant_v(v) == vv && st2 == sp2,
                (Err((e, st2)), Err((ev, spe))) => err_v(e) == ev && st2 == spe,
                _ => false,
            },
        decreases self.tokens@.len() - st.pos, 18int,
    {
        let index = self.start_recording(st);
        let (id, st1) = self.expect_pc_identifier(st)?;
        let tys0: Vec<Type> = Vec::new();
        proof {
            assert(tys_v(tys0@) =~= Seq::<TyV>::empty());
        }
        let (tys, st2) = self.variant_tys_rest(st1, tys0);
        let span = self.end_recording(index, st2.pos);
        proof {
            crate::ast::lemma_type_all_wf(tys@, self.content@);
        }
        Ok((Variant { id, types: tys, span }, st2))
    }

    /// Parses a type declaration's type variables up to `=`, as
    /// [`Parser::sp_decl_vars`] describes.
    #[verifier::rlimit(100)]
    fn decl_vars_rest(&self, st: St, vars: Vec<Identifier>) -> (r: PRes<Vec<Identifier>>)
        requires
            self.wf(),
            self.ok_st(st),
            forall|i: int| 0 <= i < vars@.len() ==> (#[trigger] vars@[i]).wf(self.content@),
        ensures
            res_st(r).pos < self.tokens@.len(),
            res_st(r).pos >= st.pos,
            r matches Err(p) ==> p.0.wf(self.content@),
            r matches Ok(p) ==> p.1.pos > st.pos && forall|i: int|
                0 <= i < p.0@.len() ==> (#[trigger] p.0@[i]).wf(self.content@),
            match (r, self.sp_decl_vars(st, idents_v(vars@))) {
                (Ok((vs, st2)), Ok((vv, sp2))) => idents_v(vs@) == vv && st2 == sp2,
                (Err((e, st2)), Err((ev, spe))) => err_v(e) == ev && st2 == spe,
                _ => false,
            },
        decreases self.tokens@.len() - st.pos, 19int,
    {
        let (stx, m) = self.match_token(st, &TokenKind::Assign);
        match m {
            Err(e) => Err((e, stx)),
            Ok(true) => Ok((vars, stx)),
            Ok(false) => {
                let (v, sty) = self.expect_identifier(st)?;
                proof {
                    lemma_idents_v_push(vars@, v);
                }
                let mut vars2 = vars;
                vars2.push(v);
                self.decl_vars_rest(sty, vars2)
            },
        }
    }

    /// Parses further `|`-separated variants, as
    /// [`Parser::sp_variants_rest`] describes.
    #[verifier::rlimit(100)]
    fn variants_rest(&self, st: St, variants: Vec<Variant>) -> (r: PRes<Vec<Variant>>)
        requires
            self.wf(),
            self.ok_st(st),
            forall|i: int| 0 <= i < variants@.len() ==> (#[trigger] variants@[i]).wf(self.content@),
        ensures
            res_st(r).pos < self.tokens@.len(),
            res_st(r).pos >= st.pos,
            r matches Err(p) ==> p.0.wf(self.content@),
            r matches Ok(p) ==> forall|i: int|
                0 <= i < p.0@.len() ==> (#[trigger] p.0@[i]).wf(self.content@),
            match (r, self.sp_variants_rest(st, variants_v(variants@))) {
                (Ok((vs, st2)), Ok((vv, sp2))) => variants_v(vs@) == vv && st2 == sp2,
                (Err((e, st2)), Err((ev, spe))) => err_v(e) == ev && st2 == spe,
                _ => false,
            },
        decreases self.tokens@.len() - st.pos, 19int,
    {
        let (stx, m) = self.match_token(st, &TokenKind::Pipe);
        match m {
            Err(e) => Err((e, stx)),
            Ok(false) => Ok((variants, st)),
            Ok(true) => {
                let (v, sty) = self.parse_variant(stx)?;
                proof {
                    lemma_variants_v_push(variants@, v);
                }
                let mut variants2 = variants;
                variants2.push(v);
                self.variants_rest(sty, variants2)
            },
        }
    }

    /// Parses `type Name var* = Variant (| Variant)*`, all on one
    /// physical line.
    #[verifier::rlimit(100)]
    fn parse_type_decl(&self, st: St) -> (r: PRes<Statement>)
        requires
            self.wf(),
            self.ok_st(st),
        ensures
            self.frame(st, r),
            r matches Ok(p) ==> p.0.wf(self.content@),
            match (r, self.sp_parse_type_decl(st)) {
                (Ok((s2, st2)), Ok((sv, sp2))) => stmt_v(s2) == sv && st2 == sp2,
                (Err((e, st2)), Err((ev, spe))) => err_v(e) == ev && st2 == spe,
                _ => false,
            },
        decreases self.tokens@.len() - st.pos, 20int,
    {
        let index = self.start_recording(st);
        let (st1, a) = self.advance(St { pos: st.pos, ol: true });
        match a {
            Err(e) => {
                return Err((e, St { pos: st.pos, ol: true }));
            },
            Ok(_) => {},
        }
        let (id, st2) = self.expect_pc_identifier(st1)?;
        let vars0: Vec<Identifier> = Vec::new();
        proof {
            assert(idents_v(vars0@) =~= Seq::<IdentV>::empty());
        }
        let (idents, st3) = self.decl_vars_rest(st2, vars0)?;
        let (v1, st4) = self.parse_variant(st3)?;
        let vs0: Vec<Variant> = Vec::new();
        let ghost v1v = variant_v(v1);
        let mut vs1 = vs0;
        vs1.push(v1);
        proof {
            assert(variants_v(vs1@) =~= seq![v1v]);
        }
        let (variants, st5) = self.variants_rest(st4, vs1)?;
        let span = self.end_recording(index, st5.pos);
        Ok(
            (
                Statement::TypeDecl(TypeDecl { name: id, typevars: idents, variants, span }),
                st5,
            ),
        )
    }

    /// Parses a statement beginning at a lowercase identifier: a type
    /// signature `id :: Type`, or a binding (re-parsed from the
    /// identifier).
    #[verifier::rlimit(100)]
    fn parse_stmt_identifier(&self, st: St) -> (r: PRes<Statement>)
        requires
            self.wf(),
            self.ok_st(st),
        ensures
            self.frame(st, r),
            r matches Ok(p) ==> p.0.wf(self.content@),
            match (r, self.sp_parse_stmt_identifier(st)) {
                (Ok((s2, st2)), Ok((sv, sp2))) => stmt_v(s2) == sv && st2 == sp2,
                (Err((e, st2)), Err((ev, spe))) => err_v(e) == ev && st2 == spe,
                _ => false,
            },
        decreases self.tokens@.len() - st.pos, 21int,
    {
        let st0 = St { pos: st.pos, ol: true };
        let index = self.start_recording(st0);
        let (id, st1) = self.expect_identifier(st0)?;
        if matches!(&self.peek(st1).kind, TokenKind::DoubleCollon) {
            let (st2, a) = self.advance(st1);
            match a {
                Err(e) => {
                    return Err((e, st2));
                },
                Ok(_) => {},
            }
            let (ty, st3) = self.parse_type(st2)?;
            let span = self.end_recording(index, st3.pos);
            Ok((Statement::TypeAssign(TypeAssign { id, ty, span }), st3))
        } else {
            let (b, st4) = self.parse_bind(St { pos: index, ol: true })?;
            Ok((Statement::Bind(b), st4))
        }
    }

    /// Parses one statement and checks that nothing but a newline or the
    /// end of input follows it on the same line.
    #[verifier::rlimit(100)]
    fn parse_statement(&self, st: St) -> (r: PRes<Statement>)
        requires
            self.wf(),
            self.ok_st(st),
        ensures
            self.frame(st, r),
            r matches Ok(p) ==> p.0.wf(self.content@),
            match (r, self.sp_parse_statement(st)) {
                (Ok((s2, st2)), Ok((sv, sp2))) => stmt_v(s2) == sv && st2 == sp2,
                (Err((e, st2)), Err((ev, spe))) => err_v(e) == ev && st2 == spe,
                _ => false,
            },
        decreases self.tokens@.len() - st.pos, 22int,
    {
        let st0 = St { pos: st.pos, ol: false };
        let t = self.peek(st0);
        let (res, st1) = match &t.kind {
            TokenKind::Identifier(_) => self.parse_stmt_identifier(st0)?,
            TokenKind::Type => self.parse_type_decl(st0)?,
            _ => {
                return Err((self.err_here(st0, "statement"), st0));
            },
        };
        let t2 = self.peek(st1);
        if !matches!(&t2.kind, TokenKind::Eof) && !matches!(&t2.kind, TokenKind::Newline) {
            let found = t2.span.duplicate();
            let span = t2.span.duplicate();
            return Err((Error { kind: ErrorKind::TooMuchExpr { found }, span }, st1));
        }
        Ok((res, st1))
    }

    /// Parses the whole token stream into a program, exactly as
    /// [`Parser::sp_parse_program`] describes: statements separated by
    /// newlines, ending at `Eof`.  On success every span in the program
    /// lies inside the source and reproduces its text and the cursor rests
    /// on `Eof`.
    #[verifier::rlimit(100)]
    #[verifier::loop_isolation(false)]
    pub fn parse(&mut self) -> (r: Result<Program, Error>)
        requires
            old(self).wf(),
        ensures
            final(self).wf(),
            final(self).content == old(self).content,
            final(self).tokens == old(self).tokens,
            r matches Ok(p) ==> p.wf(old(self).content@),
            r matches Ok(p) ==> final(self).tokens@[final(self).current as int].kind
                == TokenKind::Eof,
            match old(self).sp_parse_program(
                St { pos: old(self).current, ol: old(self).oneline },
            ) {
                Ok(sv) => r matches Ok(p) && stmts_v(p.statements@) == sv,
                Err((ev, stp)) => r matches Err(e) && err_v(e) == ev && final(self).current
                    == stp.pos,
            },
    {
        let ghost st00 = St { pos: self.current, ol: self.oneline };
        let ghost spg = self.sp_parse_program(st00);
        let mut statements: Vec<Statement> = Vec::new();
        let mut st = St { pos: self.current, ol: self.oneline };
        proof {
            assert(stmts_v(statements@) =~= Seq::<StmtV>::empty());
        }
        loop
            invariant
                self.wf(),
                self.current == old(self).current,
                self.content == old(self).content,
                self.tokens == old(self).tokens,
                st.pos < self.tokens@.len(),
                st.pos >= old(self).current,
                forall|i: int|
                    0 <= i < statements@.len() ==> (#[trigger] statements@[i]).wf(self.content@),
                spg == self.sp_program_rest(st, stmts_v(statements@)),
            decreases self.tokens@.len() - st.pos,
        {
            let st0 = St { pos: st.pos, ol: false };
            let t = self.peek(st0);
            if matches!(&t.kind, TokenKind::Eof) {
                self.current = st0.pos;
                self.oneline = st0.ol;
                return Ok(Program { statements });
            }
            if matches!(&t.kind, TokenKind::Newline) {
                let (st1, a) = self.advance(st0);
                match a {
                    Err(e) => {
                        self.current = st1.pos;
                        self.oneline = st1.ol;
                        return Err(e);
                    },
                    Ok(_) => {
                        st = st1;
                    },
                }
            } else {
                match self.parse_statement(st0) {
                    Ok((s2, st1)) => {
                        proof {
                            lemma_stmts_v_push(statements@, s2);
                        }
                        statements.push(s2);
                        st = st1;
                    },
                    Err((e, st1)) => {
                        self.current = st1.pos;
                        self.oneline = st1.ol;
                        return Err(e);
                    },
                }
            }
        }
    }
}

/// Structural equality of token kinds, text payloads compared by content.
#[verifier::opaque]
pub open spec fn kind_like(a: TokenKind, b: TokenKind) -> bool {
    a.view() == b.view()
}

/// Decides [`kind_like`].
fn kind_eq(a: &TokenKind, b: &TokenKind) -> (r: bool)
    ensures
        r == kind_like(*a, *b),
{
    proof {
        reveal(kind_like);
    }
    match (a, b) {
        (TokenKind::Let, TokenKind::Let) => true,
        (TokenKind::In, TokenKind::In) => true,
        (TokenKind::If, TokenKind::If) => true,
        (TokenKind::Then, TokenKind::Then) => true,
        (TokenKind::Else, TokenKind::Else) => true,
        (TokenKind::Match, TokenKind::Match) => true,
        (TokenKind::With, TokenKind::With) => true,
        (TokenKind::Type, TokenKind::Type) => true,
        (TokenKind::Integer(x), TokenKind::Integer(y)) => x == y,
        (TokenKind::Float(x), TokenKind::Float(y)) => crate::lexer::str_eq(x.as_str(), y.as_str()),
        (TokenKind::String(x), TokenKind::String(y)) => crate::lexer::str_eq(
            x.as_str(),
            y.as_str(),
        ),
        (TokenKind::Char(x), TokenKind::Char(y)) => x == y,
        (TokenKind::True, TokenKind::True) => true,
        (TokenKind::False, TokenKind::False) => true,
        (TokenKind::PCIdentifier(x), TokenKind::PCIdentifier(y)) => crate::lexer::str_eq(
            x.as_str(),
            y.as_str(),
        ),
        (TokenKind::Identifier(x), TokenKind::Identifier(y)) => crate::lexer::str_eq(
            x.as_str(),
            y.as_str(),
        ),
        (TokenKind::Pipe, TokenKind::Pipe) => true,
        (TokenKind::Underscore, TokenKind::Underscore) => true,
        (TokenKind::InversedSlash, TokenKind::InversedSlash) => true,
        (TokenKind::LParen, TokenKind::LParen) => true,
        (TokenKind::RParen, TokenKind::RParen) => true,
        (TokenKind::LBracket, TokenKind::LBracket) => true,
        (TokenKind::RBracket, TokenKind::RBracket) => true,
        (TokenKind::Arrow, TokenKind::Arrow) => true,
        (TokenKind::Comma, TokenKind::Comma) => true,
        (TokenKind::Semicolon, TokenKind::Semicolon) => true,
        (TokenKind::DoubleCollon, TokenKind::DoubleCollon) => true,
        (TokenKind::Lt, TokenKind::Lt) => true,
        (TokenKind::Gt, TokenKind::Gt) => true,
        (TokenKind::Gte, TokenKind::Gte) => true,
        (TokenKind::Lte, TokenKind::Lte) => true,
        (TokenKind::And, TokenKind::And) => true,
        (TokenKind::Or, TokenKind::Or) => true,
        (TokenKind::Eq, TokenKind::Eq) => true,
        (TokenKind::Neq, TokenKind::Neq) => true,
        (TokenKind::Colon, TokenKind::Colon) => true,
        (TokenKind::Add, TokenKind::Add) => true,
        (TokenKind::Sub, TokenKind::Sub) => true,
        (TokenKind::Mul, TokenKind::Mul) => true,
        (TokenKind::Div, TokenKind::Div) => true,
        (TokenKind::Exp, TokenKind::Exp) => true,
        (TokenKind::Mod, TokenKind::Mod) => true,
        (TokenKind::Assign, TokenKind::Assign) => true,
        (TokenKind::Space, TokenKind::Space) => true,
        (TokenKind::Tab, TokenKind::Tab) => true,
        (TokenKind::Newline, TokenKind::Newline) => true,
        (TokenKind::Eof, TokenKind::Eof) => true,
        _ => false,
    }
}

} // verus!
