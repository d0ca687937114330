//! The abstract syntax tree shared by the parser and the semantic analyzer.
//!
//! Every node carries a [`Span`]: a half-open character range into the source
//! text together with the exact slice it covers.  The well-formedness
//! predicates (`wf` and friends) say that every span of a tree lies inside
//! the source and reproduces its text; the parser establishes them for every
//! tree it returns.

use vstd::prelude::*;

verus! {

broadcast use vstd::std_specs::vec::group_vec_axioms, vstd::seq::group_seq_axioms;

/// A source range in character offsets, with the exact text it covers.
#[derive(Debug, Clone, PartialEq, Eq)]
pub struct Span {
    pub start: usize,
    pub end: usize,
    pub input: String,
}

impl Span {
    /// The span lies inside `src` and `input` is exactly the covered slice.
    pub open spec fn wf(self, src: Seq<char>) -> bool {
        &&& self.start <= self.end <= src.len()
        &&& self.input@ == src.subrange(self.start as int, self.end as int)
    }

    pub fn new(start: usize, end: usize, input: String) -> (r: Span)
        ensures
            r.start == start,
            r.end == end,
            r.input == input,
    {
        Span { start, end, input }
    }

    /// An exact copy; unlike a derived `Clone`, its result is specified.
    pub fn duplicate(&self) -> (r: Span)
        ensures
            r == *self,
    {
        Span { start: self.start, end: self.end, input: self.input.clone() }
    }

    /// Number of newline characters in `src[lo..hi]`.
    pub open spec fn newlines_in(src: Seq<char>, lo: int, hi: int) -> int
        decreases hi - lo,
    {
        if lo >= hi {
            0
        } else {
            (if src[lo] == '\n' {
                1int
            } else {
                0int
            }) + Span::newlines_in(src, lo + 1, hi)
        }
    }

    /// One plus the number of newlines covered by the span.
    pub fn get_line_number(&self, source: &str) -> (r: usize)
        requires
            self.start <= self.end <= source@.len(),
            source@.len() < usize::MAX,
        ensures
            r == 1 + Span::newlines_in(source@, self.start as int, self.end as int),
    {
        let mut line: usize = 1;
        let mut i: usize = self.start;
        while i < self.end
            invariant
                self.start <= i <= self.end <= source@.len(),
                source@.len() < usize::MAX,
                line == 1 + Span::newlines_in(source@, self.start as int, i as int),
                line <= 1 + i - self.start,
            decreases self.end - i,
        {
            let c = source.get_char(i);
            proof {
                lemma_newlines_in_snoc(source@, self.start as int, i as int);
            }
            if c == '\n' {
                line = line + 1;
            }
            i = i + 1;
        }
        line
    }
}

/// Splitting off the last character adds its newline count.
proof fn lemma_newlines_in_snoc(src: Seq<char>, lo: int, hi: int)
    requires
        lo <= hi < src.len(),
    ensures
        Span::newlines_in(src, lo, hi + 1) == Span::newlines_in(src, lo, hi) + (if src[hi] == '\n' {
            1int
        } else {
            0int
        }),
    decreases hi - lo,
{
    reveal_with_fuel(Span::newlines_in, 2);
    if lo < hi {
        lemma_newlines_in_snoc(src, lo + 1, hi);
    }
}

/// A name with the span it was written at.  Identity is the name; the
/// span is provenance only, so equality compares names alone.
#[derive(Debug, Clone, Eq)]
pub struct Identifier {
    pub name: String,
    pub span: Span,
}

impl PartialEq for Identifier {
    fn eq(&self, other: &Identifier) -> (r: bool) {
        crate::lexer::str_eq(self.name.as_str(), other.name.as_str())
    }
}

impl vstd::std_specs::cmp::PartialEqSpecImpl for Identifier {
    open spec fn obeys_eq_spec() -> bool {
        true
    }

    open spec fn eq_spec(&self, other: &Identifier) -> bool {
        self.name@ == other.name@
    }
}

impl Identifier {
    pub open spec fn wf(self, src: Seq<char>) -> bool {
        self.span.wf(src)
    }

    pub fn new(name: String, span: Span) -> (r: Identifier)
        ensures
            r.name == name,
            r.span == span,
    {
        Identifier { name, span }
    }

    /// An exact copy with a specified result.
    pub fn duplicate(&self) -> (r: Identifier)
        ensures
            r == *self,
    {
        Identifier { name: self.name.clone(), span: self.span.duplicate() }
    }
}

/// The two boolean literals.
#[derive(Debug, Clone, Copy, PartialEq, Eq)]
pub enum Bool {
    True,
    False,
}

/// A literal value.  A float literal keeps its exact source text: no
/// floating-point value is ever computed in this crate.
#[derive(Debug, Clone, PartialEq, Eq)]
pub enum LiteralKind {
    Integer(i64),
    Float(String),
    String(String),
    Char(char),
    Bool(Bool),
}

#[derive(Debug, Clone, PartialEq, Eq)]
pub struct Literal {
    pub lit: LiteralKind,
    pub span: Span,
}

impl Literal {
    pub open spec fn wf(self, src: Seq<char>) -> bool {
        self.span.wf(src)
    }

    pub fn new(lit: LiteralKind, span: Span) -> (r: Literal)
        ensures
            r.lit == lit,
            r.span == span,
    {
        Literal { lit, span }
    }
}

/// Binary operators, loosest-binding first in the grammar.
#[derive(Debug, Clone, Copy, PartialEq, Eq)]
pub enum BinOp {
    Add,
    Sub,
    Div,
    Mul,
    Mod,
    Exp,
    LessThan,
    GreaterThan,
    LessThanOrEq,
    GreaterThanOrEq,
    Eq,
    Ineq,
    And,
    Or,
    ListCons,
}

/// A pattern, as written in binding parameters, lambda parameters and match
/// arms.
#[derive(Debug, PartialEq, Eq)]
pub enum Pattern {
    /// `head : tail`, right-nested.
    ListCons(Box<Pattern>, Box<Pattern>, Span),
    Wildcard(Span),
    /// A lowercase binder.
    Variable(Identifier),
    /// A nullary constructor reference.
    Id(Identifier),
    /// A constructor applied to sub-patterns.
    App(Identifier, Vec<Pattern>, Span),
    Literal(Literal),
}

impl Pattern {
    pub open spec fn spec_span(self) -> Span {
        match self {
            Pattern::ListCons(_, _, span) => span,
            Pattern::Wildcard(span) => span,
            Pattern::Variable(id) => id.span,
            Pattern::Id(id) => id.span,
            Pattern::App(_, _, span) => span,
            Pattern::Literal(lit) => lit.span,
        }
    }

    pub open spec fn wf(self, src: Seq<char>) -> bool
        decreases self,
    {
        match self {
            Pattern::ListCons(lhs, rhs, span) => span.wf(src) && lhs.wf(src) && rhs.wf(src),
            Pattern::Wildcard(span) => span.wf(src),
            Pattern::Variable(id) => id.wf(src),
            Pattern::Id(id) => id.wf(src),
            Pattern::App(id, args, span) => id.wf(src) && span.wf(src) && Pattern::all_wf(
                args@,
                src,
            ),
            Pattern::Literal(lit) => lit.wf(src),
        }
    }

    pub open spec fn all_wf(pats: Seq<Pattern>, src: Seq<char>) -> bool
        decreases pats,
    {
        pats.len() == 0 || (pats[0].wf(src) && Pattern::all_wf(pats.drop_first(), src))
    }

    pub fn get_span(&self) -> (r: &Span)
        ensures
            *r == self.spec_span(),
    {
        match self {
            Pattern::ListCons(_, _, span) => span,
            Pattern::Wildcard(span) => span,
            Pattern::Variable(id) => &id.span,
            Pattern::Id(id) => &id.span,
            Pattern::App(_, _, span) => span,
            Pattern::Literal(lit) => &lit.span,
        }
    }
}

/// A type expression.
#[derive(Debug, PartialEq, Eq)]
pub enum Type {
    /// A type variable.
    Generic(Identifier),
    /// A nullary named type.
    Id(Identifier),
    /// A type constructor applied to arguments.
    App(Identifier, Vec<Type>, Span),
    Tuple(Vec<Type>, Span),
    /// `domain -> codomain`, a curried arrow chain.
    Func(Box<Type>, Vec<Type>, Span),
}

impl Type {
    pub open spec fn spec_span(self) -> Span {
        match self {
            Type::Generic(id) => id.span,
            Type::Id(id) => id.span,
            Type::App(_, _, span) => span,
            Type::Tuple(_, span) => span,
            Type::Func(_, _, span) => span,
        }
    }

    pub open spec fn wf(self, src: Seq<char>) -> bool
        decreases self,
    {
        match self {
            Type::Generic(id) => id.wf(src),
            Type::Id(id) => id.wf(src),
            Type::App(id, args, span) => id.wf(src) && span.wf(src) && Type::all_wf(args@, src),
            Type::Tuple(tys, span) => span.wf(src) && Type::all_wf(tys@, src),
            Type::Func(dom, cod, span) => span.wf(src) && dom.wf(src) && Type::all_wf(cod@, src),
        }
    }

    pub open spec fn all_wf(tys: Seq<Type>, src: Seq<char>) -> bool
        decreases tys,
    {
        tys.len() == 0 || (tys[0].wf(src) && Type::all_wf(tys.drop_first(), src))
    }

    pub fn get_span(&self) -> (r: &Span)
        ensures
            *r == self.spec_span(),
    {
        match self {
            Type::Generic(id) => &id.span,
            Type::Id(id) => &id.span,
            Type::App(_, _, span) => span,
            Type::Tuple(_, span) => span,
            Type::Func(_, _, span) => span,
        }
    }
}

/// One constructor of an algebraic type declaration.
#[derive(Debug, PartialEq, Eq)]
pub struct Variant {
    pub id: Identifier,
    pub types: Vec<Type>,
    pub span: Span,
}

impl Variant {
    pub open spec fn wf(self, src: Seq<char>) -> bool {
        self.id.wf(src) && self.span.wf(src) && Type::all_wf(self.types@, src)
    }

    pub fn new(id: Identifier, types: Vec<Type>, span: Span) -> (r: Variant)
        ensures
            r.id == id,
            r.types == types,
            r.span == span,
    {
        Variant { id, types, span }
    }
}

/// `type Name a b = Ctor ty* | ...`
#[derive(Debug, PartialEq, Eq)]
pub struct TypeDecl {
    pub name: Identifier,
    pub typevars: Vec<Identifier>,
    pub variants: Vec<Variant>,
    pub span: Span,
}

impl TypeDecl {
    pub open spec fn wf(self, src: Seq<char>) -> bool {
        &&& self.name.wf(src)
        &&& self.span.wf(src)
        &&& forall|i: int|
            0 <= i < self.typevars@.len() ==> (#[trigger] self.typevars@[i]).wf(src)
        &&& forall|i: int| 0 <= i < self.variants@.len() ==> (#[trigger] self.variants@[i]).wf(src)
    }

    pub fn new(name: Identifier, typevars: Vec<Identifier>, variants: Vec<Variant>, span: Span) -> (r:
        TypeDecl)
        ensures
            r.name == name,
            r.typevars == typevars,
            r.variants == variants,
            r.span == span,
    {
        TypeDecl { name, typevars, variants, span }
    }
}

/// `name :: Type`, a standalone type signature.
#[derive(Debug, PartialEq, Eq)]
pub struct TypeAssign {
    pub id: Identifier,
    pub ty: Type,
    pub span: Span,
}

impl TypeAssign {
    pub open spec fn wf(self, src: Seq<char>) -> bool {
        self.id.wf(src) && self.ty.wf(src) && self.span.wf(src)
    }

    pub fn new(id: Identifier, ty: Type, span: Span) -> (r: TypeAssign)
        ensures
            r.id == id,
            r.ty == ty,
            r.span == span,
    {
        TypeAssign { id, ty, span }
    }
}

/// A function application: a callee identifier and its argument expressions.
#[derive(Debug, PartialEq, Eq)]
pub struct App {
    pub ident: Identifier,
    pub args: Vec<Expr>,
    pub span: Span,
}

impl App {
    pub fn new(ident: Identifier, args: Vec<Expr>, span: Span) -> (r: App)
        ensures
            r.ident == ident,
            r.args == args,
            r.span == span,
    {
        App { ident, args, span }
    }
}

/// `name pat* = expr`
#[derive(Debug, PartialEq, Eq)]
pub struct Bind {
    pub name: Identifier,
    pub args: Vec<Pattern>,
    pub expr: Expr,
    pub span: Span,
}

impl Bind {
    pub fn new(id: Identifier, args: Vec<Pattern>, expr: Expr, span: Span) -> (r: Bind)
        ensures
            r.name == id,
            r.args == args,
            r.expr == expr,
            r.span == span,
    {
        Bind { name: id, args, expr, span }
    }
}

/// An expression.  Spans are carried either by the node itself or by its
/// leaf identifier or literal.
#[derive(Debug, PartialEq, Eq)]
pub enum Expr {
    /// A lowercase variable reference.
    Identifier { id: Identifier },
    /// A bare constructor reference.
    PCIdentifier { id: Identifier },
    App(App),
    Condition { cond: Box<Expr>, then_branch: Box<Expr>, els: Box<Expr>, ann: Span },
    Let { binds: Vec<Bind>, ret: Box<Expr>, ann: Span },
    Match { referral: Box<Expr>, cases: Vec<(Pattern, Expr)>, ann: Span },
    Literal(Literal),
    BinOp { op: BinOp, lhs: Box<Expr>, rhs: Box<Expr>, ann: Span },
    Lambda { args: Vec<Pattern>, ret: Box<Expr>, ann: Span },
    Ann { expr: Box<Expr>, ty: Type, ann: Span },
    List { list: Vec<Expr>, ann: Span },
    Tuple { list: Vec<Expr>, ann: Span },
}

impl Expr {
    pub open spec fn spec_span(self) -> Span {
        match self {
            Expr::Identifier { id } => id.span,
            Expr::PCIdentifier { id } => id.span,
            Expr::App(app) => app.span,
            Expr::Condition { ann, .. } => ann,
            Expr::Let { ann, .. } => ann,
            Expr::Match { ann, .. } => ann,
            Expr::Literal(lit) => lit.span,
            Expr::BinOp { ann, .. } => ann,
            Expr::Lambda { ann, .. } => ann,
            Expr::Ann { ann, .. } => ann,
            Expr::List { ann, .. } => ann,
            Expr::Tuple { ann, .. } => ann,
        }
    }

    pub open spec fn wf(self, src: Seq<char>) -> bool
        decreases self,
    {
        match self {
            Expr::Identifier { id } => id.wf(src),
            Expr::PCIdentifier { id } => id.wf(src),
            Expr::App(app) => app.ident.wf(src) && app.span.wf(src) && Expr::all_wf(
                app.args@,
                src,
            ),
            Expr::Condition { cond, then_branch, els, ann } => ann.wf(src) && cond.wf(src)
                && then_branch.wf(src) && els.wf(src),
            Expr::Let { binds, ret, ann } => ann.wf(src) && Bind::all_wf(binds@, src) && ret.wf(
                src,
            ),
            Expr::Match { referral, cases, ann } => ann.wf(src) && referral.wf(src)
                && Expr::arms_wf(cases@, src),
            Expr::Literal(lit) => lit.wf(src),
            Expr::BinOp { op, lhs, rhs, ann } => ann.wf(src) && lhs.wf(src) && rhs.wf(src),
            Expr::Lambda { args, ret, ann } => ann.wf(src) && Pattern::all_wf(args@, src)
                && ret.wf(src),
            Expr::Ann { expr, ty, ann } => ann.wf(src) && expr.wf(src) && ty.wf(src),
            Expr::List { list, ann } => ann.wf(src) && Expr::all_wf(list@, src),
            Expr::Tuple { list, ann } => ann.wf(src) && Expr::all_wf(list@, src),
        }
    }

    pub open spec fn all_wf(exprs: Seq<Expr>, src: Seq<char>) -> bool
        decreases exprs,
    {
        exprs.len() == 0 || (exprs[0].wf(src) && Expr::all_wf(exprs.drop_first(), src))
    }

    pub open spec fn arms_wf(cases: Seq<(Pattern, Expr)>, src: Seq<char>) -> bool
        decreases cases,
    {
        cases.len() == 0 || (cases[0].0.wf(src) && cases[0].1.wf(src) && Expr::arms_wf(
            cases.drop_first(),
            src,
        ))
    }

    pub fn get_span(&self) -> (r: &Span)
        ensures
            *r == self.spec_span(),
    {
        match self {
            Expr::Identifier { id } => &id.span,
            Expr::PCIdentifier { id } => &id.span,
            Expr::App(app) => &app.span,
            Expr::Condition { ann, .. } => ann,
            Expr::Let { ann, .. } => ann,
            Expr::Match { ann, .. } => ann,
            Expr::Literal(lit) => &lit.span,
            Expr::BinOp { ann, .. } => ann,
            Expr::Lambda { ann, .. } => ann,
            Expr::Ann { ann, .. } => ann,
            Expr::List { ann, .. } => ann,
            Expr::Tuple { ann, .. } => ann,
        }
    }
}

impl Bind {
    pub open spec fn wf(self, src: Seq<char>) -> bool
        decreases self,
    {
        &&& self.name.wf(src)
        &&& self.span.wf(src)
        &&& Pattern::all_wf(self.args@, src)
        &&& self.expr.wf(src)
    }

    pub open spec fn all_wf(binds: Seq<Bind>, src: Seq<char>) -> bool
        decreases binds,
    {
        binds.len() == 0 || (binds[0].wf(src) && Bind::all_wf(binds.drop_first(), src))
    }
}

/// The recursive `all_wf` predicates agree with elementwise
/// well-formedness.
pub proof fn lemma_pattern_all_wf(s: Seq<Pattern>, src: Seq<char>)
    ensures
        Pattern::all_wf(s, src) <==> (forall|i: int|
            0 <= i < s.len() ==> (#[trigger] s[i]).wf(src)),
    decreases s,
{
    if s.len() > 0 {
        lemma_pattern_all_wf(s.drop_first(), src);
        if Pattern::all_wf(s, src) {
            assert forall|i: int| 0 <= i < s.len() implies (#[trigger] s[i]).wf(src) by {
                if i > 0 {
                    assert(s.drop_first()[i - 1] == s[i]);
                }
            }
        }
        if forall|i: int| 0 <= i < s.len() ==> (#[trigger] s[i]).wf(src) {
            assert forall|j: int| 0 <= j < s.drop_first().len() implies (#[trigger] s.drop_first()[j]).wf(src) by {
                assert(s.drop_first()[j] == s[j + 1]);
            }
            assert(Pattern::all_wf(s, src));
        }
    }
}

pub proof fn lemma_type_all_wf(s: Seq<Type>, src: Seq<char>)
    ensures
        Type::all_wf(s, src) <==> (forall|i: int|
            0 <= i < s.len() ==> (#[trigger] s[i]).wf(src)),
    decreases s,
{
    if s.len() > 0 {
        lemma_type_all_wf(s.drop_first(), src);
        if Type::all_wf(s, src) {
            assert forall|i: int| 0 <= i < s.len() implies (#[trigger] s[i]).wf(src) by {
                if i > 0 {
                    assert(s.drop_first()[i - 1] == s[i]);
                }
            }
        }
        if forall|i: int| 0 <= i < s.len() ==> (#[trigger] s[i]).wf(src) {
            assert forall|j: int| 0 <= j < s.drop_first().len() implies (#[trigger] s.drop_first()[j]).wf(src) by {
                assert(s.drop_first()[j] == s[j + 1]);
            }
            assert(Type::all_wf(s, src));
        }
    }
}

pub proof fn lemma_expr_all_wf(s: Seq<Expr>, src: Seq<char>)
    ensures
        Expr::all_wf(s, src) <==> (forall|i: int|
            0 <= i < s.len() ==> (#[trigger] s[i]).wf(src)),
    decreases s,
{
    if s.len() > 0 {
        lemma_expr_all_wf(s.drop_first(), src);
        if Expr::all_wf(s, src) {
            assert forall|i: int| 0 <= i < s.len() implies (#[trigger] s[i]).wf(src) by {
                if i > 0 {
                    assert(s.drop_first()[i - 1] == s[i]);
                }
            }
        }
        if forall|i: int| 0 <= i < s.len() ==> (#[trigger] s[i]).wf(src) {
            assert forall|j: int| 0 <= j < s.drop_first().len() implies (#[trigger] s.drop_first()[j]).wf(src) by {
                assert(s.drop_first()[j] == s[j + 1]);
            }
            assert(Expr::all_wf(s, src));
        }
    }
}

pub proof fn lemma_bind_all_wf(s: Seq<Bind>, src: Seq<char>)
    ensures
        Bind::all_wf(s, src) <==> (forall|i: int|
            0 <= i < s.len() ==> (#[trigger] s[i]).wf(src)),
    decreases s,
{
    if s.len() > 0 {
        lemma_bind_all_wf(s.drop_first(), src);
        if Bind::all_wf(s, src) {
            assert forall|i: int| 0 <= i < s.len() implies (#[trigger] s[i]).wf(src) by {
                if i > 0 {
                    assert(s.drop_first()[i - 1] == s[i]);
                }
            }
        }
        if forall|i: int| 0 <= i < s.len() ==> (#[trigger] s[i]).wf(src) {
            assert forall|j: int| 0 <= j < s.drop_first().len() implies (#[trigger] s.drop_first()[j]).wf(src) by {
                assert(s.drop_first()[j] == s[j + 1]);
            }
            assert(Bind::all_wf(s, src));
        }
    }
}

pub proof fn lemma_arms_wf(s: Seq<(Pattern, Expr)>, src: Seq<char>)
    ensures
        Expr::arms_wf(s, src) <==> (forall|i: int|
            0 <= i < s.len() ==> ((#[trigger] s[i]).0.wf(src) && s[i].1.wf(src))),
    decreases s,
{
    if s.len() > 0 {
        lemma_arms_wf(s.drop_first(), src);
        if Expr::arms_wf(s, src) {
            assert forall|i: int| 0 <= i < s.len() implies ((#[trigger] s[i]).0.wf(src) && s[i].1.wf(src)) by {
                if i > 0 {
                    assert(s.drop_first()[i - 1] == s[i]);
                }
            }
        }
        if forall|i: int| 0 <= i < s.len() ==> ((#[trigger] s[i]).0.wf(src) && s[i].1.wf(src)) {
            assert forall|j: int| 0 <= j < s.drop_first().len() implies ((#[trigger] s.drop_first()[j]).0.wf(src) && s.drop_first()[j].1.wf(src)) by {
                assert(s.drop_first()[j] == s[j + 1]);
            }
            assert(Expr::arms_wf(s, src));
        }
    }
}

/// One top-level statement.
#[derive(Debug, PartialEq, Eq)]
pub enum Statement {
    Bind(Bind),
    TypeDecl(TypeDecl),
    TypeAssign(TypeAssign),
}

impl Statement {
    pub open spec fn wf(self, src: Seq<char>) -> bool {
        match self {
            Statement::Bind(b) => b.wf(src),
            Statement::TypeDecl(d) => d.wf(src),
            Statement::TypeAssign(a) => a.wf(src),
        }
    }
}

/// An ordered list of statements: one compilation unit.
#[derive(Debug, PartialEq, Eq)]
pub struct Program {
    pub statements: Vec<Statement>,
}

impl Program {
    /// Every span anywhere in the program lies inside `src` and reproduces
    /// its text.
    pub open spec fn wf(self, src: Seq<char>) -> bool {
        forall|i: int| 0 <= i < self.statements@.len() ==> (#[trigger] self.statements@[i]).wf(src)
    }

    pub fn new(statements: Vec<Statement>) -> (r: Program)
        ensures
            r.statements == statements,
    {
        Program { statements }
    }
}


// ------------------------------------------------------------------
// Mathematical images of the tree, for the parser's specification.
//
// A twin value carries the node's whole shape, names as character
// sequences, and span offsets; the covered text is not repeated, since
// well-formedness already pins it to the source and the offsets.
// ------------------------------------------------------------------
/// The image of a span: its character range.
pub ghost struct SpanV {
    pub start: int,
    pub end: int,
}

pub open spec fn span_v(s: Span) -> SpanV {
    SpanV { start: s.start as int, end: s.end as int }
}

/// The image of an identifier.
pub ghost struct IdentV {
    pub name: Seq<char>,
    pub span: SpanV,
}

pub open spec fn ident_v(id: Identifier) -> IdentV {
    IdentV { name: id.name@, span: span_v(id.span) }
}

pub open spec fn idents_v(ids: Seq<Identifier>) -> Seq<IdentV>
    decreases ids,
{
    if ids.len() == 0 {
        Seq::empty()
    } else {
        seq![ident_v(ids[0])] + idents_v(ids.drop_first())
    }
}

/// The image of a literal.
pub ghost enum LitKV {
    Integer(i64),
    Float(Seq<char>),
    Str(Seq<char>),
    CharL(char),
    Bool(Bool),
}

pub open spec fn litkind_v(k: LiteralKind) -> LitKV {
    match k {
        LiteralKind::Integer(i) => LitKV::Integer(i),
        LiteralKind::Float(s) => LitKV::Float(s@),
        LiteralKind::String(s) => LitKV::Str(s@),
        LiteralKind::Char(c) => LitKV::CharL(c),
        LiteralKind::Bool(b) => LitKV::Bool(b),
    }
}

pub ghost struct LitV {
    pub lit: LitKV,
    pub span: SpanV,
}

pub open spec fn lit_v(l: Literal) -> LitV {
    LitV { lit: litkind_v(l.lit), span: span_v(l.span) }
}

/// The image of a pattern.
pub ghost enum PatV {
    ListCons(Box<PatV>, Box<PatV>, SpanV),
    Wildcard(SpanV),
    Variable(IdentV),
    Id(IdentV),
    App(IdentV, Seq<PatV>, SpanV),
    Literal(LitV),
}

pub open spec fn pattern_v(p: Pattern) -> PatV
    decreases p,
{
    match p {
        Pattern::ListCons(l, r, s) => PatV::ListCons(
            Box::new(pattern_v(*l)),
            Box::new(pattern_v(*r)),
            span_v(s),
        ),
        Pattern::Wildcard(s) => PatV::Wildcard(span_v(s)),
        Pattern::Variable(id) => PatV::Variable(ident_v(id)),
        Pattern::Id(id) => PatV::Id(ident_v(id)),
        Pattern::App(id, args, s) => PatV::App(ident_v(id), pats_v(args@), span_v(s)),
        Pattern::Literal(l) => PatV::Literal(lit_v(l)),
    }
}

pub open spec fn pats_v(ps: Seq<Pattern>) -> Seq<PatV>
    decreases ps,
{
    if ps.len() == 0 {
        Seq::empty()
    } else {
        seq![pattern_v(ps[0])] + pats_v(ps.drop_first())
    }
}

/// The image of a type expression.
pub ghost enum TyV {
    Generic(IdentV),
    Id(IdentV),
    App(IdentV, Seq<TyV>, SpanV),
    Tuple(Seq<TyV>, SpanV),
    Func(Box<TyV>, Seq<TyV>, SpanV),
}

pub open spec fn type_v(t: Type) -> TyV
    decreases t,
{
    match t {
        Type::Generic(id) => TyV::Generic(ident_v(id)),
        Type::Id(id) => TyV::Id(ident_v(id)),
        Type::App(id, args, s) => TyV::App(ident_v(id), tys_v(args@), span_v(s)),
        Type::Tuple(tys, s) => TyV::Tuple(tys_v(tys@), span_v(s)),
        Type::Func(dom, cod, s) => TyV::Func(Box::new(type_v(*dom)), tys_v(cod@), span_v(s)),
    }
}

pub open spec fn tys_v(ts: Seq<Type>) -> Seq<TyV>
    decreases ts,
{
    if ts.len() == 0 {
        Seq::empty()
    } else {
        seq![type_v(ts[0])] + tys_v(ts.drop_first())
    }
}

/// The image of an expression, a binding, and the statement forms.
pub ghost enum ExprV {
    Identifier(IdentV),
    PCIdentifier(IdentV),
    App(IdentV, Seq<ExprV>, SpanV),
    Condition(Box<ExprV>, Box<ExprV>, Box<ExprV>, SpanV),
    Let(Seq<BindV>, Box<ExprV>, SpanV),
    Match(Box<ExprV>, Seq<(PatV, ExprV)>, SpanV),
    Literal(LitV),
    BinOp(BinOp, Box<ExprV>, Box<ExprV>, SpanV),
    Lambda(Seq<PatV>, Box<ExprV>, SpanV),
    Ann(Box<ExprV>, TyV, SpanV),
    List(Seq<ExprV>, SpanV),
    Tuple(Seq<ExprV>, SpanV),
}

pub ghost struct BindV {
    pub name: IdentV,
    pub args: Seq<PatV>,
    pub expr: Box<ExprV>,
    pub span: SpanV,
}

pub open spec fn expr_v(e: Expr) -> ExprV
    decreases e,
{
    match e {
        Expr::Identifier { id } => ExprV::Identifier(ident_v(id)),
        Expr::PCIdentifier { id } => ExprV::PCIdentifier(ident_v(id)),
        Expr::App(app) => ExprV::App(ident_v(app.ident), exprs_v(app.args@), span_v(app.span)),
        Expr::Condition { cond, then_branch, els, ann } => ExprV::Condition(
            Box::new(expr_v(*cond)),
            Box::new(expr_v(*then_branch)),
            Box::new(expr_v(*els)),
            span_v(ann),
        ),
        Expr::Let { binds, ret, ann } => ExprV::Let(
            binds_v(binds@),
            Box::new(expr_v(*ret)),
            span_v(ann),
        ),
        Expr::Match { referral, cases, ann } => ExprV::Match(
            Box::new(expr_v(*referral)),
            arms_v(cases@),
            span_v(ann),
        ),
        Expr::Literal(l) => ExprV::Literal(lit_v(l)),
        Expr::BinOp { op, lhs, rhs, ann } => ExprV::BinOp(
            op,
            Box::new(expr_v(*lhs)),
            Box::new(expr_v(*rhs)),
            span_v(ann),
        ),
        Expr::Lambda { args, ret, ann } => ExprV::Lambda(
            pats_v(args@),
            Box::new(expr_v(*ret)),
            span_v(ann),
        ),
        Expr::Ann { expr, ty, ann } => ExprV::Ann(
            Box::new(expr_v(*expr)),
            type_v(ty),
            span_v(ann),
        ),
        Expr::List { list, ann } => ExprV::List(exprs_v(list@), span_v(ann)),
        Expr::Tuple { list, ann } => ExprV::Tuple(exprs_v(list@), span_v(ann)),
    }
}

pub open spec fn exprs_v(es: Seq<Expr>) -> Seq<ExprV>
    decreases es,
{
    if es.len() == 0 {
        Seq::empty()
    } else {
        seq![expr_v(es[0])] + exprs_v(es.drop_first())
    }
}

pub open spec fn bind_v(b: Bind) -> BindV
    decreases b,
{
    BindV {
        name: ident_v(b.name),
        args: pats_v(b.args@),
        expr: Box::new(expr_v(b.expr)),
        span: span_v(b.span),
    }
}

pub open spec fn binds_v(bs: Seq<Bind>) -> Seq<BindV>
    decreases bs,
{
    if bs.len() == 0 {
        Seq::empty()
    } else {
        seq![bind_v(bs[0])] + binds_v(bs.drop_first())
    }
}

pub open spec fn arms_v(cs: Seq<(Pattern, Expr)>) -> Seq<(PatV, ExprV)>
    decreases cs,
{
    if cs.len() == 0 {
        Seq::empty()
    } else {
        seq![(pattern_v(cs[0].0), expr_v(cs[0].1))] + arms_v(cs.drop_first())
    }
}

pub ghost struct VariantV {
    pub id: IdentV,
    pub types: Seq<TyV>,
    pub span: SpanV,
}

pub open spec fn variant_v(v: Variant) -> VariantV {
    VariantV { id: ident_v(v.id), types: tys_v(v.types@), span: span_v(v.span) }
}

pub open spec fn variants_v(vs: Seq<Variant>) -> Seq<VariantV>
    decreases vs,
{
    if vs.len() == 0 {
        Seq::empty()
    } else {
        seq![variant_v(vs[0])] + variants_v(vs.drop_first())
    }
}

pub ghost struct TypeDeclV {
    pub name: IdentV,
    pub typevars: Seq<IdentV>,
    pub variants: Seq<VariantV>,
    pub span: SpanV,
}

pub open spec fn typedecl_v(d: TypeDecl) -> TypeDeclV {
    TypeDeclV {
        name: ident_v(d.name),
        typevars: idents_v(d.typevars@),
        variants: variants_v(d.variants@),
        span: span_v(d.span),
    }
}

pub ghost struct TypeAssignV {
    pub id: IdentV,
    pub ty: TyV,
    pub span: SpanV,
}

pub open spec fn typeassign_v(a: TypeAssign) -> TypeAssignV {
    TypeAssignV { id: ident_v(a.id), ty: type_v(a.ty), span: span_v(a.span) }
}

pub ghost enum StmtV {
    Bind(BindV),
    TypeDecl(TypeDeclV),
    TypeAssign(TypeAssignV),
}

pub open spec fn stmt_v(s: Statement) -> StmtV {
    match s {
        Statement::Bind(b) => StmtV::Bind(bind_v(b)),
        Statement::TypeDecl(d) => StmtV::TypeDecl(typedecl_v(d)),
        Statement::TypeAssign(a) => StmtV::TypeAssign(typeassign_v(a)),
    }
}

pub open spec fn stmts_v(ss: Seq<Statement>) -> Seq<StmtV>
    decreases ss,
{
    if ss.len() == 0 {
        Seq::empty()
    } else {
        seq![stmt_v(ss[0])] + stmts_v(ss.drop_first())
    }
}

pub broadcast proof fn lemma_pats_v_len(s: Seq<Pattern>)
    ensures
        #[trigger] pats_v(s).len() == s.len(),
    decreases s,
{
    if s.len() > 0 {
        lemma_pats_v_len(s.drop_first());
    }
}

pub broadcast proof fn lemma_tys_v_len(s: Seq<Type>)
    ensures
        #[trigger] tys_v(s).len() == s.len(),
    decreases s,
{
    if s.len() > 0 {
        lemma_tys_v_len(s.drop_first());
    }
}

pub broadcast proof fn lemma_exprs_v_len(s: Seq<Expr>)
    ensures
        #[trigger] exprs_v(s).len() == s.len(),
    decreases s,
{
    if s.len() > 0 {
        lemma_exprs_v_len(s.drop_first());
    }
}

pub broadcast proof fn lemma_binds_v_len(s: Seq<Bind>)
    ensures
        #[trigger] binds_v(s).len() == s.len(),
    decreases s,
{
    if s.len() > 0 {
        lemma_binds_v_len(s.drop_first());
    }
}

pub broadcast proof fn lemma_arms_v_len(s: Seq<(Pattern, Expr)>)
    ensures
        #[trigger] arms_v(s).len() == s.len(),
    decreases s,
{
    if s.len() > 0 {
        lemma_arms_v_len(s.drop_first());
    }
}

pub broadcast proof fn lemma_idents_v_len(s: Seq<Identifier>)
    ensures
        #[trigger] idents_v(s).len() == s.len(),
    decreases s,
{
    if s.len() > 0 {
        lemma_idents_v_len(s.drop_first());
    }
}

pub broadcast proof fn lemma_variants_v_len(s: Seq<Variant>)
    ensures
        #[trigger] variants_v(s).len() == s.len(),
    decreases s,
{
    if s.len() > 0 {
        lemma_variants_v_len(s.drop_first());
    }
}

pub broadcast proof fn lemma_stmts_v_len(s: Seq<Statement>)
    ensures
        #[trigger] stmts_v(s).len() == s.len(),
    decreases s,
{
    if s.len() > 0 {
        lemma_stmts_v_len(s.drop_first());
    }
}

// The sequence images commute with appending one element at the end,
// which is how the parser builds its vectors.
pub proof fn lemma_pats_v_push(s: Seq<Pattern>, x: Pattern)
    ensures
        pats_v(s.push(x)) == pats_v(s).push(pattern_v(x)),
    decreases s,
{
    reveal_with_fuel(pats_v, 2);
    if s.len() == 0 {
        assert(s.push(x)[0] == x);
        assert(s.push(x).drop_first() =~= Seq::<Pattern>::empty());
        assert(pats_v(s.push(x)) =~= pats_v(s).push(pattern_v(x)));
    } else {
        assert(s.push(x)[0] == s[0]);
        assert(s.push(x).drop_first() =~= s.drop_first().push(x));
        lemma_pats_v_push(s.drop_first(), x);
        assert(pats_v(s.push(x)) =~= pats_v(s).push(pattern_v(x)));
    }
}

pub proof fn lemma_tys_v_push(s: Seq<Type>, x: Type)
    ensures
        tys_v(s.push(x)) == tys_v(s).push(type_v(x)),
    decreases s,
{
    reveal_with_fuel(tys_v, 2);
    if s.len() == 0 {
        assert(s.push(x)[0] == x);
        assert(s.push(x).drop_first() =~= Seq::<Type>::empty());
        assert(tys_v(s.push(x)) =~= tys_v(s).push(type_v(x)));
    } else {
        assert(s.push(x)[0] == s[0]);
        assert(s.push(x).drop_first() =~= s.drop_first().push(x));
        lemma_tys_v_push(s.drop_first(), x);
        assert(tys_v(s.push(x)) =~= tys_v(s).push(type_v(x)));
    }
}

pub proof fn lemma_exprs_v_push(s: Seq<Expr>, x: Expr)
    ensures
        exprs_v(s.push(x)) == exprs_v(s).push(expr_v(x)),
    decreases s,
{
    reveal_with_fuel(exprs_v, 2);
    if s.len() == 0 {
        assert(s.push(x)[0] == x);
        assert(s.push(x).drop_first() =~= Seq::<Expr>::empty());
        assert(exprs_v(s.push(x)) =~= exprs_v(s).push(expr_v(x)));
    } else {
        assert(s.push(x)[0] == s[0]);
        assert(s.push(x).drop_first() =~= s.drop_first().push(x));
        lemma_exprs_v_push(s.drop_first(), x);
        assert(exprs_v(s.push(x)) =~= exprs_v(s).push(expr_v(x)));
    }
}

pub proof fn lemma_binds_v_push(s: Seq<Bind>, x: Bind)
    ensures
        binds_v(s.push(x)) == binds_v(s).push(bind_v(x)),
    decreases s,
{
    reveal_with_fuel(binds_v, 2);
    if s.len() == 0 {
        assert(s.push(x)[0] == x);
        assert(s.push(x).drop_first() =~= Seq::<Bind>::empty());
        assert(binds_v(s.push(x)) =~= binds_v(s).push(bind_v(x)));
    } else {
        assert(s.push(x)[0] == s[0]);
        assert(s.push(x).drop_first() =~= s.drop_first().push(x));
        lemma_binds_v_push(s.drop_first(), x);
        assert(binds_v(s.push(x)) =~= binds_v(s).push(bind_v(x)));
    }
}

pub proof fn lemma_arms_v_push(s: Seq<(Pattern, Expr)>, x: (Pattern, Expr))
    ensures
        arms_v(s.push(x)) == arms_v(s).push((pattern_v(x.0), expr_v(x.1))),
    decreases s,
{
    reveal_with_fuel(arms_v, 2);
    if s.len() == 0 {
        assert(s.push(x)[0] == x);
        assert(s.push(x).drop_first() =~= Seq::<(Pattern, Expr)>::empty());
        assert(arms_v(s.push(x)) =~= arms_v(s).push((pattern_v(x.0), expr_v(x.1))));
    } else {
        assert(s.push(x)[0] == s[0]);
        assert(s.push(x).drop_first() =~= s.drop_first().push(x));
        lemma_arms_v_push(s.drop_first(), x);
        assert(arms_v(s.push(x)) =~= arms_v(s).push((pattern_v(x.0), expr_v(x.1))));
    }
}

pub proof fn lemma_idents_v_push(s: Seq<Identifier>, x: Identifier)
    ensures
        idents_v(s.push(x)) == idents_v(s).push(ident_v(x)),
    decreases s,
{
    reveal_with_fuel(idents_v, 2);
    if s.len() == 0 {
        assert(s.push(x)[0] == x);
        assert(s.push(x).drop_first() =~= Seq::<Identifier>::empty());
        assert(idents_v(s.push(x)) =~= idents_v(s).push(ident_v(x)));
    } else {
        assert(s.push(x)[0] == s[0]);
        assert(s.push(x).drop_first() =~= s.drop_first().push(x));
        lemma_idents_v_push(s.drop_first(), x);
        assert(idents_v(s.push(x)) =~= idents_v(s).push(ident_v(x)));
    }
}

pub proof fn lemma_variants_v_push(s: Seq<Variant>, x: Variant)
    ensures
        variants_v(s.push(x)) == variants_v(s).push(variant_v(x)),
    decreases s,
{
    reveal_with_fuel(variants_v, 2);
    if s.len() == 0 {
        assert(s.push(x)[0] == x);
        assert(s.push(x).drop_first() =~= Seq::<Variant>::empty());
        assert(variants_v(s.push(x)) =~= variants_v(s).push(variant_v(x)));
    } else {
        assert(s.push(x)[0] == s[0]);
        assert(s.push(x).drop_first() =~= s.drop_first().push(x));
        lemma_variants_v_push(s.drop_first(), x);
        assert(variants_v(s.push(x)) =~= variants_v(s).push(variant_v(x)));
    }
}

pub proof fn lemma_stmts_v_push(s: Seq<Statement>, x: Statement)
    ensures
        stmts_v(s.push(x)) == stmts_v(s).push(stmt_v(x)),
    decreases s,
{
    reveal_with_fuel(stmts_v, 2);
    if s.len() == 0 {
        assert(s.push(x)[0] == x);
        assert(s.push(x).drop_first() =~= Seq::<Statement>::empty());
        assert(stmts_v(s.push(x)) =~= stmts_v(s).push(stmt_v(x)));
    } else {
        assert(s.push(x)[0] == s[0]);
        assert(s.push(x).drop_first() =~= s.drop_first().push(x));
        lemma_stmts_v_push(s.drop_first(), x);
        assert(stmts_v(s.push(x)) =~= stmts_v(s).push(stmt_v(x)));
    }
}


} // verus!
