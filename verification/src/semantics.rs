//! The semantic analyzer: one forward pass over a [`Program`] that fills
//! symbol, type and variant tables and collects every error and warning
//! without ever stopping early.
//!
//! Scoping uses an arena of scopes: entering a binding with parameters, a
//! `let`, a match arm or a non-empty lambda pushes a scope whose parent is
//! the current one; name lookup walks the parent chain.  All tables are
//! plain vectors in insertion order, so the analysis is a pure function of
//! the program: each analyzer function is verified to produce exactly the
//! state that its specification twin (`sp_analyze_*`) describes.

use vstd::prelude::*;
use crate::ast::{Bind, Expr, Pattern, Program, Span, Statement, Type};
use crate::lexer::str_eq;

verus! {

broadcast use vstd::std_specs::vec::group_vec_axioms, vstd::seq::group_seq_axioms;

/// A symbol table key: a name and the scope it was declared in.
#[derive(Debug, PartialEq, Eq)]
pub struct Symbol {
    pub name: String,
    pub scope_id: usize,
}

/// What is known of a declared symbol: its arity, whether it was ever
/// used, and the span of its declaration.
#[derive(Debug, PartialEq, Eq)]
pub struct SymbolData {
    pub arity: usize,
    pub used: bool,
    pub span: Span,
}

/// What is known of a declared algebraic type.
#[derive(Debug, PartialEq, Eq)]
pub struct TypeData {
    pub arity: usize,
    pub used: bool,
    pub span: Span,
}

/// What is known of a declared constructor.
#[derive(Debug, PartialEq, Eq)]
pub struct VariantData {
    pub arity: usize,
    pub used: bool,
    pub span: Span,
}

/// The nine non-fatal semantic error kinds.
#[derive(Debug, PartialEq, Eq)]
pub enum SemanticErrorKind {
    MultipleDeclarations { name: String, span: Span },
    TypeAlreadyDefined { name: String },
    ReservedName { name: String, span: Span },
    WrongArity { expected: usize, found: usize, span: Span },
    AlreadyTypedSymbol { symbol_name: String },
    UndefinedSymbol { symbol_name: String, span: Span },
    UndefinedType { name: String, span: Span },
    NotACallee { name: String, span: Span },
    UndefinedConstructor { constructor_name: String, span: Span },
}

/// A semantic error: its kind and the span of the construct it was found
/// in.
#[derive(Debug, PartialEq, Eq)]
pub struct SemanticError {
    pub kind: SemanticErrorKind,
    pub span: Span,
}

/// The warning kinds, all computed from the tables after the traversal.
#[derive(Debug, Clone, Copy, PartialEq, Eq)]
pub enum SemanticWarningKind {
    UnusedSymbol,
    UnusedType,
    UnusedVariant,
}

/// A warning: its kind and the span of the unused declaration.
#[derive(Debug, PartialEq, Eq)]
pub struct SemanticWarning {
    pub kind: SemanticWarningKind,
    pub span: Span,
}

/// The analyzer's whole state: diagnostics, tables, and the scope arena.
/// `scopes[i]` is the parent of scope `i`; scope `0` is the global scope
/// and its own parent; `scope_id` is the scope currently open.
#[derive(Debug)]
pub struct AnalysisOutput {
    pub errors: Vec<SemanticError>,
    pub warnings: Vec<SemanticWarning>,
    pub symbols: Vec<(Symbol, SymbolData)>,
    pub types: Vec<(String, TypeData)>,
    pub variants: Vec<(String, VariantData)>,
    pub signatures: Vec<String>,
    pub scopes: Vec<usize>,
    pub scope_id: usize,
}

/// The mathematical image of the analyzer state.
pub ghost struct AOView {
    pub errors: Seq<SemanticError>,
    pub warnings: Seq<SemanticWarning>,
    pub symbols: Seq<(Symbol, SymbolData)>,
    pub types: Seq<(String, TypeData)>,
    pub variants: Seq<(String, VariantData)>,
    pub signatures: Seq<String>,
    pub scopes: Seq<usize>,
    pub scope_id: usize,
}

impl View for AnalysisOutput {
    type V = AOView;

    open spec fn view(&self) -> AOView {
        AOView {
            errors: self.errors@,
            warnings: self.warnings@,
            symbols: self.symbols@,
            types: self.types@,
            variants: self.variants@,
            signatures: self.signatures@,
            scopes: self.scopes@,
            scope_id: self.scope_id,
        }
    }
}

impl AOView {
    /// The scope arena is well formed: the global scope exists and is its
    /// own parent, every other scope's parent is a smaller index, and the
    /// current scope is in range.
    pub open spec fn wf(self) -> bool {
        &&& self.scopes.len() >= 1
        &&& self.scopes[0] == 0
        &&& self.scope_id < self.scopes.len()
        &&& forall|i: int| 1 <= i < self.scopes.len() ==> (#[trigger] self.scopes[i]) < i
    }
}

impl AnalysisOutput {
    pub open spec fn wf(self) -> bool {
        self@.wf()
    }
}

/// The builtin reserved names, which can never be redeclared and have
/// implicit arity zero.
pub open spec fn builtin(name: Seq<char>) -> bool {
    ||| name == "Integer"@
    ||| name == "Float"@
    ||| name == "Bool"@
    ||| name == "String"@
    ||| name == "Char"@
    ||| name == "True"@
    ||| name == "False"@
}

/// Decides [`builtin`].
fn is_builtin(name: &str) -> (r: bool)
    ensures
        r == builtin(name@),
{
    str_eq(name, "Integer") || str_eq(name, "Float") || str_eq(name, "Bool") || str_eq(
        name,
        "String",
    ) || str_eq(name, "Char") || str_eq(name, "True") || str_eq(name, "False")
}

// ------------------------------------------------------------------
// Table lookup, in specification and executable form
// ------------------------------------------------------------------
/// First symbol at or after `j` with this name declared in this scope.
pub open spec fn find_sym_from(
    syms: Seq<(Symbol, SymbolData)>,
    name: Seq<char>,
    scope: int,
    j: int,
) -> Option<int>
    decreases syms.len() - j,
{
    if j < 0 || j >= syms.len() {
        None
    } else if syms[j].0.name@ == name && syms[j].0.scope_id == scope {
        Some(j)
    } else {
        find_sym_from(syms, name, scope, j + 1)
    }
}

/// First named entry at or after `j` in a types or variants table.
pub open spec fn find_type_from(tys: Seq<(String, TypeData)>, name: Seq<char>, j: int) -> Option<
    int,
>
    decreases tys.len() - j,
{
    if j < 0 || j >= tys.len() {
        None
    } else if tys[j].0@ == name {
        Some(j)
    } else {
        find_type_from(tys, name, j + 1)
    }
}

pub open spec fn find_variant_from(
    vars: Seq<(String, VariantData)>,
    name: Seq<char>,
    j: int,
) -> Option<int>
    decreases vars.len() - j,
{
    if j < 0 || j >= vars.len() {
        None
    } else if vars[j].0@ == name {
        Some(j)
    } else {
        find_variant_from(vars, name, j + 1)
    }
}

/// Whether a signature for this name was already recorded.
pub open spec fn sig_from(sigs: Seq<String>, name: Seq<char>, j: int) -> bool
    decreases sigs.len() - j,
{
    if j < 0 || j >= sigs.len() {
        false
    } else if sigs[j]@ == name {
        true
    } else {
        sig_from(sigs, name, j + 1)
    }
}

/// Walks the scope parent chain from scope `s` looking for the symbol.
pub open spec fn sp_find_in_chain(ao: AOView, name: Seq<char>, s: int) -> Option<int>
    decreases s,
{
    if s < 0 || s >= ao.scopes.len() {
        None
    } else {
        match find_sym_from(ao.symbols, name, s, 0) {
            Some(i) => Some(i),
            None => if s == 0 {
                None
            } else {
                let p = ao.scopes[s] as int;
                if 0 <= p < s {
                    sp_find_in_chain(ao, name, p)
                } else {
                    None
                }
            },
        }
    }
}

/// Resolves a name from the current scope outward.
pub open spec fn sp_find_identifier(ao: AOView, name: Seq<char>) -> Option<int> {
    sp_find_in_chain(ao, name, ao.scope_id as int)
}

/// The state after marking symbol `i` as used.
pub open spec fn sp_mark_sym_used(ao: AOView, i: int) -> AOView {
    let (sym, data) = ao.symbols[i];
    AOView {
        symbols: ao.symbols.update(
            i,
            (sym, SymbolData { arity: data.arity, used: true, span: data.span }),
        ),
        ..ao
    }
}

/// The state after marking type `i` as used.
pub open spec fn sp_mark_type_used(ao: AOView, i: int) -> AOView {
    let (name, data) = ao.types[i];
    AOView {
        types: ao.types.update(
            i,
            (name, TypeData { arity: data.arity, used: true, span: data.span }),
        ),
        ..ao
    }
}

/// The state after marking constructor `i` as used.
pub open spec fn sp_mark_variant_used(ao: AOView, i: int) -> AOView {
    let (name, data) = ao.variants[i];
    AOView {
        variants: ao.variants.update(
            i,
            (name, VariantData { arity: data.arity, used: true, span: data.span }),
        ),
        ..ao
    }
}

/// The state after opening a fresh scope under the current one.
pub open spec fn sp_enter(ao: AOView) -> AOView {
    AOView { scopes: ao.scopes.push(ao.scope_id), scope_id: ao.scopes.len() as usize, ..ao }
}

/// The state after one error or warning.
pub open spec fn sp_err(ao: AOView, e: SemanticError) -> AOView {
    AOView { errors: ao.errors.push(e), ..ao }
}

impl AnalysisOutput {
    /// A fresh analyzer: empty tables and only the global scope.
    pub fn new() -> (r: AnalysisOutput)
        ensures
            r@ == sp_new(),
            r.wf(),
    {
        let mut scopes: Vec<usize> = Vec::new();
        scopes.push(0);
        let r = AnalysisOutput {
            errors: Vec::new(),
            warnings: Vec::new(),
            symbols: Vec::new(),
            types: Vec::new(),
            variants: Vec::new(),
            signatures: Vec::new(),
            scopes,
            scope_id: 0,
        };
        proof {
            assert(r@.scopes =~= seq![0usize]);
            assert(r@.errors =~= Seq::<SemanticError>::empty());
            assert(r@.warnings =~= Seq::<SemanticWarning>::empty());
            assert(r@.symbols =~= Seq::<(Symbol, SymbolData)>::empty());
            assert(r@.types =~= Seq::<(String, TypeData)>::empty());
            assert(r@.variants =~= Seq::<(String, VariantData)>::empty());
            assert(r@.signatures =~= Seq::<String>::empty());
        }
        r
    }

    /// Looks a symbol name up in a single scope.
    fn find_in_scope(&self, name: &str, scope: usize) -> (r: Option<usize>)
        ensures
            match find_sym_from(self@.symbols, name@, scope as int, 0) {
                Some(i) => r matches Some(j) && j == i && 0 <= i < self@.symbols.len(),
                None => r is None,
            },
    {
        let n = self.symbols.len();
        let mut j: usize = 0;
        while j < n
            invariant
                0 <= j <= n,
                n == self@.symbols.len(),
                find_sym_from(self@.symbols, name@, scope as int, 0) == find_sym_from(
                    self@.symbols,
                    name@,
                    scope as int,
                    j as int,
                ),
            decreases n - j,
        {
            let entry = &self.symbols[j];
            if entry.0.scope_id == scope && str_eq(entry.0.name.as_str(), name) {
                return Some(j);
            }
            j = j + 1;
        }
        None
    }

    /// Looks a type name up in the global type table.
    fn find_type_idx(&self, name: &str) -> (r: Option<usize>)
        ensures
            match find_type_from(self@.types, name@, 0) {
                Some(i) => r matches Some(j) && j == i && 0 <= i < self@.types.len(),
                None => r is None,
            },
    {
        let n = self.types.len();
        let mut j: usize = 0;
        while j < n
            invariant
                0 <= j <= n,
                n == self@.types.len(),
                find_type_from(self@.types, name@, 0) == find_type_from(
                    self@.types,
                    name@,
                    j as int,
                ),
            decreases n - j,
        {
            let entry = &self.types[j];
            if str_eq(entry.0.as_str(), name) {
                return Some(j);
            }
            j = j + 1;
        }
        None
    }

    /// Looks a constructor name up in the global variant table.
    fn find_variant_idx(&self, name: &str) -> (r: Option<usize>)
        ensures
            match find_variant_from(self@.variants, name@, 0) {
                Some(i) => r matches Some(j) && j == i && 0 <= i < self@.variants.len(),
                None => r is None,
            },
    {
        let n = self.variants.len();
        let mut j: usize = 0;
        while j < n
            invariant
                0 <= j <= n,
                n == self@.variants.len(),
                find_variant_from(self@.variants, name@, 0) == find_variant_from(
                    self@.variants,
                    name@,
                    j as int,
                ),
            decreases n - j,
        {
            let entry = &self.variants[j];
            if str_eq(entry.0.as_str(), name) {
                return Some(j);
            }
            j = j + 1;
        }
        None
    }

    /// Whether a signature for this name was already recorded.
    fn has_signature(&self, name: &str) -> (r: bool)
        ensures
            r == sig_from(self@.signatures, name@, 0),
    {
        let n = self.signatures.len();
        let mut j: usize = 0;
        while j < n
            invariant
                0 <= j <= n,
                n == self@.signatures.len(),
                sig_from(self@.signatures, name@, 0) == sig_from(
                    self@.signatures,
                    name@,
                    j as int,
                ),
            decreases n - j,
        {
            if str_eq(self.signatures[j].as_str(), name) {
                return true;
            }
            j = j + 1;
        }
        false
    }

    /// Marks symbol `i` used, leaving everything else as it was.
    fn mark_sym_used(&mut self, i: usize)
        requires
            i < old(self)@.symbols.len(),
        ensures
            final(self)@ == sp_mark_sym_used(old(self)@, i as int),
    {
        let name = self.symbols[i].0.name.clone();
        let scope_id = self.symbols[i].0.scope_id;
        let arity = self.symbols[i].1.arity;
        let span = self.symbols[i].1.span.duplicate();
        self.symbols.set(i, (Symbol { name, scope_id }, SymbolData { arity, used: true, span }));
    }

    /// Marks type `i` used.
    fn mark_type_used(&mut self, i: usize)
        requires
            i < old(self)@.types.len(),
        ensures
            final(self)@ == sp_mark_type_used(old(self)@, i as int),
    {
        let name = self.types[i].0.clone();
        let arity = self.types[i].1.arity;
        let span = self.types[i].1.span.duplicate();
        self.types.set(i, (name, TypeData { arity, used: true, span }));
    }

    /// Marks constructor `i` used.
    fn mark_variant_used(&mut self, i: usize)
        requires
            i < old(self)@.variants.len(),
        ensures
            final(self)@ == sp_mark_variant_used(old(self)@, i as int),
    {
        let name = self.variants[i].0.clone();
        let arity = self.variants[i].1.arity;
        let span = self.variants[i].1.span.duplicate();
        self.variants.set(i, (name, VariantData { arity, used: true, span }));
    }

    /// Resolves a name from the current scope outward and marks the found
    /// symbol used.
    fn find_identifier(&mut self, name: &str) -> (r: Option<usize>)
        requires
            old(self).wf(),
        ensures
            final(self).wf(),
            match sp_find_identifier(old(self)@, name@) {
                Some(i) => r matches Some(j) && j == i && final(self)@ == sp_mark_sym_used(
                    old(self)@,
                    i,
                ) && 0 <= i < final(self)@.symbols.len() && final(self)@.symbols.len() == old(
                    self,
                )@.symbols.len() && final(self)@.symbols[i].1.arity == old(
                    self,
                )@.symbols[i].1.arity,
                None => r is None && final(self)@ == old(self)@,
            },
    {
        let mut s: usize = self.scope_id;
        loop
            invariant
                self.wf(),
                self@ == old(self)@,
                s < self@.scopes.len(),
                sp_find_in_chain(self@, name@, self.scope_id as int) == sp_find_in_chain(
                    self@,
                    name@,
                    s as int,
                ),
            decreases s,
        {
            match self.find_in_scope(name, s) {
                Some(i) => {
                    self.mark_sym_used(i);
                    return Some(i);
                },
                None => {
                    if s == 0 {
                        return None;
                    }
                    let p = self.scopes[s];
                    s = p;
                },
            }
        }
    }

    /// Opens a fresh scope whose parent is the current one.
    fn enter_scope(&mut self)
        requires
            old(self).wf(),
        ensures
            final(self).wf(),
            final(self)@ == sp_enter(old(self)@),
    {
        let sid = self.scopes.len();
        let parent = self.scope_id;
        self.scopes.push(parent);
        self.scope_id = sid;
    }
}

// ------------------------------------------------------------------
// The specification of the analysis: one function per construct, each
// the mathematical twin of the executable analyzer below it.
// ------------------------------------------------------------------
/// Analyzing `name pat* = expr`: register the symbol in the current scope
/// (a duplicate nullary binding is an error), then analyze the parameters
/// and body in a fresh scope if there are parameters.
pub open spec fn sp_analyze_bind(ao: AOView, b: Bind) -> AOView
    decreases b,
{
    let namev = b.name.name@;
    let scope = ao.scope_id;
    let some_args = b.args@.len() != 0;
    let ao1 = if !some_args {
        if find_sym_from(ao.symbols, namev, scope as int, 0) is None {
            AOView {
                symbols: ao.symbols.push(
                    (
                        Symbol { name: b.name.name, scope_id: scope },
                        SymbolData { arity: 0, used: false, span: b.name.span },
                    ),
                ),
                ..ao
            }
        } else {
            sp_err(
                ao,
                SemanticError {
                    kind: SemanticErrorKind::MultipleDeclarations {
                        name: b.name.name,
                        span: b.name.span,
                    },
                    span: b.span,
                },
            )
        }
    } else if find_sym_from(ao.symbols, namev, scope as int, 0) is None {
        AOView {
            symbols: ao.symbols.push(
                (
                    Symbol { name: b.name.name, scope_id: scope },
                    SymbolData { arity: b.args@.len() as usize, used: false, span: b.name.span },
                ),
            ),
            ..ao
        }
    } else {
        ao
    };
    let ao2 = if some_args {
        sp_analyze_patterns(sp_enter(ao1), b.args@, b.span)
    } else {
        ao1
    };
    let ao3 = sp_analyze_expr(ao2, b.expr, b.span);
    if some_args {
        AOView { scope_id: ao.scope_id, ..ao3 }
    } else {
        ao3
    }
}

pub open spec fn sp_analyze_binds(ao: AOView, binds: Seq<Bind>) -> AOView
    decreases binds,
{
    if binds.len() == 0 {
        ao
    } else {
        sp_analyze_binds(sp_analyze_bind(ao, binds[0]), binds.drop_first())
    }
}

/// Analyzing one statement.
pub open spec fn sp_analyze_statement(ao: AOView, s: Statement) -> AOView
    decreases s,
{
    match s {
        Statement::Bind(b) => sp_analyze_bind(ao, b),
        Statement::TypeDecl(d) => {
            let ao1 = match find_type_from(ao.types, d.name.name@, 0) {
                None => if !builtin(d.name.name@) {
                    AOView {
                        types: ao.types.push(
                            (
                                d.name.name,
                                TypeData {
                                    arity: d.typevars@.len() as usize,
                                    used: false,
                                    span: d.name.span,
                                },
                            ),
                        ),
                        ..ao
                    }
                } else {
                    sp_err(
                        ao,
                        SemanticError {
                            kind: SemanticErrorKind::ReservedName {
                                name: d.name.name,
                                span: d.name.span,
                            },
                            span: d.span,
                        },
                    )
                },
                Some(_) => sp_err(
                    ao,
                    SemanticError {
                        kind: SemanticErrorKind::TypeAlreadyDefined { name: d.name.name },
                        span: d.span,
                    },
                ),
            };
            sp_register_variants(ao1, d.variants@, d.span)
        },
        Statement::TypeAssign(a) => {
            let ao1 = if !sig_from(ao.signatures, a.id.name@, 0) {
                AOView { signatures: ao.signatures.push(a.id.name), ..ao }
            } else {
                sp_err(
                    ao,
                    SemanticError {
                        kind: SemanticErrorKind::AlreadyTypedSymbol { symbol_name: a.id.name },
                        span: a.span,
                    },
                )
            };
            sp_analyze_type(ao1, a.ty, a.span)
        },
    }
}

pub open spec fn sp_analyze_statements(ao: AOView, stmts: Seq<Statement>) -> AOView
    decreases stmts,
{
    if stmts.len() == 0 {
        ao
    } else {
        sp_analyze_statements(sp_analyze_statement(ao, stmts[0]), stmts.drop_first())
    }
}

/// Registering the variants of a type declaration: each constructor name
/// must be globally fresh and not a builtin; its field types are analyzed.
pub open spec fn sp_register_variants(ao: AOView, vs: Seq<crate::ast::Variant>, ctx: Span) -> AOView
    decreases vs,
{
    if vs.len() == 0 {
        ao
    } else {
        let v = vs[0];
        let ao1 = match find_variant_from(ao.variants, v.id.name@, 0) {
            None => if !builtin(v.id.name@) {
                AOView {
                    variants: ao.variants.push(
                        (
                            v.id.name,
                            VariantData {
                                arity: v.types@.len() as usize,
                                used: false,
                                span: v.id.span,
                            },
                        ),
                    ),
                    ..ao
                }
            } else {
                sp_err(
                    ao,
                    SemanticError {
                        kind: SemanticErrorKind::ReservedName { name: v.id.name, span: v.id.span },
                        span: ctx,
                    },
                )
            },
            Some(_) => sp_err(
                ao,
                SemanticError {
                    kind: SemanticErrorKind::MultipleDeclarations {
                        name: v.id.name,
                        span: v.id.span,
                    },
                    span: ctx,
                },
            ),
        };
        let ao2 = sp_analyze_types(ao1, v.types@, ctx);
        sp_register_variants(ao2, vs.drop_first(), ctx)
    }
}

/// Analyzing one expression under the span of its enclosing construct.
pub open spec fn sp_analyze_expr(ao: AOView, e: Expr, ctx: Span) -> AOView
    decreases e,
{
    match e {
        Expr::Identifier { id } => match sp_find_identifier(ao, id.name@) {
            Some(i) => {
                let arity = ao.symbols[i].1.arity;
                let ao1 = sp_mark_sym_used(ao, i);
                if arity != 0 {
                    sp_err(
                        ao1,
                        SemanticError {
                            kind: SemanticErrorKind::WrongArity {
                                expected: arity,
                                found: 0,
                                span: id.span,
                            },
                            span: ctx,
                        },
                    )
                } else {
                    ao1
                }
            },
            None => sp_err(
                ao,
                SemanticError {
                    kind: SemanticErrorKind::UndefinedSymbol {
                        symbol_name: id.name,
                        span: id.span,
                    },
                    span: ctx,
                },
            ),
        },
        Expr::PCIdentifier { id } => match find_variant_from(ao.variants, id.name@, 0) {
            Some(i) => {
                let arity = ao.variants[i].1.arity;
                let ao1 = if arity != 0 {
                    sp_err(
                        ao,
                        SemanticError {
                            kind: SemanticErrorKind::WrongArity {
                                expected: arity,
                                found: 0,
                                span: id.span,
                            },
                            span: ctx,
                        },
                    )
                } else {
                    ao
                };
                sp_mark_variant_used(ao1, i)
            },
            None => sp_err(
                ao,
                SemanticError {
                    kind: SemanticErrorKind::UndefinedConstructor {
                        constructor_name: id.name,
                        span: id.span,
                    },
                    span: ctx,
                },
            ),
        },
        Expr::App(app) => {
            let lower = app.ident.name@.len() > 0 && crate::lexer::is_lower(app.ident.name@[0]);
            let ao1 = if lower {
                match sp_find_identifier(ao, app.ident.name@) {
                    Some(i) => {
                        let arity = ao.symbols[i].1.arity;
                        let a2 = sp_mark_sym_used(ao, i);
                        if arity != app.args@.len() {
                            sp_err(
                                a2,
                                SemanticError {
                                    kind: SemanticErrorKind::WrongArity {
                                        expected: arity,
                                        found: app.args@.len() as usize,
                                        span: app.span,
                                    },
                                    span: ctx,
                                },
                            )
                        } else {
                            a2
                        }
                    },
                    None => sp_err(
                        ao,
                        SemanticError {
                            kind: SemanticErrorKind::UndefinedSymbol {
                                symbol_name: app.ident.name,
                                span: app.ident.span,
                            },
                            span: ctx,
                        },
                    ),
                }
            } else {
                match find_variant_from(ao.variants, app.ident.name@, 0) {
                    Some(i) => {
                        let arity = ao.variants[i].1.arity;
                        let a2 = sp_mark_variant_used(ao, i);
                        if arity != app.args@.len() {
                            sp_err(
                                a2,
                                SemanticError {
                                    kind: SemanticErrorKind::WrongArity {
                                        expected: arity,
                                        found: app.args@.len() as usize,
                                        span: app.span,
                                    },
                                    span: ctx,
                                },
                            )
                        } else {
                            a2
                        }
                    },
                    None => sp_err(
                        ao,
                        SemanticError {
                            kind: SemanticErrorKind::NotACallee {
                                name: app.ident.name,
                                span: app.span,
                            },
                            span: ctx,
                        },
                    ),
                }
            };
            sp_analyze_exprs(ao1, app.args@, ctx)
        },
        Expr::Condition { cond, then_branch, els, ann } => {
            let a1 = sp_analyze_expr(ao, *cond, ann);
            let a2 = sp_analyze_expr(a1, *then_branch, ann);
            sp_analyze_expr(a2, *els, ann)
        },
        Expr::Let { binds, ret, ann } => {
            let a1 = sp_analyze_binds(sp_enter(ao), binds@);
            let a2 = sp_analyze_expr(a1, *ret, ann);
            AOView { scope_id: ao.scope_id, ..a2 }
        },
        Expr::Match { referral, cases, ann } => {
            let a1 = sp_analyze_expr(ao, *referral, ctx);
            sp_analyze_arms(a1, cases@, ctx)
        },
        Expr::Literal(_) => ao,
        Expr::BinOp { op, lhs, rhs, ann } => {
            let a1 = sp_analyze_expr(ao, *lhs, ctx);
            sp_analyze_expr(a1, *rhs, ctx)
        },
        Expr::Lambda { args, ret, ann } => {
            if args@.len() != 0 {
                let a1 = sp_analyze_patterns(sp_enter(ao), args@, ctx);
                let a2 = sp_analyze_expr(a1, *ret, ctx);
                AOView { scope_id: ao.scope_id, ..a2 }
            } else {
                sp_analyze_expr(ao, *ret, ctx)
            }
        },
        Expr::Ann { expr, ty, ann } => {
            let a1 = sp_analyze_expr(ao, *expr, ctx);
            sp_analyze_type(a1, ty, ctx)
        },
        Expr::List { list, ann } => sp_analyze_exprs(ao, list@, ctx),
        Expr::Tuple { list, ann } => sp_analyze_exprs(ao, list@, ctx),
    }
}

pub open spec fn sp_analyze_exprs(ao: AOView, es: Seq<Expr>, ctx: Span) -> AOView
    decreases es,
{
    if es.len() == 0 {
        ao
    } else {
        sp_analyze_exprs(sp_analyze_expr(ao, es[0], ctx), es.drop_first(), ctx)
    }
}

/// Each match arm opens its own scope: bindings in one arm are invisible
/// to the others.
pub open spec fn sp_analyze_arms(ao: AOView, cases: Seq<(Pattern, Expr)>, ctx: Span) -> AOView
    decreases cases,
{
    if cases.len() == 0 {
        ao
    } else {
        let a1 = sp_analyze_pattern(sp_enter(ao), cases[0].0, ctx);
        let a2 = sp_analyze_expr(a1, cases[0].1, ctx);
        let a3 = AOView { scope_id: ao.scope_id, ..a2 };
        sp_analyze_arms(a3, cases.drop_first(), ctx)
    }
}

/// Analyzing one pattern: a variable binds a fresh arity-zero symbol in
/// the current scope; constructor patterns are checked against the global
/// variant table.
pub open spec fn sp_analyze_pattern(ao: AOView, p: Pattern, ctx: Span) -> AOView
    decreases p,
{
    match p {
        Pattern::Variable(id) => {
            if find_sym_from(ao.symbols, id.name@, ao.scope_id as int, 0) is None {
                AOView {
                    symbols: ao.symbols.push(
                        (
                            Symbol { name: id.name, scope_id: ao.scope_id },
                            SymbolData { arity: 0, used: false, span: id.span },
                        ),
                    ),
                    ..ao
                }
            } else {
                sp_err(
                    ao,
                    SemanticError {
                        kind: SemanticErrorKind::MultipleDeclarations {
                            name: id.name,
                            span: id.span,
                        },
                        span: ctx,
                    },
                )
            }
        },
        Pattern::ListCons(lhs, rhs, _) => {
            let a1 = sp_analyze_pattern(ao, *lhs, ctx);
            sp_analyze_pattern(a1, *rhs, ctx)
        },
        Pattern::App(id, pats, _) => match find_variant_from(ao.variants, id.name@, 0) {
            Some(i) => {
                let arity = ao.variants[i].1.arity;
                let a1 = sp_mark_variant_used(ao, i);
                if arity != pats@.len() {
                    sp_err(
                        a1,
                        SemanticError {
                            kind: SemanticErrorKind::WrongArity {
                                expected: arity,
                                found: pats@.len() as usize,
                                span: id.span,
                            },
                            span: ctx,
                        },
                    )
                } else {
                    a1
                }
            },
            None => sp_err(
                ao,
                SemanticError {
                    kind: SemanticErrorKind::UndefinedConstructor {
                        constructor_name: id.name,
                        span: id.span,
                    },
                    span: ctx,
                },
            ),
        },
        Pattern::Id(id) => match find_variant_from(ao.variants, id.name@, 0) {
            Some(i) => {
                let arity = ao.variants[i].1.arity;
                if arity != 0 {
                    sp_err(
                        ao,
                        SemanticError {
                            kind: SemanticErrorKind::WrongArity {
                                expected: arity,
                                found: 0,
                                span: id.span,
                            },
                            span: ctx,
                        },
                    )
                } else {
                    ao
                }
            },
            None => sp_err(
                ao,
                SemanticError {
                    kind: SemanticErrorKind::UndefinedConstructor {
                        constructor_name: id.name,
                        span: id.span,
                    },
                    span: ctx,
                },
            ),
        },
        Pattern::Wildcard(_) => ao,
        Pattern::Literal(_) => ao,
    }
}

pub open spec fn sp_analyze_patterns(ao: AOView, ps: Seq<Pattern>, ctx: Span) -> AOView
    decreases ps,
{
    if ps.len() == 0 {
        ao
    } else {
        sp_analyze_patterns(sp_analyze_pattern(ao, ps[0], ctx), ps.drop_first(), ctx)
    }
}

/// Analyzing one type expression against the global type table.  Builtins
/// have implicit arity zero, so applying one to arguments is always an
/// arity error.
pub open spec fn sp_analyze_type(ao: AOView, t: Type, ctx: Span) -> AOView
    decreases t,
{
    match t {
        Type::Generic(_) => ao,
        Type::Id(id) => {
            if builtin(id.name@) {
                ao
            } else {
                match find_type_from(ao.types, id.name@, 0) {
                    Some(i) => {
                        let arity = ao.types[i].1.arity;
                        let a1 = sp_mark_type_used(ao, i);
                        if arity != 0 {
                            sp_err(
                                a1,
                                SemanticError {
                                    kind: SemanticErrorKind::WrongArity {
                                        expected: arity,
                                        found: 0,
                                        span: id.span,
                                    },
                                    span: ctx,
                                },
                            )
                        } else {
                            a1
                        }
                    },
                    None => sp_err(
                        ao,
                        SemanticError {
                            kind: SemanticErrorKind::UndefinedType { name: id.name, span: id.span },
                            span: ctx,
                        },
                    ),
                }
            }
        },
        Type::App(id, tys, span) => {
            if builtin(id.name@) {
                sp_err(
                    ao,
                    SemanticError {
                        kind: SemanticErrorKind::WrongArity {
                            expected: 0,
                            found: tys@.len() as usize,
                            span,
                        },
                        span: ctx,
                    },
                )
            } else {
                match find_type_from(ao.types, id.name@, 0) {
                    Some(i) => {
                        let arity = ao.types[i].1.arity;
                        let a1 = sp_mark_type_used(ao, i);
                        if tys@.len() != arity {
                            sp_err(
                                a1,
                                SemanticError {
                                    kind: SemanticErrorKind::WrongArity {
                                        expected: arity,
                                        found: tys@.len() as usize,
                                        span: id.span,
                                    },
                                    span: ctx,
                                },
                            )
                        } else {
                            a1
                        }
                    },
                    None => sp_err(
                        ao,
                        SemanticError {
                            kind: SemanticErrorKind::UndefinedType { name: id.name, span: id.span },
                            span: ctx,
                        },
                    ),
                }
            }
        },
        Type::Tuple(tys, _) => sp_analyze_types(ao, tys@, ctx),
        Type::Func(ret, args, _) => {
            let a1 = sp_analyze_types(ao, args@, ctx);
            sp_analyze_type(a1, *ret, ctx)
        },
    }
}

pub open spec fn sp_analyze_types(ao: AOView, ts: Seq<Type>, ctx: Span) -> AOView
    decreases ts,
{
    if ts.len() == 0 {
        ao
    } else {
        sp_analyze_types(sp_analyze_type(ao, ts[0], ctx), ts.drop_first(), ctx)
    }
}

// ------------------------------------------------------------------
// The final pass: a warning for every table entry never used.
// ------------------------------------------------------------------
pub open spec fn sp_sym_warnings(syms: Seq<(Symbol, SymbolData)>, j: int) -> Seq<SemanticWarning>
    decreases syms.len() - j,
{
    if j < 0 || j >= syms.len() {
        Seq::empty()
    } else {
        (if !syms[j].1.used {
            seq![SemanticWarning { kind: SemanticWarningKind::UnusedSymbol, span: syms[j].1.span }]
        } else {
            Seq::empty()
        }) + sp_sym_warnings(syms, j + 1)
    }
}

pub open spec fn sp_type_warnings(tys: Seq<(String, TypeData)>, j: int) -> Seq<SemanticWarning>
    decreases tys.len() - j,
{
    if j < 0 || j >= tys.len() {
        Seq::empty()
    } else {
        (if !tys[j].1.used {
            seq![SemanticWarning { kind: SemanticWarningKind::UnusedType, span: tys[j].1.span }]
        } else {
            Seq::empty()
        }) + sp_type_warnings(tys, j + 1)
    }
}

pub open spec fn sp_variant_warnings(vars: Seq<(String, VariantData)>, j: int) -> Seq<
    SemanticWarning,
>
    decreases vars.len() - j,
{
    if j < 0 || j >= vars.len() {
        Seq::empty()
    } else {
        (if !vars[j].1.used {
            seq![SemanticWarning { kind: SemanticWarningKind::UnusedVariant, span: vars[j].1.span }]
        } else {
            Seq::empty()
        }) + sp_variant_warnings(vars, j + 1)
    }
}

/// The whole analysis: every statement in order, then the unused-entry
/// warnings, in table order.
pub open spec fn sp_analyze(ao: AOView, p: Program) -> AOView {
    let a1 = sp_analyze_statements(ao, p.statements@);
    AOView {
        warnings: a1.warnings + sp_sym_warnings(a1.symbols, 0) + sp_type_warnings(a1.types, 0)
            + sp_variant_warnings(a1.variants, 0),
        ..a1
    }
}

/// Analysis is deterministic: it depends on nothing but the analyzer
/// state and the program.  Together with the contract of [`analyze`] —
/// whose final state is exactly [`sp_analyze`] of its inputs — this says
/// that re-running the analyzer on the same `Program` from equal states
/// yields identical errors and warnings.
pub proof fn lemma_analysis_deterministic(a: AOView, b: AOView, p: Program)
    requires
        a == b,
    ensures
        sp_analyze(a, p) == sp_analyze(b, p),
{
}

/// The view of a fresh analyzer.
pub open spec fn sp_new() -> AOView {
    AOView {
        errors: Seq::empty(),
        warnings: Seq::empty(),
        symbols: Seq::empty(),
        types: Seq::empty(),
        variants: Seq::empty(),
        signatures: Seq::empty(),
        scopes: seq![0usize],
        scope_id: 0,
    }
}

// ------------------------------------------------------------------
// The executable analyzer, each function proved equal to its twin.
// ------------------------------------------------------------------
impl AnalysisOutput {
    /// Analyzes one binding as [`sp_analyze_bind`] describes.
    #[verifier::loop_isolation(false)]
    #[verifier::rlimit(100)]
    fn analyze_bind(&mut self, b: &Bind)
        requires
            old(self).wf(),
        ensures
            final(self).wf(),
            final(self)@ == sp_analyze_bind(old(self)@, *b),
            final(self)@.scopes.len() >= old(self)@.scopes.len(),
        decreases *b,
    {
        let some_args = b.args.len() != 0;
        let scope = self.scope_id;
        let found = self.find_in_scope(b.name.name.as_str(), scope);
        if !some_args {
            match found {
                None => {
                    let sym = Symbol { name: b.name.name.clone(), scope_id: scope };
                    let data = SymbolData { arity: 0, used: false, span: b.name.span.duplicate() };
                    self.symbols.push((sym, data));
                },
                Some(_) => {
                    let e = SemanticError {
                        kind: SemanticErrorKind::MultipleDeclarations {
                            name: b.name.name.clone(),
                            span: b.name.span.duplicate(),
                        },
                        span: b.span.duplicate(),
                    };
                    self.errors.push(e);
                },
            }
        } else {
            match found {
                None => {
                    let sym = Symbol { name: b.name.name.clone(), scope_id: scope };
                    let data = SymbolData {
                        arity: b.args.len(),
                        used: false,
                        span: b.name.span.duplicate(),
                    };
                    self.symbols.push((sym, data));
                },
                Some(_) => {},
            }
        }
        let saved = self.scope_id;
        if some_args {
            self.enter_scope();
            let ghost venter = self@;
            let n = b.args.len();
                proof {
                    assert(b.args@.skip(0) =~= b.args@);
                }
                let mut j: usize = 0;
            while j < n
                invariant
                    self.wf(),
                    0 <= j <= n,
                    n == b.args@.len(),
                    self@.scopes.len() >= venter.scopes.len(),
                    sp_analyze_patterns(venter, b.args@, b.span) == sp_analyze_patterns(
                        self@,
                        b.args@.skip(j as int),
                        b.span,
                    ),
                decreases n - j,
            {
                proof {
                    assert(b.args@.skip(j as int)[0] == b.args@[j as int]);
                }
                self.analyze_pattern(&b.args[j], &b.span);
                proof {
                    assert(b.args@.skip(j as int).drop_first() =~= b.args@.skip(j as int + 1));
                }
                j = j + 1;
            }
            proof {
                assert(b.args@.skip(n as int) =~= Seq::<Pattern>::empty());
            }
        }
        self.analyze_expr(&b.expr, &b.span);
        if some_args {
            self.scope_id = saved;
        }
    }

    /// Analyzes one statement as [`sp_analyze_statement`] describes.
    #[verifier::loop_isolation(false)]
    #[verifier::rlimit(100)]
    pub fn analyze_statement(&mut self, statement: &Statement)
        requires
            old(self).wf(),
        ensures
            final(self).wf(),
            final(self)@ == sp_analyze_statement(old(self)@, *statement),
            final(self)@.scopes.len() >= old(self)@.scopes.len(),
        decreases *statement,
    {
        match statement {
            Statement::Bind(b) => {
                self.analyze_bind(b);
            },
            Statement::TypeDecl(d) => {
                match self.find_type_idx(d.name.name.as_str()) {
                    None => {
                        if !is_builtin(d.name.name.as_str()) {
                            let data = TypeData {
                                arity: d.typevars.len(),
                                used: false,
                                span: d.name.span.duplicate(),
                            };
                            self.types.push((d.name.name.clone(), data));
                        } else {
                            let e = SemanticError {
                                kind: SemanticErrorKind::ReservedName {
                                    name: d.name.name.clone(),
                                    span: d.name.span.duplicate(),
                                },
                                span: d.span.duplicate(),
                            };
                            self.errors.push(e);
                        }
                    },
                    Some(_) => {
                        let e = SemanticError {
                            kind: SemanticErrorKind::TypeAlreadyDefined {
                                name: d.name.name.clone(),
                            },
                            span: d.span.duplicate(),
                        };
                        self.errors.push(e);
                    },
                }
                let ghost v0 = self@;
                let n = d.variants.len();
                proof {
                    assert(d.variants@.skip(0) =~= d.variants@);
                }
                let mut j: usize = 0;
                while j < n
                    invariant
                        self.wf(),
                        0 <= j <= n,
                        n == d.variants@.len(),
                        self@.scopes.len() >= v0.scopes.len(),
                        sp_register_variants(v0, d.variants@, d.span) == sp_register_variants(
                            self@,
                            d.variants@.skip(j as int),
                            d.span,
                        ),
                    decreases n - j,
                {
                    proof {
                        assert(d.variants@.skip(j as int)[0] == d.variants@[j as int]);
                    }
                    let v = &d.variants[j];
                    match self.find_variant_idx(v.id.name.as_str()) {
                        None => {
                            if !is_builtin(v.id.name.as_str()) {
                                let data = VariantData {
                                    arity: v.types.len(),
                                    used: false,
                                    span: v.id.span.duplicate(),
                                };
                                self.variants.push((v.id.name.clone(), data));
                            } else {
                                let e = SemanticError {
                                    kind: SemanticErrorKind::ReservedName {
                                        name: v.id.name.clone(),
                                        span: v.id.span.duplicate(),
                                    },
                                    span: d.span.duplicate(),
                                };
                                self.errors.push(e);
                            }
                        },
                        Some(_) => {
                            let e = SemanticError {
                                kind: SemanticErrorKind::MultipleDeclarations {
                                    name: v.id.name.clone(),
                                    span: v.id.span.duplicate(),
                                },
                                span: d.span.duplicate(),
                            };
                            self.errors.push(e);
                        },
                    }
                    let ghost v1 = self@;
                    let m = v.types.len();
                proof {
                    assert(v.types@.skip(0) =~= v.types@);
                }
                let mut k: usize = 0;
                    while k < m
                        invariant
                            self.wf(),
                            0 <= k <= m,
                            m == v.types@.len(),
                            self@.scopes.len() >= v1.scopes.len(),
                            sp_analyze_types(v1, v.types@, d.span) == sp_analyze_types(
                                self@,
                                v.types@.skip(k as int),
                                d.span,
                            ),
                        decreases m - k,
                    {
                        proof {
                            assert(v.types@.skip(k as int)[0] == v.types@[k as int]);
                        }
                        self.analyze_type(&v.types[k], &d.span);
                        proof {
                            assert(v.types@.skip(k as int).drop_first() =~= v.types@.skip(
                                k as int + 1,
                            ));
                        }
                        k = k + 1;
                    }
                    proof {
                        assert(v.types@.skip(m as int) =~= Seq::<Type>::empty());
                        assert(d.variants@.skip(j as int).drop_first() =~= d.variants@.skip(
                            j as int + 1,
                        ));
                    }
                    j = j + 1;
                }
                proof {
                    assert(d.variants@.skip(n as int) =~= Seq::<crate::ast::Variant>::empty());
                }
            },
            Statement::TypeAssign(a) => {
                if !self.has_signature(a.id.name.as_str()) {
                    self.signatures.push(a.id.name.clone());
                } else {
                    let e = SemanticError {
                        kind: SemanticErrorKind::AlreadyTypedSymbol {
                            symbol_name: a.id.name.clone(),
                        },
                        span: a.span.duplicate(),
                    };
                    self.errors.push(e);
                }
                self.analyze_type(&a.ty, &a.span);
            },
        }
    }

    /// Analyzes one expression as [`sp_analyze_expr`] describes.
    #[verifier::loop_isolation(false)]
    #[verifier::rlimit(100)]
    pub fn analyze_expr(&mut self, expr: &Expr, span_context: &Span)
        requires
            old(self).wf(),
        ensures
            final(self).wf(),
            final(self)@ == sp_analyze_expr(old(self)@, *expr, *span_context),
            final(self)@.scopes.len() >= old(self)@.scopes.len(),
        decreases *expr,
    {
        match expr {
            Expr::Identifier { id } => {
                match self.find_identifier(id.name.as_str()) {
                    Some(i) => {
                        let arity = self.symbols[i].1.arity;
                        if arity != 0 {
                            let e = SemanticError {
                                kind: SemanticErrorKind::WrongArity {
                                    expected: arity,
                                    found: 0,
                                    span: id.span.duplicate(),
                                },
                                span: span_context.duplicate(),
                            };
                            self.errors.push(e);
                        }
                    },
                    None => {
                        let e = SemanticError {
                            kind: SemanticErrorKind::UndefinedSymbol {
                                symbol_name: id.name.clone(),
                                span: id.span.duplicate(),
                            },
                            span: span_context.duplicate(),
                        };
                        self.errors.push(e);
                    },
                }
            },
            Expr::PCIdentifier { id } => {
                match self.find_variant_idx(id.name.as_str()) {
                    Some(i) => {
                        let arity = self.variants[i].1.arity;
                        if arity != 0 {
                            let e = SemanticError {
                                kind: SemanticErrorKind::WrongArity {
                                    expected: arity,
                                    found: 0,
                                    span: id.span.duplicate(),
                                },
                                span: span_context.duplicate(),
                            };
                            self.errors.push(e);
                        }
                        self.mark_variant_used(i);
                    },
                    None => {
                        let e = SemanticError {
                            kind: SemanticErrorKind::UndefinedConstructor {
                                constructor_name: id.name.clone(),
                                span: id.span.duplicate(),
                            },
                            span: span_context.duplicate(),
                        };
                        self.errors.push(e);
                    },
                }
            },
            Expr::App(app) => {
                let nm = app.ident.name.as_str();
                let lower = nm.unicode_len() > 0 && crate::lexer::lower_c(nm.get_char(0));
                if lower {
                    match self.find_identifier(nm) {
                        Some(i) => {
                            let arity = self.symbols[i].1.arity;
                            if arity != app.args.len() {
                                let e = SemanticError {
                                    kind: SemanticErrorKind::WrongArity {
                                        expected: arity,
                                        found: app.args.len(),
                                        span: app.span.duplicate(),
                                    },
                                    span: span_context.duplicate(),
                                };
                                self.errors.push(e);
                            }
                        },
                        None => {
                            let e = SemanticError {
                                kind: SemanticErrorKind::UndefinedSymbol {
                                    symbol_name: app.ident.name.clone(),
                                    span: app.ident.span.duplicate(),
                                },
                                span: span_context.duplicate(),
                            };
                            self.errors.push(e);
                        },
                    }
                } else {
                    match self.find_variant_idx(nm) {
                        Some(i) => {
                            let arity = self.variants[i].1.arity;
                            self.mark_variant_used(i);
                            if arity != app.args.len() {
                                let e = SemanticError {
                                    kind: SemanticErrorKind::WrongArity {
                                        expected: arity,
                                        found: app.args.len(),
                                        span: app.span.duplicate(),
                                    },
                                    span: span_context.duplicate(),
                                };
                                self.errors.push(e);
                            }
                        },
                        None => {
                            let e = SemanticError {
                                kind: SemanticErrorKind::NotACallee {
                                    name: app.ident.name.clone(),
                                    span: app.span.duplicate(),
                                },
                                span: span_context.duplicate(),
                            };
                            self.errors.push(e);
                        },
                    }
                }
                let ghost v0 = self@;
                let n = app.args.len();
                proof {
                    assert(app.args@.skip(0) =~= app.args@);
                }
                let mut j: usize = 0;
                while j < n
                    invariant
                        self.wf(),
                        0 <= j <= n,
                        n == app.args@.len(),
                        self@.scopes.len() >= v0.scopes.len(),
                        sp_analyze_exprs(v0, app.args@, *span_context) == sp_analyze_exprs(
                            self@,
                            app.args@.skip(j as int),
                            *span_context,
                        ),
                    decreases n - j,
                {
                    proof {
                        assert(app.args@.skip(j as int)[0] == app.args@[j as int]);
                    }
                    self.analyze_expr(&app.args[j], span_context);
                    proof {
                        assert(app.args@.skip(j as int).drop_first() =~= app.args@.skip(
                            j as int + 1,
                        ));
                    }
                    j = j + 1;
                }
                proof {
                    assert(app.args@.skip(n as int) =~= Seq::<Expr>::empty());
                    assert(self@ == sp_analyze_expr(old(self)@, *expr, *span_context));
                }
            },
            Expr::Condition { cond, then_branch, els, ann } => {
                self.analyze_expr(&**cond, ann);
                self.analyze_expr(&**then_branch, ann);
                self.analyze_expr(&**els, ann);
                proof {
                    assert(self@ == sp_analyze_expr(old(self)@, *expr, *span_context));
                }
            },
            Expr::Let { binds, ret, ann } => {
                let saved = self.scope_id;
                self.enter_scope();
                let ghost venter = self@;
                let n = binds.len();
                proof {
                    assert(binds@.skip(0) =~= binds@);
                }
                let mut j: usize = 0;
                while j < n
                    invariant
                        self.wf(),
                        0 <= j <= n,
                        n == binds@.len(),
                        self@.scopes.len() >= venter.scopes.len(),
                        sp_analyze_binds(venter, binds@) == sp_analyze_binds(
                            self@,
                            binds@.skip(j as int),
                        ),
                    decreases n - j,
                {
                    proof {
                        assert(binds@.skip(j as int)[0] == binds@[j as int]);
                    }
                    self.analyze_bind(&binds[j]);
                    proof {
                        assert(binds@.skip(j as int).drop_first() =~= binds@.skip(j as int + 1));
                    }
                    j = j + 1;
                }
                proof {
                    assert(binds@.skip(n as int) =~= Seq::<Bind>::empty());
                }
                self.analyze_expr(&**ret, ann);
                self.scope_id = saved;
                proof {
                    assert(self@ == sp_analyze_expr(old(self)@, *expr, *span_context));
                }
            },
            Expr::Match { referral, cases, ann } => {
                self.analyze_expr(&**referral, span_context);
                let ghost v0 = self@;
                let n = cases.len();
                proof {
                    assert(cases@.skip(0) =~= cases@);
                }
                let mut j: usize = 0;
                while j < n
                    invariant
                        self.wf(),
                        0 <= j <= n,
                        n == cases@.len(),
                        self@.scopes.len() >= v0.scopes.len(),
                        self@.scope_id == v0.scope_id,
                        sp_analyze_arms(v0, cases@, *span_context) == sp_analyze_arms(
                            self@,
                            cases@.skip(j as int),
                            *span_context,
                        ),
                    decreases n - j,
                {
                    proof {
                        assert(cases@.skip(j as int)[0] == cases@[j as int]);
                    }
                    let saved = self.scope_id;
                    self.enter_scope();
                    let arm = &cases[j];
                    self.analyze_pattern(&arm.0, span_context);
                    self.analyze_expr(&arm.1, span_context);
                    self.scope_id = saved;
                    proof {
                        assert(cases@.skip(j as int).drop_first() =~= cases@.skip(j as int + 1));
                    }
                    j = j + 1;
                }
                proof {
                    assert(cases@.skip(n as int) =~= Seq::<(Pattern, Expr)>::empty());
                    assert(self@ == sp_analyze_expr(old(self)@, *expr, *span_context));
                }
            },
            Expr::Literal(_) => {},
            Expr::BinOp { op, lhs, rhs, ann } => {
                self.analyze_expr(&**lhs, span_context);
                self.analyze_expr(&**rhs, span_context);
                proof {
                    assert(self@ == sp_analyze_expr(old(self)@, *expr, *span_context));
                }
            },
            Expr::Lambda { args, ret, ann } => {
                let some_args = args.len() != 0;
                let saved = self.scope_id;
                if some_args {
                    self.enter_scope();
                    let ghost venter = self@;
                    let n = args.len();
                proof {
                    assert(args@.skip(0) =~= args@);
                }
                let mut j: usize = 0;
                    while j < n
                        invariant
                            self.wf(),
                            0 <= j <= n,
                            n == args@.len(),
                            self@.scopes.len() >= venter.scopes.len(),
                            sp_analyze_patterns(venter, args@, *span_context)
                                == sp_analyze_patterns(
                                self@,
                                args@.skip(j as int),
                                *span_context,
                            ),
                        decreases n - j,
                    {
                        proof {
                            assert(args@.skip(j as int)[0] == args@[j as int]);
                        }
                        self.analyze_pattern(&args[j], span_context);
                        proof {
                            assert(args@.skip(j as int).drop_first() =~= args@.skip(j as int + 1));
                        }
                        j = j + 1;
                    }
                    proof {
                        assert(args@.skip(n as int) =~= Seq::<Pattern>::empty());
                    }
                }
                self.analyze_expr(&**ret, span_context);
                if some_args {
                    self.scope_id = saved;
                }
                proof {
                    assert(self@ == sp_analyze_expr(old(self)@, *expr, *span_context));
                }
            },
            Expr::Ann { expr: inner, ty, ann } => {
                self.analyze_expr(&**inner, span_context);
                self.analyze_type(ty, span_context);
                proof {
                    assert(self@ == sp_analyze_expr(old(self)@, *expr, *span_context));
                }
            },
            Expr::List { list, ann } => {
                let ghost v0 = self@;
                let n = list.len();
                proof {
                    assert(list@.skip(0) =~= list@);
                }
                let mut j: usize = 0;
                while j < n
                    invariant
                        self.wf(),
                        0 <= j <= n,
                        n == list@.len(),
                        self@.scopes.len() >= v0.scopes.len(),
                        sp_analyze_exprs(v0, list@, *span_context) == sp_analyze_exprs(
                            self@,
                            list@.skip(j as int),
                            *span_context,
                        ),
                    decreases n - j,
                {
                    proof {
                        assert(list@.skip(j as int)[0] == list@[j as int]);
                    }
                    self.analyze_expr(&list[j], span_context);
                    proof {
                        assert(list@.skip(j as int).drop_first() =~= list@.skip(j as int + 1));
                    }
                    j = j + 1;
                }
                proof {
                    assert(list@.skip(n as int) =~= Seq::<Expr>::empty());
                    assert(self@ == sp_analyze_expr(old(self)@, *expr, *span_context));
                }
            },
            Expr::Tuple { list, ann } => {
                let ghost v0 = self@;
                let n = list.len();
                proof {
                    assert(list@.skip(0) =~= list@);
                }
                let mut j: usize = 0;
                while j < n
                    invariant
                        self.wf(),
                        0 <= j <= n,
                        n == list@.len(),
                        self@.scopes.len() >= v0.scopes.len(),
                        sp_analyze_exprs(v0, list@, *span_context) == sp_analyze_exprs(
                            self@,
                            list@.skip(j as int),
                            *span_context,
                        ),
                    decreases n - j,
                {
                    proof {
                        assert(list@.skip(j as int)[0] == list@[j as int]);
                    }
                    self.analyze_expr(&list[j], span_context);
                    proof {
                        assert(list@.skip(j as int).drop_first() =~= list@.skip(j as int + 1));
                    }
                    j = j + 1;
                }
                proof {
                    assert(list@.skip(n as int) =~= Seq::<Expr>::empty());
                    assert(self@ == sp_analyze_expr(old(self)@, *expr, *span_context));
                }
            },
        }
    }

    /// Analyzes one pattern as [`sp_analyze_pattern`] describes.
    #[verifier::loop_isolation(false)]
    #[verifier::rlimit(100)]
    pub fn analyze_pattern(&mut self, pattern: &Pattern, span_context: &Span)
        requires
            old(self).wf(),
        ensures
            final(self).wf(),
            final(self)@ == sp_analyze_pattern(old(self)@, *pattern, *span_context),
            final(self)@.scopes.len() >= old(self)@.scopes.len(),
        decreases *pattern,
    {
        match pattern {
            Pattern::Variable(id) => {
                let scope = self.scope_id;
                match self.find_in_scope(id.name.as_str(), scope) {
                    None => {
                        let sym = Symbol { name: id.name.clone(), scope_id: scope };
                        let data = SymbolData { arity: 0, used: false, span: id.span.duplicate() };
                        self.symbols.push((sym, data));
                    },
                    Some(_) => {
                        let e = SemanticError {
                            kind: SemanticErrorKind::MultipleDeclarations {
                                name: id.name.clone(),
                                span: id.span.duplicate(),
                            },
                            span: span_context.duplicate(),
                        };
                        self.errors.push(e);
                    },
                }
            },
            Pattern::ListCons(lhs, rhs, _) => {
                self.analyze_pattern(&**lhs, span_context);
                self.analyze_pattern(&**rhs, span_context);
            },
            Pattern::App(id, pats, _) => {
                match self.find_variant_idx(id.name.as_str()) {
                    Some(i) => {
                        let arity = self.variants[i].1.arity;
                        self.mark_variant_used(i);
                        if arity != pats.len() {
                            let e = SemanticError {
                                kind: SemanticErrorKind::WrongArity {
                                    expected: arity,
                                    found: pats.len(),
                                    span: id.span.duplicate(),
                                },
                                span: span_context.duplicate(),
                            };
                            self.errors.push(e);
                        }
                    },
                    None => {
                        let e = SemanticError {
                            kind: SemanticErrorKind::UndefinedConstructor {
                                constructor_name: id.name.clone(),
                                span: id.span.duplicate(),
                            },
                            span: span_context.duplicate(),
                        };
                        self.errors.push(e);
                    },
                }
            },
            Pattern::Id(id) => {
                match self.find_variant_idx(id.name.as_str()) {
                    Some(i) => {
                        let arity = self.variants[i].1.arity;
                        if arity != 0 {
                            let e = SemanticError {
                                kind: SemanticErrorKind::WrongArity {
                                    expected: arity,
                                    found: 0,
                                    span: id.span.duplicate(),
                                },
                                span: span_context.duplicate(),
                            };
                            self.errors.push(e);
                        }
                    },
                    None => {
                        let e = SemanticError {
                            kind: SemanticErrorKind::UndefinedConstructor {
                                constructor_name: id.name.clone(),
                                span: id.span.duplicate(),
                            },
                            span: span_context.duplicate(),
                        };
                        self.errors.push(e);
                    },
                }
            },
            Pattern::Wildcard(_) => {},
            Pattern::Literal(_) => {},
        }
    }

    /// Analyzes one type as [`sp_analyze_type`] describes.
    #[verifier::loop_isolation(false)]
    #[verifier::rlimit(100)]
    pub fn analyze_type(&mut self, ty: &Type, span_context: &Span)
        requires
            old(self).wf(),
        ensures
            final(self).wf(),
            final(self)@ == sp_analyze_type(old(self)@, *ty, *span_context),
            final(self)@.scopes.len() >= old(self)@.scopes.len(),
        decreases *ty,
    {
        match ty {
            Type::Generic(_) => {},
            Type::Id(id) => {
                if is_builtin(id.name.as_str()) {
                } else {
                    match self.find_type_idx(id.name.as_str()) {
                        Some(i) => {
                            let arity = self.types[i].1.arity;
                            self.mark_type_used(i);
                            if arity != 0 {
                                let e = SemanticError {
                                    kind: SemanticErrorKind::WrongArity {
                                        expected: arity,
                                        found: 0,
                                        span: id.span.duplicate(),
                                    },
                                    span: span_context.duplicate(),
                                };
                                self.errors.push(e);
                            }
                        },
                        None => {
                            let e = SemanticError {
                                kind: SemanticErrorKind::UndefinedType {
                                    name: id.name.clone(),
                                    span: id.span.duplicate(),
                                },
                                span: span_context.duplicate(),
                            };
                            self.errors.push(e);
                        },
                    }
                }
            },
            Type::App(id, tys, span) => {
                if is_builtin(id.name.as_str()) {
                    let e = SemanticError {
                        kind: SemanticErrorKind::WrongArity {
                            expected: 0,
                            found: tys.len(),
                            span: span.duplicate(),
                        },
                        span: span_context.duplicate(),
                    };
                    self.errors.push(e);
                } else {
                    match self.find_type_idx(id.name.as_str()) {
                        Some(i) => {
                            let arity = self.types[i].1.arity;
                            self.mark_type_used(i);
                            if tys.len() != arity {
                                let e = SemanticError {
                                    kind: SemanticErrorKind::WrongArity {
                                        expected: arity,
                                        found: tys.len(),
                                        span: id.span.duplicate(),
                                    },
                                    span: span_context.duplicate(),
                                };
                                self.errors.push(e);
                            }
                        },
                        None => {
                            let e = SemanticError {
                                kind: SemanticErrorKind::UndefinedType {
                                    name: id.name.clone(),
                                    span: id.span.duplicate(),
                                },
                                span: span_context.duplicate(),
                            };
                            self.errors.push(e);
                        },
                    }
                }
            },
            Type::Tuple(tys, _) => {
                let ghost v0 = self@;
                let n = tys.len();
                proof {
                    assert(tys@.skip(0) =~= tys@);
                }
                let mut j: usize = 0;
                while j < n
                    invariant
                        self.wf(),
                        0 <= j <= n,
                        n == tys@.len(),
                        self@.scopes.len() >= v0.scopes.len(),
                        sp_analyze_types(v0, tys@, *span_context) == sp_analyze_types(
                            self@,
                            tys@.skip(j as int),
                            *span_context,
                        ),
                    decreases n - j,
                {
                    proof {
                        assert(tys@.skip(j as int)[0] == tys@[j as int]);
                    }
                    self.analyze_type(&tys[j], span_context);
                    proof {
                        assert(tys@.skip(j as int).drop_first() =~= tys@.skip(j as int + 1));
                    }
                    j = j + 1;
                }
                proof {
                    assert(tys@.skip(n as int) =~= Seq::<Type>::empty());
                }
            },
            Type::Func(ret, args, _) => {
                let ghost v0 = self@;
                let n = args.len();
                proof {
                    assert(args@.skip(0) =~= args@);
                }
                let mut j: usize = 0;
                while j < n
                    invariant
                        self.wf(),
                        0 <= j <= n,
                        n == args@.len(),
                        self@.scopes.len() >= v0.scopes.len(),
                        sp_analyze_types(v0, args@, *span_context) == sp_analyze_types(
                            self@,
                            args@.skip(j as int),
                            *span_context,
                        ),
                    decreases n - j,
                {
                    proof {
                        assert(args@.skip(j as int)[0] == args@[j as int]);
                    }
                    self.analyze_type(&args[j], span_context);
                    proof {
                        assert(args@.skip(j as int).drop_first() =~= args@.skip(j as int + 1));
                    }
                    j = j + 1;
                }
                proof {
                    assert(args@.skip(n as int) =~= Seq::<Type>::empty());
                }
                self.analyze_type(&**ret, span_context);
            },
        }
    }
}

/// Runs the whole analysis: every statement in order, then a warning for
/// every symbol, type and constructor never used.  The final state is
/// exactly [`sp_analyze`] of the program: analysis is a pure function of
/// its input.
#[verifier::loop_isolation(false)]
#[verifier::rlimit(100)]
pub fn analyze(ao: &mut AnalysisOutput, input: &Program)
    requires
        old(ao).wf(),
    ensures
        final(ao).wf(),
        final(ao)@ == sp_analyze(old(ao)@, *input),
{
    let n = input.statements.len();
                proof {
                    assert(input.statements@.skip(0) =~= input.statements@);
                }
                let mut j: usize = 0;
    while j < n
        invariant
            ao.wf(),
            0 <= j <= n,
            n == input.statements@.len(),
            sp_analyze_statements(old(ao)@, input.statements@) == sp_analyze_statements(
                ao@,
                input.statements@.skip(j as int),
            ),
        decreases n - j,
    {
        proof {
            assert(input.statements@.skip(j as int)[0] == input.statements@[j as int]);
        }
        ao.analyze_statement(&input.statements[j]);
        proof {
            assert(input.statements@.skip(j as int).drop_first() =~= input.statements@.skip(
                j as int + 1,
            ));
        }
        j = j + 1;
    }
    proof {
        assert(input.statements@.skip(n as int) =~= Seq::<Statement>::empty());
    }
    let ghost a1 = ao@;
    let ns = ao.symbols.len();
    let mut j2: usize = 0;
    while j2 < ns
        invariant
            0 <= j2 <= ns,
            ns == ao@.symbols.len(),
            ao@.errors == a1.errors,
            ao@.symbols == a1.symbols,
            ao@.types == a1.types,
            ao@.variants == a1.variants,
            ao@.signatures == a1.signatures,
            ao@.scopes == a1.scopes,
            ao@.scope_id == a1.scope_id,
            a1.warnings + sp_sym_warnings(a1.symbols, 0) =~= ao@.warnings + sp_sym_warnings(
                a1.symbols,
                j2 as int,
            ),
        decreases ns - j2,
    {
        if !ao.symbols[j2].1.used {
            let w = SemanticWarning {
                kind: SemanticWarningKind::UnusedSymbol,
                span: ao.symbols[j2].1.span.duplicate(),
            };
            ao.warnings.push(w);
        }
        proof {
            assert(a1.warnings + sp_sym_warnings(a1.symbols, 0) =~= ao@.warnings
                + sp_sym_warnings(a1.symbols, j2 + 1));
        }
        j2 = j2 + 1;
    }
    proof {
        assert(ao@.warnings =~= a1.warnings + sp_sym_warnings(a1.symbols, 0));
    }
    let ghost a2 = ao@;
    let nt = ao.types.len();
    let mut j3: usize = 0;
    while j3 < nt
        invariant
            0 <= j3 <= nt,
            nt == ao@.types.len(),
            ao@.errors == a2.errors,
            ao@.symbols == a2.symbols,
            ao@.types == a2.types,
            ao@.variants == a2.variants,
            ao@.signatures == a2.signatures,
            ao@.scopes == a2.scopes,
            ao@.scope_id == a2.scope_id,
            a2.warnings + sp_type_warnings(a2.types, 0) =~= ao@.warnings + sp_type_warnings(
                a2.types,
                j3 as int,
            ),
        decreases nt - j3,
    {
        if !ao.types[j3].1.used {
            let w = SemanticWarning {
                kind: SemanticWarningKind::UnusedType,
                span: ao.types[j3].1.span.duplicate(),
            };
            ao.warnings.push(w);
        }
        proof {
            assert(a2.warnings + sp_type_warnings(a2.types, 0) =~= ao@.warnings
                + sp_type_warnings(a2.types, j3 + 1));
        }
        j3 = j3 + 1;
    }
    proof {
        assert(ao@.warnings =~= a2.warnings + sp_type_warnings(a2.types, 0));
    }
    let ghost a3 = ao@;
    let nv = ao.variants.len();
    let mut j4: usize = 0;
    while j4 < nv
        invariant
            0 <= j4 <= nv,
            nv == ao@.variants.len(),
            ao@.errors == a3.errors,
            ao@.symbols == a3.symbols,
            ao@.types == a3.types,
            ao@.variants == a3.variants,
            ao@.signatures == a3.signatures,
            ao@.scopes == a3.scopes,
            ao@.scope_id == a3.scope_id,
            a3.warnings + sp_variant_warnings(a3.variants, 0) =~= ao@.warnings
                + sp_variant_warnings(a3.variants, j4 as int),
        decreases nv - j4,
    {
        if !ao.variants[j4].1.used {
            let w = SemanticWarning {
                kind: SemanticWarningKind::UnusedVariant,
                span: ao.variants[j4].1.span.duplicate(),
            };
            ao.warnings.push(w);
        }
        proof {
            assert(a3.warnings + sp_variant_warnings(a3.variants, 0) =~= ao@.warnings
                + sp_variant_warnings(a3.variants, j4 + 1));
        }
        j4 = j4 + 1;
    }
    proof {
        assert(ao@.warnings =~= a3.warnings + sp_variant_warnings(a3.variants, 0));
        assert(ao@.warnings =~= a1.warnings + sp_sym_warnings(a1.symbols, 0) + sp_type_warnings(
            a1.types,
            0,
        ) + sp_variant_warnings(a1.variants, 0));
    }
}

} // verus!
