use risk::ast::Program;
use risk::parser::Parser;
use risk::semantics::{analyze, AnalysisOutput, SemanticErrorKind, SemanticWarningKind};

fn parsed(content: &str) -> Program {
    let mut parser = Parser::new(content).expect("lexing failed");
    parser.parse().expect("parsing failed")
}

fn analyzed(content: &str) -> AnalysisOutput {
    let program = parsed(content);
    let mut ao = AnalysisOutput::new();
    analyze(&mut ao, &program);
    ao
}

#[test]
fn test_unused_binding_warns() {
    // `x = 5`: no errors, one unused-symbol warning for `x`.
    let ao = analyzed("x = 5");
    assert_eq!(ao.errors.len(), 0);
    assert_eq!(ao.warnings.len(), 1);
    assert_eq!(ao.warnings[0].kind, SemanticWarningKind::UnusedSymbol);
    assert_eq!(ao.warnings[0].span.input, "x");
    assert_eq!(ao.warnings[0].span.start, 0);
    assert_eq!(ao.warnings[0].span.end, 1);
}

#[test]
fn test_params_resolve_in_body() {
    // `f x y = x`: no errors; `x` resolves in the parameter scope; the
    // unused `f` and `y` each draw a warning.
    let ao = analyzed("f x y = x");
    assert_eq!(ao.errors.len(), 0);
    let unused: Vec<&str> = ao.warnings.iter().map(|w| w.span.input.as_str()).collect();
    assert!(unused.contains(&"y"));
    assert!(!unused.contains(&"x"));
    assert!(ao.warnings.iter().all(|w| w.kind == SemanticWarningKind::UnusedSymbol));
}

#[test]
fn test_undefined_symbol_in_application() {
    // `a = g 3` with no prior `g`: one undefined-symbol error pointing at
    // `g`'s span.
    let ao = analyzed("a = g 3");
    assert_eq!(ao.errors.len(), 1);
    match &ao.errors[0].kind {
        SemanticErrorKind::UndefinedSymbol { symbol_name, span } => {
            assert_eq!(symbol_name, "g");
            assert_eq!(span.start, 4);
            assert_eq!(span.end, 5);
            assert_eq!(span.input, "g");
        },
        k => panic!("wrong error kind: {:?}", k),
    }
}

#[test]
fn test_reserved_type_name() {
    // `type Bool = Foo`: one reserved-name error for the builtin `Bool`.
    let ao = analyzed("type Bool = Foo");
    assert_eq!(ao.errors.len(), 1);
    match &ao.errors[0].kind {
        SemanticErrorKind::ReservedName { name, .. } => assert_eq!(name, "Bool"),
        k => panic!("wrong error kind: {:?}", k),
    }
}

#[test]
fn test_empty_input() {
    // The empty program parses to no statements and analyzes silently.
    let program = parsed("");
    assert_eq!(program.statements.len(), 0);
    let mut ao = AnalysisOutput::new();
    analyze(&mut ao, &program);
    assert_eq!(ao.errors.len(), 0);
    assert_eq!(ao.warnings.len(), 0);
}

#[test]
fn test_cons_pattern_binds_both_sides() {
    // Both sides of `x:xs` are registered as arity-zero symbols.
    let ao = analyzed("f x:xs = x");
    assert_eq!(ao.errors.len(), 0);
    let names: Vec<&str> = ao.symbols.iter().map(|e| e.0.name.as_str()).collect();
    assert!(names.contains(&"x"));
    assert!(names.contains(&"xs"));
    for entry in &ao.symbols {
        if entry.0.name == "x" || entry.0.name == "xs" {
            assert_eq!(entry.1.arity, 0);
        }
    }
}

#[test]
fn test_analysis_is_deterministic() {
    // Running the analyzer twice on the same program yields identical
    // errors and warnings.
    let p1 = parsed("type T = A\na = g 3\nb = b");
    let p2 = parsed("type T = A\na = g 3\nb = b");
    let mut ao1 = AnalysisOutput::new();
    let mut ao2 = AnalysisOutput::new();
    analyze(&mut ao1, &p1);
    analyze(&mut ao2, &p2);
    assert_eq!(ao1.errors, ao2.errors);
    assert_eq!(ao1.warnings, ao2.warnings);
}

#[test]
fn test_multiple_declarations() {
    let ao = analyzed("x = 1\nx = 2");
    assert_eq!(ao.errors.len(), 1);
    match &ao.errors[0].kind {
        SemanticErrorKind::MultipleDeclarations { name, .. } => assert_eq!(name, "x"),
        k => panic!("wrong error kind: {:?}", k),
    }
}

#[test]
fn test_type_already_defined() {
    let ao = analyzed("type T = A\ntype T = B");
    assert_eq!(ao.errors.len(), 1);
    match &ao.errors[0].kind {
        SemanticErrorKind::TypeAlreadyDefined { name } => assert_eq!(name, "T"),
        k => panic!("wrong error kind: {:?}", k),
    }
}

#[test]
fn test_already_typed_symbol() {
    let ao = analyzed("f :: Integer\nf :: Integer");
    assert_eq!(ao.errors.len(), 1);
    match &ao.errors[0].kind {
        SemanticErrorKind::AlreadyTypedSymbol { symbol_name } => assert_eq!(symbol_name, "f"),
        k => panic!("wrong error kind: {:?}", k),
    }
}

#[test]
fn test_wrong_arity_application() {
    let ao = analyzed("f x = x\na = f 1 2");
    assert_eq!(ao.errors.len(), 1);
    match &ao.errors[0].kind {
        SemanticErrorKind::WrongArity { expected, found, .. } => {
            assert_eq!(*expected, 1);
            assert_eq!(*found, 2);
        },
        k => panic!("wrong error kind: {:?}", k),
    }
}

#[test]
fn test_undefined_type() {
    let ao = analyzed("f :: Foo");
    assert_eq!(ao.errors.len(), 1);
    match &ao.errors[0].kind {
        SemanticErrorKind::UndefinedType { name, .. } => assert_eq!(name, "Foo"),
        k => panic!("wrong error kind: {:?}", k),
    }
}

#[test]
fn test_not_a_callee() {
    let ao = analyzed("a = Foo 3");
    assert_eq!(ao.errors.len(), 1);
    match &ao.errors[0].kind {
        SemanticErrorKind::NotACallee { name, .. } => assert_eq!(name, "Foo"),
        k => panic!("wrong error kind: {:?}", k),
    }
}

#[test]
fn test_undefined_constructor() {
    let ao = analyzed("a = Foo");
    assert_eq!(ao.errors.len(), 1);
    match &ao.errors[0].kind {
        SemanticErrorKind::UndefinedConstructor { constructor_name, .. } => {
            assert_eq!(constructor_name, "Foo")
        },
        k => panic!("wrong error kind: {:?}", k),
    }
}

#[test]
fn test_unused_type_and_variant_warn() {
    let ao = analyzed("type T = A");
    assert_eq!(ao.errors.len(), 0);
    let kinds: Vec<SemanticWarningKind> = ao.warnings.iter().map(|w| w.kind).collect();
    assert_eq!(kinds, vec![SemanticWarningKind::UnusedType, SemanticWarningKind::UnusedVariant]);
    assert_eq!(ao.warnings[0].span.input, "T");
    assert_eq!(ao.warnings[1].span.input, "A");
}

#[test]
fn test_constructor_use_and_arity() {
    // A declared constructor used at its arity draws no error; the match
    // arm binds per arm.
    let src = "type Box = Full Integer | Empty\nf b = match b with (Empty -> 0) (Full 1 -> 2)";
    let ao = analyzed(src);
    assert_eq!(ao.errors.len(), 0);
    // Box is never used as a type and f is never called; a constructor
    // applied in a pattern counts as used, a nullary constructor pattern
    // does not.
    let unused: Vec<&str> = ao.warnings.iter().map(|w| w.span.input.as_str()).collect();
    assert!(unused.contains(&"Box"));
    assert!(unused.contains(&"f"));
    assert!(!unused.contains(&"Full"));
    assert!(unused.contains(&"Empty"));
}

#[test]
fn test_constructor_wrong_arity_in_pattern() {
    let src = "type Box = Full Integer\nf b = match b with (Full -> 0)";
    let ao = analyzed(src);
    // `Full` as a nullary pattern has arity one: a wrong-arity error.
    assert_eq!(ao.errors.len(), 1);
    assert!(matches!(
        ao.errors[0].kind,
        SemanticErrorKind::WrongArity { expected: 1, found: 0, .. }
    ));
}

#[test]
fn test_match_arm_scopes_are_separate() {
    // A binder of one arm is invisible in the next arm's body.
    let src = "f m = match m with (a -> a) (b -> a)";
    let ao = analyzed(src);
    assert_eq!(ao.errors.len(), 1);
    assert!(matches!(ao.errors[0].kind, SemanticErrorKind::UndefinedSymbol { .. }));
}

#[test]
fn test_let_scope() {
    let ao = analyzed("a = let x = 3; in x");
    assert_eq!(ao.errors.len(), 0);
    // Only `a` goes unused; `x` is used by the body.
    let unused: Vec<&str> = ao.warnings.iter().map(|w| w.span.input.as_str()).collect();
    assert_eq!(unused, vec!["a"]);
}

#[test]
fn test_builtin_type_application_is_arity_error() {
    let ao = analyzed("f :: Integer Integer");
    assert_eq!(ao.errors.len(), 1);
    assert!(matches!(
        ao.errors[0].kind,
        SemanticErrorKind::WrongArity { expected: 0, found: 1, .. }
    ));
}

#[test]
fn test_let_shadowing() {
    // The inner `x` shadows the outer one; only the outer goes unused.
    let ao = analyzed("x = 1\nf y = let x = 2; in x");
    assert_eq!(ao.errors.len(), 0);
    assert!(ao.warnings.iter().any(|w| w.span.input == "x" && w.span.start == 0));
    assert!(!ao.warnings.iter().any(|w| w.span.input == "x" && w.span.start != 0));
}

#[test]
fn test_lambda_scope() {
    let ao = analyzed("a = \\x -> x");
    assert_eq!(ao.errors.len(), 0);
    let unused: Vec<&str> = ao.warnings.iter().map(|w| w.span.input.as_str()).collect();
    assert_eq!(unused, vec!["a"]);
}
