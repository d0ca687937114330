use risk::ast::Span;
use risk::lexer::{lexer, Token, TokenKind};

fn kinds(input: &str) -> Vec<TokenKind> {
    lexer(input).expect("lexing failed").into_iter().map(|t: Token| t.kind).collect()
}

#[test]
fn test_lex_empty() {
    let toks = lexer("").unwrap();
    assert_eq!(toks.len(), 1);
    assert_eq!(toks[0].kind, TokenKind::Eof);
    assert_eq!(toks[0].span.start, 0);
    assert_eq!(toks[0].span.end, 0);
}

#[test]
fn test_lex_keywords_and_identifiers() {
    assert_eq!(
        kinds("let in if else match with type lets"),
        vec![
            TokenKind::Let,
            TokenKind::Space,
            TokenKind::In,
            TokenKind::Space,
            TokenKind::If,
            TokenKind::Space,
            TokenKind::Else,
            TokenKind::Space,
            TokenKind::Match,
            TokenKind::Space,
            TokenKind::With,
            TokenKind::Space,
            TokenKind::Type,
            TokenKind::Space,
            TokenKind::Identifier("lets".to_string()),
            TokenKind::Eof,
        ],
    );
}

#[test]
fn test_lex_booleans_and_constructors() {
    assert_eq!(
        kinds("True False Truey"),
        vec![
            TokenKind::True,
            TokenKind::Space,
            TokenKind::False,
            TokenKind::Space,
            TokenKind::PCIdentifier("Truey".to_string()),
            TokenKind::Eof,
        ],
    );
}

#[test]
fn test_lex_operators_longest_match() {
    assert_eq!(
        kinds("<=>=::->==!=&&|||"),
        vec![
            TokenKind::Lte,
            TokenKind::Gte,
            TokenKind::DoubleCollon,
            TokenKind::Arrow,
            TokenKind::Eq,
            TokenKind::Neq,
            TokenKind::And,
            TokenKind::Or,
            TokenKind::Pipe,
            TokenKind::Eof,
        ],
    );
}

#[test]
fn test_lex_numbers() {
    assert_eq!(
        kinds("5 -5 +7 3.14 3."),
        vec![
            TokenKind::Integer(5),
            TokenKind::Space,
            TokenKind::Integer(-5),
            TokenKind::Space,
            TokenKind::Integer(7),
            TokenKind::Space,
            TokenKind::Float("3.14".to_string()),
            TokenKind::Space,
            TokenKind::Float("3.".to_string()),
            TokenKind::Eof,
        ],
    );
}

#[test]
fn test_lex_sign_binds_to_digit() {
    // A minus directly followed by a digit is part of the number.
    assert_eq!(
        kinds("5-3"),
        vec![TokenKind::Integer(5), TokenKind::Integer(-3), TokenKind::Eof],
    );
    assert_eq!(
        kinds("5 - 3"),
        vec![
            TokenKind::Integer(5),
            TokenKind::Space,
            TokenKind::Sub,
            TokenKind::Space,
            TokenKind::Integer(3),
            TokenKind::Eof,
        ],
    );
}

#[test]
fn test_lex_integer_bounds() {
    assert_eq!(
        kinds("9223372036854775807"),
        vec![TokenKind::Integer(i64::MAX), TokenKind::Eof],
    );
    assert_eq!(
        kinds("-9223372036854775808"),
        vec![TokenKind::Integer(i64::MIN), TokenKind::Eof],
    );
    let err = lexer("9223372036854775808").unwrap_err();
    assert_eq!(err.span.start, 0);
    assert_eq!(err.span.end, 1);
}

#[test]
fn test_lex_strings_and_chars() {
    assert_eq!(
        kinds("\"hello\" 'a'"),
        vec![
            TokenKind::String("hello".to_string()),
            TokenKind::Space,
            TokenKind::Char('a'),
            TokenKind::Eof,
        ],
    );
    // The empty string and an unterminated string are lexical errors.
    assert!(lexer("\"\"").is_err());
    assert!(lexer("\"abc").is_err());
    assert!(lexer("'ab'").is_err());
}

#[test]
fn test_lex_unknown_character() {
    let err = lexer("x = &").unwrap_err();
    assert_eq!(err.span.start, 4);
    assert_eq!(err.span.end, 5);
    assert_eq!(err.span.input, "&");
}

#[test]
fn test_lex_comments_produce_no_tokens() {
    assert_eq!(
        kinds("a /* block */ b // line"),
        vec![
            TokenKind::Identifier("a".to_string()),
            TokenKind::Space,
            TokenKind::Space,
            TokenKind::Identifier("b".to_string()),
            TokenKind::Space,
            TokenKind::Eof,
        ],
    );
    // An unclosed block comment falls back to a division operator.
    assert_eq!(
        kinds("/*x"),
        vec![
            TokenKind::Div,
            TokenKind::Mul,
            TokenKind::Identifier("x".to_string()),
            TokenKind::Eof,
        ],
    );
}

#[test]
fn test_lex_spans_cover_input() {
    let src = "ab cd";
    let toks = lexer(src).unwrap();
    let spans: Vec<(usize, usize)> = toks.iter().map(|t| (t.span.start, t.span.end)).collect();
    assert_eq!(spans, vec![(0, 2), (2, 3), (3, 5), (5, 5)]);
    for t in &toks {
        assert_eq!(&src[t.span.start..t.span.end], t.span.input);
    }
}

#[test]
fn test_kind_predicates() {
    assert!(TokenKind::Integer(1).is_literal());
    assert!(TokenKind::True.is_literal());
    assert!(!TokenKind::Let.is_literal());
    assert!(TokenKind::Identifier("x".to_string()).is_identifier());
    assert!(TokenKind::PCIdentifier("X".to_string()).is_identifier());
    assert!(!TokenKind::Pipe.is_identifier());
    assert!(TokenKind::Space.is_whitespace());
    assert!(TokenKind::Tab.is_whitespace());
    assert!(TokenKind::Newline.is_whitespace());
    assert!(!TokenKind::Eof.is_whitespace());
}

#[test]
fn test_get_line_number() {
    let src = "a\nb = 1";
    // A span covering the newline reports the next line.
    let s = Span::new(0, 4, "a\nb ".to_string());
    assert_eq!(s.get_line_number(src), 2);
    let t = Span::new(0, 1, "a".to_string());
    assert_eq!(t.get_line_number(src), 1);
}

#[test]
fn test_lex_whitespace_tokens() {
    assert_eq!(
        kinds("a\tb\nc"),
        vec![
            TokenKind::Identifier("a".to_string()),
            TokenKind::Tab,
            TokenKind::Identifier("b".to_string()),
            TokenKind::Newline,
            TokenKind::Identifier("c".to_string()),
            TokenKind::Eof,
        ],
    );
}

#[test]
fn test_lex_identifier_continuation() {
    // Identifiers continue with letters, digits and primes, but not
    // underscores.
    assert_eq!(
        kinds("x2' a_b"),
        vec![
            TokenKind::Identifier("x2'".to_string()),
            TokenKind::Space,
            TokenKind::Identifier("a".to_string()),
            TokenKind::Underscore,
            TokenKind::Identifier("b".to_string()),
            TokenKind::Eof,
        ],
    );
}
