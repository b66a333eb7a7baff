use mvlang::compiler::lexer::tokenize;
use mvlang::compiler::token::{Token, TokenKind};
use mvlang::data_type::DataType;
use mvlang::diagnostics::Span;
use mvlang::errors::CompileErrorKind;

fn kinds(tokens: Vec<Token>) -> String {
    let kinds: Vec<TokenKind> = tokens.into_iter().map(|t| t.kind).collect();
    format!("{:?}", kinds)
}

#[test]
fn test_tokenize() {
    let input = "let x: Int = 42;\nif x > 10 {\nreturn 'Hello';\n}";
    let tokens = tokenize(0, input).unwrap();
    let expected_tokens = vec![
        TokenKind::Let,
        TokenKind::Ident("x".to_string()),
        TokenKind::Colon,
        TokenKind::DataType(DataType::Int),
        TokenKind::Assign,
        TokenKind::Int(42),
        TokenKind::EOL,
        TokenKind::If,
        TokenKind::Ident("x".to_string()),
        TokenKind::Greater,
        TokenKind::Int(10),
        TokenKind::BraceL,
        TokenKind::EOL,
        TokenKind::Return,
        TokenKind::StringLiteral("Hello".to_string()),
        TokenKind::EOL,
        TokenKind::BraceR,
        TokenKind::EOL,
    ];
    assert_eq!(kinds(tokens), format!("{:?}", expected_tokens));
}

#[test]
fn test_tokenize_string() {
    let input = "'Hello, World!'";
    let tokens = tokenize(0, input).unwrap();
    let expected_token = TokenKind::StringLiteral("Hello, World!".to_string());
    assert_eq!(format!("{:?}", tokens[0].kind), format!("{:?}", expected_token));
}

#[test]
fn test_tokenize_number() {
    let input = "12345";
    let tokens = tokenize(0, input).unwrap();
    match tokens[0].kind {
        TokenKind::Int(v) => assert_eq!(v, 12345),
        _ => panic!("expected int"),
    }

    let input_float = "123.45";
    let tokens = tokenize(0, input_float).unwrap();
    match &tokens[0].kind {
        TokenKind::FloatLexeme(text) => {
            let v: f64 = text.parse().unwrap();
            assert!((v - 123.45).abs() < 1e-9)
        },
        _ => panic!("expected float"),
    }
}

#[test]
fn token_spans_are_byte_ranges() {
    let tokens = tokenize(3, "ab  'é' 7").unwrap();
    assert_eq!(tokens.len(), 4);
    assert_eq!(tokens[0].span, Span::new(3, 0, 2));
    assert_eq!(tokens[1].span, Span::new(3, 4, 8));
    assert_eq!(tokens[2].span, Span::new(3, 9, 10));
    // the final end of line spans nothing at the end of the input
    assert_eq!(tokens[3].span, Span::new(3, 10, 10));
}

#[test]
fn runs_of_line_ends_give_one_token() {
    let tokens = tokenize(0, "a;;\n\n;b").unwrap();
    assert_eq!(kinds(tokens), format!("{:?}", vec![
        TokenKind::Ident("a".to_string()),
        TokenKind::EOL,
        TokenKind::Ident("b".to_string()),
        TokenKind::EOL,
    ]));
}

#[test]
fn comments_run_to_the_end_of_the_line() {
    let tokens = tokenize(0, "x # ignored ; text\ny").unwrap();
    assert_eq!(kinds(tokens), format!("{:?}", vec![
        TokenKind::Ident("x".to_string()),
        TokenKind::Ident("y".to_string()),
        TokenKind::EOL,
    ]));
}

#[test]
fn two_character_operators() {
    let tokens = tokenize(0, "a == b != c <= d >= e && f || g .. h < i > j = k ! l").unwrap();
    let expected = vec![
        TokenKind::Ident("a".to_string()),
        TokenKind::Equal,
        TokenKind::Ident("b".to_string()),
        TokenKind::NotEqual,
        TokenKind::Ident("c".to_string()),
        TokenKind::LessEqual,
        TokenKind::Ident("d".to_string()),
        TokenKind::GreaterEqual,
        TokenKind::Ident("e".to_string()),
        TokenKind::And,
        TokenKind::Ident("f".to_string()),
        TokenKind::Or,
        TokenKind::Ident("g".to_string()),
        TokenKind::DotDot,
        TokenKind::Ident("h".to_string()),
        TokenKind::Less,
        TokenKind::Ident("i".to_string()),
        TokenKind::Greater,
        TokenKind::Ident("j".to_string()),
        TokenKind::Assign,
        TokenKind::Ident("k".to_string()),
        TokenKind::Not,
        TokenKind::Ident("l".to_string()),
        TokenKind::EOL,
    ];
    assert_eq!(kinds(tokens), format!("{:?}", expected));
}

#[test]
fn keywords_types_and_booleans() {
    let tokens = tokenize(0, "while else import Float Bool String Void true false _name").unwrap();
    let expected = vec![
        TokenKind::While,
        TokenKind::Else,
        TokenKind::Import,
        TokenKind::DataType(DataType::Float),
        TokenKind::DataType(DataType::Bool),
        TokenKind::DataType(DataType::String),
        TokenKind::DataType(DataType::Void),
        TokenKind::Bool(true),
        TokenKind::Bool(false),
        TokenKind::Ident("_name".to_string()),
        TokenKind::EOL,
    ];
    assert_eq!(kinds(tokens), format!("{:?}", expected));
}

#[test]
fn string_escapes() {
    let tokens = tokenize(0, r"'a\nb\tc\'d'").unwrap();
    assert_eq!(format!("{:?}", tokens[0].kind), format!("{:?}", TokenKind::StringLiteral("a\nb\tc'd".to_string())));
}

#[test]
fn unterminated_string_runs_to_the_end() {
    let tokens = tokenize(1, "'abc").unwrap();
    assert_eq!(format!("{:?}", tokens[0].kind), format!("{:?}", TokenKind::StringLiteral("abc".to_string())));
    assert_eq!(tokens[0].span, Span::new(1, 0, 4));
}

#[test]
fn unexpected_character_is_an_error() {
    let e = tokenize(0, "a $").unwrap_err();
    assert!(matches!(e.kind, CompileErrorKind::UnexpectedChar('$')));
    assert_eq!(e.span, Some(Span::new(0, 2, 3)));
}

#[test]
fn single_ampersand_is_an_error() {
    let e = tokenize(0, "a & b").unwrap_err();
    assert!(matches!(e.kind, CompileErrorKind::UnexpectedChar(' ')));
    let e = tokenize(0, "a &").unwrap_err();
    assert!(matches!(e.kind, CompileErrorKind::UnexpectedEndOfFile));
}

#[test]
fn integer_above_i32_max_is_an_error() {
    assert!(tokenize(0, "2147483647").is_ok());
    assert!(tokenize(0, "2147483648").is_err());
}

#[test]
fn tokens_stay_in_their_file_and_end_the_text() {
    let input = "Int x = 1 # note\nx";
    let tokens = tokenize(3, input).unwrap();
    assert!(tokens.iter().all(|t| t.span.file == 3));
    let last = tokens.last().unwrap();
    assert!(matches!(last.kind, TokenKind::EOL));
    assert_eq!(last.span, Span::new(3, input.len(), input.len()));
}
