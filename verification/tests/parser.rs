use mvlang::ast::{BinaryOp, ExprKind, StatementKind, UnaryOp};
use mvlang::compiler::lexer::tokenize;
use mvlang::compiler::parser::Parser;
use mvlang::compiler::token::{Token, TokenKind};
use mvlang::data_type::DataType;
use mvlang::diagnostics::{FileId, Span};
use mvlang::errors::CompileErrorKind;
use mvlang::value::Value;

const TEST_FILE_ID: FileId = 0;

fn create_token(kind: TokenKind, start: usize, end: usize) -> Token {
    Token { kind, span: Span::new(TEST_FILE_ID, start, end) }
}

fn create_parser<'a>(tokens: &'a [Token]) -> Parser<'a> {
    Parser::new(&tokens, TEST_FILE_ID)
}

#[test]
fn parse_simple_arithmetic() {
    let tokens = vec![
        create_token(TokenKind::Int(1), 0, 1),
        create_token(TokenKind::Plus, 2, 3),
        create_token(TokenKind::Int(2), 4, 5),
    ];
    let mut parser = create_parser(&tokens);
    let expr = parser.parse_expr().unwrap();
    match expr.kind {
        ExprKind::BinaryOp(BinaryOp::Add, ..) => (),
        _ => panic!("Expected binary add operation"),
    }
}

#[test]
fn parse_operator_precedence() {
    let tokens = vec![
        create_token(TokenKind::Int(1), 0, 1),
        create_token(TokenKind::Plus, 2, 3),
        create_token(TokenKind::Int(2), 4, 5),
        create_token(TokenKind::Asterisk, 6, 7),
        create_token(TokenKind::Int(3), 8, 9),
    ];
    let mut parser = create_parser(&tokens);
    let expr = parser.parse_expr().unwrap();
    // Should parse as 1 + (2 * 3)
    if let ExprKind::BinaryOp(_, lhs, rhs) = &expr.kind {
        if let ExprKind::Literal(Value::Int(1)) = &lhs.kind {
            if let ExprKind::BinaryOp(_, ..) = &rhs.kind {
                return;
            }
        }
    }
    panic!("Operator precedence not handled correctly");
}

#[test]
fn parse_comparison() {
    let tokens = vec![
        create_token(TokenKind::Int(5), 0, 1),
        create_token(TokenKind::Equal, 2, 4),
        create_token(TokenKind::Int(5), 5, 6),
    ];
    let mut parser = create_parser(&tokens);
    let expr = parser.parse_expr().unwrap();
    match expr.kind {
        ExprKind::BinaryOp(BinaryOp::Equal, ..) => (),
        _ => panic!("Expected equality comparison"),
    }
}

#[test]
fn parse_logical_operations() {
    let tokens = vec![
        create_token(TokenKind::Bool(true), 0, 4),
        create_token(TokenKind::And, 5, 8),
        create_token(TokenKind::Bool(false), 9, 14),
    ];
    let mut parser = create_parser(&tokens);
    let expr = parser.parse_expr().unwrap();
    match expr.kind {
        ExprKind::BinaryOp(BinaryOp::And, ..) => (),
        _ => panic!("Expected logical AND operation"),
    }
}

#[test]
fn parse_unary_operations() {
    let tokens = vec![
        create_token(TokenKind::Not, 0, 3),
        create_token(TokenKind::Bool(true), 4, 8),
    ];
    let mut parser = create_parser(&tokens);
    let expr = parser.parse_expr().unwrap();
    match expr.kind {
        ExprKind::UnaryOp(UnaryOp::Not, ..) => (),
        _ => panic!("Expected unary NOT operation"),
    }
}

#[test]
fn parse_parentheses() {
    let tokens = vec![
        create_token(TokenKind::ParenL, 0, 1),
        create_token(TokenKind::Int(42), 1, 3),
        create_token(TokenKind::ParenR, 3, 4),
    ];
    let mut parser = create_parser(&tokens);
    let expr = parser.parse_expr().unwrap();
    match expr.kind {
        ExprKind::Literal(Value::Int(42)) => (),
        _ => panic!("Expected literal value 42"),
    }
}

#[test]
fn parse_function_call() {
    let tokens = vec![
        create_token(TokenKind::Ident("foo".to_string()), 0, 3),
        create_token(TokenKind::ParenL, 3, 4),
        create_token(TokenKind::Int(1), 4, 5),
        create_token(TokenKind::Comma, 5, 6),
        create_token(TokenKind::Int(2), 7, 8),
        create_token(TokenKind::ParenR, 8, 9),
    ];
    let mut parser = create_parser(&tokens);
    let expr = parser.parse_expr().unwrap();
    if let ExprKind::FunctionCall { func_name, args } = &expr.kind {
        assert_eq!(func_name, "foo");
        assert_eq!(args.len(), 2);
    } else {
        panic!("Expected function call");
    }
}

#[test]
fn parse_variable_reference() {
    let tokens = vec![create_token(TokenKind::Ident("variable".to_string()), 0, 8)];
    let mut parser = create_parser(&tokens);
    let expr = parser.parse_expr().unwrap();
    if let ExprKind::Var(name) = &expr.kind {
        assert_eq!(name, "variable");
    } else {
        panic!("Expected variable reference");
    }
}

#[test]
fn parse_foreign_function_call() {
    let tokens = vec![
        create_token(TokenKind::Ident("module".to_string()), 0, 6),
        create_token(TokenKind::Colon, 6, 7),
        create_token(TokenKind::Ident("func".to_string()), 7, 11),
        create_token(TokenKind::ParenL, 11, 12),
        create_token(TokenKind::ParenR, 12, 13),
    ];
    let mut parser = create_parser(&tokens);
    let expr = parser.parse_expr().unwrap();
    if let ExprKind::ForeignFunctionCall { module_name, func_name, .. } = &expr.kind {
        assert_eq!(module_name, "module");
        assert_eq!(func_name, "func");
    } else {
        panic!("Expected foreign function call");
    }
}

#[test]
fn parse_empty_args() {
    let tokens = vec![create_token(TokenKind::ParenR, 0, 1)];
    let mut parser = create_parser(&tokens);
    let args = parser.parse_args().unwrap();
    assert!(args.is_empty());
}

#[test]
fn parse_multiple_args() {
    let tokens = vec![
        create_token(TokenKind::Int(1), 0, 1),
        create_token(TokenKind::Comma, 1, 2),
        create_token(TokenKind::StringLiteral("hello".to_string()), 3, 10),
        create_token(TokenKind::Comma, 10, 11),
        create_token(TokenKind::Bool(true), 12, 16),
        create_token(TokenKind::ParenR, 16, 17),
    ];
    let mut parser = create_parser(&tokens);
    let args = parser.parse_args().unwrap();
    assert_eq!(args.len(), 3);
}

#[test]
fn parse_string_literal() {
    let tokens = vec![create_token(TokenKind::StringLiteral("hello world".to_string()), 0, 13)];
    let mut parser = create_parser(&tokens);
    let expr = parser.parse_expr().unwrap();
    match expr.kind {
        ExprKind::Literal(Value::String(s)) => assert_eq!(s, "hello world"),
        _ => panic!("Expected string literal"),
    }
}

#[test]
fn parse_float_literal() {
    let tokens = vec![create_token(TokenKind::Float(3.14f64.to_bits()), 0, 4)];
    let mut parser = create_parser(&tokens);
    let expr = parser.parse_expr().unwrap();
    match expr.kind {
        ExprKind::Literal(Value::Float(f)) => assert!((f64::from_bits(f) - 3.14).abs() < f64::EPSILON),
        _ => panic!("Expected float literal"),
    }
}

#[test]
fn parse_complex_expression() {
    // (1 + 2) * 3 == 9 and true
    let tokens = vec![
        create_token(TokenKind::ParenL, 0, 1),
        create_token(TokenKind::Int(1), 1, 2),
        create_token(TokenKind::Plus, 3, 4),
        create_token(TokenKind::Int(2), 5, 6),
        create_token(TokenKind::ParenR, 6, 7),
        create_token(TokenKind::Asterisk, 8, 9),
        create_token(TokenKind::Int(3), 10, 11),
        create_token(TokenKind::Equal, 12, 14),
        create_token(TokenKind::Int(9), 15, 16),
        create_token(TokenKind::And, 17, 20),
        create_token(TokenKind::Bool(true), 21, 25),
    ];
    let mut parser = create_parser(&tokens);
    let expr = parser.parse_expr().unwrap();
    // Should parse as ((1 + 2) * 3 == 9) and true
    if let ExprKind::BinaryOp(BinaryOp::And, ..) = &expr.kind {
    } else {
        panic!("Expected logical AND at top level");
    }
}

#[test]
fn binary_spans_cover_both_operands() {
    let tokens = tokenize(0, "1 - 2 - 3").unwrap();
    let mut parser = create_parser(&tokens);
    let expr = parser.parse_expr().unwrap();
    assert_eq!(expr.span, Span::new(0, 0, 9));
    // grouped to the left: (1 - 2) - 3
    if let ExprKind::BinaryOp(BinaryOp::Sub, lhs, rhs) = &expr.kind {
        assert!(matches!(lhs.kind, ExprKind::BinaryOp(BinaryOp::Sub, ..)));
        assert!(matches!(rhs.kind, ExprKind::Literal(Value::Int(3))));
        assert_eq!(lhs.span, Span::new(0, 0, 5));
    } else {
        panic!("Expected subtraction");
    }
}

#[test]
fn builtin_names_parse_as_builtin_calls() {
    let tokens = tokenize(0, "print(1, -x)").unwrap();
    let mut parser = create_parser(&tokens);
    let expr = parser.parse_expr().unwrap();
    match &expr.kind {
        ExprKind::BuiltinFunctionCall { args, .. } => {
            assert_eq!(args.len(), 2);
            assert!(matches!(args[1].kind, ExprKind::UnaryOp(UnaryOp::Negate, ..)));
        },
        _ => panic!("Expected builtin call"),
    }
    assert_eq!(expr.span, Span::new(0, 0, 12));
}

#[test]
fn missing_closing_parenthesis() {
    let tokens = tokenize(0, "(1 + 2").unwrap();
    let mut parser = create_parser(&tokens);
    let e = parser.parse_expr().unwrap_err();
    // the end-of-line token stands where `)` should be
    assert!(matches!(e.kind, CompileErrorKind::UnexpectedToken(TokenKind::EOL)));
    assert_eq!(e.span, Some(Span::new(0, 6, 6)));
}

#[test]
fn end_of_input_in_an_expression() {
    let tokens: Vec<Token> = vec![create_token(TokenKind::Minus, 0, 1)];
    let mut parser = create_parser(&tokens);
    let e = parser.parse_expr().unwrap_err();
    assert!(matches!(e.kind, CompileErrorKind::UnexpectedEndOfFile));
    assert_eq!(e.span, Some(Span::new(TEST_FILE_ID, 0, 0)));
}

#[test]
fn parse_functions_and_imports() {
    let source = "import math\nInt add(Int a, Int b) {\n  return a + b\n}\nVoid main() {\n  let x = add(1, 2)\n  if x > 2 {\n    print(x)\n  } else if x < 0 {\n    x = 0\n  } else {\n    x = 1\n  }\n  while x > 0 {\n    x = x - 1\n  }\n}\n";
    let tokens = tokenize(0, source).unwrap();
    let ast = Parser::new(&tokens, 0).parse().unwrap();
    assert_eq!(ast.function_count(), 2);
    assert_eq!(ast.get_function_slot("add"), Some(0));
    assert_eq!(ast.get_function_slot("main"), Some(1));
    let add = ast.get_function_signiture("add").unwrap();
    assert!(matches!(add.return_type, DataType::Int));
    assert_eq!(add.params.len(), 2);
    assert_eq!(add.params[1].name, "b");
    let main_body = ast.get_function_body_by_slot(1).unwrap();
    assert_eq!(main_body.len(), 3);
    assert!(matches!(main_body[0].kind, StatementKind::VarDeclare { data_type: None, .. }));
    match &main_body[1].kind {
        StatementKind::If { else_block: Some(b), .. } => {
            assert_eq!(b.len(), 1);
            assert!(matches!(b[0].kind, StatementKind::If { else_block: Some(_), .. }));
        },
        _ => panic!("Expected if statement"),
    }
    assert!(matches!(main_body[2].kind, StatementKind::While { .. }));
}

#[test]
fn reserved_function_name_is_refused() {
    let tokens = tokenize(0, "Void print() {\n}\n").unwrap();
    let e = match Parser::new(&tokens, 0).parse() {
        Err(e) => e,
        Ok(_) => panic!("Expected an error"),
    };
    assert!(matches!(e.kind, CompileErrorKind::ReservedFunctionName(_)));
    assert_eq!(e.span, Some(Span::new(0, 5, 10)));
}

#[test]
fn stray_token_at_top_level_is_refused() {
    let tokens = tokenize(0, "x = 1\n").unwrap();
    let e = match Parser::new(&tokens, 0).parse() {
        Err(e) => e,
        Ok(_) => panic!("Expected an error"),
    };
    assert!(matches!(e.kind, CompileErrorKind::UnexpectedToken(TokenKind::Ident(_))));
}
