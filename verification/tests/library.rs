use codespan_reporting::diagnostic::{LabelStyle, Severity};
use codespan_reporting::files::SimpleFiles;
use mvlang::ast::{Ast, BinaryOp, BuiltinFunction, BuiltinOutcome, Path, SpannedFunctionSigniture, UnaryOp};
use mvlang::compiler::token::TokenKind;
use mvlang::interpreter::Interpreter;
use mvlang::compiler::data_type_scope::DataTypeScope;
use mvlang::data_type::DataType;
use mvlang::diagnostics::Span;
use mvlang::errors::{CompileError, CompileErrorKind, RuntimeError};
use mvlang::module_cluster::ModuleCluster;
use mvlang::module::Module;
use mvlang::name_map::NameMap;
use mvlang::value::{Computed, FloatOp, Value};
use mvlang::function::{
    ExternalFunctionDefinition, FunctionDefinition, FunctionDefinitionRef, FunctionDefinitionTable, InternalFunctionDefinition,
};

fn int_of(r: Result<Computed, RuntimeError>) -> i32 {
    match r {
        Ok(Computed::Value(Value::Int(i))) => i,
        other => panic!("expected an int, got {:?}", other),
    }
}

#[test]
fn integer_arithmetic_wraps_and_truncates() {
    assert_eq!(int_of(Value::Int(i32::MAX).binary(BinaryOp::Add, Value::Int(1))), i32::MIN);
    assert_eq!(int_of(Value::Int(i32::MIN).binary(BinaryOp::Sub, Value::Int(1))), i32::MAX);
    assert_eq!(int_of(Value::Int(65536).binary(BinaryOp::Mul, Value::Int(65536))), 0);
    assert_eq!(int_of(Value::Int(-7).binary(BinaryOp::Div, Value::Int(2))), -3);
    assert_eq!(int_of(Value::Int(-7).binary(BinaryOp::Modulo, Value::Int(2))), -1);
    assert_eq!(int_of(Value::Int(7).binary(BinaryOp::Modulo, Value::Int(-2))), 1);
    assert_eq!(int_of(Value::Int(i32::MIN).binary(BinaryOp::Div, Value::Int(-1))), i32::MIN);
    assert_eq!(int_of(Value::Int(i32::MIN).unary(UnaryOp::Negate)), i32::MIN);
}

#[test]
fn division_by_zero() {
    assert!(matches!(Value::Int(1).binary(BinaryOp::Div, Value::Int(0)), Err(RuntimeError::DivisionByZero)));
    assert!(matches!(Value::Int(1).binary(BinaryOp::Modulo, Value::Int(0)), Err(RuntimeError::DivisionByZero)));
}

#[test]
fn comparisons_and_logic() {
    assert!(matches!(Value::Int(1).binary(BinaryOp::Less, Value::Int(2)), Ok(Computed::Value(Value::Bool(true)))));
    assert!(matches!(Value::Bool(true).binary(BinaryOp::And, Value::Bool(false)), Ok(Computed::Value(Value::Bool(false)))));
    assert!(matches!(Value::Bool(false).unary(UnaryOp::Not), Ok(Computed::Value(Value::Bool(true)))));
    assert!(matches!(Value::Int(1).binary(BinaryOp::Equal, Value::Bool(true)), Ok(Computed::Value(Value::Bool(false)))));
    assert!(matches!(Value::Int(1).binary(BinaryOp::And, Value::Int(1)), Err(RuntimeError::TypeError)));
    assert!(matches!(Value::Int(1).is_false(), Err(RuntimeError::TypeError)));
}

#[test]
fn strings_and_floats() {
    match Value::String("ab".to_string()).binary(BinaryOp::Add, Value::String("c".to_string())) {
        Ok(Computed::Value(Value::String(s))) => assert_eq!(s, "abc"),
        _ => panic!("expected a string"),
    }
    match Value::Float(1.0f64.to_bits()).binary(BinaryOp::Less, Value::Float(2.0f64.to_bits())) {
        Ok(Computed::NeedsFloat { op: FloatOp::Less, lhs, rhs }) => {
            assert_eq!(f64::from_bits(lhs), 1.0);
            assert_eq!(f64::from_bits(rhs), 2.0);
        },
        _ => panic!("expected a float operation"),
    }
    assert!(matches!(Value::Float(0).get_type(), DataType::Float));
}

#[test]
fn builtin_functions() {
    assert!(matches!(BuiltinFunction::Assert.execute(vec![Value::Bool(true)]), Ok(BuiltinOutcome::Value(Value::Void))));
    assert!(matches!(BuiltinFunction::Assert.execute(vec![Value::Bool(true), Value::Bool(false)]), Err(RuntimeError::AssertionFailed)));
    assert!(matches!(BuiltinFunction::Assert.execute(vec![Value::Int(1)]), Err(RuntimeError::TypeError)));
    match BuiltinFunction::Print.execute(vec![Value::Int(1), Value::Int(2)]) {
        Ok(BuiltinOutcome::Print(args)) => assert_eq!(args.len(), 2),
        _ => panic!("expected output"),
    }
    assert_eq!(BuiltinFunction::Format.as_str(), "format");
    assert_eq!(BuiltinFunction::str_variants(), vec!["print", "assert", "format"]);
    assert!(matches!("assert".parse::<BuiltinFunction>(), Ok(BuiltinFunction::Assert)));
    assert_eq!("other".parse::<BuiltinFunction>().unwrap_err(), "Not a builtin function");
}

#[test]
fn name_map_keeps_first_position() {
    let mut m = NameMap::new();
    m.insert("a".to_string(), 0);
    m.insert("b".to_string(), 1);
    m.insert("a".to_string(), 7);
    assert_eq!(m.len(), 2);
    assert_eq!(m.get("a"), Some(7));
    assert_eq!(m.get("b"), Some(1));
    assert_eq!(m.get("c"), None);
    assert_eq!(m.entry(0).0, "a");
}

#[test]
fn scopes_nest() {
    let mut s = DataTypeScope::new();
    s.enter();
    s.insert_new("x".to_string(), DataType::Int, Span::new(0, 0, 1)).unwrap();
    s.enter();
    s.insert_new("y".to_string(), DataType::Bool, Span::new(0, 2, 3)).unwrap();
    assert!(matches!(s.get("x"), Some(DataType::Int)));
    assert!(matches!(s.get("y"), Some(DataType::Bool)));
    let e = s.insert_new("x".to_string(), DataType::Float, Span::new(0, 4, 5)).unwrap_err();
    assert!(matches!(e.kind, CompileErrorKind::VarRedeclaration(_)));
    assert_eq!(e.message, "variable x is already declared");
    s.exit();
    assert!(s.get("y").is_none());
    assert!(s.contains("x"));
}

#[test]
fn span_join() {
    let a = Span::new(2, 5, 9);
    let b = Span::new(2, 1, 6);
    assert_eq!(a.join(b), Span::new(2, 1, 9));
    assert_eq!(b.join(a), Span::new(2, 1, 9));
}

#[test]
fn data_types() {
    let list = DataType::list_of(DataType::Int);
    assert!(DataType::unknow_list().matches_type(&list));
    assert!(!list.matches_type(&DataType::unknow_list()));
    assert_eq!(list.to_display_string(), "list<int>");
    assert!(DataType::Bool.is_bool());
    assert!(matches!(DataType::String.check_method_call("length", Span::new(0, 0, 0), &[]), Ok(DataType::Int)));
    let e = DataType::Int.check_method_call("length", Span::new(0, 1, 2), &[]).unwrap_err();
    assert!(matches!(e.kind, CompileErrorKind::Other));
    assert_eq!(e.message, "no method length on type int");
    assert_eq!(e.span, Some(Span::new(0, 1, 2)));
    let e = DataType::String.check_method_call("length", Span::new(0, 3, 4), &[DataType::Int]).unwrap_err();
    assert!(matches!(e.kind, CompileErrorKind::WrongNumberOfArguments { expected: 0, found: 1 }));
    // every type matches itself
    assert!(list.matches_type(&DataType::list_of(DataType::Int)));
    assert!(DataType::Float.matches_type(&DataType::Float));
    assert!(!DataType::Float.matches_type(&DataType::Int));
}

#[test]
fn error_text() {
    let e = CompileError::unexpected_char_at('$', Span::new(1, 4, 5));
    assert_eq!(e.message, "unexpected character '$'");
    assert_eq!(e.to_display_string(), "At file 1:4-5\nunexpected character '$'");
    let e = CompileError::wrong_type(DataType::Int, DataType::Bool);
    assert_eq!(e.span, None);
    assert_eq!(RuntimeError::index_out_of_bounds(-1, 3).to_message(), "Index out of bounds: the len is 3 but the index is -1");
}

#[test]
fn module_cluster_slots() {
    let mut c = ModuleCluster::new();
    assert_eq!(c.add("a".to_string(), Module::empty()), 0);
    assert_eq!(c.add("b".to_string(), Module::empty()), 1);
    assert_eq!(c.add("a".to_string(), Module::empty()), 2);
    assert_eq!(c.get_slot("a"), Some(2));
    assert_eq!(c.get_slot("b"), Some(1));
    assert_eq!(c.get_slot("c"), None);
    assert!(c.get_by_slot(1).is_some());
    assert!(c.get_by_slot(3).is_none());
}

#[test]
fn paths() {
    let p = Path::single("math".to_string());
    assert_eq!(format!("{:?}", p), "Path { segments: [\"math\"] }");
    let q = Path::new(vec!["a".to_string(), "b".to_string()]);
    assert_eq!(format!("{:?}", q), "Path { segments: [\"a\", \"b\"] }");
}

#[test]
fn function_definition_refs_check_arguments() {
    let ext = ExternalFunctionDefinition::new("sqrt".to_string(), DataType::Float, vec![DataType::Float]);
    let int = InternalFunctionDefinition::new(
        "add".to_string(),
        DataType::Int,
        vec![("a".to_string(), DataType::Int), ("b".to_string(), DataType::Int)],
    );
    let e = FunctionDefinitionRef::External(&ext);
    let i = FunctionDefinitionRef::Internal(&int);
    assert_eq!(e.name(), "sqrt");
    assert_eq!(i.name(), "add");
    assert!(matches!(e.return_type(), DataType::Float));
    assert!(matches!(i.return_type(), DataType::Int));
    assert_eq!(e.arg_count(), 1);
    assert_eq!(i.arg_count(), 2);
    assert!(e.check_arg_types(&[DataType::Float]).is_ok());
    assert!(i.check_arg_types(&[DataType::Int, DataType::Int]).is_ok());
    let err = i.check_arg_types(&[DataType::Int]).unwrap_err();
    assert!(matches!(err.kind, CompileErrorKind::WrongNumberOfArguments { expected: 2, found: 1 }));
    assert_eq!(err.message, "expected 2 arguments, found 1");
    let err = i.check_arg_types(&[DataType::Int, DataType::Bool]).unwrap_err();
    assert!(matches!(err.kind, CompileErrorKind::WrongType { expected: DataType::Int, found: DataType::Bool }));
    assert_eq!(err.span, None);
    let err = e.check_arg_types(&[DataType::Int]).unwrap_err();
    assert!(matches!(err.kind, CompileErrorKind::WrongType { expected: DataType::Float, found: DataType::Int }));
}

#[test]
fn function_definition_table_finds_by_name_and_slot() {
    let mut table = FunctionDefinitionTable::new();
    assert!(table.get_slot("sqrt").is_none());
    table.insert(FunctionDefinition::External(ExternalFunctionDefinition::new(
        "sqrt".to_string(),
        DataType::Float,
        vec![DataType::Float],
    )));
    assert!(table.get_slot("twice").is_none());
    table.insert(FunctionDefinition::Internal(InternalFunctionDefinition::new(
        "twice".to_string(),
        DataType::Int,
        vec![("x".to_string(), DataType::Int)],
    )));
    assert_eq!(table.get_slot("sqrt"), Some(0));
    assert_eq!(table.get_slot("twice"), Some(1));
    assert_eq!(table.get_slot("nope"), None);
    let twice = table.get_fn_by_name("twice").unwrap();
    assert_eq!(twice.name(), "twice");
    assert!(matches!(twice.return_type(), DataType::Int));
    assert!(twice.check_types(&[DataType::Int]).is_ok());
    let err = twice.check_types(&[DataType::Bool]).unwrap_err();
    assert!(matches!(err.kind, CompileErrorKind::WrongType { expected: DataType::Int, found: DataType::Bool }));
    let err = twice.check_types(&[]).unwrap_err();
    assert!(matches!(err.kind, CompileErrorKind::WrongNumberOfArguments { expected: 1, found: 0 }));
    assert_eq!(table.get_fn_by_index(0).unwrap().name(), "sqrt");
    assert!(table.get_fn_by_index(2).is_none());
    assert!(table.get_fn_by_name("nope").is_none());
}

#[test]
fn errors_become_codespan_diagnostics() {
    let mut files = SimpleFiles::new();
    files.add("main.mv".to_string(), "let x = $".to_string());
    let e = CompileError::unexpected_char_at('$', Span::new(0, 8, 9));
    let d = e.to_diagnostic(&files);
    assert_eq!(d.severity, Severity::Error);
    assert_eq!(d.message, "unexpected character '$'");
    assert_eq!(d.labels.len(), 1);
    assert_eq!(d.labels[0].style, LabelStyle::Primary);
    assert_eq!(d.labels[0].file_id, 0);
    assert_eq!(d.labels[0].range, 8..9);
    assert!(d.notes.is_empty());
    let d = CompileError::wrong_type(DataType::Int, DataType::Bool).add_note("a note".to_string()).to_diagnostic(&files);
    assert!(d.labels.is_empty());
    assert_eq!(d.notes, vec!["a note".to_string()]);
    assert_eq!(d.message, "expected type int, found bool");
}

#[test]
fn unexpected_tokens_are_described_as_debug_writes_them() {
    let span = Span::new(0, 1, 2);
    let e = CompileError::unexpected_token_at(TokenKind::StringLiteral("a\"b\n".to_string()), span);
    assert_eq!(e.message, format!("unexpected token: StringLiteral({:?})", "a\"b\n"));
    assert_eq!(e.message, "unexpected token: StringLiteral(\"a\\\"b\\n\")");
    let e = CompileError::unexpected_token_at(TokenKind::Ident("x".to_string()), span);
    assert_eq!(e.message, "unexpected token: Ident(\"x\")");
    let e = CompileError::unexpected_token_at(TokenKind::DataType(DataType::Int), span);
    assert_eq!(e.message, "unexpected token: DataType(Int)");
    let e = CompileError::unexpected_token_at(TokenKind::DataType(DataType::list_of(DataType::Bool)), span);
    assert_eq!(e.message, "unexpected token: DataType(List { item_type: Some(Bool) })");
}

#[test]
fn leaving_a_scope_undoes_entering_it() {
    let mut s = DataTypeScope::new();
    assert!(!s.contains("a"));
    s.enter();
    assert!(s.insert_new("a".to_string(), DataType::Int, Span::new(0, 0, 1)).is_ok());
    s.enter();
    assert!(s.insert_new("b".to_string(), DataType::Bool, Span::new(0, 1, 2)).is_ok());
    assert!(s.insert_new("a".to_string(), DataType::Bool, Span::new(0, 2, 3)).is_err());
    assert!(s.contains("b"));
    s.exit();
    assert!(!s.contains("b"));
    assert!(matches!(s.get("a"), Some(DataType::Int)));
}

#[test]
fn added_functions_get_dense_slots() {
    let mut ast = Ast::empty();
    for name in ["f", "g", "h"] {
        ast.add_function(name.to_string(), SpannedFunctionSigniture::new(DataType::Void, vec![], Span::new(0, 0, 0)), vec![]);
    }
    assert_eq!(ast.get_function_slot("f"), Some(0));
    assert_eq!(ast.get_function_slot("g"), Some(1));
    assert_eq!(ast.get_function_slot("h"), Some(2));
    assert_eq!(ast.get_function_slot("k"), None);
    assert!(ast.get_function_body_by_slot(2).is_some());
    assert!(ast.get_function_body_by_slot(3).is_none());
}

#[test]
fn a_module_without_main_cannot_start() {
    let m = Module::empty();
    let mut i = Interpreter::new(&m);
    match i.start() {
        Err(RuntimeError::Other(msg)) => assert_eq!(msg, "Module is not executable (missing main function)"),
        _ => panic!("expected the missing-main error"),
    }
    assert!(!i.is_running());
}
