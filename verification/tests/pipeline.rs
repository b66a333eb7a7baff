use mvlang::compiler::lexer::tokenize;
use mvlang::compiler::token::Token;
use mvlang::data_type::DataType;
use mvlang::diagnostics::Span;
use mvlang::errors::{CompileError, CompileErrorKind, RuntimeError};
use mvlang::interpreter::{Interpreter, Step, code_is_well_formed};
use mvlang::module::Module;
use mvlang::value::{FloatOp, Value};

fn float_tokens(source: &str) -> Vec<Token> {
    let mut tokens = tokenize(0, source).unwrap();
    for t in tokens.iter_mut() {
        let bits = match &t.kind {
            mvlang::compiler::token::TokenKind::FloatLexeme(text) => Some(text.parse::<f64>().unwrap().to_bits()),
            _ => None,
        };
        if let Some(b) = bits {
            t.resolve_float(b);
        }
    }
    tokens
}

fn compile(source: &str) -> Result<Module, CompileError> {
    Module::from_tokens(&float_tokens(source))
}

fn compile_err(source: &str) -> CompileError {
    match compile(source) {
        Err(e) => e,
        Ok(_) => panic!("Expected a compile error"),
    }
}

fn show(v: &Value) -> String {
    match v {
        Value::Void => "void".to_string(),
        Value::Bool(b) => b.to_string(),
        Value::Int(i) => i.to_string(),
        Value::Float(f) => f64::from_bits(*f).to_string(),
        Value::String(s) => s.clone(),
    }
}

fn float_op(op: FloatOp, lhs: u64, rhs: u64) -> Value {
    let (a, b) = (f64::from_bits(lhs), f64::from_bits(rhs));
    match op {
        FloatOp::Add => Value::Float((a + b).to_bits()),
        FloatOp::Sub => Value::Float((a - b).to_bits()),
        FloatOp::Mul => Value::Float((a * b).to_bits()),
        FloatOp::Div => Value::Float((a / b).to_bits()),
        FloatOp::Modulo => Value::Float((a % b).to_bits()),
        FloatOp::Equal => Value::Bool(a == b),
        FloatOp::NotEqual => Value::Bool(a != b),
        FloatOp::Less => Value::Bool(a < b),
        FloatOp::LessEqual => Value::Bool(a <= b),
        FloatOp::Greater => Value::Bool(a > b),
        FloatOp::GreaterEqual => Value::Bool(a >= b),
        FloatOp::Negate => Value::Float((-a).to_bits()),
    }
}

/// Runs a module to the end; gives its result and the lines it printed.
fn run(module: &Module) -> (Result<Value, RuntimeError>, Vec<String>) {
    assert!(code_is_well_formed(module));
    let mut printed = Vec::new();
    let mut interp = Interpreter::new(module);
    if let Err(e) = interp.start() {
        return (Err(e), printed);
    }
    for _ in 0..100_000 {
        match interp.step() {
            Err(e) => return (Err(e), printed),
            Ok(Step::Continue) => {},
            Ok(Step::Finished(v)) => return (Ok(v), printed),
            Ok(Step::NeedsFloat { op, lhs, rhs }) => interp.push_value(float_op(op, lhs, rhs)),
            Ok(Step::Print(args)) => {
                printed.push(args.iter().map(show).collect::<Vec<_>>().join(""));
                interp.push_value(Value::Void);
            },
            Ok(Step::Format(args)) => {
                interp.push_value(Value::String(args.iter().map(show).collect::<Vec<_>>().join("")));
            },
        }
    }
    panic!("the program did not stop");
}

#[test]
fn compiles_and_runs_arithmetic() {
    let m = compile("Int main() {\n  return (1 + 2) * 3 - 4 / 2\n}\n").unwrap();
    assert!(m.is_executable());
    let (r, _) = run(&m);
    assert!(matches!(r, Ok(Value::Int(7))));
}

#[test]
fn loops_and_variables() {
    let m = compile("Int main() {\n  let i = 0\n  Int total = 0\n  while i < 5 {\n    i = i + 1\n    total = total + i\n  }\n  return total\n}\n").unwrap();
    let (r, _) = run(&m);
    assert!(matches!(r, Ok(Value::Int(15))));
}

#[test]
fn if_else_chains() {
    let src = "Int sign(Int x) {\n  if x > 0 {\n    return 1\n  } else if x < 0 {\n    return -1\n  } else {\n    return 0\n  }\n}\nInt main() {\n  return sign(-5) * 100 + sign(0) * 10 + sign(7)\n}\n";
    let m = compile(src).unwrap();
    let (r, _) = run(&m);
    assert!(matches!(r, Ok(Value::Int(-99))));
}

#[test]
fn arguments_are_stored_last_first() {
    // parameters take the arguments from the top of the stack: the first
    // parameter gets the last argument
    let m = compile("Int sub(Int a, Int b) {\n  return a - b\n}\nInt main() {\n  return sub(10, 3)\n}\n").unwrap();
    let (r, _) = run(&m);
    assert!(matches!(r, Ok(Value::Int(-7))));
}

#[test]
fn recursion() {
    let src = "Int fact(Int n) {\n  if n <= 1 {\n    return 1\n  }\n  return n * fact(n - 1)\n}\nInt main() {\n  return fact(10)\n}\n";
    let m = compile(src).unwrap();
    let (r, _) = run(&m);
    assert!(matches!(r, Ok(Value::Int(3628800))));
}

#[test]
fn void_main_prints_and_returns_void() {
    let m = compile("Void main() {\n  print('a', 1)\n  print(format('x', true))\n}\n").unwrap();
    let (r, printed) = run(&m);
    assert!(matches!(r, Ok(Value::Void)));
    // a built-in call takes its arguments top of the stack first
    assert_eq!(printed, vec!["1a".to_string(), "truex".to_string()]);
}

#[test]
fn floats_are_left_to_the_caller() {
    let m = compile("Float main() {\n  return 1.5 * 2.0 + 0.25\n}\n").unwrap();
    let (r, _) = run(&m);
    match r {
        Ok(Value::Float(bits)) => assert_eq!(f64::from_bits(bits), 3.25),
        _ => panic!("expected a float"),
    }
}

#[test]
fn strings_do_not_add() {
    let e = compile_err("String main() {\n  return 'ab' + 'cd'\n}\n");
    assert!(matches!(e.kind, CompileErrorKind::WrongType { expected: DataType::Int, found: DataType::String }));
    assert_eq!(e.span, Some(Span::new(0, 25, 36)));
}

#[test]
fn division_by_zero_stops_the_program() {
    let m = compile("Int main() {\n  let z = 0\n  return 1 / z\n}\n").unwrap();
    let (r, _) = run(&m);
    assert!(matches!(r, Err(RuntimeError::DivisionByZero)));
}

#[test]
fn failed_assertion_stops_the_program() {
    let m = compile("Void main() {\n  assert(true, 1 > 2)\n}\n").unwrap();
    let (r, _) = run(&m);
    assert!(matches!(r, Err(RuntimeError::AssertionFailed)));
}

#[test]
fn module_without_main_cannot_run() {
    let m = compile("Int f() {\n  return 1\n}\n").unwrap();
    assert!(!m.is_executable());
    let (r, _) = run(&m);
    match r {
        Err(RuntimeError::Other(msg)) => assert_eq!(msg, "Module is not executable (missing main function)"),
        _ => panic!("expected an error"),
    }
}

#[test]
fn wrong_return_type_is_refused() {
    let e = compile_err("Int main() {\n  return true\n}\n");
    assert!(matches!(e.kind, CompileErrorKind::WrongType { expected: DataType::Int, found: DataType::Bool }));
}

#[test]
fn unknown_variable_is_refused() {
    let e = compile_err("Int main() {\n  return y\n}\n");
    assert!(matches!(e.kind, CompileErrorKind::VariableNotFound(_)));
}

#[test]
fn unknown_function_is_refused() {
    let e = compile_err("Int main() {\n  return g(1)\n}\n");
    assert!(matches!(e.kind, CompileErrorKind::FunctionNotFound(_)));
}

#[test]
fn wrong_argument_count_is_refused() {
    let e = compile_err("Int f(Int a) {\n  return a\n}\nInt main() {\n  return f(1, 2)\n}\n");
    assert!(matches!(e.kind, CompileErrorKind::WrongNumberOfArguments { expected: 1, found: 2 }));
}

#[test]
fn redeclaration_is_refused() {
    let e = compile_err("Int main() {\n  let a = 1\n  let a = 2\n  return a\n}\n");
    assert!(matches!(e.kind, CompileErrorKind::VarRedeclaration(_)));
}

#[test]
fn mixed_numbers_are_refused() {
    let e = compile_err("Int main() {\n  return 1 + 2.0\n}\n");
    assert!(matches!(e.kind, CompileErrorKind::WrongType { expected: DataType::Int, found: DataType::Float }));
}

#[test]
fn condition_must_be_boolean() {
    let e = compile_err("Int main() {\n  if 1 {\n    return 1\n  }\n  return 0\n}\n");
    assert!(matches!(e.kind, CompileErrorKind::WrongType { expected: DataType::Bool, found: DataType::Int }));
}

#[test]
fn compiled_loop_code() {
    let m = compile("Int main() {\n  let x = 1\n  while x < 3 {\n    x = x + 1\n  }\n  return x\n}\n").unwrap();
    let src = m.get_main_source().unwrap();
    assert_eq!(src.slot_count, 1);
    assert_eq!(
        format!("{:?}", src.body),
        "[LoadConst(Int(1)), Store { slot: 0 }, LoadCopy { slot: 0 }, LoadConst(Int(3)), Less, JumpIfFalse(11), LoadCopy { slot: 0 }, LoadConst(Int(1)), Add, Store { slot: 0 }, Jump(2), LoadCopy { slot: 0 }, Return]"
    );
}

#[test]
fn compiled_if_else_code() {
    let m = compile("Void main() {\n  if true {\n    print(1)\n  } else {\n    print(2)\n  }\n}\n").unwrap();
    let src = m.get_main_source().unwrap();
    assert_eq!(
        format!("{:?}", src.body),
        "[LoadConst(Bool(true)), JumpIfFalse(6), LoadConst(Int(1)), BuiltinFunctionCall { function: Print, arg_count: 1 }, Pop, Jump(9), LoadConst(Int(2)), BuiltinFunctionCall { function: Print, arg_count: 1 }, Pop, LoadConst(Void), Return]"
    );
}

#[test]
fn repeated_function_names_leave_a_call_without_code() {
    // the second `f` takes the name's slot (2), but only as many bodies are
    // compiled as there are names (2): the call in `main` has no code to run
    let src = "Int main() {\n  return f()\n}\nInt f() {\n  return 1\n}\nInt f() {\n  return 2\n}\n";
    let m = compile(src).unwrap();
    assert_eq!(m.get_slot("f"), Some(2));
    assert_eq!(m.get_sources().len(), 2);
    assert!(!code_is_well_formed(&m));
}

#[test]
fn compiled_code_is_well_formed() {
    let src = "Int twice(Int x) {\n  let y = x * 2\n  return y\n}\nInt main() {\n  let a = 1\n  while a < 10 {\n    a = twice(a)\n  }\n  return a\n}\n";
    let m = compile(src).unwrap();
    assert!(code_is_well_formed(&m));
    let (r, _) = run(&m);
    assert!(matches!(r, Ok(Value::Int(16))));
}

#[test]
fn each_function_has_its_own_variables() {
    let src = "Int f() {\n  let x = 1\n  return x\n}\nInt main() {\n  let x = 2\n  return x + f()\n}\n";
    let m = compile(src).unwrap();
    let (r, _) = run(&m);
    assert!(matches!(r, Ok(Value::Int(3))));
}
