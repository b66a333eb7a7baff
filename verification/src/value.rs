//! Values of the language and the operations on them.
use vstd::prelude::*;
use crate::ast::{BinaryOp, UnaryOp};
use crate::data_type::DataType;
use crate::errors::RuntimeError;

verus! {

/// A value. A float is held as its IEEE-754 bit pattern: this library does no
/// floating-point arithmetic itself (see `Computed::NeedsFloat`).
#[derive(Debug)]
pub enum Value {
    Void,
    Bool(bool),
    Int(i32),
    Float(u64),
    String(String),
}

/// A value seen as plain data: a string by its characters.
pub enum ValueView {
    Void,
    Bool(bool),
    Int(i32),
    Float(u64),
    Str(Seq<char>),
}

impl View for Value {
    type V = ValueView;

    open spec fn view(&self) -> ValueView {
        match self {
            Value::Void => ValueView::Void,
            Value::Bool(b) => ValueView::Bool(*b),
            Value::Int(i) => ValueView::Int(*i),
            Value::Float(f) => ValueView::Float(*f),
            Value::String(s) => ValueView::Str(s@),
        }
    }
}

impl Clone for Value {
    fn clone(&self) -> (v: Self)
        ensures
            v == *self,
    {
        match self {
            Value::Void => Value::Void,
            Value::Bool(b) => Value::Bool(*b),
            Value::Int(i) => Value::Int(*i),
            Value::Float(f) => Value::Float(*f),
            Value::String(s) => Value::String(s.clone()),
        }
    }
}

/// The type of a value.
pub open spec fn spec_value_type(v: ValueView) -> DataType {
    match v {
        ValueView::Void => DataType::Void,
        ValueView::Bool(_) => DataType::Bool,
        ValueView::Int(_) => DataType::Int,
        ValueView::Float(_) => DataType::Float,
        ValueView::Str(_) => DataType::String,
    }
}

/// A floating-point operation that the library leaves to its caller.
#[derive(Debug, Clone, Copy, PartialEq, Eq, Structural)]
pub enum FloatOp {
    Add,
    Sub,
    Mul,
    Div,
    Modulo,
    Equal,
    NotEqual,
    Less,
    LessEqual,
    Greater,
    GreaterEqual,
    Negate,
}

/// The outcome of an operation on values: a value, or a floating-point
/// operation on the given bit patterns (for `Negate`, `rhs` is 0) whose
/// result the caller computes.
#[derive(Debug)]
pub enum Computed {
    Value(Value),
    NeedsFloat { op: FloatOp, lhs: u64, rhs: u64 },
}

/// The outcome of an operation seen as plain data.
pub enum ComputedView {
    Value(ValueView),
    NeedsFloat { op: FloatOp, lhs: u64, rhs: u64 },
}

impl View for Computed {
    type V = ComputedView;

    open spec fn view(&self) -> ComputedView {
        match self {
            Computed::Value(v) => ComputedView::Value(v@),
            Computed::NeedsFloat { op, lhs, rhs } => ComputedView::NeedsFloat {
                op: *op,
                lhs: *lhs,
                rhs: *rhs,
            },
        }
    }
}

/// Two's-complement wrap of a mathematical integer into `i32`.
pub open spec fn wrap_i32(x: int) -> i32 {
    let m = ((x % 0x1_0000_0000) + 0x1_0000_0000) % 0x1_0000_0000;
    if m >= 0x8000_0000 {
        (m - 0x1_0000_0000) as i32
    } else {
        m as i32
    }
}

/// Integer division truncated toward zero, as Rust's `/` on integers.
pub open spec fn trunc_div(a: int, b: int) -> int {
    let q = (if a >= 0 { a } else { -a }) / (if b >= 0 { b } else { -b });
    if (a >= 0) == (b >= 0) { q } else { -q }
}

/// Remainder of the truncating division, as Rust's `%` on integers:
/// it takes the sign of the dividend.
pub open spec fn trunc_rem(a: int, b: int) -> int {
    let r = (if a >= 0 { a } else { -a }) % (if b >= 0 { b } else { -b });
    if a >= 0 { r } else { -r }
}

pub open spec fn float_op_of(op: BinaryOp) -> FloatOp {
    match op {
        BinaryOp::Add => FloatOp::Add,
        BinaryOp::Sub => FloatOp::Sub,
        BinaryOp::Mul => FloatOp::Mul,
        BinaryOp::Div => FloatOp::Div,
        BinaryOp::Modulo => FloatOp::Modulo,
        BinaryOp::Equal => FloatOp::Equal,
        BinaryOp::NotEqual => FloatOp::NotEqual,
        BinaryOp::Less => FloatOp::Less,
        BinaryOp::LessEqual => FloatOp::LessEqual,
        BinaryOp::Greater => FloatOp::Greater,
        BinaryOp::GreaterEqual => FloatOp::GreaterEqual,
        _ => FloatOp::Add,
    }
}

/// What `lhs op rhs` computes:
/// integers wrap on overflow (two's complement), and division or remainder by
/// zero is an error; `+` also joins two strings; `==` and `!=` compare any two
/// values (values of different types are unequal); `and` and `or` take two
/// booleans; any other combination is a type error. On two floats the
/// arithmetic and comparison operators are handed to the caller.
pub open spec fn spec_binary(op: BinaryOp, lhs: ValueView, rhs: ValueView) -> Result<ComputedView, RuntimeError> {
    match (lhs, rhs) {
        (ValueView::Int(a), ValueView::Int(b)) => match op {
            BinaryOp::Add => Ok(ComputedView::Value(ValueView::Int(wrap_i32(a + b)))),
            BinaryOp::Sub => Ok(ComputedView::Value(ValueView::Int(wrap_i32(a - b)))),
            BinaryOp::Mul => Ok(ComputedView::Value(ValueView::Int(wrap_i32(a * b)))),
            BinaryOp::Div => if b == 0 {
                Err(RuntimeError::DivisionByZero)
            } else {
                Ok(ComputedView::Value(ValueView::Int(wrap_i32(trunc_div(a as int, b as int)))))
            },
            BinaryOp::Modulo => if b == 0 {
                Err(RuntimeError::DivisionByZero)
            } else {
                Ok(ComputedView::Value(ValueView::Int(wrap_i32(trunc_rem(a as int, b as int)))))
            },
            BinaryOp::Equal => Ok(ComputedView::Value(ValueView::Bool(a == b))),
            BinaryOp::NotEqual => Ok(ComputedView::Value(ValueView::Bool(a != b))),
            BinaryOp::Less => Ok(ComputedView::Value(ValueView::Bool(a < b))),
            BinaryOp::LessEqual => Ok(ComputedView::Value(ValueView::Bool(a <= b))),
            BinaryOp::Greater => Ok(ComputedView::Value(ValueView::Bool(a > b))),
            BinaryOp::GreaterEqual => Ok(ComputedView::Value(ValueView::Bool(a >= b))),
            _ => Err(RuntimeError::TypeError),
        },
        (ValueView::Float(a), ValueView::Float(b)) => match op {
            BinaryOp::And | BinaryOp::Or => Err(RuntimeError::TypeError),
            _ => Ok(ComputedView::NeedsFloat { op: float_op_of(op), lhs: a, rhs: b }),
        },
        (ValueView::Bool(a), ValueView::Bool(b)) => match op {
            BinaryOp::And => Ok(ComputedView::Value(ValueView::Bool(a && b))),
            BinaryOp::Or => Ok(ComputedView::Value(ValueView::Bool(a || b))),
            BinaryOp::Equal => Ok(ComputedView::Value(ValueView::Bool(a == b))),
            BinaryOp::NotEqual => Ok(ComputedView::Value(ValueView::Bool(a != b))),
            _ => Err(RuntimeError::TypeError),
        },
        (ValueView::Str(a), ValueView::Str(b)) => match op {
            BinaryOp::Add => Ok(ComputedView::Value(ValueView::Str(a + b))),
            BinaryOp::Equal => Ok(ComputedView::Value(ValueView::Bool(a == b))),
            BinaryOp::NotEqual => Ok(ComputedView::Value(ValueView::Bool(a != b))),
            _ => Err(RuntimeError::TypeError),
        },
        (ValueView::Void, ValueView::Void) => match op {
            BinaryOp::Equal => Ok(ComputedView::Value(ValueView::Bool(true))),
            BinaryOp::NotEqual => Ok(ComputedView::Value(ValueView::Bool(false))),
            _ => Err(RuntimeError::TypeError),
        },
        _ => match op {
            BinaryOp::Equal => Ok(ComputedView::Value(ValueView::Bool(false))),
            BinaryOp::NotEqual => Ok(ComputedView::Value(ValueView::Bool(true))),
            _ => Err(RuntimeError::TypeError),
        },
    }
}

/// What `op value` computes: `not` of a boolean, wrapping negation of an
/// integer, negation of a float handed to the caller; otherwise a type error.
pub open spec fn spec_unary(op: UnaryOp, v: ValueView) -> Result<ComputedView, RuntimeError> {
    match (op, v) {
        (UnaryOp::Not, ValueView::Bool(b)) => Ok(ComputedView::Value(ValueView::Bool(!b))),
        (UnaryOp::Negate, ValueView::Int(i)) => Ok(ComputedView::Value(ValueView::Int(wrap_i32(-i)))),
        (UnaryOp::Negate, ValueView::Float(f)) => Ok(ComputedView::NeedsFloat { op: FloatOp::Negate, lhs: f, rhs: 0 }),
        _ => Err(RuntimeError::TypeError),
    }
}

pub open spec fn result_view(r: Result<Computed, RuntimeError>) -> Result<ComputedView, RuntimeError> {
    match r {
        Ok(c) => Ok(c@),
        Err(e) => Err(e),
    }
}

fn div_i32(a: i32, b: i32) -> (r: i32)
    requires
        b != 0,
    ensures
        r == wrap_i32(trunc_div(a as int, b as int)),
{
    let ua: i64 = if a >= 0 { a as i64 } else { -(a as i64) };
    let ub: i64 = if b >= 0 { b as i64 } else { -(b as i64) };
    let q: i64 = ua / ub;
    assert(0 <= q <= ua) by (nonlinear_arith)
        requires
            0 <= ua,
            0 < ub,
            q == ua / ub,
    ;
    let t: i64 = if (a >= 0) == (b >= 0) { q } else { -q };
    if t == 0x8000_0000i64 {
        i32::MIN
    } else {
        t as i32
    }
}

fn rem_i32(a: i32, b: i32) -> (r: i32)
    requires
        b != 0,
    ensures
        r == wrap_i32(trunc_rem(a as int, b as int)),
{
    let ua: i64 = if a >= 0 { a as i64 } else { -(a as i64) };
    let ub: i64 = if b >= 0 { b as i64 } else { -(b as i64) };
    let m: i64 = ua % ub;
    assert(0 <= m < ub);
    if a >= 0 {
        m as i32
    } else {
        (-m) as i32
    }
}

#[verifier::spinoff_prover]
fn add_wrapping(a: i32, b: i32) -> (r: i32)
    ensures
        r == wrap_i32(a + b),
{
    a.wrapping_add(b)
}

#[verifier::spinoff_prover]
fn sub_wrapping(a: i32, b: i32) -> (r: i32)
    ensures
        r == wrap_i32(a - b),
{
    a.wrapping_sub(b)
}

#[verifier::spinoff_prover]
fn mul_wrapping(a: i32, b: i32) -> (r: i32)
    ensures
        r == wrap_i32(a * b),
{
    a.wrapping_mul(b)
}

fn int_binary(op: BinaryOp, a: i32, b: i32) -> (r: Result<Computed, RuntimeError>)
    ensures
        result_view(r) == spec_binary(op, ValueView::Int(a), ValueView::Int(b)),
{
    match op {
        BinaryOp::Add => Ok(Computed::Value(Value::Int(add_wrapping(a, b)))),
        BinaryOp::Sub => Ok(Computed::Value(Value::Int(sub_wrapping(a, b)))),
        BinaryOp::Mul => Ok(Computed::Value(Value::Int(mul_wrapping(a, b)))),
        BinaryOp::Div => {
            if b == 0 {
                Err(RuntimeError::DivisionByZero)
            } else {
                Ok(Computed::Value(Value::Int(div_i32(a, b))))
            }
        },
        BinaryOp::Modulo => {
            if b == 0 {
                Err(RuntimeError::DivisionByZero)
            } else {
                Ok(Computed::Value(Value::Int(rem_i32(a, b))))
            }
        },
        BinaryOp::Equal => Ok(Computed::Value(Value::Bool(a == b))),
        BinaryOp::NotEqual => Ok(Computed::Value(Value::Bool(a != b))),
        BinaryOp::Less => Ok(Computed::Value(Value::Bool(a < b))),
        BinaryOp::LessEqual => Ok(Computed::Value(Value::Bool(a <= b))),
        BinaryOp::Greater => Ok(Computed::Value(Value::Bool(a > b))),
        BinaryOp::GreaterEqual => Ok(Computed::Value(Value::Bool(a >= b))),
        _ => Err(RuntimeError::TypeError),
    }
}

impl Value {
    pub fn get_type(&self) -> (t: DataType)
        ensures
            t == spec_value_type(self@),
    {
        match self {
            Value::Void => DataType::Void,
            Value::Bool(_) => DataType::Bool,
            Value::Int(_) => DataType::Int,
            Value::Float(_) => DataType::Float,
            Value::String(_) => DataType::String,
        }
    }

    /// Whether a boolean value is `false`; any other value is a type error.
    pub fn is_false(&self) -> (r: Result<bool, RuntimeError>)
        ensures
            r == (match self@ {
                ValueView::Bool(b) => Ok(!b),
                _ => Err::<bool, RuntimeError>(RuntimeError::TypeError),
            }),
    {
        match self {
            Value::Bool(b) => Ok(!*b),
            _ => Err(RuntimeError::TypeError),
        }
    }

    /// Applies a binary operator to `self` (left operand) and `rhs`.
    pub fn binary(&self, op: BinaryOp, rhs: Value) -> (r: Result<Computed, RuntimeError>)
        ensures
            result_view(r) == spec_binary(op, self@, rhs@),
    {
        match (self, rhs) {
            (Value::Int(a), Value::Int(b)) => int_binary(op, *a, b),
            (Value::Float(a), Value::Float(b)) => {
                let f = match op {
                    BinaryOp::Add => FloatOp::Add,
                    BinaryOp::Sub => FloatOp::Sub,
                    BinaryOp::Mul => FloatOp::Mul,
                    BinaryOp::Div => FloatOp::Div,
                    BinaryOp::Modulo => FloatOp::Modulo,
                    BinaryOp::Equal => FloatOp::Equal,
                    BinaryOp::NotEqual => FloatOp::NotEqual,
                    BinaryOp::Less => FloatOp::Less,
                    BinaryOp::LessEqual => FloatOp::LessEqual,
                    BinaryOp::Greater => FloatOp::Greater,
                    BinaryOp::GreaterEqual => FloatOp::GreaterEqual,
                    BinaryOp::And | BinaryOp::Or => {
                        return Err(RuntimeError::TypeError);
                    },
                };
                Ok(Computed::NeedsFloat { op: f, lhs: *a, rhs: b })
            },
            (Value::Bool(a), Value::Bool(b)) => match op {
                BinaryOp::And => Ok(Computed::Value(Value::Bool(*a && b))),
                BinaryOp::Or => Ok(Computed::Value(Value::Bool(*a || b))),
                BinaryOp::Equal => Ok(Computed::Value(Value::Bool(*a == b))),
                BinaryOp::NotEqual => Ok(Computed::Value(Value::Bool(*a != b))),
                _ => Err(RuntimeError::TypeError),
            },
            (Value::String(a), Value::String(b)) => match op {
                BinaryOp::Add => {
                    let mut s = a.clone();
                    crate::text::push_str(&mut s, b.as_str());
                    Ok(Computed::Value(Value::String(s)))
                },
                BinaryOp::Equal => Ok(Computed::Value(Value::Bool(crate::text::str_equal(a.as_str(), b.as_str())))),
                BinaryOp::NotEqual => Ok(Computed::Value(Value::Bool(!crate::text::str_equal(a.as_str(), b.as_str())))),
                _ => Err(RuntimeError::TypeError),
            },
            (Value::Void, Value::Void) => match op {
                BinaryOp::Equal => Ok(Computed::Value(Value::Bool(true))),
                BinaryOp::NotEqual => Ok(Computed::Value(Value::Bool(false))),
                _ => Err(RuntimeError::TypeError),
            },
            _ => match op {
                BinaryOp::Equal => Ok(Computed::Value(Value::Bool(false))),
                BinaryOp::NotEqual => Ok(Computed::Value(Value::Bool(true))),
                _ => Err(RuntimeError::TypeError),
            },
        }
    }

    /// Applies a unary operator to `self`.
    pub fn unary(&self, op: UnaryOp) -> (r: Result<Computed, RuntimeError>)
        ensures
            result_view(r) == spec_unary(op, self@),
    {
        match (op, self) {
            (UnaryOp::Not, Value::Bool(b)) => Ok(Computed::Value(Value::Bool(!*b))),
            (UnaryOp::Negate, Value::Int(i)) => Ok(Computed::Value(Value::Int(if *i == i32::MIN { i32::MIN } else { -*i }))),
            (UnaryOp::Negate, Value::Float(f)) => Ok(Computed::NeedsFloat { op: FloatOp::Negate, lhs: *f, rhs: 0 }),
            _ => Err(RuntimeError::TypeError),
        }
    }
}

/// The plain-data form of a sequence of values.
pub open spec fn values_view(vs: Seq<Value>) -> Seq<ValueView> {
    vs.map_values(|v: Value| v@)
}

/// Whether every argument of `assert` holds: the first that is not a
/// boolean is a type error, the first `false` a failed assertion.
pub open spec fn assert_all(args: Seq<ValueView>) -> Result<(), RuntimeError>
    decreases args.len(),
{
    if args.len() == 0 {
        Ok(())
    } else {
        match args[0] {
            ValueView::Bool(b) => if !b {
                Err(RuntimeError::AssertionFailed)
            } else {
                assert_all(args.drop_first())
            },
            _ => Err(RuntimeError::TypeError),
        }
    }
}

/// Checks the arguments of `assert`, in order.
pub fn check_assertions(args: &Vec<Value>) -> (r: Result<(), RuntimeError>)
    ensures
        r == assert_all(values_view(args@)),
{
    let mut i: usize = 0;
    assert(values_view(args@).skip(0) =~= values_view(args@));
    while i < args.len()
        invariant
            i <= args@.len(),
            assert_all(values_view(args@)) == assert_all(values_view(args@).skip(i as int)),
        decreases args@.len() - i,
    {
        let ghost rest = values_view(args@).skip(i as int);
        assert(rest[0] == args@[i as int]@);
        assert(rest.drop_first() =~= values_view(args@).skip(i + 1));
        if args[i].is_false()? {
            return Err(RuntimeError::AssertionFailed);
        }
        i = i + 1;
    }
    Ok(())
}

/// The type of what a floating-point operation gives: `bool` for the
/// comparisons, `float` for the arithmetic.
pub open spec fn float_op_type(op: FloatOp) -> DataType {
    match op {
        FloatOp::Equal | FloatOp::NotEqual | FloatOp::Less | FloatOp::LessEqual | FloatOp::Greater
        | FloatOp::GreaterEqual => DataType::Bool,
        _ => DataType::Float,
    }
}

/// The type of the value an operation gives, computed here or by the caller.
pub open spec fn computed_type(c: ComputedView) -> DataType {
    match c {
        ComputedView::Value(v) => spec_value_type(v),
        ComputedView::NeedsFloat { op, .. } => float_op_type(op),
    }
}

/// The result `Ok(Value(Bool(b)))`.
pub open spec fn bool_result(b: bool) -> Result<ComputedView, RuntimeError> {
    Ok(ComputedView::Value(ValueView::Bool(b)))
}

/// The result `Ok(Value(Int(n)))`.
pub open spec fn int_result(n: int) -> Result<ComputedView, RuntimeError> {
    Ok(ComputedView::Value(ValueView::Int(n as i32)))
}

/// Wrapping keeps an integer's residue modulo 2^32 and leaves an integer
/// that fits in `i32` as it is.
pub proof fn lemma_wrap_i32(x: int)
    ensures
        (wrap_i32(x) - x) % 0x1_0000_0000 == 0,
        i32::MIN <= x <= i32::MAX ==> wrap_i32(x) == x,
{
}

/// `and`, `or` and `not` on booleans are the logical connectives: `a or b`
/// is true exactly when `a` or `b` is, `a and b` exactly when both are, and
/// `not` turns `a or b` into `not a and not b`.
pub proof fn lemma_boolean_operators(a: bool, b: bool)
    ensures
        spec_binary(BinaryOp::Or, ValueView::Bool(a), ValueView::Bool(b)) == bool_result(a || b),
        spec_binary(BinaryOp::And, ValueView::Bool(a), ValueView::Bool(b)) == bool_result(a && b),
        spec_unary(UnaryOp::Not, ValueView::Bool(a)) == bool_result(!a),
        spec_unary(UnaryOp::Not, ValueView::Bool(a || b))
            == spec_binary(BinaryOp::And, ValueView::Bool(!a), ValueView::Bool(!b)),
        spec_binary(BinaryOp::Or, ValueView::Bool(a), ValueView::Bool(b))
            == spec_binary(BinaryOp::Or, ValueView::Bool(b), ValueView::Bool(a)),
        spec_binary(BinaryOp::Equal, ValueView::Bool(a), ValueView::Bool(b)) == bool_result(a == b),
        spec_binary(BinaryOp::NotEqual, ValueView::Bool(a), ValueView::Bool(b)) == bool_result(a != b),
{
}

/// The comparisons of two integers are the order of the integers: `a < b`
/// is `b > a`, `a >= b` is the negation of `a < b`, `a <= b` that of
/// `a > b`, and `a != b` that of `a == b`.
pub proof fn lemma_integer_comparisons(a: i32, b: i32)
    ensures
        spec_binary(BinaryOp::Less, ValueView::Int(a), ValueView::Int(b)) == bool_result(a < b),
        spec_binary(BinaryOp::LessEqual, ValueView::Int(a), ValueView::Int(b)) == bool_result(a <= b),
        spec_binary(BinaryOp::Greater, ValueView::Int(a), ValueView::Int(b)) == bool_result(a > b),
        spec_binary(BinaryOp::GreaterEqual, ValueView::Int(a), ValueView::Int(b)) == bool_result(a >= b),
        spec_binary(BinaryOp::Equal, ValueView::Int(a), ValueView::Int(b)) == bool_result(a == b),
        spec_binary(BinaryOp::Less, ValueView::Int(a), ValueView::Int(b))
            == spec_binary(BinaryOp::Greater, ValueView::Int(b), ValueView::Int(a)),
        spec_binary(BinaryOp::GreaterEqual, ValueView::Int(a), ValueView::Int(b))
            == bool_result(!(a < b)),
        spec_binary(BinaryOp::LessEqual, ValueView::Int(a), ValueView::Int(b))
            == bool_result(!(a > b)),
        spec_binary(BinaryOp::NotEqual, ValueView::Int(a), ValueView::Int(b))
            == bool_result(!(a == b)),
{
}

/// `+`, `-` and `*` on integers give the exact result when it fits in
/// `i32`, and in any case a result equal to it modulo 2^32.
pub proof fn lemma_integer_arithmetic(a: i32, b: i32)
    ensures
        i32::MIN <= a + b <= i32::MAX ==> spec_binary(BinaryOp::Add, ValueView::Int(a), ValueView::Int(b)) == int_result(a + b),
        i32::MIN <= a - b <= i32::MAX ==> spec_binary(BinaryOp::Sub, ValueView::Int(a), ValueView::Int(b)) == int_result(a - b),
        i32::MIN <= a * b <= i32::MAX ==> spec_binary(BinaryOp::Mul, ValueView::Int(a), ValueView::Int(b)) == int_result(a * b),
        spec_binary(BinaryOp::Add, ValueView::Int(a), ValueView::Int(b)) matches Ok(ComputedView::Value(ValueView::Int(r)))
            && (r - (a + b)) % 0x1_0000_0000 == 0,
        spec_binary(BinaryOp::Sub, ValueView::Int(a), ValueView::Int(b)) matches Ok(ComputedView::Value(ValueView::Int(r)))
            && (r - (a - b)) % 0x1_0000_0000 == 0,
        spec_binary(BinaryOp::Mul, ValueView::Int(a), ValueView::Int(b)) matches Ok(ComputedView::Value(ValueView::Int(r)))
            && (r - a * b) % 0x1_0000_0000 == 0,
{
    lemma_wrap_i32(a + b);
    lemma_wrap_i32(a - b);
    lemma_wrap_i32(a * b);
}

/// Division and remainder of integers by zero fail; otherwise, unless the
/// quotient overflows (`i32::MIN / -1`), they are the truncating division:
/// `q * b + r == a`, with `r` smaller than `b` in size and of the sign of `a`.
pub proof fn lemma_integer_division(a: i32, b: i32)
    ensures
        b == 0 ==> spec_binary(BinaryOp::Div, ValueView::Int(a), ValueView::Int(b)) == Err::<ComputedView, RuntimeError>(RuntimeError::DivisionByZero),
        b == 0 ==> spec_binary(BinaryOp::Modulo, ValueView::Int(a), ValueView::Int(b)) == Err::<ComputedView, RuntimeError>(RuntimeError::DivisionByZero),
        b != 0 && !(a == i32::MIN && b == -1) ==> {
            &&& spec_binary(BinaryOp::Div, ValueView::Int(a), ValueView::Int(b)) matches Ok(ComputedView::Value(ValueView::Int(q)))
            &&& spec_binary(BinaryOp::Modulo, ValueView::Int(a), ValueView::Int(b)) matches Ok(ComputedView::Value(ValueView::Int(r)))
            &&& q * b + r == a
            &&& (if b > 0 { -b < r < b } else { b < r < -b })
            &&& (r == 0 || (r > 0) == (a > 0))
        },
{
    if b != 0 && !(a == i32::MIN && b == -1) {
        lemma_truncating_division(a as int, b as int);
        lemma_wrap_i32(trunc_div(a as int, b as int));
        lemma_wrap_i32(trunc_rem(a as int, b as int));
    }
}

/// `+` on two strings joins them, left operand first; `==` and `!=` on them
/// compare their characters.
pub proof fn lemma_string_operators(a: Seq<char>, b: Seq<char>)
    ensures
        spec_binary(BinaryOp::Add, ValueView::Str(a), ValueView::Str(b))
            == Ok::<ComputedView, RuntimeError>(ComputedView::Value(ValueView::Str(a + b))),
        spec_binary(BinaryOp::Equal, ValueView::Str(a), ValueView::Str(b)) == bool_result(a == b),
        spec_binary(BinaryOp::NotEqual, ValueView::Str(a), ValueView::Str(b)) == bool_result(a != b),
{
}

/// Negating an integer gives its negation when that fits in `i32`
/// (`-i32::MIN` wraps to itself), so negating twice gives the integer back.
pub proof fn lemma_integer_negation(a: i32)
    ensures
        a != i32::MIN ==> spec_unary(UnaryOp::Negate, ValueView::Int(a)) == int_result(-a),
        a == i32::MIN ==> spec_unary(UnaryOp::Negate, ValueView::Int(a)) == int_result(a as int),
        spec_unary(UnaryOp::Negate, ValueView::Int(a)) matches Ok(ComputedView::Value(ValueView::Int(n)))
            && spec_unary(UnaryOp::Negate, ValueView::Int(n)) == int_result(a as int),
{
    lemma_wrap_i32(-a);
    lemma_wrap_i32(a as int);
    if a == i32::MIN {
        assert(wrap_i32(-a) == a);
    }
}

/// The operator that a floating-point operation stands for.
pub open spec fn float_binary_op(f: FloatOp) -> Option<BinaryOp> {
    match f {
        FloatOp::Add => Some(BinaryOp::Add),
        FloatOp::Sub => Some(BinaryOp::Sub),
        FloatOp::Mul => Some(BinaryOp::Mul),
        FloatOp::Div => Some(BinaryOp::Div),
        FloatOp::Modulo => Some(BinaryOp::Modulo),
        FloatOp::Equal => Some(BinaryOp::Equal),
        FloatOp::NotEqual => Some(BinaryOp::NotEqual),
        FloatOp::Less => Some(BinaryOp::Less),
        FloatOp::LessEqual => Some(BinaryOp::LessEqual),
        FloatOp::Greater => Some(BinaryOp::Greater),
        FloatOp::GreaterEqual => Some(BinaryOp::GreaterEqual),
        FloatOp::Negate => None,
    }
}

/// On two floats, every operator but `and` and `or` is handed to the caller
/// as that same operator on the two bit patterns, left operand first;
/// negating a float hands over a negation.
pub proof fn lemma_float_operators_handed_over(op: BinaryOp, a: u64, b: u64)
    ensures
        !(op is And || op is Or) ==> (spec_binary(op, ValueView::Float(a), ValueView::Float(b)) matches
            Ok(ComputedView::NeedsFloat { op: f, lhs, rhs }) && float_binary_op(f) == Some(op) && lhs == a && rhs == b),
        (op is And || op is Or) ==> spec_binary(op, ValueView::Float(a), ValueView::Float(b))
            == Err::<ComputedView, RuntimeError>(RuntimeError::TypeError),
        spec_unary(UnaryOp::Negate, ValueView::Float(a))
            == Ok::<ComputedView, RuntimeError>(ComputedView::NeedsFloat { op: FloatOp::Negate, lhs: a, rhs: 0 }),
{
}

proof fn lemma_truncating_division(a: int, b: int)
    requires
        b != 0,
        i32::MIN <= a <= i32::MAX,
        i32::MIN <= b <= i32::MAX,
        !(a == i32::MIN && b == -1),
    ensures
        trunc_div(a, b) * b + trunc_rem(a, b) == a,
        i32::MIN <= trunc_div(a, b) <= i32::MAX,
        i32::MIN <= trunc_rem(a, b) <= i32::MAX,
        if b > 0 { -b < trunc_rem(a, b) < b } else { b < trunc_rem(a, b) < -b },
        trunc_rem(a, b) == 0 || (trunc_rem(a, b) > 0) == (a > 0),
{
    let ua = if a >= 0 { a } else { -a };
    let ub = if b >= 0 { b } else { -b };
    let q = ua / ub;
    let m = ua % ub;
    assert(q * ub + m == ua && 0 <= m < ub && 0 <= q <= ua) by (nonlinear_arith)
        requires
            0 <= ua,
            0 < ub,
            q == ua / ub,
            m == ua % ub,
    ;
    assert(q <= 0x8000_0000);
    assert(ub == 1 ==> q == ua) by (nonlinear_arith)
        requires
            q * ub + m == ua,
            0 <= m < ub,
    ;
    assert(ub >= 2 ==> q <= ua / 2 + 1) by (nonlinear_arith)
        requires
            q * ub + m == ua,
            0 <= m,
            0 <= q,
    ;
    if (a >= 0) == (b >= 0) {
        assert(trunc_div(a, b) == q);
        assert(q * b + (if a >= 0 { m } else { -m }) == a) by (nonlinear_arith)
            requires
                q * ub + m == ua,
                ua == (if a >= 0 { a } else { -a }),
                ub == (if b >= 0 { b } else { -b }),
                (a >= 0) == (b >= 0),
        ;
    } else {
        assert(trunc_div(a, b) == -q);
        assert((-q) * b + (if a >= 0 { m } else { -m }) == a) by (nonlinear_arith)
            requires
                q * ub + m == ua,
                ua == (if a >= 0 { a } else { -a }),
                ub == (if b >= 0 { b } else { -b }),
                (a >= 0) != (b >= 0),
        ;
    }
}

} // verus!
