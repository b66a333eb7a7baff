use vstd::prelude::*;
use crate::errors::RuntimeError;
use crate::text::{str_equal, string_of};
use crate::value::{Value, assert_all, check_assertions, values_view};

verus! {

/// The functions built into the language.
#[derive(Debug, Clone, Copy, PartialEq, Eq, Structural)]
pub enum BuiltinFunction {
    Print,
    Assert,
    Format,
}

/// The name under which a built-in function is called.
pub open spec fn spec_builtin_name(f: BuiltinFunction) -> Seq<char> {
    match f {
        BuiltinFunction::Print => "print"@,
        BuiltinFunction::Assert => "assert"@,
        BuiltinFunction::Format => "format"@,
    }
}

/// The built-in function called `name`, if any.
pub open spec fn spec_builtin_named(name: Seq<char>) -> Option<BuiltinFunction> {
    if name == "print"@ {
        Some(BuiltinFunction::Print)
    } else if name == "assert"@ {
        Some(BuiltinFunction::Assert)
    } else if name == "format"@ {
        Some(BuiltinFunction::Format)
    } else {
        None
    }
}

/// What running a built-in function gives: a value, or the output that the
/// caller produces (printing the values, or formatting them into one string).
#[derive(Debug)]
pub enum BuiltinOutcome {
    Value(Value),
    Print(Vec<Value>),
    Format(Vec<Value>),
}

impl BuiltinFunction {
    /// Runs the function on `args`: `assert` checks that each argument is
    /// `true` and gives `Void`; `print` and `format` hand their arguments to
    /// the caller, who prints them (and takes `Void` as the result) or
    /// formats them.
    pub fn execute(&self, args: Vec<Value>) -> (r: Result<BuiltinOutcome, RuntimeError>)
        ensures
            match *self {
                BuiltinFunction::Print => r matches Ok(BuiltinOutcome::Print(v)) && v@ == args@,
                BuiltinFunction::Format => r matches Ok(BuiltinOutcome::Format(v)) && v@ == args@,
                BuiltinFunction::Assert => match assert_all(values_view(args@)) {
                    Ok(_) => r matches Ok(BuiltinOutcome::Value(v)) && v == Value::Void,
                    Err(e) => r == Err::<BuiltinOutcome, RuntimeError>(e),
                },
            },
    {
        match self {
            BuiltinFunction::Print => Ok(BuiltinOutcome::Print(args)),
            BuiltinFunction::Format => Ok(BuiltinOutcome::Format(args)),
            BuiltinFunction::Assert => {
                check_assertions(&args)?;
                Ok(BuiltinOutcome::Value(Value::Void))
            },
        }
    }

    pub fn as_str(&self) -> (s: &'static str)
        ensures
            s@ == spec_builtin_name(*self),
    {
        proof {
            reveal_strlit("print");
            reveal_strlit("assert");
            reveal_strlit("format");
        }
        match self {
            BuiltinFunction::Print => "print",
            BuiltinFunction::Assert => "assert",
            BuiltinFunction::Format => "format",
        }
    }

    /// The names of all built-in functions, each once.
    pub fn str_variants() -> (v: Vec<&'static str>)
        ensures
            v@.len() == 3,
            v@[0]@ == "print"@,
            v@[1]@ == "assert"@,
            v@[2]@ == "format"@,
            forall|i: int, j: int| 0 <= i < j < v@.len() ==> v@[i]@ != v@[j]@,
    {
        proof {
            reveal_strlit("print");
            reveal_strlit("assert");
            reveal_strlit("format");
            assert("print"@[0] != "assert"@[0]);
            assert("print"@.len() != "format"@.len());
            assert("assert"@[0] != "format"@[0]);
        }
        let mut v: Vec<&'static str> = Vec::new();
        v.push("print");
        v.push("assert");
        v.push("format");
        v
    }

    /// Whether `name` is the name of a built-in function.
    pub fn is_builtin_name(name: &str) -> (b: bool)
        ensures
            b == (spec_builtin_named(name@) is Some),
    {
        Self::from_name(name).is_ok()
    }

    /// The built-in function called `name`; any other name is refused
    /// with "Not a builtin function".
    pub fn from_name(name: &str) -> (r: Result<Self, String>)
        ensures
            r matches Ok(f) ==> spec_builtin_named(name@) == Some(f),
            r matches Err(m) ==> spec_builtin_named(name@) is None && m@ == "Not a builtin function"@,
    {
        if str_equal(name, "print") {
            Ok(BuiltinFunction::Print)
        } else if str_equal(name, "assert") {
            Ok(BuiltinFunction::Assert)
        } else if str_equal(name, "format") {
            Ok(BuiltinFunction::Format)
        } else {
            Err(string_of("Not a builtin function"))
        }
    }
}

impl core::str::FromStr for BuiltinFunction {
    type Err = String;

    fn from_str(s: &str) -> (r: Result<Self, String>)
        ensures
            r matches Ok(f) ==> spec_builtin_named(s@) == Some(f),
            r matches Err(m) ==> spec_builtin_named(s@) is None && m@ == "Not a builtin function"@,
    {
        Self::from_name(s)
    }
}

} // verus!
