use vstd::prelude::*;

use crate::convert::{spec_to_int, value_to_int};
use crate::error::{EvalErrV, EvaluationError};
use crate::types::FunctionArguments;
use crate::value::{dv_views, values_eq, DynamicValue, Val};

verus! {

/// The normal-function registry: every name the evaluator can dispatch to
/// outside the special forms, with its accepted argument count.
pub open spec fn spec_get_function(name: Seq<char>) -> Option<FunctionArguments> {
    if name == "add"@ || name == "sub"@ || name == "mul"@ || name == "div"@ || name == "gt"@
        || name == "lt"@ || name == "eq"@ {
        Some(FunctionArguments { min: 2, max: 2 })
    } else if name == "not"@ {
        Some(FunctionArguments { min: 1, max: 1 })
    } else {
        None
    }
}

/// Looks a name up in the normal-function registry.
pub fn get_function(name: &String) -> (r: Option<FunctionArguments>)
    ensures
        r == spec_get_function(name@),
{
    if *name == "add".to_owned() || *name == "sub".to_owned() || *name == "mul".to_owned()
        || *name == "div".to_owned() || *name == "gt".to_owned() || *name == "lt".to_owned()
        || *name == "eq".to_owned() {
        Some(FunctionArguments::binary())
    } else if *name == "not".to_owned() {
        Some(FunctionArguments::unary())
    } else {
        None
    }
}

/// Truncating signed division, as the machine performs it.
pub open spec fn spec_div_trunc(x: int, d: int) -> int {
    if x == 0 {
        0
    } else if x > 0 && d > 0 {
        x / d
    } else if x < 0 && d < 0 {
        (x * -1) / (d * -1)
    } else if x < 0 {
        ((x * -1) / d) * -1
    } else {
        (x / (d * -1)) * -1
    }
}

/// The result of a two-argument arithmetic operation once both operands have
/// been coerced to integers.
pub open spec fn spec_arith(name: Seq<char>, a: int, b: int) -> Result<Val, EvalErrV> {
    if name == "add"@ {
        if i64::MIN <= a + b <= i64::MAX {
            Ok(Val::Int((a + b) as i64))
        } else {
            Err(EvalErrV::Custom("integer overflow"@))
        }
    } else if name == "sub"@ {
        if i64::MIN <= a - b <= i64::MAX {
            Ok(Val::Int((a - b) as i64))
        } else {
            Err(EvalErrV::Custom("integer overflow"@))
        }
    } else if name == "mul"@ {
        if i64::MIN <= a * b <= i64::MAX {
            Ok(Val::Int((a * b) as i64))
        } else {
            Err(EvalErrV::Custom("integer overflow"@))
        }
    } else if name == "div"@ {
        if b == 0 {
            Err(EvalErrV::Custom("division by zero"@))
        } else if i64::MIN <= spec_div_trunc(a, b) <= i64::MAX {
            Ok(Val::Int(spec_div_trunc(a, b) as i64))
        } else {
            Err(EvalErrV::Custom("integer overflow"@))
        }
    } else if name == "gt"@ {
        Ok(Val::Bool(a > b))
    } else {
        Ok(Val::Bool(a < b))
    }
}

/// What a normal function returns on given argument values. Arithmetic and
/// comparison functions coerce both operands to integers and refuse values
/// that do not read as numbers; `eq` is structural equality; `not` negates
/// truthiness.
pub open spec fn spec_apply_normal(name: Seq<char>, args: Seq<Val>) -> Result<Val, EvalErrV> {
    match spec_get_function(name) {
        None => Err(EvalErrV::Custom("unknown function"@)),
        Some(fa) => if !fa.spec_accepts(args.len() as int) {
            Err(EvalErrV::InvalidArity(fa, args.len() as int))
        } else if name == "eq"@ {
            Ok(Val::Bool(args[0] == args[1]))
        } else if name == "not"@ {
            Ok(Val::Bool(!crate::value::truthy(args[0])))
        } else {
            match (spec_to_int(args[0]), spec_to_int(args[1])) {
                (Some(a), Some(b)) => spec_arith(name, a as int, b as int),
                _ => Err(EvalErrV::Custom("cannot cast to number"@)),
            }
        },
    }
}

/// Dispatches a normal function on evaluated arguments.
pub fn apply_normal(name: &String, args: &Vec<DynamicValue>) -> (r: Result<
    DynamicValue,
    EvaluationError,
>)
    ensures
        match r {
            Ok(v) => spec_apply_normal(name@, dv_views(args@)) == Ok::<Val, EvalErrV>(v@),
            Err(e) => spec_apply_normal(name@, dv_views(args@)) == Err::<Val, EvalErrV>(e@),
        },
{
    proof {
        crate::value::lemma_dv_views_index(args@);
    }
    let fa = match get_function(name) {
        None => {
            return Err(EvaluationError::Custom("unknown function".to_owned()));
        },
        Some(fa) => fa,
    };
    if !fa.accepts(args.len()) {
        return Err(EvaluationError::InvalidArity(fa, args.len()));
    }
    if *name == "eq".to_owned() {
        return Ok(DynamicValue::Bool(values_eq(&args[0], &args[1])));
    }
    if *name == "not".to_owned() {
        return Ok(DynamicValue::Bool(args[0].is_falsey()));
    }
    let a = match value_to_int(&args[0]) {
        Some(a) => a,
        None => {
            return Err(EvaluationError::Custom("cannot cast to number".to_owned()));
        },
    };
    let b = match value_to_int(&args[1]) {
        Some(b) => b,
        None => {
            return Err(EvaluationError::Custom("cannot cast to number".to_owned()));
        },
    };
    if *name == "add".to_owned() {
        match a.checked_add(b) {
            Some(c) => Ok(DynamicValue::Int(c)),
            None => Err(EvaluationError::Custom("integer overflow".to_owned())),
        }
    } else if *name == "sub".to_owned() {
        match a.checked_sub(b) {
            Some(c) => Ok(DynamicValue::Int(c)),
            None => Err(EvaluationError::Custom("integer overflow".to_owned())),
        }
    } else if *name == "mul".to_owned() {
        match a.checked_mul(b) {
            Some(c) => Ok(DynamicValue::Int(c)),
            None => Err(EvaluationError::Custom("integer overflow".to_owned())),
        }
    } else if *name == "div".to_owned() {
        if b == 0 {
            Err(EvaluationError::Custom("division by zero".to_owned()))
        } else {
            match a.checked_div(b) {
                Some(c) => Ok(DynamicValue::Int(c)),
                None => Err(EvaluationError::Custom("integer overflow".to_owned())),
            }
        }
    } else if *name == "gt".to_owned() {
        Ok(DynamicValue::Bool(a > b))
    } else {
        Ok(DynamicValue::Bool(a < b))
    }
}

} // verus!
