use vstd::prelude::*;

use crate::expr::SpecialOp;
use crate::types::FunctionArguments;

verus! {

/// The comptime role of a special function: how the concretizer folds it
/// against the headers.
#[derive(Clone, Copy, PartialEq, Eq, Structural, Debug)]
pub enum ComptimeOp {
    Col,
    ColOpt,
    Cols,
    Headers,
}

/// A special-function registry entry: an optional comptime role, an optional
/// runtime role, and the accepted argument count.
#[derive(Clone, Copy, PartialEq, Eq, Structural, Debug)]
pub struct SpecialFunction {
    pub comptime: Option<ComptimeOp>,
    pub runtime: Option<SpecialOp>,
    pub arity: FunctionArguments,
}

/// The special-function registry, by name.
pub open spec fn spec_get_special(name: Seq<char>) -> Option<SpecialFunction> {
    if name == "col"@ {
        Some(
            SpecialFunction {
                comptime: Some(ComptimeOp::Col),
                runtime: Some(SpecialOp::Col),
                arity: FunctionArguments { min: 1, max: 2 },
            },
        )
    } else if name == "col?"@ {
        Some(
            SpecialFunction {
                comptime: Some(ComptimeOp::ColOpt),
                runtime: Some(SpecialOp::ColOpt),
                arity: FunctionArguments { min: 1, max: 2 },
            },
        )
    } else if name == "cols"@ {
        Some(
            SpecialFunction {
                comptime: Some(ComptimeOp::Cols),
                runtime: None,
                arity: FunctionArguments { min: 0, max: 2 },
            },
        )
    } else if name == "headers"@ {
        Some(
            SpecialFunction {
                comptime: Some(ComptimeOp::Headers),
                runtime: None,
                arity: FunctionArguments { min: 0, max: 2 },
            },
        )
    } else if name == "index"@ {
        Some(
            SpecialFunction {
                comptime: None,
                runtime: Some(SpecialOp::Index),
                arity: FunctionArguments { min: 0, max: 0 },
            },
        )
    } else if name == "if"@ {
        Some(
            SpecialFunction {
                comptime: None,
                runtime: Some(SpecialOp::If),
                arity: FunctionArguments { min: 2, max: 3 },
            },
        )
    } else if name == "unless"@ {
        Some(
            SpecialFunction {
                comptime: None,
                runtime: Some(SpecialOp::Unless),
                arity: FunctionArguments { min: 2, max: 3 },
            },
        )
    } else if name == "try"@ {
        Some(
            SpecialFunction {
                comptime: None,
                runtime: Some(SpecialOp::Try),
                arity: FunctionArguments { min: 1, max: 1 },
            },
        )
    } else if name == "map"@ {
        Some(
            SpecialFunction {
                comptime: None,
                runtime: Some(SpecialOp::MapList),
                arity: FunctionArguments { min: 2, max: 2 },
            },
        )
    } else if name == "filter"@ {
        Some(
            SpecialFunction {
                comptime: None,
                runtime: Some(SpecialOp::FilterList),
                arity: FunctionArguments { min: 2, max: 2 },
            },
        )
    } else {
        None
    }
}

/// Looks a name up in the special-function registry. `col`, `col?`, `cols`
/// and `headers` have a comptime role because they rely on the header index;
/// `if`, `unless` and `try` short-circuit; `map` and `filter` bind lambda
/// parameters ahead of evaluation; `index` reads driver-supplied data.
pub fn get_special_function(name: &String) -> (r: Option<SpecialFunction>)
    ensures
        r == spec_get_special(name@),
{
    if *name == "col".to_owned() {
        Some(
            SpecialFunction {
                comptime: Some(ComptimeOp::Col),
                runtime: Some(SpecialOp::Col),
                arity: FunctionArguments::with_range(1, 2),
            },
        )
    } else if *name == "col?".to_owned() {
        Some(
            SpecialFunction {
                comptime: Some(ComptimeOp::ColOpt),
                runtime: Some(SpecialOp::ColOpt),
                arity: FunctionArguments::with_range(1, 2),
            },
        )
    } else if *name == "cols".to_owned() {
        Some(
            SpecialFunction {
                comptime: Some(ComptimeOp::Cols),
                runtime: None,
                arity: FunctionArguments::with_range(0, 2),
            },
        )
    } else if *name == "headers".to_owned() {
        Some(
            SpecialFunction {
                comptime: Some(ComptimeOp::Headers),
                runtime: None,
                arity: FunctionArguments::with_range(0, 2),
            },
        )
    } else if *name == "index".to_owned() {
        Some(
            SpecialFunction {
                comptime: None,
                runtime: Some(SpecialOp::Index),
                arity: FunctionArguments::nullary(),
            },
        )
    } else if *name == "if".to_owned() {
        Some(
            SpecialFunction {
                comptime: None,
                runtime: Some(SpecialOp::If),
                arity: FunctionArguments::with_range(2, 3),
            },
        )
    } else if *name == "unless".to_owned() {
        Some(
            SpecialFunction {
                comptime: None,
                runtime: Some(SpecialOp::Unless),
                arity: FunctionArguments::with_range(2, 3),
            },
        )
    } else if *name == "try".to_owned() {
        Some(
            SpecialFunction {
                comptime: None,
                runtime: Some(SpecialOp::Try),
                arity: FunctionArguments::unary(),
            },
        )
    } else if *name == "map".to_owned() {
        Some(
            SpecialFunction {
                comptime: None,
                runtime: Some(SpecialOp::MapList),
                arity: FunctionArguments::binary(),
            },
        )
    } else if *name == "filter".to_owned() {
        Some(
            SpecialFunction {
                comptime: None,
                runtime: Some(SpecialOp::FilterList),
                arity: FunctionArguments::binary(),
            },
        )
    } else {
        None
    }
}

} // verus!
