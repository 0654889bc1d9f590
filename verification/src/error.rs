use vstd::prelude::*;

use crate::types::{ColumnIndexationBy, FunctionArguments, IndexationV};

verus! {

/// Model of an error raised while concretizing, before any row is processed.
pub ghost enum ConcErrV {
    UnknownFunction(Seq<char>),
    ColumnNotFound(IndexationV),
    NotStaticallyAnalyzable,
    InvalidArity(FunctionArguments, int),
    InvalidArgumentType,
}

/// An error raised while concretizing an expression against the headers.
/// These are fatal regardless of the error policy.
pub enum ConcretizationError {
    UnknownFunction(String),
    ColumnNotFound(ColumnIndexationBy),
    NotStaticallyAnalyzable,
    InvalidArity(FunctionArguments, usize),
    InvalidArgumentType,
}

impl View for ConcretizationError {
    type V = ConcErrV;

    open spec fn view(&self) -> ConcErrV {
        match self {
            ConcretizationError::UnknownFunction(n) => ConcErrV::UnknownFunction(n@),
            ConcretizationError::ColumnNotFound(idx) => ConcErrV::ColumnNotFound(idx@),
            ConcretizationError::NotStaticallyAnalyzable => ConcErrV::NotStaticallyAnalyzable,
            ConcretizationError::InvalidArity(a, n) => ConcErrV::InvalidArity(*a, *n as int),
            ConcretizationError::InvalidArgumentType => ConcErrV::InvalidArgumentType,
        }
    }
}

/// Model of a per-row evaluation error.
pub ghost enum EvalErrV {
    ColumnNotFound(IndexationV),
    NotAList,
    InvalidArity(FunctionArguments, int),
    UnknownIdentifier(Seq<char>),
    Custom(Seq<char>),
}

/// A per-row evaluation error, before it is annotated with the name of the
/// function it arose in.
pub enum EvaluationError {
    ColumnNotFound(ColumnIndexationBy),
    NotAList,
    InvalidArity(FunctionArguments, usize),
    UnknownIdentifier(String),
    Custom(String),
}

impl View for EvaluationError {
    type V = EvalErrV;

    open spec fn view(&self) -> EvalErrV {
        match self {
            EvaluationError::ColumnNotFound(idx) => EvalErrV::ColumnNotFound(idx@),
            EvaluationError::NotAList => EvalErrV::NotAList,
            EvaluationError::InvalidArity(a, n) => EvalErrV::InvalidArity(*a, *n as int),
            EvaluationError::UnknownIdentifier(n) => EvalErrV::UnknownIdentifier(n@),
            EvaluationError::Custom(m) => EvalErrV::Custom(m@),
        }
    }
}

/// Model of an evaluation error annotated with its originating function name,
/// or anonymous when it arose outside a named call.
pub ghost struct SpecErrV {
    pub name: Option<Seq<char>>,
    pub err: EvalErrV,
}

/// An evaluation error annotated with the name of the function it arose in.
pub struct SpecifiedEvaluationError {
    pub function_name: Option<String>,
    pub error: EvaluationError,
}

impl View for SpecifiedEvaluationError {
    type V = SpecErrV;

    open spec fn view(&self) -> SpecErrV {
        SpecErrV {
            name: match &self.function_name {
                Some(n) => Some(n@),
                None => None,
            },
            err: self.error@,
        }
    }
}

/// An error carrying the given function name.
pub open spec fn named_err(name: Seq<char>, err: EvalErrV) -> SpecErrV {
    SpecErrV { name: Some(name), err }
}

/// An error outside any named call.
pub open spec fn anon_err(err: EvalErrV) -> SpecErrV {
    SpecErrV { name: None, err }
}

impl EvaluationError {
    /// Annotates this error with the function name it arose in.
    pub fn specify(self, name: String) -> (r: SpecifiedEvaluationError)
        ensures
            r@ == named_err(name@, self@),
    {
        SpecifiedEvaluationError { function_name: Some(name), error: self }
    }

    /// Marks this error as arising outside any named call.
    pub fn anonymous(self) -> (r: SpecifiedEvaluationError)
        ensures
            r@ == anon_err(self@),
    {
        SpecifiedEvaluationError { function_name: None, error: self }
    }
}

} // verus!
