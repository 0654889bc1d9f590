use vstd::prelude::*;

use crate::convert::{spec_ser, spec_udec, serialize_value, u64_dec};
use crate::error::{ConcErrV, ConcretizationError, SpecErrV, SpecifiedEvaluationError};
use crate::evaluator::spec_eval;
use crate::expr::{CExprV, ConcreteExpr, ParsedExpr};
use crate::interpreter::{concretize, spec_concretize, EvaluationContext};
use crate::record::{record_cells, record_clone, record_new, record_push};
use crate::types::BindingV;
use crate::value::{truthy, Val};

verus! {

/// What a row-processing command does with each evaluated row: append the
/// value as a new cell, keep the row when the value is truthy, or discard
/// the value.
#[derive(Clone, Copy, PartialEq, Eq, Structural, Debug)]
pub enum Mode {
    MapRows,
    FilterRows,
    Foreach,
}

/// What the driver does with a per-row evaluation error.
#[derive(Clone, Copy, PartialEq, Eq, Structural, Debug)]
pub enum ErrorPolicy {
    Panic,
    Ignore,
    Log,
}

/// The error-policy names accepted on the command line.
pub open spec fn spec_policy_from_name(name: Seq<char>) -> Option<ErrorPolicy> {
    if name == "panic"@ {
        Some(ErrorPolicy::Panic)
    } else if name == "ignore"@ {
        Some(ErrorPolicy::Ignore)
    } else if name == "log"@ {
        Some(ErrorPolicy::Log)
    } else {
        None
    }
}

impl ErrorPolicy {
    /// Reads a policy name; unknown names are refused and make the hosting
    /// command fail its configuration.
    pub fn try_from_restricted(name: &String) -> (r: Option<ErrorPolicy>)
        ensures
            r == spec_policy_from_name(name@),
    {
        if *name == "panic".to_owned() {
            Some(ErrorPolicy::Panic)
        } else if *name == "ignore".to_owned() {
            Some(ErrorPolicy::Ignore)
        } else if *name == "log".to_owned() {
            Some(ErrorPolicy::Log)
        } else {
            None
        }
    }
}

/// Model of one reported row error.
pub ghost struct RowErrV {
    pub row: int,
    pub err: SpecErrV,
}

/// One evaluation error reported by the driver, with the row it arose on.
pub struct RowError {
    pub row: usize,
    pub error: SpecifiedEvaluationError,
}

impl View for RowError {
    type V = RowErrV;

    open spec fn view(&self) -> RowErrV {
        RowErrV { row: self.row as int, err: self.error@ }
    }
}

/// What a run produces: the output rows, in input order, and the errors
/// reported under the `log` policy.
pub struct RunOutput {
    pub rows: Vec<csv::ByteRecord>,
    pub errors: Vec<RowError>,
}

/// Model of a fatal driver error.
pub ghost enum RunErrV {
    Concretization(ConcErrV),
    Evaluation(int, SpecErrV),
}

/// A fatal driver error: concretization failed before any row was processed,
/// or a row failed under the `panic` policy.
pub enum RunError {
    Concretization(ConcretizationError),
    Evaluation(usize, SpecifiedEvaluationError),
}

impl View for RunError {
    type V = RunErrV;

    open spec fn view(&self) -> RunErrV {
        match self {
            RunError::Concretization(e) => RunErrV::Concretization(e@),
            RunError::Evaluation(i, e) => RunErrV::Evaluation(*i as int, e@),
        }
    }
}

/// The cells of a sequence of byte records.
pub open spec fn rows_view(rows: Seq<csv::ByteRecord>) -> Seq<Seq<Seq<u8>>> {
    Seq::new(rows.len(), |i: int| record_cells(rows[i]))
}

/// The model of the reported error list.
pub open spec fn errs_view(errs: Seq<RowError>) -> Seq<RowErrV> {
    Seq::new(errs.len(), |i: int| errs[i]@)
}

/// The rows one evaluated row contributes to the output.
pub open spec fn spec_mode_rows(mode: Mode, rowcells: Seq<Seq<u8>>, v: Val) -> Seq<Seq<Seq<u8>>> {
    match mode {
        Mode::MapRows => seq![rowcells.push(spec_ser(v))],
        Mode::FilterRows => if truthy(v) {
            seq![rowcells]
        } else {
            Seq::empty()
        },
        Mode::Foreach => Seq::empty(),
    }
}

/// The driver's walk over the rows from position `i` on: each row is
/// evaluated with its 0-based index; an error aborts under `panic`, is
/// reported and replaced by null under `log`, and is silently replaced by
/// null under `ignore`. Output rows keep input order.
pub open spec fn spec_run_rows(
    cv: CExprV,
    rows: Seq<Seq<Seq<u8>>>,
    i: int,
    hdrs: Seq<Seq<u8>>,
    mode: Mode,
    policy: ErrorPolicy,
) -> Result<(Seq<Seq<Seq<u8>>>, Seq<RowErrV>), (int, SpecErrV)>
    decreases rows.len() - i,
{
    if i < 0 || i >= rows.len() {
        Ok((Seq::empty(), Seq::empty()))
    } else {
        match spec_eval(cv, Some(i), rows[i], hdrs, Seq::<BindingV>::empty()) {
            Err(e) => if policy == ErrorPolicy::Panic {
                Err((i, e))
            } else {
                match spec_run_rows(cv, rows, i + 1, hdrs, mode, policy) {
                    Err(x) => Err(x),
                    Ok((orows, ologs)) => Ok(
                        (
                            spec_mode_rows(mode, rows[i], Val::Null) + orows,
                            (if policy == ErrorPolicy::Log {
                                seq![RowErrV { row: i, err: e }]
                            } else {
                                Seq::<RowErrV>::empty()
                            }) + ologs,
                        ),
                    ),
                }
            },
            Ok(v) => match spec_run_rows(cv, rows, i + 1, hdrs, mode, policy) {
                Err(x) => Err(x),
                Ok((orows, ologs)) => Ok((spec_mode_rows(mode, rows[i], v) + orows, ologs)),
            },
        }
    }
}

/// The driver contract: the expression is concretized once against the
/// headers, then evaluated against every row in order.
pub open spec fn spec_run(
    p: ParsedExpr,
    hdrs: Seq<Seq<u8>>,
    rows: Seq<Seq<Seq<u8>>>,
    mode: Mode,
    policy: ErrorPolicy,
) -> Result<(Seq<Seq<Seq<u8>>>, Seq<RowErrV>), RunErrV> {
    match spec_concretize(p, hdrs) {
        Err(e) => Err(RunErrV::Concretization(e)),
        Ok(cv) => match spec_run_rows(cv, rows, 0, hdrs, mode, policy) {
            Err((i, e)) => Err(RunErrV::Evaluation(i, e)),
            Ok(x) => Ok(x),
        },
    }
}

/// Walks the rows from position `i` on, per `spec_run_rows`.
fn run_rows_from(
    ce: &ConcreteExpr,
    rows: &Vec<csv::ByteRecord>,
    i: usize,
    context: &EvaluationContext,
    mode: Mode,
    policy: ErrorPolicy,
) -> (r: Result<RunOutput, RunError>)
    requires
        i <= rows@.len(),
    ensures
        ({
            let s = spec_run_rows(
                ce@,
                rows_view(rows@),
                i as int,
                context.spec_headers(),
                mode,
                policy,
            );
            match r {
                Ok(out) => s == Ok::<_, (int, SpecErrV)>(
                    (rows_view(out.rows@), errs_view(out.errors@)),
                ),
                Err(RunError::Evaluation(j, e)) => s == Err::<(Seq<Seq<Seq<u8>>>, Seq<RowErrV>), _>(
                    (j as int, e@),
                ),
                Err(RunError::Concretization(_)) => false,
            }
        }),
    decreases rows@.len() - i,
{
    if i >= rows.len() {
        let r = RunOutput { rows: Vec::new(), errors: Vec::new() };
        proof {
            assert(rows_view(r.rows@) =~= Seq::<Seq<Seq<u8>>>::empty());
            assert(errs_view(r.errors@) =~= Seq::<RowErrV>::empty());
        }
        return Ok(r);
    }
    proof {
        assert(rows_view(rows@)[i as int] == record_cells(rows@[i as int]));
    }
    let (value, logged): (crate::value::DynamicValue, Option<RowError>) = match eval_row(
        ce,
        rows,
        i,
        context,
    ) {
        Ok(v) => (v, None),
        Err(e) => {
            match policy {
                ErrorPolicy::Panic => {
                    return Err(RunError::Evaluation(i, e));
                },
                ErrorPolicy::Ignore => (crate::value::DynamicValue::Null, None),
                ErrorPolicy::Log => (
                    crate::value::DynamicValue::Null,
                    Some(RowError { row: i, error: e }),
                ),
            }
        },
    };
    let rest = match run_rows_from(ce, rows, i + 1, context, mode, policy) {
        Ok(out) => out,
        Err(e) => {
            return Err(e);
        },
    };
    let ghost rest_rows = rest.rows@;
    let ghost rest_errs = rest.errors@;
    let mut out_rows: Vec<csv::ByteRecord> = Vec::new();
    match mode {
        Mode::MapRows => {
            let mut rec = record_clone_at(rows, i);
            let cell = serialize_value(&value);
            record_push(&mut rec, cell.as_slice());
            out_rows.push(rec);
        },
        Mode::FilterRows => {
            if value.is_truthy() {
                let rec = record_clone_at(rows, i);
                out_rows.push(rec);
            }
        },
        Mode::Foreach => {},
    }
    proof {
        assert(rows_view(out_rows@) =~= spec_mode_rows(mode, rows_view(rows@)[i as int], value@));
    }
    let ghost loggedg = logged;
    let mut out_errors: Vec<RowError> = Vec::new();
    match logged {
        Some(le) => {
            out_errors.push(le);
        },
        None => {},
    }
    let ghost head_rows = rows_view(out_rows@);
    let ghost head_errs = errs_view(out_errors@);
    proof {
        match loggedg {
            Some(le) => {
                assert(head_errs =~= seq![le@]);
            },
            None => {
                assert(head_errs =~= Seq::<RowErrV>::empty());
            },
        }
    }
    let mut rest_mut_rows = rest.rows;
    let mut rest_mut_errors = rest.errors;
    out_rows.append(&mut rest_mut_rows);
    out_errors.append(&mut rest_mut_errors);
    proof {
        assert(rows_view(out_rows@) =~= head_rows + rows_view(rest_rows));
        assert(errs_view(out_errors@) =~= head_errs + errs_view(rest_errs));
    }
    Ok(RunOutput { rows: out_rows, errors: out_errors })
}

/// Evaluates the expression against one row, with its index.
fn eval_row(
    ce: &ConcreteExpr,
    rows: &Vec<csv::ByteRecord>,
    i: usize,
    context: &EvaluationContext,
) -> (r: Result<crate::value::DynamicValue, SpecifiedEvaluationError>)
    requires
        i < rows@.len(),
    ensures
        ({
            let s = spec_eval(
                ce@,
                Some(i as int),
                record_cells(rows@[i as int]),
                context.spec_headers(),
                Seq::<BindingV>::empty(),
            );
            match r {
                Ok(v) => s == Ok::<Val, SpecErrV>(v@),
                Err(e) => s == Err::<Val, SpecErrV>(e@),
            }
        }),
{
    ce.evaluate(Some(i), &rows[i], context, None)
}

/// A copy of one row.
fn record_clone_at(rows: &Vec<csv::ByteRecord>, i: usize) -> (r: csv::ByteRecord)
    requires
        i < rows@.len(),
    ensures
        record_cells(r) == record_cells(rows@[i as int]),
{
    record_clone(&rows[i])
}

/// Runs a row-processing command over in-memory rows: concretizes the
/// expression once against the headers, then evaluates it against every row
/// in input order, applying the mode and the error policy, per `spec_run`.
pub fn run_rows(
    expr: &ParsedExpr,
    headers: &csv::ByteRecord,
    rows: &Vec<csv::ByteRecord>,
    mode: Mode,
    policy: ErrorPolicy,
) -> (r: Result<RunOutput, RunError>)
    ensures
        ({
            let s = spec_run(*expr, record_cells(*headers), rows_view(rows@), mode, policy);
            match r {
                Ok(out) => s == Ok::<_, RunErrV>((rows_view(out.rows@), errs_view(out.errors@))),
                Err(e) => s == Err::<(Seq<Seq<Seq<u8>>>, Seq<RowErrV>), RunErrV>(e@),
            }
        }),
{
    let context = EvaluationContext::new(headers);
    let ce = match concretize(expr, &context) {
        Ok(ce) => ce,
        Err(e) => {
            return Err(RunError::Concretization(e));
        },
    };
    run_rows_from(&ce, rows, 0, &context, mode, policy)
}

/// The foreach command core: evaluates the expression for each row of the
/// given records but produces no output rows; errors are reported per the
/// error policy.
pub fn run(
    expr: &ParsedExpr,
    headers: &csv::ByteRecord,
    rows: &Vec<csv::ByteRecord>,
    policy: ErrorPolicy,
) -> (r: Result<RunOutput, RunError>)
    ensures
        ({
            let s = spec_run(*expr, record_cells(*headers), rows_view(rows@), Mode::Foreach, policy);
            match r {
                Ok(out) => s == Ok::<_, RunErrV>((rows_view(out.rows@), errs_view(out.errors@)))
                    && out.rows@.len() == 0,
                Err(e) => s == Err::<(Seq<Seq<Seq<u8>>>, Seq<RowErrV>), RunErrV>(e@),
            }
        }),
{
    let out = match run_rows(expr, headers, rows, Mode::Foreach, policy) {
        Ok(out) => out,
        Err(e) => {
            return Err(e);
        },
    };
    proof {
        match spec_concretize(*expr, record_cells(*headers)) {
            Ok(cv) => {
                lemma_foreach_no_rows(
                    cv,
                    rows_view(rows@),
                    0,
                    record_cells(*headers),
                    policy,
                    rows_view(out.rows@),
                    errs_view(out.errors@),
                );
            },
            Err(_) => {},
        }
        assert(rows_view(out.rows@).len() == out.rows@.len());
    }
    Ok(out)
}

/// In foreach mode the driver never writes output rows.
pub proof fn lemma_foreach_no_rows(
    cv: CExprV,
    rows: Seq<Seq<Seq<u8>>>,
    i: int,
    hdrs: Seq<Seq<u8>>,
    policy: ErrorPolicy,
    orows: Seq<Seq<Seq<u8>>>,
    ologs: Seq<RowErrV>,
)
    requires
        spec_run_rows(cv, rows, i, hdrs, Mode::Foreach, policy) == Ok::<_, (int, SpecErrV)>(
            (orows, ologs),
        ),
    ensures
        orows.len() == 0,
    decreases rows.len() - i,
{
    if 0 <= i < rows.len() {
        match spec_eval(cv, Some(i), rows[i], hdrs, Seq::<BindingV>::empty()) {
            Err(e) => {
                if policy != ErrorPolicy::Panic {
                    match spec_run_rows(cv, rows, i + 1, hdrs, Mode::Foreach, policy) {
                        Ok((o2, l2)) => {
                            lemma_foreach_no_rows(cv, rows, i + 1, hdrs, policy, o2, l2);
                        },
                        Err(_) => {},
                    }
                }
            },
            Ok(v) => {
                match spec_run_rows(cv, rows, i + 1, hdrs, Mode::Foreach, policy) {
                    Ok((o2, l2)) => {
                        lemma_foreach_no_rows(cv, rows, i + 1, hdrs, policy, o2, l2);
                    },
                    Err(_) => {},
                }
            },
        }
    }
}

/// Builds the synthetic positional header `0`, `1`, ... used when the input
/// carries no header row.
pub fn synthetic_headers(width: usize) -> (r: csv::ByteRecord)
    ensures
        record_cells(r).len() == width,
        forall|i: int| 0 <= i < width ==> record_cells(r)[i] == spec_udec(i as nat),
{
    let mut r = record_new();
    let mut i: usize = 0;
    while i < width
        invariant
            i <= width,
            record_cells(r).len() == i,
            forall|j: int| 0 <= j < i ==> record_cells(r)[j] == spec_udec(j as nat),
        decreases width - i,
    {
        let cell = u64_dec(i as u64);
        record_push(&mut r, cell.as_slice());
        i += 1;
    }
    r
}

} // verus!
