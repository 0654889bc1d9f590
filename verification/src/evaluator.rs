use vstd::prelude::*;

use crate::error::{anon_err, named_err, EvalErrV, EvaluationError, SpecErrV, SpecifiedEvaluationError};
use crate::expr::{ce_view, ce_views, CExprV, ConcreteExpr, SpecialOp};
use crate::functions::{apply_normal, spec_apply_normal};
use crate::interpreter::EvaluationContext;
use crate::record::{record_cells, record_get};
use crate::types::{
    bindings_view, spec_find_column, spec_lookup, BindingV, ColumnIndexationBy, FunctionArguments,
    IndexationV, LambdaArguments,
};
use crate::value::{dv_view, dv_views, truthy, DynamicValue, Val};
use vstd::slice::slice_to_vec;

verus! {

/// The model of the optional row index handed in by the driver.
pub open spec fn idx_view(i: Option<usize>) -> Option<int> {
    match i {
        Some(i) => Some(i as int),
        None => None,
    }
}

/// The model of the optional binding environment handed to the evaluator;
/// absent means empty.
pub open spec fn opt_bindings_view(b: Option<&LambdaArguments>) -> Seq<BindingV> {
    match b {
        Some(l) => bindings_view(*l),
        None => Seq::empty(),
    }
}

/// The accepted argument count of each special operator.
pub open spec fn spec_op_arity(op: SpecialOp) -> FunctionArguments {
    match op {
        SpecialOp::If => FunctionArguments { min: 2, max: 3 },
        SpecialOp::Unless => FunctionArguments { min: 2, max: 3 },
        SpecialOp::Try => FunctionArguments { min: 1, max: 1 },
        SpecialOp::MapList => FunctionArguments { min: 2, max: 2 },
        SpecialOp::FilterList => FunctionArguments { min: 2, max: 2 },
        SpecialOp::Col => FunctionArguments { min: 1, max: 2 },
        SpecialOp::ColOpt => FunctionArguments { min: 1, max: 2 },
        SpecialOp::Index => FunctionArguments { min: 0, max: 0 },
    }
}

pub fn op_arity(op: SpecialOp) -> (r: FunctionArguments)
    ensures
        r == spec_op_arity(op),
{
    match op {
        SpecialOp::If => FunctionArguments::with_range(2, 3),
        SpecialOp::Unless => FunctionArguments::with_range(2, 3),
        SpecialOp::Try => FunctionArguments::unary(),
        SpecialOp::MapList => FunctionArguments::binary(),
        SpecialOp::FilterList => FunctionArguments::binary(),
        SpecialOp::Col => FunctionArguments::with_range(1, 2),
        SpecialOp::ColOpt => FunctionArguments::with_range(1, 2),
        SpecialOp::Index => FunctionArguments::nullary(),
    }
}

/// The reported name of a higher-order operator.
pub open spec fn hof_name(op: SpecialOp) -> Seq<char> {
    if op == SpecialOp::MapList {
        "map"@
    } else {
        "filter"@
    }
}

/// A column reference built from runtime argument values: a string is a name,
/// a string and an integer are a name and an occurrence rank, an integer is a
/// position; any other combination is invalid.
pub open spec fn spec_idx_from_vals(v0: Val, v1: Option<Val>) -> Option<IndexationV> {
    match (v0, v1) {
        (Val::Str(s), Option::None) => Some(IndexationV::ByName(s)),
        (Val::Str(s), Option::Some(Val::Int(k))) => if 0 <= k <= usize::MAX {
            Some(IndexationV::ByNameAndNth(s, k as int))
        } else {
            None
        },
        (Val::Int(i), Option::None) => Some(IndexationV::ByPos(i as int)),
        _ => None,
    }
}

/// The runtime resolution of `col`/`col?` once its arguments are evaluated:
/// invalid argument shapes fail, a missing column fails for `col` and reads
/// as null for `col?`, and a hit reads the record cell.
pub open spec fn spec_runtime_col(
    op: SpecialOp,
    v0: Val,
    v1: Option<Val>,
    cells: Seq<Seq<u8>>,
    hdrs: Seq<Seq<u8>>,
) -> Result<Val, SpecErrV> {
    match spec_idx_from_vals(v0, v1) {
        None => Err(named_err("col"@, EvalErrV::Custom("invalid arguments"@))),
        Some(iv) => match spec_find_column(iv, hdrs) {
            None => if op == SpecialOp::ColOpt {
                Ok(Val::Null)
            } else {
                Err(named_err("col"@, EvalErrV::ColumnNotFound(iv)))
            },
            Some(i) => if 0 <= i < cells.len() {
                Ok(Val::Str(cells[i]))
            } else {
                Err(named_err("col"@, EvalErrV::Custom("missing cell"@)))
            },
        },
    }
}

/// The meaning of a concrete expression, evaluated against one byte record,
/// the headers, an optional row index and the active lambda bindings.
pub open spec fn spec_eval(
    e: CExprV,
    idx: Option<int>,
    cells: Seq<Seq<u8>>,
    hdrs: Seq<Seq<u8>>,
    binds: Seq<BindingV>,
) -> Result<Val, SpecErrV>
    decreases e, 3nat, 0nat,
{
    match e {
        CExprV::Value(v) => Ok(v),
        CExprV::Column(i) => if 0 <= i < cells.len() {
            Ok(Val::Str(cells[i]))
        } else {
            Err(anon_err(EvalErrV::Custom("missing cell"@)))
        },
        CExprV::Identifier(name) => match spec_lookup(binds, name) {
            Some(v) => Ok(v),
            None => Err(anon_err(EvalErrV::UnknownIdentifier(name))),
        },
        CExprV::List(xs) => match spec_eval_list(xs, 0, idx, cells, hdrs, binds) {
            Ok(vs) => Ok(Val::List(vs)),
            Err(e) => Err(e),
        },
        CExprV::Call(name, args) => match spec_eval_list(args, 0, idx, cells, hdrs, binds) {
            Err(e) => Err(e),
            Ok(vs) => match spec_apply_normal(name, vs) {
                Ok(v) => Ok(v),
                Err(err) => Err(named_err(name, err)),
            },
        },
        CExprV::SpecialCall(op, args) => spec_eval_special(op, args, idx, cells, hdrs, binds),
        CExprV::Lambda(_, _) => Err(anon_err(EvalErrV::Custom("lambda cannot be evaluated"@))),
    }
}

/// Evaluation of an expression sequence from position `i` on, depth first and
/// left to right; the first error aborts.
pub open spec fn spec_eval_list(
    xs: Seq<CExprV>,
    i: int,
    idx: Option<int>,
    cells: Seq<Seq<u8>>,
    hdrs: Seq<Seq<u8>>,
    binds: Seq<BindingV>,
) -> Result<Seq<Val>, SpecErrV>
    decreases xs, 1nat, xs.len() - i,
{
    if i < 0 || i >= xs.len() {
        Ok(Seq::empty())
    } else {
        match spec_eval(xs[i], idx, cells, hdrs, binds) {
            Err(e) => Err(e),
            Ok(v) => match spec_eval_list(xs, i + 1, idx, cells, hdrs, binds) {
                Err(e) => Err(e),
                Ok(rest) => Ok(seq![v] + rest),
            },
        }
    }
}

/// One iteration step of `map`/`filter`: the lambda parameter's slot is bound
/// to the current item and the body is evaluated under it. `map` collects
/// every result; `filter` keeps the items whose result is truthy.
pub open spec fn spec_hof(
    op: SpecialOp,
    body: CExprV,
    items: Seq<Val>,
    i: int,
    base: Seq<BindingV>,
    slot: int,
    pname: Seq<char>,
    idx: Option<int>,
    cells: Seq<Seq<u8>>,
    hdrs: Seq<Seq<u8>>,
) -> Result<Seq<Val>, SpecErrV>
    decreases body, 4nat, items.len() - i,
{
    if i < 0 || i >= items.len() {
        Ok(Seq::empty())
    } else {
        let b = base.update(slot, (pname, items[i]));
        match spec_eval(body, idx, cells, hdrs, b) {
            Err(e) => Err(e),
            Ok(r) => match spec_hof(op, body, items, i + 1, base, slot, pname, idx, cells, hdrs) {
                Err(e) => Err(e),
                Ok(rest) => if op == SpecialOp::MapList {
                    Ok(seq![r] + rest)
                } else if truthy(r) {
                    Ok(seq![items[i]] + rest)
                } else {
                    Ok(rest)
                },
            },
        }
    }
}

/// Dispatch of a special operator: `if`/`unless` evaluate only the chosen
/// branch, `try` absorbs any evaluation error into null, `index` reads the
/// driver-supplied row number, `col`/`col?` resolve dynamically, and
/// `map`/`filter` run their lambda over a list.
pub open spec fn spec_eval_special(
    op: SpecialOp,
    args: Seq<CExprV>,
    idx: Option<int>,
    cells: Seq<Seq<u8>>,
    hdrs: Seq<Seq<u8>>,
    binds: Seq<BindingV>,
) -> Result<Val, SpecErrV>
    decreases args, 2nat, 0nat,
{
    if !spec_op_arity(op).spec_accepts(args.len() as int) {
        Err(anon_err(EvalErrV::InvalidArity(spec_op_arity(op), args.len() as int)))
    } else {
        match op {
            SpecialOp::If => match spec_eval(args[0], idx, cells, hdrs, binds) {
                Err(e) => Err(e),
                Ok(c) => if truthy(c) {
                    spec_eval(args[1], idx, cells, hdrs, binds)
                } else if args.len() == 3 {
                    spec_eval(args[2], idx, cells, hdrs, binds)
                } else {
                    Ok(Val::Null)
                },
            },
            SpecialOp::Unless => match spec_eval(args[0], idx, cells, hdrs, binds) {
                Err(e) => Err(e),
                Ok(c) => if !truthy(c) {
                    spec_eval(args[1], idx, cells, hdrs, binds)
                } else if args.len() == 3 {
                    spec_eval(args[2], idx, cells, hdrs, binds)
                } else {
                    Ok(Val::Null)
                },
            },
            SpecialOp::Try => match spec_eval(args[0], idx, cells, hdrs, binds) {
                Ok(v) => Ok(v),
                Err(_) => Ok(Val::Null),
            },
            SpecialOp::Index => match idx {
                Some(i) => if 0 <= i <= i64::MAX {
                    Ok(Val::Int(i as i64))
                } else {
                    Ok(Val::Null)
                },
                None => Ok(Val::Null),
            },
            SpecialOp::Col | SpecialOp::ColOpt => match spec_eval(args[0], idx, cells, hdrs, binds) {
                Err(e) => Err(e),
                Ok(v0) => if args.len() == 2 {
                    match spec_eval(args[1], idx, cells, hdrs, binds) {
                        Err(e) => Err(e),
                        Ok(v1) => spec_runtime_col(op, v0, Some(v1), cells, hdrs),
                    }
                } else {
                    spec_runtime_col(op, v0, None, cells, hdrs)
                },
            },
            SpecialOp::MapList | SpecialOp::FilterList => match spec_eval(
                args[0],
                idx,
                cells,
                hdrs,
                binds,
            ) {
                Err(e) => Err(e),
                Ok(v) => match v {
                    Val::List(items) => match args[1] {
                        CExprV::Lambda(params, body) => if params.len() != 1 {
                            Err(
                                anon_err(
                                    EvalErrV::InvalidArity(
                                        FunctionArguments { min: 1, max: 1 },
                                        params.len() as int,
                                    ),
                                ),
                            )
                        } else {
                            match spec_hof(
                                op,
                                *body,
                                items,
                                0,
                                binds.push((params[0], Val::Null)),
                                binds.len() as int,
                                params[0],
                                idx,
                                cells,
                                hdrs,
                            ) {
                                Ok(out) => Ok(Val::List(out)),
                                Err(e) => Err(e),
                            }
                        },
                        _ => Err(anon_err(EvalErrV::Custom("expected a lambda"@))),
                    },
                    _ => Err(named_err(hof_name(op), EvalErrV::NotAList)),
                },
            },
        }
    }
}

/// The result of `spec_hof` does not depend on what the parameter slot of the
/// base environment holds, since every iteration overwrites it.
proof fn lemma_hof_base_irrelevant(
    op: SpecialOp,
    body: CExprV,
    items: Seq<Val>,
    i: int,
    base1: Seq<BindingV>,
    base2: Seq<BindingV>,
    slot: int,
    pname: Seq<char>,
    idx: Option<int>,
    cells: Seq<Seq<u8>>,
    hdrs: Seq<Seq<u8>>,
)
    requires
        base1.len() == base2.len(),
        0 <= slot < base1.len(),
        forall|j: int| 0 <= j < base1.len() && j != slot ==> base1[j] == base2[j],
    ensures
        spec_hof(op, body, items, i, base1, slot, pname, idx, cells, hdrs) == spec_hof(
            op,
            body,
            items,
            i,
            base2,
            slot,
            pname,
            idx,
            cells,
            hdrs,
        ),
    decreases items.len() - i,
{
    if 0 <= i < items.len() {
        assert(base1.update(slot, (pname, items[i])) =~= base2.update(slot, (pname, items[i])));
        lemma_hof_base_irrelevant(
            op,
            body,
            items,
            i + 1,
            base1,
            base2,
            slot,
            pname,
            idx,
            cells,
            hdrs,
        );
    }
}

/// A column reference built from runtime argument values.
fn indexation_from_values(v0: &DynamicValue, v1: &Option<DynamicValue>) -> (r: Option<
    ColumnIndexationBy,
>)
    ensures
        ({
            let s = spec_idx_from_vals(
                v0@,
                match v1 {
                    Some(v) => Some(dv_view(*v)),
                    None => None,
                },
            );
            match r {
                Some(idx) => s == Some(idx@),
                None => s == Option::<IndexationV>::None,
            }
        }),
{
    match v0 {
        DynamicValue::Str(s) => match v1 {
            None => Some(ColumnIndexationBy::ByName(crate::value::copy_bytes(s))),
            Some(DynamicValue::Int(k)) => {
                if *k >= 0 && (*k as u128) <= (usize::MAX as u128) {
                    Some(
                        ColumnIndexationBy::ByNameAndNth(crate::value::copy_bytes(s), *k as usize),
                    )
                } else {
                    None
                }
            },
            Some(_) => None,
        },
        DynamicValue::Int(i) => match v1 {
            None => Some(ColumnIndexationBy::ByPos(*i)),
            Some(_) => None,
        },
        _ => None,
    }
}

impl ConcreteExpr {
    /// Evaluates this expression against one byte record, per `spec_eval`.
    pub fn evaluate(
        &self,
        index: Option<usize>,
        record: &csv::ByteRecord,
        context: &EvaluationContext,
        lambda_variables: Option<&LambdaArguments>,
    ) -> (r: Result<DynamicValue, SpecifiedEvaluationError>)
        ensures
            ({
                let s = spec_eval(
                    self@,
                    idx_view(index),
                    record_cells(*record),
                    context.spec_headers(),
                    opt_bindings_view(lambda_variables),
                );
                match r {
                    Ok(v) => s == Ok::<Val, SpecErrV>(v@),
                    Err(e) => s == Err::<Val, SpecErrV>(e@),
                }
            }),
        decreases self, 3nat, 0nat,
    {
        match self {
            ConcreteExpr::Value(v) => Ok(v.duplicate()),
            ConcreteExpr::Column(i) => match record_get(record, *i) {
                Some(b) => Ok(DynamicValue::Str(slice_to_vec(b))),
                None => Err(
                    EvaluationError::Custom("missing cell".to_owned()).anonymous(),
                ),
            },
            ConcreteExpr::Identifier(name) => {
                let found = match lambda_variables {
                    Some(vars) => vars.lookup(name),
                    None => None,
                };
                match found {
                    Some(v) => Ok(v.duplicate()),
                    None => Err(
                        EvaluationError::UnknownIdentifier(name.clone()).anonymous(),
                    ),
                }
            },
            ConcreteExpr::List(xs) => {
                match eval_list(xs, 0, index, record, context, lambda_variables) {
                    Ok(vs) => Ok(DynamicValue::List(vs)),
                    Err(e) => Err(e),
                }
            },
            ConcreteExpr::Call(name, args) => {
                match eval_list(args, 0, index, record, context, lambda_variables) {
                    Err(e) => Err(e),
                    Ok(vs) => match apply_normal(name, &vs) {
                        Ok(v) => Ok(v),
                        Err(err) => Err(err.specify(name.clone())),
                    },
                }
            },
            ConcreteExpr::SpecialCall(op, args) => {
                eval_special(*op, args, index, record, context, lambda_variables)
            },
            ConcreteExpr::Lambda(_, _) => Err(
                EvaluationError::Custom("lambda cannot be evaluated".to_owned()).anonymous(),
            ),
        }
    }
}

/// Evaluates one element of an expression vector.
fn eval_arg(
    xs: &Vec<ConcreteExpr>,
    i: usize,
    index: Option<usize>,
    record: &csv::ByteRecord,
    context: &EvaluationContext,
    lambda_variables: Option<&LambdaArguments>,
) -> (r: Result<DynamicValue, SpecifiedEvaluationError>)
    requires
        i < xs@.len(),
    ensures
        ({
            let s = spec_eval(
                ce_view(xs@[i as int]),
                idx_view(index),
                record_cells(*record),
                context.spec_headers(),
                opt_bindings_view(lambda_variables),
            );
            match r {
                Ok(v) => s == Ok::<Val, SpecErrV>(v@),
                Err(e) => s == Err::<Val, SpecErrV>(e@),
            }
        }),
    decreases xs@[i as int], 4nat, 0nat,
{
    xs[i].evaluate(index, record, context, lambda_variables)
}

/// Evaluates an expression vector from position `i` on.
fn eval_list(
    xs: &Vec<ConcreteExpr>,
    i: usize,
    index: Option<usize>,
    record: &csv::ByteRecord,
    context: &EvaluationContext,
    lambda_variables: Option<&LambdaArguments>,
) -> (r: Result<Vec<DynamicValue>, SpecifiedEvaluationError>)
    requires
        i <= xs@.len(),
    ensures
        ({
            let s = spec_eval_list(
                ce_views(xs@),
                i as int,
                idx_view(index),
                record_cells(*record),
                context.spec_headers(),
                opt_bindings_view(lambda_variables),
            );
            match r {
                Ok(vs) => s == Ok::<Seq<Val>, SpecErrV>(dv_views(vs@)),
                Err(e) => s == Err::<Seq<Val>, SpecErrV>(e@),
            }
        }),
    decreases xs, 1nat, xs@.len() - i,
{
    proof {
        crate::expr::lemma_ce_views_index(xs@);
    }
    if i >= xs.len() {
        let r: Vec<DynamicValue> = Vec::new();
        proof {
            assert(dv_views(r@) =~= Seq::<Val>::empty());
        }
        return Ok(r);
    }
    let v = match eval_arg(xs, i, index, record, context, lambda_variables) {
        Ok(v) => v,
        Err(e) => {
            return Err(e);
        },
    };
    let mut rest = match eval_list(xs, i + 1, index, record, context, lambda_variables) {
        Ok(vs) => vs,
        Err(e) => {
            return Err(e);
        },
    };
    let ghost vv = dv_view(v);
    let ghost rests = rest@;
    let ghost restv = dv_views(rest@);
    let mut out: Vec<DynamicValue> = Vec::new();
    out.push(v);
    out.append(&mut rest);
    proof {
        assert(out@[0] == v);
        assert(out@.drop_first() =~= rests);
        assert(dv_views(out@) == seq![dv_view(out@[0])] + dv_views(out@.drop_first()));
        assert(dv_views(out@) == seq![vv] + restv);
    }
    Ok(out)
}

/// Runs the lambda body of `map`/`filter` over the items from position `i`
/// on, binding the parameter slot to each item in turn.
fn eval_hof(
    op: SpecialOp,
    body: &ConcreteExpr,
    items: &Vec<DynamicValue>,
    i: usize,
    vars: &mut LambdaArguments,
    slot: usize,
    index: Option<usize>,
    record: &csv::ByteRecord,
    context: &EvaluationContext,
) -> (r: Result<Vec<DynamicValue>, SpecifiedEvaluationError>)
    requires
        i <= items@.len(),
        bindings_view(*old(vars)).len() >= 1,
        slot == bindings_view(*old(vars)).len() - 1,
    ensures
        ({
            let base = bindings_view(*old(vars));
            let s = spec_hof(
                op,
                body@,
                dv_views(items@),
                i as int,
                base,
                slot as int,
                base[slot as int].0,
                idx_view(index),
                record_cells(*record),
                context.spec_headers(),
            );
            match r {
                Ok(vs) => s == Ok::<Seq<Val>, SpecErrV>(dv_views(vs@)),
                Err(e) => s == Err::<Seq<Val>, SpecErrV>(e@),
            }
        }),
    decreases body, 4nat, items@.len() - i,
{
    let ghost base = bindings_view(*vars);
    let ghost itemvs = dv_views(items@);
    proof {
        crate::value::lemma_dv_views_index(items@);
    }
    if i >= items.len() {
        let r: Vec<DynamicValue> = Vec::new();
        proof {
            assert(dv_views(r@) =~= Seq::<Val>::empty());
        }
        return Ok(r);
    }
    let item = dup_item(items, i);
    vars.set(slot, item);
    proof {
        assert(bindings_view(*vars) =~= base.update(
            slot as int,
            (base[slot as int].0, itemvs[i as int]),
        ));
    }
    let rv = match body.evaluate(index, record, context, Some(&*vars)) {
        Ok(v) => v,
        Err(e) => {
            return Err(e);
        },
    };
    let ghost cur = bindings_view(*vars);
    proof {
        lemma_hof_base_irrelevant(
            op,
            body@,
            itemvs,
            i + 1,
            cur,
            base,
            slot as int,
            base[slot as int].0,
            idx_view(index),
            record_cells(*record),
            context.spec_headers(),
        );
    }
    let rest = match eval_hof(op, body, items, i + 1, vars, slot, index, record, context) {
        Ok(vs) => vs,
        Err(e) => {
            return Err(e);
        },
    };
    let keep_map = match op {
        SpecialOp::MapList => true,
        _ => false,
    };
    if keep_map {
        let ghost rvv = dv_view(rv);
        let ghost rests = rest@;
        let ghost restv = dv_views(rest@);
        let mut rest_mut = rest;
        let mut out: Vec<DynamicValue> = Vec::new();
        out.push(rv);
        out.append(&mut rest_mut);
        proof {
            assert(out@[0] == rv);
            assert(out@.drop_first() =~= rests);
            assert(dv_views(out@) == seq![dv_view(out@[0])] + dv_views(out@.drop_first()));
            assert(dv_views(out@) == seq![rvv] + restv);
        }
        Ok(out)
    } else if rv.is_truthy() {
        let item_out = dup_item(items, i);
        let ghost iv = dv_view(item_out);
        let ghost rests = rest@;
        let ghost restv = dv_views(rest@);
        let mut rest_mut = rest;
        let mut out: Vec<DynamicValue> = Vec::new();
        out.push(item_out);
        out.append(&mut rest_mut);
        proof {
            assert(out@[0] == item_out);
            assert(out@.drop_first() =~= rests);
            assert(dv_views(out@) == seq![dv_view(out@[0])] + dv_views(out@.drop_first()));
            assert(dv_views(out@) == seq![iv] + restv);
        }
        Ok(out)
    } else {
        Ok(rest)
    }
}

/// A deep copy of one item of a value vector.
fn dup_item(items: &Vec<DynamicValue>, i: usize) -> (r: DynamicValue)
    requires
        i < items@.len(),
    ensures
        r@ == items@[i as int]@,
{
    items[i].duplicate()
}

/// Dispatches a special operator at runtime, per `spec_eval_special`.
fn eval_special(
    op: SpecialOp,
    args: &Vec<ConcreteExpr>,
    index: Option<usize>,
    record: &csv::ByteRecord,
    context: &EvaluationContext,
    lambda_variables: Option<&LambdaArguments>,
) -> (r: Result<DynamicValue, SpecifiedEvaluationError>)
    ensures
        ({
            let s = spec_eval_special(
                op,
                ce_views(args@),
                idx_view(index),
                record_cells(*record),
                context.spec_headers(),
                opt_bindings_view(lambda_variables),
            );
            match r {
                Ok(v) => s == Ok::<Val, SpecErrV>(v@),
                Err(e) => s == Err::<Val, SpecErrV>(e@),
            }
        }),
    decreases args, 2nat, 0nat,
{
    proof {
        crate::expr::lemma_ce_views_index(args@);
    }
    let arity = op_arity(op);
    if !arity.accepts(args.len()) {
        return Err(EvaluationError::InvalidArity(arity, args.len()).anonymous());
    }
    match op {
        SpecialOp::If => {
            let c = match eval_arg(args, 0, index, record, context, lambda_variables) {
                Ok(v) => v,
                Err(e) => {
                    return Err(e);
                },
            };
            if c.is_truthy() {
                eval_arg(args, 1, index, record, context, lambda_variables)
            } else if args.len() == 3 {
                eval_arg(args, 2, index, record, context, lambda_variables)
            } else {
                Ok(DynamicValue::Null)
            }
        },
        SpecialOp::Unless => {
            let c = match eval_arg(args, 0, index, record, context, lambda_variables) {
                Ok(v) => v,
                Err(e) => {
                    return Err(e);
                },
            };
            if c.is_falsey() {
                eval_arg(args, 1, index, record, context, lambda_variables)
            } else if args.len() == 3 {
                eval_arg(args, 2, index, record, context, lambda_variables)
            } else {
                Ok(DynamicValue::Null)
            }
        },
        SpecialOp::Try => {
            match eval_arg(args, 0, index, record, context, lambda_variables) {
                Ok(v) => Ok(v),
                Err(_) => Ok(DynamicValue::Null),
            }
        },
        SpecialOp::Index => {
            match index {
                Some(i) => {
                    if (i as u128) <= (i64::MAX as u128) {
                        Ok(DynamicValue::Int(i as i64))
                    } else {
                        Ok(DynamicValue::Null)
                    }
                },
                None => Ok(DynamicValue::Null),
            }
        },
        SpecialOp::Col | SpecialOp::ColOpt => {
            let v0 = match eval_arg(args, 0, index, record, context, lambda_variables) {
                Ok(v) => v,
                Err(e) => {
                    return Err(e);
                },
            };
            let v1 = if args.len() == 2 {
                match eval_arg(args, 1, index, record, context, lambda_variables) {
                    Ok(v) => Some(v),
                    Err(e) => {
                        return Err(e);
                    },
                }
            } else {
                None
            };
            let iv = match indexation_from_values(&v0, &v1) {
                Some(iv) => iv,
                None => {
                    return Err(
                        EvaluationError::Custom("invalid arguments".to_owned()).specify(
                            "col".to_owned(),
                        ),
                    );
                },
            };
            let is_opt = match op {
                SpecialOp::ColOpt => true,
                _ => false,
            };
            match context.get_column_index(&iv) {
                None => {
                    if is_opt {
                        Ok(DynamicValue::Null)
                    } else {
                        Err(EvaluationError::ColumnNotFound(iv).specify("col".to_owned()))
                    }
                },
                Some(ci) => match record_get(record, ci) {
                    Some(b) => Ok(DynamicValue::Str(slice_to_vec(b))),
                    None => Err(
                        EvaluationError::Custom("missing cell".to_owned()).specify(
                            "col".to_owned(),
                        ),
                    ),
                },
            }
        },
        SpecialOp::MapList | SpecialOp::FilterList => {
            let is_map = match op {
                SpecialOp::MapList => true,
                _ => false,
            };
            let v = match eval_arg(args, 0, index, record, context, lambda_variables) {
                Ok(v) => v,
                Err(e) => {
                    return Err(e);
                },
            };
            let items = match v.into_shared_list() {
                Some(l) => l,
                None => {
                    let name = if is_map {
                        "map".to_owned()
                    } else {
                        "filter".to_owned()
                    };
                    return Err(EvaluationError::NotAList.specify(name));
                },
            };
            let (params, body) = match &args[1] {
                ConcreteExpr::Lambda(params, body) => (params, body),
                _ => {
                    return Err(
                        EvaluationError::Custom("expected a lambda".to_owned()).anonymous(),
                    );
                },
            };
            proof {
                assert(ce_views(args@)[1] == ce_view(args@[1]));
            }
            if params.len() != 1 {
                return Err(
                    EvaluationError::InvalidArity(
                        FunctionArguments::unary(),
                        params.len(),
                    ).anonymous(),
                );
            }
            let mut vars = match lambda_variables {
                Some(v) => v.duplicate(),
                None => LambdaArguments::new(),
            };
            let slot = vars.register(&params[0]);
            proof {
                assert(bindings_view(vars) =~= opt_bindings_view(lambda_variables).push(
                    (crate::expr::names_view(params@)[0], Val::Null),
                ));
            }
            match eval_hof(op, &**body, &items, 0, &mut vars, slot, index, record, context) {
                Ok(out) => Ok(DynamicValue::List(out)),
                Err(e) => Err(e),
            }
        },
    }
}

} // verus!
