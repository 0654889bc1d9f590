use vstd::prelude::*;

use crate::driver::{spec_run_rows, ErrorPolicy, Mode, RowErrV};
use crate::error::SpecErrV;
use crate::evaluator::{spec_eval, spec_hof};
use crate::expr::{CExprV, ParsedExpr, SpecialOp};
use crate::interpreter::{
    mk_col, spec_comptime_cols, spec_concretize, spec_concretize_args, spec_concretize_call,
    spec_range_fwd, spec_range_rev, spec_static_idx_args,
};
use crate::types::BindingV;
use crate::value::{truthy, Val};

verus! {

// ---------------------------------------------------------------------------
// Comptime folding soundness
// ---------------------------------------------------------------------------
/// Whether every `col`/`col?` call of a parsed expression has statically
/// analyzable arguments, so that the concretizer can resolve it.
pub open spec fn parsed_col_static(p: ParsedExpr) -> bool
    decreases p, 0nat, 0nat,
{
    match p {
        ParsedExpr::Lit(_) => true,
        ParsedExpr::Identifier(_) => true,
        ParsedExpr::Lambda(_, body) => parsed_col_static(*body),
        ParsedExpr::Call(name, args) => (if name@ == "col"@ || name@ == "col?"@ {
            spec_static_idx_args(args@) is Some
        } else {
            true
        }) && parsed_col_static_args(args@, 0),
    }
}

/// As `parsed_col_static`, over the arguments from position `i` on.
pub open spec fn parsed_col_static_args(args: Seq<ParsedExpr>, i: int) -> bool
    decreases args, 1nat, args.len() - i,
{
    if i < 0 || i >= args.len() {
        true
    } else {
        parsed_col_static(args[i]) && parsed_col_static_args(args, i + 1)
    }
}

/// Whether a concrete expression holds no runtime column-resolution node.
pub open spec fn no_col_nodes(c: CExprV) -> bool
    decreases c, 0nat, 0nat,
{
    match c {
        CExprV::Value(_) => true,
        CExprV::Column(_) => true,
        CExprV::Identifier(_) => true,
        CExprV::List(xs) => no_col_list(xs, 0),
        CExprV::Call(_, xs) => no_col_list(xs, 0),
        CExprV::SpecialCall(op, xs) => op != SpecialOp::Col && op != SpecialOp::ColOpt
            && no_col_list(xs, 0),
        CExprV::Lambda(_, body) => no_col_nodes(*body),
    }
}

/// As `no_col_nodes`, over the expressions from position `i` on.
pub open spec fn no_col_list(xs: Seq<CExprV>, i: int) -> bool
    decreases xs, 1nat, xs.len() - i,
{
    if i < 0 || i >= xs.len() {
        true
    } else {
        no_col_nodes(xs[i]) && no_col_list(xs, i + 1)
    }
}

proof fn lemma_no_col_list_shift(c0: CExprV, rest: Seq<CExprV>, i: int)
    requires
        0 <= i <= rest.len(),
    ensures
        no_col_list(seq![c0] + rest, i + 1) == no_col_list(rest, i),
    decreases rest.len() - i,
{
    if i < rest.len() {
        assert((seq![c0] + rest)[i + 1] == rest[i]);
        lemma_no_col_list_shift(c0, rest, i + 1);
    }
}

proof fn lemma_range_fwd_no_col(from: int, to: int, hdrs: Seq<Seq<u8>>, as_headers: bool)
    ensures
        no_col_list(spec_range_fwd(from, to, hdrs, as_headers), 0),
    decreases to - from,
{
    if from < to {
        lemma_range_fwd_no_col(from + 1, to, hdrs, as_headers);
        let r = spec_range_fwd(from, to, hdrs, as_headers);
        let rest = spec_range_fwd(from + 1, to, hdrs, as_headers);
        assert(r == seq![mk_col(from, hdrs, as_headers)] + rest);
        assert(r[0] == mk_col(from, hdrs, as_headers));
        assert(no_col_nodes(mk_col(from, hdrs, as_headers)));
        lemma_no_col_list_shift(mk_col(from, hdrs, as_headers), rest, 0);
    }
}

proof fn lemma_range_rev_no_col(from: int, down_to: int, hdrs: Seq<Seq<u8>>, as_headers: bool)
    ensures
        no_col_list(spec_range_rev(from, down_to, hdrs, as_headers), 0),
    decreases from - down_to + 1,
{
    if from >= down_to {
        lemma_range_rev_no_col(from - 1, down_to, hdrs, as_headers);
        let r = spec_range_rev(from, down_to, hdrs, as_headers);
        let rest = spec_range_rev(from - 1, down_to, hdrs, as_headers);
        assert(r == seq![mk_col(from, hdrs, as_headers)] + rest);
        assert(r[0] == mk_col(from, hdrs, as_headers));
        assert(no_col_nodes(mk_col(from, hdrs, as_headers)));
        lemma_no_col_list_shift(mk_col(from, hdrs, as_headers), rest, 0);
    }
}

proof fn lemma_folding_args(args: Seq<ParsedExpr>, i: int, hdrs: Seq<Seq<u8>>, cs: Seq<CExprV>)
    requires
        parsed_col_static_args(args, i),
        spec_concretize_args(args, i, hdrs) == Ok::<Seq<CExprV>, crate::error::ConcErrV>(cs),
        0 <= i <= args.len(),
    ensures
        no_col_list(cs, 0),
    decreases args, 2nat, args.len() - i,
{
    if i < args.len() {
        match spec_concretize(args[i], hdrs) {
            Ok(c) => {
                lemma_comptime_folding(args[i], hdrs, c);
                match spec_concretize_args(args, i + 1, hdrs) {
                    Ok(rest) => {
                        lemma_folding_args(args, i + 1, hdrs, rest);
                        assert(cs == seq![c] + rest);
                        assert(cs[0] == c);
                        lemma_no_col_list_shift(c, rest, 0);
                    },
                    Err(_) => {
                        assert(false);
                    },
                }
            },
            Err(_) => {
                assert(false);
            },
        }
    } else {
        assert(cs =~= Seq::<CExprV>::empty());
    }
}

proof fn lemma_folding_call(
    name: Seq<char>,
    args: Seq<ParsedExpr>,
    hdrs: Seq<Seq<u8>>,
    c: CExprV,
)
    requires
        (if name == "col"@ || name == "col?"@ {
            spec_static_idx_args(args) is Some
        } else {
            true
        }),
        parsed_col_static_args(args, 0),
        spec_concretize_call(name, args, hdrs) == Ok::<CExprV, crate::error::ConcErrV>(c),
    ensures
        no_col_nodes(c),
    decreases args, 3nat, 0nat,
{
    if name == "col"@ || name == "col?"@ {
        match spec_static_idx_args(args) {
            Some(iv) => {
                match crate::types::spec_find_column(iv, hdrs) {
                    Some(i) => {
                        assert(c == CExprV::Column(i));
                    },
                    None => {
                        assert(name == "col?"@ && c == CExprV::Value(Val::Null));
                    },
                }
            },
            None => {
                assert(false);
            },
        }
    } else if name == "cols"@ {
        lemma_folding_cols(args, hdrs, false, c);
    } else if name == "headers"@ {
        lemma_folding_cols(args, hdrs, true, c);
    } else {
        match crate::registry::spec_get_special(name) {
            Some(entry) => {
                assert(entry.comptime is None);
                match entry.runtime {
                    Some(op) => {
                        assert(op != SpecialOp::Col && op != SpecialOp::ColOpt);
                        match spec_concretize_args(args, 0, hdrs) {
                            Ok(cs) => {
                                lemma_folding_args(args, 0, hdrs, cs);
                                assert(c == CExprV::SpecialCall(op, cs));
                            },
                            Err(_) => {
                                assert(false);
                            },
                        }
                    },
                    None => {
                        assert(false);
                    },
                }
            },
            None => {
                match crate::functions::spec_get_function(name) {
                    Some(_) => {
                        match spec_concretize_args(args, 0, hdrs) {
                            Ok(cs) => {
                                lemma_folding_args(args, 0, hdrs, cs);
                                assert(c == CExprV::Call(name, cs));
                            },
                            Err(_) => {
                                assert(false);
                            },
                        }
                    },
                    None => {
                        assert(false);
                    },
                }
            },
        }
    }
}

proof fn lemma_folding_cols(
    args: Seq<ParsedExpr>,
    hdrs: Seq<Seq<u8>>,
    as_headers: bool,
    c: CExprV,
)
    requires
        spec_comptime_cols(args, hdrs, as_headers) == Ok::<CExprV, crate::error::ConcErrV>(c),
    ensures
        no_col_nodes(c),
{
    if args.len() == 0 {
        lemma_range_fwd_no_col(0, hdrs.len() as int, hdrs, as_headers);
    } else {
        match crate::interpreter::spec_static_idx(args[0]) {
            Some(iv1) => {
                match crate::types::spec_find_column(iv1, hdrs) {
                    Some(i1) => {
                        if args.len() < 2 {
                            lemma_range_fwd_no_col(i1, hdrs.len() as int, hdrs, as_headers);
                        } else {
                            match crate::interpreter::spec_static_idx(args[1]) {
                                Some(iv2) => {
                                    match crate::types::spec_find_column(iv2, hdrs) {
                                        Some(i2) => {
                                            if i1 > i2 {
                                                lemma_range_rev_no_col(i1, i2, hdrs, as_headers);
                                            } else {
                                                lemma_range_fwd_no_col(
                                                    i1,
                                                    i2 + 1,
                                                    hdrs,
                                                    as_headers,
                                                );
                                            }
                                        },
                                        None => {
                                            assert(false);
                                        },
                                    }
                                },
                                None => {
                                    assert(false);
                                },
                            }
                        }
                    },
                    None => {
                        assert(false);
                    },
                }
            },
            None => {
                assert(false);
            },
        }
    }
}

/// Comptime folding soundness: when every column reference of an expression
/// is a literal, its concretization against a fixed header holds no runtime
/// column-resolution node; every `col`/`col?` has been folded away.
pub proof fn lemma_comptime_folding(p: ParsedExpr, hdrs: Seq<Seq<u8>>, c: CExprV)
    requires
        parsed_col_static(p),
        spec_concretize(p, hdrs) == Ok::<CExprV, crate::error::ConcErrV>(c),
    ensures
        no_col_nodes(c),
    decreases p, 4nat, 0nat,
{
    match p {
        ParsedExpr::Lit(_) => {},
        ParsedExpr::Identifier(_) => {},
        ParsedExpr::Lambda(params, body) => {
            match spec_concretize(*body, hdrs) {
                Ok(b) => {
                    lemma_comptime_folding(*body, hdrs, b);
                },
                Err(_) => {
                    assert(false);
                },
            }
        },
        ParsedExpr::Call(name, args) => {
            lemma_folding_call(name@, args@, hdrs, c);
        },
    }
}

// ---------------------------------------------------------------------------
// Short-circuiting of `if` and `unless`
// ---------------------------------------------------------------------------
/// Short-circuit of `if` with a truthy condition: the result is that of the
/// chosen branch, whatever stands in the unchosen one; it is never evaluated
/// and its errors are never seen.
pub proof fn lemma_if_short_circuit_truthy(
    c: CExprV,
    a: CExprV,
    b: CExprV,
    idx: Option<int>,
    cells: Seq<Seq<u8>>,
    hdrs: Seq<Seq<u8>>,
    binds: Seq<BindingV>,
    v: Val,
)
    requires
        spec_eval(c, idx, cells, hdrs, binds) == Ok::<Val, SpecErrV>(v),
        truthy(v),
    ensures
        spec_eval(CExprV::SpecialCall(SpecialOp::If, seq![c, a, b]), idx, cells, hdrs, binds)
            == spec_eval(a, idx, cells, hdrs, binds),
        spec_eval(CExprV::SpecialCall(SpecialOp::Unless, seq![c, a, b]), idx, cells, hdrs, binds)
            == spec_eval(b, idx, cells, hdrs, binds),
{
    assert(seq![c, a, b][0] == c);
    assert(seq![c, a, b][1] == a);
    assert(seq![c, a, b][2] == b);
}

/// Short-circuit of `if` with a falsey condition: the `then` branch is never
/// evaluated; `unless` mirrors it.
pub proof fn lemma_if_short_circuit_falsey(
    c: CExprV,
    a: CExprV,
    b: CExprV,
    idx: Option<int>,
    cells: Seq<Seq<u8>>,
    hdrs: Seq<Seq<u8>>,
    binds: Seq<BindingV>,
    v: Val,
)
    requires
        spec_eval(c, idx, cells, hdrs, binds) == Ok::<Val, SpecErrV>(v),
        !truthy(v),
    ensures
        spec_eval(CExprV::SpecialCall(SpecialOp::If, seq![c, a, b]), idx, cells, hdrs, binds)
            == spec_eval(b, idx, cells, hdrs, binds),
        spec_eval(CExprV::SpecialCall(SpecialOp::Unless, seq![c, a, b]), idx, cells, hdrs, binds)
            == spec_eval(a, idx, cells, hdrs, binds),
        spec_eval(CExprV::SpecialCall(SpecialOp::If, seq![c, a]), idx, cells, hdrs, binds) == Ok::<
            Val,
            SpecErrV,
        >(Val::Null),
{
    assert(seq![c, a, b][0] == c);
    assert(seq![c, a, b][1] == a);
    assert(seq![c, a, b][2] == b);
    assert(seq![c, a][0] == c);
    assert(seq![c, a].len() == 2);
}

// ---------------------------------------------------------------------------
// Totality of `try`
// ---------------------------------------------------------------------------
/// `try` never propagates: it always succeeds, and an expression whose
/// evaluation fails with any evaluation error reads as null under it.
pub proof fn lemma_try_totality(
    e: CExprV,
    idx: Option<int>,
    cells: Seq<Seq<u8>>,
    hdrs: Seq<Seq<u8>>,
    binds: Seq<BindingV>,
)
    ensures
        spec_eval(CExprV::SpecialCall(SpecialOp::Try, seq![e]), idx, cells, hdrs, binds) is Ok,
        spec_eval(e, idx, cells, hdrs, binds) is Err ==> spec_eval(
            CExprV::SpecialCall(SpecialOp::Try, seq![e]),
            idx,
            cells,
            hdrs,
            binds,
        ) == Ok::<Val, SpecErrV>(Val::Null),
        forall|v: Val|
            spec_eval(e, idx, cells, hdrs, binds) == Ok::<Val, SpecErrV>(v) ==> spec_eval(
                CExprV::SpecialCall(SpecialOp::Try, seq![e]),
                idx,
                cells,
                hdrs,
                binds,
            ) == Ok::<Val, SpecErrV>(v),
{
    assert(seq![e][0] == e);
    assert(seq![e].len() == 1);
}

// ---------------------------------------------------------------------------
// Length laws of `map` and `filter`
// ---------------------------------------------------------------------------
proof fn lemma_hof_len(
    op: SpecialOp,
    body: CExprV,
    items: Seq<Val>,
    i: int,
    base: Seq<BindingV>,
    slot: int,
    pname: Seq<char>,
    idx: Option<int>,
    cells: Seq<Seq<u8>>,
    hdrs: Seq<Seq<u8>>,
    out: Seq<Val>,
)
    requires
        spec_hof(op, body, items, i, base, slot, pname, idx, cells, hdrs) == Ok::<
            Seq<Val>,
            SpecErrV,
        >(out),
        0 <= i <= items.len(),
    ensures
        op == SpecialOp::MapList ==> out.len() == items.len() - i,
        op == SpecialOp::FilterList ==> out.len() <= items.len() - i,
    decreases items.len() - i,
{
    if i < items.len() {
        let b = base.update(slot, (pname, items[i]));
        match spec_eval(body, idx, cells, hdrs, b) {
            Err(_) => {
                assert(false);
            },
            Ok(_) => {
                match spec_hof(op, body, items, i + 1, base, slot, pname, idx, cells, hdrs) {
                    Err(_) => {
                        assert(false);
                    },
                    Ok(rest) => {
                        lemma_hof_len(
                            op,
                            body,
                            items,
                            i + 1,
                            base,
                            slot,
                            pname,
                            idx,
                            cells,
                            hdrs,
                            rest,
                        );
                    },
                }
            },
        }
    }
}

/// The length law of `map`: the output list is as long as the input list.
pub proof fn lemma_map_length(
    list_e: CExprV,
    lam: CExprV,
    idx: Option<int>,
    cells: Seq<Seq<u8>>,
    hdrs: Seq<Seq<u8>>,
    binds: Seq<BindingV>,
    items: Seq<Val>,
    out: Seq<Val>,
)
    requires
        spec_eval(list_e, idx, cells, hdrs, binds) == Ok::<Val, SpecErrV>(Val::List(items)),
        spec_eval(
            CExprV::SpecialCall(SpecialOp::MapList, seq![list_e, lam]),
            idx,
            cells,
            hdrs,
            binds,
        ) == Ok::<Val, SpecErrV>(Val::List(out)),
    ensures
        out.len() == items.len(),
{
    lemma_hof_length(SpecialOp::MapList, list_e, lam, idx, cells, hdrs, binds, items, out);
}

/// The length law of `filter`: the output list is never longer than the
/// input list.
pub proof fn lemma_filter_length(
    list_e: CExprV,
    lam: CExprV,
    idx: Option<int>,
    cells: Seq<Seq<u8>>,
    hdrs: Seq<Seq<u8>>,
    binds: Seq<BindingV>,
    items: Seq<Val>,
    out: Seq<Val>,
)
    requires
        spec_eval(list_e, idx, cells, hdrs, binds) == Ok::<Val, SpecErrV>(Val::List(items)),
        spec_eval(
            CExprV::SpecialCall(SpecialOp::FilterList, seq![list_e, lam]),
            idx,
            cells,
            hdrs,
            binds,
        ) == Ok::<Val, SpecErrV>(Val::List(out)),
    ensures
        out.len() <= items.len(),
{
    lemma_hof_length(SpecialOp::FilterList, list_e, lam, idx, cells, hdrs, binds, items, out);
}

proof fn lemma_hof_length(
    op: SpecialOp,
    list_e: CExprV,
    lam: CExprV,
    idx: Option<int>,
    cells: Seq<Seq<u8>>,
    hdrs: Seq<Seq<u8>>,
    binds: Seq<BindingV>,
    items: Seq<Val>,
    out: Seq<Val>,
)
    requires
        op == SpecialOp::MapList || op == SpecialOp::FilterList,
        spec_eval(list_e, idx, cells, hdrs, binds) == Ok::<Val, SpecErrV>(Val::List(items)),
        spec_eval(CExprV::SpecialCall(op, seq![list_e, lam]), idx, cells, hdrs, binds) == Ok::<
            Val,
            SpecErrV,
        >(Val::List(out)),
    ensures
        op == SpecialOp::MapList ==> out.len() == items.len(),
        op == SpecialOp::FilterList ==> out.len() <= items.len(),
{
    let args = seq![list_e, lam];
    assert(args[0] == list_e);
    assert(args[1] == lam);
    match lam {
        CExprV::Lambda(params, body) => {
            if params.len() == 1 {
                match spec_hof(
                    op,
                    *body,
                    items,
                    0,
                    binds.push((params[0], Val::Null)),
                    binds.len() as int,
                    params[0],
                    idx,
                    cells,
                    hdrs,
                ) {
                    Ok(out0) => {
                        assert(Val::List(out0) == Val::List(out));
                        lemma_hof_len(
                            op,
                            *body,
                            items,
                            0,
                            binds.push((params[0], Val::Null)),
                            binds.len() as int,
                            params[0],
                            idx,
                            cells,
                            hdrs,
                            out0,
                        );
                    },
                    Err(_) => {
                        assert(false);
                    },
                }
            } else {
                assert(false);
            }
        },
        _ => {
            assert(false);
        },
    }
}

// ---------------------------------------------------------------------------
// Order preservation
// ---------------------------------------------------------------------------
/// Order preservation in map mode: the driver emits exactly one output row
/// per input row, in input order, each extending its input row by one cell.
/// Evaluation here is sequential; a parallel host must reorder to the same
/// sequence to meet this contract.
pub proof fn lemma_map_mode_order(
    cv: CExprV,
    rows: Seq<Seq<Seq<u8>>>,
    i: int,
    hdrs: Seq<Seq<u8>>,
    policy: ErrorPolicy,
    orows: Seq<Seq<Seq<u8>>>,
    ologs: Seq<RowErrV>,
)
    requires
        spec_run_rows(cv, rows, i, hdrs, Mode::MapRows, policy) == Ok::<_, (int, SpecErrV)>(
            (orows, ologs),
        ),
        0 <= i <= rows.len(),
    ensures
        orows.len() == rows.len() - i,
        forall|j: int| 0 <= j < orows.len() ==> #[trigger] orows[j].len() == rows[i + j].len() + 1,
        forall|j: int| 0 <= j < orows.len() ==> #[trigger] orows[j].drop_last() == rows[i + j],
    decreases rows.len() - i,
{
    if i < rows.len() {
        let head: Seq<Seq<u8>> = match spec_eval(
            cv,
            Some(i),
            rows[i],
            hdrs,
            Seq::<BindingV>::empty(),
        ) {
            Ok(v) => rows[i].push(crate::convert::spec_ser(v)),
            Err(_) => rows[i].push(crate::convert::spec_ser(Val::Null)),
        };
        match spec_run_rows(cv, rows, i + 1, hdrs, Mode::MapRows, policy) {
            Err(_) => {
                assert(false);
            },
            Ok((orest, lrest)) => {
                lemma_map_mode_order(cv, rows, i + 1, hdrs, policy, orest, lrest);
                assert(orows == seq![head] + orest);
                assert(head.drop_last() =~= rows[i]);
                assert forall|j: int|
                    0 <= j < orows.len() implies #[trigger] orows[j].len() == rows[i + j].len()
                    + 1 by {
                    if j == 0 {
                        assert(orows[0] == head);
                        assert(head.len() == rows[i as int].len() + 1);
                    } else {
                        assert(orows[j] == orest[j - 1]);
                        assert(orest[j - 1].len() == rows[i + j].len() + 1);
                    }
                }
                assert forall|j: int|
                    0 <= j < orows.len() implies #[trigger] orows[j].drop_last() == rows[i
                    + j] by {
                    if j == 0 {
                        assert(orows[0] == head);
                    } else {
                        assert(orows[j] == orest[j - 1]);
                        assert(orest[j - 1].drop_last() == rows[i + j]);
                    }
                }
            },
        }
    }
}

/// The in-order subsequence of the rows from position `i` on whose evaluation
/// reads as truthy (a row whose evaluation errs reads as null, hence falsey).
pub open spec fn spec_filter_kept(
    cv: CExprV,
    rows: Seq<Seq<Seq<u8>>>,
    i: int,
    hdrs: Seq<Seq<u8>>,
) -> Seq<Seq<Seq<u8>>>
    decreases rows.len() - i,
{
    if i < 0 || i >= rows.len() {
        Seq::empty()
    } else {
        let keep = match spec_eval(cv, Some(i), rows[i], hdrs, Seq::<BindingV>::empty()) {
            Ok(v) => truthy(v),
            Err(_) => false,
        };
        (if keep {
            seq![rows[i]]
        } else {
            Seq::<Seq<Seq<u8>>>::empty()
        }) + spec_filter_kept(cv, rows, i + 1, hdrs)
    }
}

/// Order preservation in filter mode: the output is exactly the in-order
/// subsequence of the input rows whose evaluation is truthy.
pub proof fn lemma_filter_mode_order(
    cv: CExprV,
    rows: Seq<Seq<Seq<u8>>>,
    i: int,
    hdrs: Seq<Seq<u8>>,
    policy: ErrorPolicy,
    orows: Seq<Seq<Seq<u8>>>,
    ologs: Seq<RowErrV>,
)
    requires
        spec_run_rows(cv, rows, i, hdrs, Mode::FilterRows, policy) == Ok::<_, (int, SpecErrV)>(
            (orows, ologs),
        ),
        0 <= i <= rows.len(),
    ensures
        orows == spec_filter_kept(cv, rows, i, hdrs),
    decreases rows.len() - i,
{
    if i < rows.len() {
        match spec_run_rows(cv, rows, i + 1, hdrs, Mode::FilterRows, policy) {
            Err(_) => {
                assert(false);
            },
            Ok((orest, lrest)) => {
                lemma_filter_mode_order(cv, rows, i + 1, hdrs, policy, orest, lrest);
            },
        }
    } else {
        assert(orows =~= spec_filter_kept(cv, rows, i, hdrs));
    }
}

// ---------------------------------------------------------------------------
// Idempotence of concretization
// ---------------------------------------------------------------------------
/// Concretizing the same expression against the same headers twice yields
/// equal trees: concretization is a function of its inputs, so any two
/// successful runs agree.
pub proof fn lemma_concretize_deterministic(
    p: ParsedExpr,
    hdrs: Seq<Seq<u8>>,
    r1: CExprV,
    r2: CExprV,
)
    requires
        spec_concretize(p, hdrs) == Ok::<CExprV, crate::error::ConcErrV>(r1),
        spec_concretize(p, hdrs) == Ok::<CExprV, crate::error::ConcErrV>(r2),
    ensures
        r1 == r2,
{
}

} // verus!
