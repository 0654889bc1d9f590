use vstd::prelude::*;

use crate::error::{ConcErrV, ConcretizationError};
use crate::expr::{
    ce_view, ce_views, lemma_ce_views_push, names_view, CExprV, ConcreteExpr, ParsedExpr, SpecialOp,
};
use crate::functions::spec_get_function;
use crate::record::{record_cells, record_get, record_len};
use crate::registry::{get_special_function, spec_get_special, ComptimeOp};
use crate::types::{hdr_view, ColumnIndexationBy, IndexationV};
use crate::value::{copy_bytes, dv_view, DynamicValue, Val};
use vstd::slice::slice_to_vec;

verus! {

/// The read-only context a row is evaluated in: the header cells, which back
/// the header-name to index map.
pub struct EvaluationContext {
    pub headers: Vec<Vec<u8>>,
}

impl EvaluationContext {
    /// The header cells as a mathematical sequence.
    pub open spec fn spec_headers(&self) -> Seq<Seq<u8>> {
        hdr_view(self.headers@)
    }

    /// Builds a context from the observed header record.
    pub fn new(headers: &csv::ByteRecord) -> (r: EvaluationContext)
        ensures
            r.spec_headers() == record_cells(*headers),
    {
        let n = record_len(headers);
        let mut hs: Vec<Vec<u8>> = Vec::new();
        let mut i: usize = 0;
        while i < n
            invariant
                i <= n,
                n == record_cells(*headers).len(),
                hs@.len() == i,
                forall|j: int| 0 <= j < i ==> hs@[j]@ == record_cells(*headers)[j],
            decreases n - i,
        {
            match record_get(headers, i) {
                Some(b) => {
                    hs.push(slice_to_vec(b));
                },
                None => {
                    proof {
                        assert(false);
                    }
                },
            }
            i += 1;
        }
        let r = EvaluationContext { headers: hs };
        proof {
            assert(r.spec_headers() =~= record_cells(*headers));
        }
        r
    }

    /// Resolves a column reference against the headers.
    pub fn get_column_index(&self, indexation: &ColumnIndexationBy) -> (r: Option<usize>)
        ensures
            match r {
                Some(i) => crate::types::spec_find_column(indexation@, self.spec_headers())
                    == Option::Some(i as int) && i < self.spec_headers().len(),
                None => crate::types::spec_find_column(indexation@, self.spec_headers())
                    == Option::<int>::None,
            },
    {
        indexation.find_column_index(&self.headers)
    }
}

/// The statically analyzable reading of one argument: a literal string is a
/// name, a literal integer is a position.
pub open spec fn spec_static_idx(arg: ParsedExpr) -> Option<IndexationV> {
    match arg {
        ParsedExpr::Lit(DynamicValue::Str(s)) => Some(IndexationV::ByName(s@)),
        ParsedExpr::Lit(DynamicValue::Int(i)) => Some(IndexationV::ByPos(i as int)),
        _ => None,
    }
}

/// The statically analyzable reading of a `col`-style argument list.
pub open spec fn spec_static_idx_args(args: Seq<ParsedExpr>) -> Option<IndexationV> {
    if args.len() == 1 {
        spec_static_idx(args[0])
    } else if args.len() == 2 {
        match (args[0], args[1]) {
            (ParsedExpr::Lit(DynamicValue::Str(s)), ParsedExpr::Lit(DynamicValue::Int(k))) => if 0
                <= k <= usize::MAX {
                Some(IndexationV::ByNameAndNth(s@, k as int))
            } else {
                None
            },
            _ => None,
        }
    } else {
        None
    }
}

/// A statically analyzable `col()` call folds to a column index, or fails
/// when the column is missing; a dynamic one is left for the runtime path.
pub open spec fn spec_comptime_col(args: Seq<ParsedExpr>, hdrs: Seq<Seq<u8>>) -> Result<
    Option<CExprV>,
    ConcErrV,
> {
    match spec_static_idx_args(args) {
        Some(iv) => match crate::types::spec_find_column(iv, hdrs) {
            Some(i) => Ok(Some(CExprV::Column(i))),
            None => Err(ConcErrV::ColumnNotFound(iv)),
        },
        None => Ok(None),
    }
}

/// As `spec_comptime_col`, but a static miss folds to a literal null.
pub open spec fn spec_comptime_unsure_col(args: Seq<ParsedExpr>, hdrs: Seq<Seq<u8>>) -> Result<
    Option<CExprV>,
    ConcErrV,
> {
    match spec_static_idx_args(args) {
        Some(iv) => match crate::types::spec_find_column(iv, hdrs) {
            Some(i) => Ok(Some(CExprV::Column(i))),
            None => Ok(Some(CExprV::Value(Val::Null))),
        },
        None => Ok(None),
    }
}

/// One element of a folded `cols`/`headers` list: a column reference, or the
/// header name itself as a literal.
pub open spec fn mk_col(i: int, hdrs: Seq<Seq<u8>>, as_headers: bool) -> CExprV {
    if as_headers {
        CExprV::Value(Val::Str(hdrs[i]))
    } else {
        CExprV::Column(i)
    }
}

pub open spec fn spec_range_fwd(from: int, to: int, hdrs: Seq<Seq<u8>>, as_headers: bool) -> Seq<
    CExprV,
>
    decreases to - from,
{
    if from >= to {
        Seq::empty()
    } else {
        seq![mk_col(from, hdrs, as_headers)] + spec_range_fwd(from + 1, to, hdrs, as_headers)
    }
}

pub open spec fn spec_range_rev(from: int, down_to: int, hdrs: Seq<Seq<u8>>, as_headers: bool) -> Seq<
    CExprV,
>
    decreases from - down_to + 1,
{
    if from < down_to {
        Seq::empty()
    } else {
        seq![mk_col(from, hdrs, as_headers)] + spec_range_rev(from - 1, down_to, hdrs, as_headers)
    }
}

proof fn lemma_range_fwd_snoc(from: int, to: int, hdrs: Seq<Seq<u8>>, as_headers: bool)
    requires
        from <= to,
    ensures
        spec_range_fwd(from, to + 1, hdrs, as_headers) == spec_range_fwd(
            from,
            to,
            hdrs,
            as_headers,
        ).push(mk_col(to, hdrs, as_headers)),
    decreases to - from,
{
    if from == to {
        assert(spec_range_fwd(from + 1, to + 1, hdrs, as_headers) =~= Seq::<CExprV>::empty());
        assert(spec_range_fwd(from, to, hdrs, as_headers) =~= Seq::<CExprV>::empty());
        assert(spec_range_fwd(from, to + 1, hdrs, as_headers) =~= spec_range_fwd(
            from,
            to,
            hdrs,
            as_headers,
        ).push(mk_col(to, hdrs, as_headers)));
    } else {
        lemma_range_fwd_snoc(from + 1, to, hdrs, as_headers);
        assert(spec_range_fwd(from, to + 1, hdrs, as_headers) == seq![
            mk_col(from, hdrs, as_headers),
        ] + spec_range_fwd(from + 1, to + 1, hdrs, as_headers));
        assert(spec_range_fwd(from, to, hdrs, as_headers) == seq![mk_col(from, hdrs, as_headers)]
            + spec_range_fwd(from + 1, to, hdrs, as_headers));
        assert(spec_range_fwd(from, to + 1, hdrs, as_headers) =~= spec_range_fwd(
            from,
            to,
            hdrs,
            as_headers,
        ).push(mk_col(to, hdrs, as_headers)));
    }
}

proof fn lemma_range_rev_snoc(from: int, down_to: int, hdrs: Seq<Seq<u8>>, as_headers: bool)
    requires
        down_to <= from + 1,
    ensures
        spec_range_rev(from, down_to - 1, hdrs, as_headers) == spec_range_rev(
            from,
            down_to,
            hdrs,
            as_headers,
        ).push(mk_col(down_to - 1, hdrs, as_headers)),
    decreases from + 1 - down_to,
{
    if down_to == from + 1 {
        assert(spec_range_rev(from, down_to, hdrs, as_headers) =~= Seq::<CExprV>::empty());
        assert(spec_range_rev(from, from, hdrs, as_headers) == seq![mk_col(from, hdrs, as_headers)]
            + spec_range_rev(from - 1, from, hdrs, as_headers));
        assert(spec_range_rev(from - 1, from, hdrs, as_headers) =~= Seq::<CExprV>::empty());
        assert(spec_range_rev(from, down_to - 1, hdrs, as_headers) =~= spec_range_rev(
            from,
            down_to,
            hdrs,
            as_headers,
        ).push(mk_col(down_to - 1, hdrs, as_headers)));
    } else {
        lemma_range_rev_snoc(from - 1, down_to, hdrs, as_headers);
        assert(spec_range_rev(from, down_to - 1, hdrs, as_headers) == seq![
            mk_col(from, hdrs, as_headers),
        ] + spec_range_rev(from - 1, down_to - 1, hdrs, as_headers));
        assert(spec_range_rev(from, down_to, hdrs, as_headers) == seq![
            mk_col(from, hdrs, as_headers),
        ] + spec_range_rev(from - 1, down_to, hdrs, as_headers));
        assert(spec_range_rev(from, down_to - 1, hdrs, as_headers) =~= spec_range_rev(
            from,
            down_to,
            hdrs,
            as_headers,
        ).push(mk_col(down_to - 1, hdrs, as_headers)));
    }
}

/// Folding of `cols`/`headers`: both endpoints must be statically analyzable;
/// the produced list is inclusive, reversed when the first index exceeds the
/// second; with no arguments it covers the whole header, with one it runs to
/// the end of the row.
pub open spec fn spec_comptime_cols(
    args: Seq<ParsedExpr>,
    hdrs: Seq<Seq<u8>>,
    as_headers: bool,
) -> Result<CExprV, ConcErrV> {
    if args.len() == 0 {
        Ok(CExprV::List(spec_range_fwd(0, hdrs.len() as int, hdrs, as_headers)))
    } else {
        match spec_static_idx(args[0]) {
            None => Err(ConcErrV::NotStaticallyAnalyzable),
            Some(iv1) => match crate::types::spec_find_column(iv1, hdrs) {
                None => Err(ConcErrV::ColumnNotFound(iv1)),
                Some(i1) => if args.len() < 2 {
                    Ok(CExprV::List(spec_range_fwd(i1, hdrs.len() as int, hdrs, as_headers)))
                } else {
                    match spec_static_idx(args[1]) {
                        None => Err(ConcErrV::NotStaticallyAnalyzable),
                        Some(iv2) => match crate::types::spec_find_column(iv2, hdrs) {
                            None => Err(ConcErrV::ColumnNotFound(iv2)),
                            Some(i2) => if i1 > i2 {
                                Ok(CExprV::List(spec_range_rev(i1, i2, hdrs, as_headers)))
                            } else {
                                Ok(CExprV::List(spec_range_fwd(i1, i2 + 1, hdrs, as_headers)))
                            },
                        },
                    }
                },
            },
        }
    }
}

/// A special call left for runtime, with its arguments concretized.
pub open spec fn spec_runtime_form(op: SpecialOp, args: Seq<ParsedExpr>, hdrs: Seq<Seq<u8>>) -> Result<
    CExprV,
    ConcErrV,
>
    decreases args, 1nat, args.len() + 1,
{
    match spec_concretize_args(args, 0, hdrs) {
        Ok(cs) => Ok(CExprV::SpecialCall(op, cs)),
        Err(e) => Err(e),
    }
}

/// The concretization of a function application.
pub open spec fn spec_concretize_call(
    name: Seq<char>,
    args: Seq<ParsedExpr>,
    hdrs: Seq<Seq<u8>>,
) -> Result<CExprV, ConcErrV>
    decreases args, 2nat, 0nat,
{
    match spec_get_special(name) {
        Some(entry) => if !entry.arity.spec_accepts(args.len() as int) {
            Err(ConcErrV::InvalidArity(entry.arity, args.len() as int))
        } else {
            match entry.comptime {
                Some(ComptimeOp::Col) => match spec_comptime_col(args, hdrs) {
                    Ok(Some(c)) => Ok(c),
                    Ok(None) => spec_runtime_form(SpecialOp::Col, args, hdrs),
                    Err(e) => Err(e),
                },
                Some(ComptimeOp::ColOpt) => match spec_comptime_unsure_col(args, hdrs) {
                    Ok(Some(c)) => Ok(c),
                    Ok(None) => spec_runtime_form(SpecialOp::ColOpt, args, hdrs),
                    Err(e) => Err(e),
                },
                Some(ComptimeOp::Cols) => spec_comptime_cols(args, hdrs, false),
                Some(ComptimeOp::Headers) => spec_comptime_cols(args, hdrs, true),
                None => match entry.runtime {
                    Some(op) => spec_runtime_form(op, args, hdrs),
                    None => Err(ConcErrV::UnknownFunction(name)),
                },
            }
        },
        None => match spec_get_function(name) {
            Some(fa) => if !fa.spec_accepts(args.len() as int) {
                Err(ConcErrV::InvalidArity(fa, args.len() as int))
            } else {
                match spec_concretize_args(args, 0, hdrs) {
                    Ok(cs) => Ok(CExprV::Call(name, cs)),
                    Err(e) => Err(e),
                }
            },
            None => Err(ConcErrV::UnknownFunction(name)),
        },
    }
}

/// Concretization of an argument list from position `i` on; the first error
/// aborts.
pub open spec fn spec_concretize_args(args: Seq<ParsedExpr>, i: int, hdrs: Seq<Seq<u8>>) -> Result<
    Seq<CExprV>,
    ConcErrV,
>
    decreases args, 1nat, args.len() - i,
{
    if i < 0 || i >= args.len() {
        Ok(Seq::empty())
    } else {
        match spec_concretize(args[i], hdrs) {
            Err(e) => Err(e),
            Ok(c) => match spec_concretize_args(args, i + 1, hdrs) {
                Err(e) => Err(e),
                Ok(rest) => Ok(seq![c] + rest),
            },
        }
    }
}

/// The concretization of a parsed expression against fixed headers: literals
/// and identifiers lower directly, lambda bodies are concretized eagerly,
/// and calls are classified against the special registry first.
pub open spec fn spec_concretize(p: ParsedExpr, hdrs: Seq<Seq<u8>>) -> Result<CExprV, ConcErrV>
    decreases p, 3nat, 0nat,
{
    match p {
        ParsedExpr::Lit(v) => Ok(CExprV::Value(dv_view(v))),
        ParsedExpr::Identifier(s) => Ok(CExprV::Identifier(s@)),
        ParsedExpr::Lambda(params, body) => match spec_concretize(*body, hdrs) {
            Ok(b) => Ok(CExprV::Lambda(names_view(params@), Box::new(b))),
            Err(e) => Err(e),
        },
        ParsedExpr::Call(name, args) => spec_concretize_call(name@, args@, hdrs),
    }
}

/// A fresh vector holding the same names.
fn clone_names(v: &Vec<String>) -> (r: Vec<String>)
    ensures
        names_view(r@) == names_view(v@),
{
    let mut r: Vec<String> = Vec::new();
    let mut i: usize = 0;
    while i < v.len()
        invariant
            i <= v.len(),
            r@.len() == i,
            forall|j: int| 0 <= j < i ==> r@[j]@ == v@[j]@,
        decreases v.len() - i,
    {
        r.push(v[i].clone());
        i += 1;
    }
    proof {
        assert(names_view(r@) =~= names_view(v@));
    }
    r
}

/// The statically analyzable reading of one argument.
fn static_indexation(arg: &ParsedExpr) -> (r: Option<ColumnIndexationBy>)
    ensures
        match r {
            Some(idx) => spec_static_idx(*arg) == Some(idx@),
            None => spec_static_idx(*arg) == Option::<IndexationV>::None,
        },
{
    match arg {
        ParsedExpr::Lit(v) => match v {
            DynamicValue::Str(s) => Some(ColumnIndexationBy::ByName(copy_bytes(s))),
            DynamicValue::Int(i) => Some(ColumnIndexationBy::ByPos(*i)),
            _ => None,
        },
        _ => None,
    }
}

/// The statically analyzable reading of a `col`-style argument list.
fn static_indexation_args(args: &Vec<ParsedExpr>) -> (r: Option<ColumnIndexationBy>)
    ensures
        match r {
            Some(idx) => spec_static_idx_args(args@) == Some(idx@),
            None => spec_static_idx_args(args@) == Option::<IndexationV>::None,
        },
{
    if args.len() == 1 {
        static_indexation(&args[0])
    } else if args.len() == 2 {
        match &args[0] {
            ParsedExpr::Lit(DynamicValue::Str(s)) => match &args[1] {
                ParsedExpr::Lit(DynamicValue::Int(k)) => {
                    if *k >= 0 && (*k as u128) <= (usize::MAX as u128) {
                        Some(ColumnIndexationBy::ByNameAndNth(copy_bytes(s), *k as usize))
                    } else {
                        None
                    }
                },
                _ => None,
            },
            _ => None,
        }
    } else {
        None
    }
}

/// Folds a statically analyzable `col()` call, per `spec_comptime_col`.
fn comptime_col(args: &Vec<ParsedExpr>, ctx: &EvaluationContext) -> (r: Result<
    Option<ConcreteExpr>,
    ConcretizationError,
>)
    ensures
        ({
            let s = spec_comptime_col(args@, ctx.spec_headers());
            match r {
                Ok(Some(c)) => s == Ok::<Option<CExprV>, ConcErrV>(Some(c@)),
                Ok(None) => s == Ok::<Option<CExprV>, ConcErrV>(None),
                Err(e) => s == Err::<Option<CExprV>, ConcErrV>(e@),
            }
        }),
{
    match static_indexation_args(args) {
        Some(iv) => match ctx.get_column_index(&iv) {
            Some(i) => Ok(Some(ConcreteExpr::Column(i))),
            None => Err(ConcretizationError::ColumnNotFound(iv)),
        },
        None => Ok(None),
    }
}

/// Folds a statically analyzable `col?()` call, per `spec_comptime_unsure_col`.
fn comptime_unsure_col(args: &Vec<ParsedExpr>, ctx: &EvaluationContext) -> (r: Result<
    Option<ConcreteExpr>,
    ConcretizationError,
>)
    ensures
        ({
            let s = spec_comptime_unsure_col(args@, ctx.spec_headers());
            match r {
                Ok(Some(c)) => s == Ok::<Option<CExprV>, ConcErrV>(Some(c@)),
                Ok(None) => s == Ok::<Option<CExprV>, ConcErrV>(None),
                Err(e) => s == Err::<Option<CExprV>, ConcErrV>(e@),
            }
        }),
{
    match static_indexation_args(args) {
        Some(iv) => match ctx.get_column_index(&iv) {
            Some(i) => Ok(Some(ConcreteExpr::Column(i))),
            None => Ok(Some(ConcreteExpr::Value(DynamicValue::Null))),
        },
        None => Ok(None),
    }
}

/// Builds one element of a folded `cols`/`headers` list.
fn mk_col_expr(ctx: &EvaluationContext, i: usize, as_headers: bool) -> (r: ConcreteExpr)
    requires
        i < ctx.spec_headers().len(),
    ensures
        r@ == mk_col(i as int, ctx.spec_headers(), as_headers),
{
    if as_headers {
        ConcreteExpr::Value(DynamicValue::Str(copy_bytes(&ctx.headers[i])))
    } else {
        ConcreteExpr::Column(i)
    }
}

/// Builds the folded list for an ascending column range.
fn build_range_fwd(ctx: &EvaluationContext, from: usize, to: usize, as_headers: bool) -> (r: Vec<
    ConcreteExpr,
>)
    requires
        from <= to <= ctx.spec_headers().len(),
    ensures
        ce_views(r@) == spec_range_fwd(from as int, to as int, ctx.spec_headers(), as_headers),
{
    let mut out: Vec<ConcreteExpr> = Vec::new();
    let mut i: usize = from;
    proof {
        assert(ce_views(out@) =~= spec_range_fwd(
            from as int,
            from as int,
            ctx.spec_headers(),
            as_headers,
        ));
    }
    while i < to
        invariant
            from <= i <= to <= ctx.spec_headers().len(),
            ce_views(out@) == spec_range_fwd(from as int, i as int, ctx.spec_headers(), as_headers),
        decreases to - i,
    {
        let e = mk_col_expr(ctx, i, as_headers);
        proof {
            lemma_ce_views_push(out@, e);
            lemma_range_fwd_snoc(from as int, i as int, ctx.spec_headers(), as_headers);
        }
        out.push(e);
        i += 1;
    }
    out
}

/// Builds the folded list for a descending column range.
fn build_range_rev(ctx: &EvaluationContext, from: usize, down_to: usize, as_headers: bool) -> (r:
    Vec<ConcreteExpr>)
    requires
        down_to <= from < ctx.spec_headers().len(),
    ensures
        ce_views(r@) == spec_range_rev(from as int, down_to as int, ctx.spec_headers(), as_headers),
{
    let w = ctx.headers.len();
    proof {
        assert(w == ctx.spec_headers().len());
    }
    let mut out: Vec<ConcreteExpr> = Vec::new();
    let mut j: usize = from + 1;
    proof {
        assert(ce_views(out@) =~= spec_range_rev(
            from as int,
            from + 1,
            ctx.spec_headers(),
            as_headers,
        ));
    }
    while j > down_to
        invariant
            down_to <= j <= from + 1,
            from < ctx.spec_headers().len(),
            ce_views(out@) == spec_range_rev(from as int, j as int, ctx.spec_headers(), as_headers),
        decreases j,
    {
        j -= 1;
        let e = mk_col_expr(ctx, j, as_headers);
        proof {
            lemma_ce_views_push(out@, e);
            lemma_range_rev_snoc(from as int, j + 1, ctx.spec_headers(), as_headers);
        }
        out.push(e);
    }
    out
}

/// Folds a `cols`/`headers` call, per `spec_comptime_cols`.
fn comptime_cols_headers(
    args: &Vec<ParsedExpr>,
    ctx: &EvaluationContext,
    as_headers: bool,
) -> (r: Result<ConcreteExpr, ConcretizationError>)
    ensures
        ({
            let s = spec_comptime_cols(args@, ctx.spec_headers(), as_headers);
            match r {
                Ok(c) => s == Ok::<CExprV, ConcErrV>(c@),
                Err(e) => s == Err::<CExprV, ConcErrV>(e@),
            }
        }),
{
    let width = ctx.headers.len();
    proof {
        assert(ctx.spec_headers().len() == width);
    }
    if args.len() == 0 {
        return Ok(ConcreteExpr::List(build_range_fwd(ctx, 0, width, as_headers)));
    }
    let iv1 = match static_indexation(&args[0]) {
        None => {
            return Err(ConcretizationError::NotStaticallyAnalyzable);
        },
        Some(iv) => iv,
    };
    let i1 = match ctx.get_column_index(&iv1) {
        None => {
            return Err(ConcretizationError::ColumnNotFound(iv1));
        },
        Some(i) => i,
    };
    if args.len() < 2 {
        return Ok(ConcreteExpr::List(build_range_fwd(ctx, i1, width, as_headers)));
    }
    let iv2 = match static_indexation(&args[1]) {
        None => {
            return Err(ConcretizationError::NotStaticallyAnalyzable);
        },
        Some(iv) => iv,
    };
    let i2 = match ctx.get_column_index(&iv2) {
        None => {
            return Err(ConcretizationError::ColumnNotFound(iv2));
        },
        Some(i) => i,
    };
    if i1 > i2 {
        Ok(ConcreteExpr::List(build_range_rev(ctx, i1, i2, as_headers)))
    } else {
        Ok(ConcreteExpr::List(build_range_fwd(ctx, i1, i2 + 1, as_headers)))
    }
}

/// Concretizes the arguments of a call left for runtime.
fn runtime_form(op: SpecialOp, args: &Vec<ParsedExpr>, ctx: &EvaluationContext) -> (r: Result<
    ConcreteExpr,
    ConcretizationError,
>)
    ensures
        ({
            let s = spec_runtime_form(op, args@, ctx.spec_headers());
            match r {
                Ok(c) => s == Ok::<CExprV, ConcErrV>(c@),
                Err(e) => s == Err::<CExprV, ConcErrV>(e@),
            }
        }),
    decreases args, 1nat, args@.len() + 1,
{
    match concretize_args(args, 0, ctx) {
        Ok(cs) => Ok(ConcreteExpr::SpecialCall(op, cs)),
        Err(e) => Err(e),
    }
}

/// Concretizes one argument of a call.
fn concretize_arg(args: &Vec<ParsedExpr>, i: usize, ctx: &EvaluationContext) -> (r: Result<
    ConcreteExpr,
    ConcretizationError,
>)
    requires
        i < args@.len(),
    ensures
        ({
            let s = spec_concretize(args@[i as int], ctx.spec_headers());
            match r {
                Ok(c) => s == Ok::<CExprV, ConcErrV>(c@),
                Err(e) => s == Err::<CExprV, ConcErrV>(e@),
            }
        }),
    decreases args@[i as int], 4nat, 0nat,
{
    concretize(&args[i], ctx)
}

/// Concretizes an argument list from position `i` on.
fn concretize_args(args: &Vec<ParsedExpr>, i: usize, ctx: &EvaluationContext) -> (r: Result<
    Vec<ConcreteExpr>,
    ConcretizationError,
>)
    requires
        i <= args@.len(),
    ensures
        ({
            let s = spec_concretize_args(args@, i as int, ctx.spec_headers());
            match r {
                Ok(cs) => s == Ok::<Seq<CExprV>, ConcErrV>(ce_views(cs@)),
                Err(e) => s == Err::<Seq<CExprV>, ConcErrV>(e@),
            }
        }),
    decreases args, 1nat, args@.len() - i,
{
    if i >= args.len() {
        let r: Vec<ConcreteExpr> = Vec::new();
        proof {
            assert(ce_views(r@) =~= Seq::<CExprV>::empty());
        }
        return Ok(r);
    }
    let c = match concretize_arg(args, i, ctx) {
        Ok(c) => c,
        Err(e) => {
            return Err(e);
        },
    };
    let mut rest = match concretize_args(args, i + 1, ctx) {
        Ok(x) => x,
        Err(e) => {
            return Err(e);
        },
    };
    let ghost cv = ce_view(c);
    let ghost rests = rest@;
    let ghost restv = ce_views(rest@);
    let mut out: Vec<ConcreteExpr> = Vec::new();
    out.push(c);
    out.append(&mut rest);
    proof {
        assert(out@[0] == c);
        assert(out@.drop_first() =~= rests);
        assert(ce_views(out@) == seq![ce_view(out@[0])] + ce_views(out@.drop_first()));
        assert(ce_views(out@) == seq![cv] + restv);
    }
    Ok(out)
}

/// Concretizes a function application.
fn concretize_call(name: &String, args: &Vec<ParsedExpr>, ctx: &EvaluationContext) -> (r: Result<
    ConcreteExpr,
    ConcretizationError,
>)
    ensures
        ({
            let s = spec_concretize_call(name@, args@, ctx.spec_headers());
            match r {
                Ok(c) => s == Ok::<CExprV, ConcErrV>(c@),
                Err(e) => s == Err::<CExprV, ConcErrV>(e@),
            }
        }),
    decreases args, 2nat, 0nat,
{
    match get_special_function(name) {
        Some(entry) => {
            if !entry.arity.accepts(args.len()) {
                return Err(ConcretizationError::InvalidArity(entry.arity, args.len()));
            }
            match entry.comptime {
                Some(ComptimeOp::Col) => match comptime_col(args, ctx) {
                    Ok(Some(c)) => Ok(c),
                    Ok(None) => runtime_form(SpecialOp::Col, args, ctx),
                    Err(e) => Err(e),
                },
                Some(ComptimeOp::ColOpt) => match comptime_unsure_col(args, ctx) {
                    Ok(Some(c)) => Ok(c),
                    Ok(None) => runtime_form(SpecialOp::ColOpt, args, ctx),
                    Err(e) => Err(e),
                },
                Some(ComptimeOp::Cols) => comptime_cols_headers(args, ctx, false),
                Some(ComptimeOp::Headers) => comptime_cols_headers(args, ctx, true),
                None => match entry.runtime {
                    Some(op) => runtime_form(op, args, ctx),
                    None => Err(ConcretizationError::UnknownFunction(name.clone())),
                },
            }
        },
        None => match crate::functions::get_function(name) {
            Some(fa) => {
                if !fa.accepts(args.len()) {
                    return Err(ConcretizationError::InvalidArity(fa, args.len()));
                }
                match concretize_args(args, 0, ctx) {
                    Ok(cs) => Ok(ConcreteExpr::Call(name.clone(), cs)),
                    Err(e) => Err(e),
                }
            },
            None => Err(ConcretizationError::UnknownFunction(name.clone())),
        },
    }
}

/// Concretizes a parsed expression against the observed headers, resolving
/// column references and folding constants, per `spec_concretize`.
pub fn concretize(p: &ParsedExpr, ctx: &EvaluationContext) -> (r: Result<
    ConcreteExpr,
    ConcretizationError,
>)
    ensures
        ({
            let s = spec_concretize(*p, ctx.spec_headers());
            match r {
                Ok(c) => s == Ok::<CExprV, ConcErrV>(c@),
                Err(e) => s == Err::<CExprV, ConcErrV>(e@),
            }
        }),
    decreases p, 3nat, 0nat,
{
    match p {
        ParsedExpr::Lit(v) => Ok(ConcreteExpr::Value(v.duplicate())),
        ParsedExpr::Identifier(s) => Ok(ConcreteExpr::Identifier(s.clone())),
        ParsedExpr::Lambda(params, body) => match concretize(&**body, ctx) {
            Ok(b) => Ok(ConcreteExpr::Lambda(clone_names(params), Box::new(b))),
            Err(e) => Err(e),
        },
        ParsedExpr::Call(name, args) => concretize_call(name, args, ctx),
    }
}

} // verus!
