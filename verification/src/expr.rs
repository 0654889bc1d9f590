use vstd::prelude::*;

use crate::value::{DynamicValue, Val};

verus! {

/// The parsed form of an expression, as the external parser hands it over: a
/// tree of literals, identifiers, function applications and lambdas.
pub enum ParsedExpr {
    Lit(DynamicValue),
    Identifier(String),
    Call(String, Vec<ParsedExpr>),
    Lambda(Vec<String>, Box<ParsedExpr>),
}

/// A special operator kept as a tagged variant of the concrete expression, so
/// that the evaluator can dispatch on it instead of treating it as an ordinary
/// function. Only operators with a runtime role appear here; `cols` and
/// `headers` always fold at concretization time.
#[derive(Clone, Copy, PartialEq, Eq, Structural, Debug)]
pub enum SpecialOp {
    If,
    Unless,
    Try,
    MapList,
    FilterList,
    Col,
    ColOpt,
    Index,
}

/// Model of a concrete expression, the evaluator's immutable IR.
pub ghost enum CExprV {
    Value(Val),
    Column(int),
    List(Seq<CExprV>),
    Call(Seq<char>, Seq<CExprV>),
    SpecialCall(SpecialOp, Seq<CExprV>),
    Lambda(Seq<Seq<char>>, Box<CExprV>),
    Identifier(Seq<char>),
}

/// A concrete expression: the evaluator's IR, produced once per command by the
/// concretizer and immutable afterwards.
pub enum ConcreteExpr {
    Value(DynamicValue),
    Column(usize),
    List(Vec<ConcreteExpr>),
    Call(String, Vec<ConcreteExpr>),
    SpecialCall(SpecialOp, Vec<ConcreteExpr>),
    Lambda(Vec<String>, Box<ConcreteExpr>),
    Identifier(String),
}

/// The views of a vector of parameter names.
pub open spec fn names_view(s: Seq<String>) -> Seq<Seq<char>> {
    Seq::new(s.len(), |i: int| s[i]@)
}

pub open spec fn ce_view(c: ConcreteExpr) -> CExprV
    decreases c, 0nat,
{
    match c {
        ConcreteExpr::Value(v) => CExprV::Value(v@),
        ConcreteExpr::Column(i) => CExprV::Column(i as int),
        ConcreteExpr::List(xs) => CExprV::List(ce_views(xs@)),
        ConcreteExpr::Call(name, xs) => CExprV::Call(name@, ce_views(xs@)),
        ConcreteExpr::SpecialCall(op, xs) => CExprV::SpecialCall(op, ce_views(xs@)),
        ConcreteExpr::Lambda(params, body) => CExprV::Lambda(
            names_view(params@),
            Box::new(ce_view(*body)),
        ),
        ConcreteExpr::Identifier(name) => CExprV::Identifier(name@),
    }
}

pub open spec fn ce_views(s: Seq<ConcreteExpr>) -> Seq<CExprV>
    decreases s, 1nat,
{
    if s.len() == 0 {
        Seq::empty()
    } else {
        seq![ce_view(s[0])] + ce_views(s.drop_first())
    }
}

impl View for ConcreteExpr {
    type V = CExprV;

    open spec fn view(&self) -> CExprV {
        ce_view(*self)
    }
}

/// The view of an expression sequence is taken element by element.
pub proof fn lemma_ce_views_index(s: Seq<ConcreteExpr>)
    ensures
        ce_views(s).len() == s.len(),
        forall|i: int| 0 <= i < s.len() ==> ce_views(s)[i] == ce_view(s[i]),
    decreases s.len(),
{
    if s.len() > 0 {
        lemma_ce_views_index(s.drop_first());
    }
}

/// Appending one expression extends the viewed sequence by its view.
pub proof fn lemma_ce_views_push(s: Seq<ConcreteExpr>, c: ConcreteExpr)
    ensures
        ce_views(s.push(c)) == ce_views(s).push(ce_view(c)),
    decreases s.len(),
{
    if s.len() == 0 {
        assert(s.push(c).drop_first() =~= s);
        assert(s.push(c)[0] == c);
        assert(ce_views(s) == Seq::<CExprV>::empty());
        assert(ce_views(s.push(c)) == seq![ce_view(c)] + ce_views(s));
        assert(seq![ce_view(c)] + ce_views(s) =~= ce_views(s).push(ce_view(c)));
    } else {
        assert(s.push(c)[0] == s[0]);
        assert(s.push(c).drop_first() =~= s.drop_first().push(c));
        lemma_ce_views_push(s.drop_first(), c);
        assert(ce_views(s.push(c)) == seq![ce_view(s[0])] + ce_views(s.drop_first().push(c)));
        assert(ce_views(s.push(c)) == seq![ce_view(s[0])] + ce_views(s.drop_first()).push(
            ce_view(c),
        ));
        assert(ce_views(s) == seq![ce_view(s[0])] + ce_views(s.drop_first()));
        assert(seq![ce_view(s[0])] + ce_views(s.drop_first()).push(ce_view(c)) =~= (seq![
            ce_view(s[0]),
        ] + ce_views(s.drop_first())).push(ce_view(c)));
    }
}

} // verus!
