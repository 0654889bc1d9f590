use vstd::prelude::*;

verus! {

/// Mathematical model of a dynamic value: the tagged sum that carries every
/// runtime value of the expression engine.
pub ghost enum Val {
    Null,
    Bool(bool),
    Int(i64),
    Str(Seq<u8>),
    List(Seq<Val>),
}

/// Truthiness: null is false, booleans pass through, integer zero is false,
/// empty strings and lists are false, everything else is true.
pub open spec fn truthy(v: Val) -> bool {
    match v {
        Val::Null => false,
        Val::Bool(b) => b,
        Val::Int(i) => i != 0,
        Val::Str(s) => s.len() != 0,
        Val::List(l) => l.len() != 0,
    }
}

/// The dynamic value type consumed and produced by the evaluator.
/// Lists are plain vectors treated as immutable shared sequences.
pub enum DynamicValue {
    Null,
    Bool(bool),
    Int(i64),
    Str(Vec<u8>),
    List(Vec<DynamicValue>),
}

pub open spec fn dv_view(d: DynamicValue) -> Val
    decreases d, 0nat,
{
    match d {
        DynamicValue::Null => Val::Null,
        DynamicValue::Bool(b) => Val::Bool(b),
        DynamicValue::Int(i) => Val::Int(i),
        DynamicValue::Str(s) => Val::Str(s@),
        DynamicValue::List(l) => Val::List(dv_views(l@)),
    }
}

pub open spec fn dv_views(s: Seq<DynamicValue>) -> Seq<Val>
    decreases s, 1nat,
{
    if s.len() == 0 {
        Seq::empty()
    } else {
        seq![dv_view(s[0])] + dv_views(s.drop_first())
    }
}

impl View for DynamicValue {
    type V = Val;

    open spec fn view(&self) -> Val {
        dv_view(*self)
    }
}

/// The view of a value sequence is taken element by element.
pub proof fn lemma_dv_views_index(s: Seq<DynamicValue>)
    ensures
        dv_views(s).len() == s.len(),
        forall|i: int| 0 <= i < s.len() ==> dv_views(s)[i] == dv_view(s[i]),
    decreases s.len(),
{
    if s.len() > 0 {
        lemma_dv_views_index(s.drop_first());
    }
}

/// Appending one value extends the viewed sequence by its view.
pub proof fn lemma_dv_views_push(s: Seq<DynamicValue>, d: DynamicValue)
    ensures
        dv_views(s.push(d)) == dv_views(s).push(dv_view(d)),
    decreases s.len(),
{
    if s.len() == 0 {
        assert(s.push(d).drop_first() =~= s);
        assert(s.push(d)[0] == d);
        assert(dv_views(s) == Seq::<Val>::empty());
        assert(dv_views(s.push(d)) == seq![dv_view(d)] + dv_views(s));
        assert(seq![dv_view(d)] + dv_views(s) =~= dv_views(s).push(dv_view(d)));
    } else {
        assert(s.push(d)[0] == s[0]);
        assert(s.push(d).drop_first() =~= s.drop_first().push(d));
        lemma_dv_views_push(s.drop_first(), d);
        assert(dv_views(s.push(d)) == seq![dv_view(s[0])] + dv_views(s.drop_first().push(d)));
        assert(dv_views(s.push(d)) == seq![dv_view(s[0])] + dv_views(s.drop_first()).push(
            dv_view(d),
        ));
        assert(dv_views(s) == seq![dv_view(s[0])] + dv_views(s.drop_first()));
        assert(seq![dv_view(s[0])] + dv_views(s.drop_first()).push(dv_view(d)) =~= (seq![
            dv_view(s[0]),
        ] + dv_views(s.drop_first())).push(dv_view(d)));
    }
}

impl DynamicValue {
    /// Whether this value counts as true.
    pub fn is_truthy(&self) -> (r: bool)
        ensures
            r == truthy(self@),
    {
        match self {
            DynamicValue::Null => false,
            DynamicValue::Bool(b) => *b,
            DynamicValue::Int(i) => *i != 0,
            DynamicValue::Str(s) => s.len() != 0,
            DynamicValue::List(l) => {
                proof {
                    lemma_dv_views_index(l@);
                }
                l.len() != 0
            },
        }
    }

    /// Whether this value counts as false.
    pub fn is_falsey(&self) -> (r: bool)
        ensures
            r == !truthy(self@),
    {
        !self.is_truthy()
    }

    /// A deep copy whose model is the same value.
    pub fn duplicate(&self) -> (r: DynamicValue)
        ensures
            r@ == self@,
        decreases self, 0nat,
    {
        match self {
            DynamicValue::Null => DynamicValue::Null,
            DynamicValue::Bool(b) => DynamicValue::Bool(*b),
            DynamicValue::Int(i) => DynamicValue::Int(*i),
            DynamicValue::Str(s) => DynamicValue::Str(copy_bytes(s)),
            DynamicValue::List(l) => DynamicValue::List(duplicate_values(l)),
        }
    }

    /// Coercion of a list value into its element vector; scalars are refused.
    pub fn into_shared_list(self) -> (r: Option<Vec<DynamicValue>>)
        ensures
            match r {
                Some(l) => self@ == Val::List(dv_views(l@)),
                None => !(self@ matches Val::List(_)),
            },
    {
        match self {
            DynamicValue::List(l) => Some(l),
            _ => None,
        }
    }
}

/// A fresh vector holding the same bytes.
pub fn copy_bytes(v: &Vec<u8>) -> (r: Vec<u8>)
    ensures
        r@ == v@,
{
    let mut r: Vec<u8> = Vec::new();
    let mut i: usize = 0;
    while i < v.len()
        invariant
            i <= v.len(),
            r@ =~= v@.subrange(0, i as int),
        decreases v.len() - i,
    {
        r.push(v[i]);
        i += 1;
    }
    assert(r@ =~= v@);
    r
}

/// A deep copy of a value vector, element by element.
pub fn duplicate_values(v: &Vec<DynamicValue>) -> (r: Vec<DynamicValue>)
    ensures
        dv_views(r@) == dv_views(v@),
        r@.len() == v@.len(),
    decreases v, 1nat,
{
    let mut r: Vec<DynamicValue> = Vec::new();
    let mut i: usize = 0;
    while i < v.len()
        invariant
            i <= v.len(),
            r@.len() == i,
            forall|j: int| 0 <= j < i ==> dv_view(r@[j]) == dv_view(v@[j]),
        decreases v.len() - i,
    {
        proof {
            assert(v@[i as int] == v[i as int]);
        }
        let d = duplicate_element(v, i);
        r.push(d);
        i += 1;
    }
    proof {
        lemma_dv_views_index(r@);
        lemma_dv_views_index(v@);
        assert(dv_views(r@) =~= dv_views(v@));
    }
    r
}

/// A deep copy of one element of a value vector.
fn duplicate_element(v: &Vec<DynamicValue>, i: usize) -> (r: DynamicValue)
    requires
        i < v@.len(),
    ensures
        r@ == v@[i as int]@,
    decreases v@[i as int], 1nat,
{
    v[i].duplicate()
}

/// Compares two byte strings for equality.
pub fn bytes_eq(a: &[u8], b: &[u8]) -> (r: bool)
    ensures
        r == (a@ == b@),
{
    if a.len() != b.len() {
        assert(a@.len() != b@.len());
        return false;
    }
    let mut i: usize = 0;
    while i < a.len()
        invariant
            i <= a.len(),
            a.len() == b.len(),
            forall|j: int| 0 <= j < i ==> a@[j] == b@[j],
        decreases a.len() - i,
    {
        if a[i] != b[i] {
            assert(a@ != b@);
            return false;
        }
        i += 1;
    }
    assert(a@ =~= b@);
    true
}

/// Structural equality of two values.
pub fn values_eq(a: &DynamicValue, b: &DynamicValue) -> (r: bool)
    ensures
        r == (a@ == b@),
    decreases a, 0nat,
{
    match (a, b) {
        (DynamicValue::Null, DynamicValue::Null) => true,
        (DynamicValue::Bool(x), DynamicValue::Bool(y)) => x == y,
        (DynamicValue::Int(x), DynamicValue::Int(y)) => x == y,
        (DynamicValue::Str(x), DynamicValue::Str(y)) => bytes_eq(x.as_slice(), y.as_slice()),
        (DynamicValue::List(x), DynamicValue::List(y)) => value_lists_eq(x, y),
        _ => false,
    }
}

/// Structural equality of two value vectors.
fn value_lists_eq(a: &Vec<DynamicValue>, b: &Vec<DynamicValue>) -> (r: bool)
    ensures
        r == (dv_views(a@) == dv_views(b@)),
    decreases a, 1nat,
{
    proof {
        lemma_dv_views_index(a@);
        lemma_dv_views_index(b@);
    }
    if a.len() != b.len() {
        assert(dv_views(a@).len() != dv_views(b@).len());
        return false;
    }
    let mut i: usize = 0;
    while i < a.len()
        invariant
            i <= a.len(),
            a@.len() == b@.len(),
            dv_views(a@).len() == a@.len(),
            dv_views(b@).len() == b@.len(),
            forall|j: int| 0 <= j < a@.len() ==> dv_views(a@)[j] == dv_view(a@[j]),
            forall|j: int| 0 <= j < b@.len() ==> dv_views(b@)[j] == dv_view(b@[j]),
            forall|j: int| 0 <= j < i ==> dv_view(a@[j]) == dv_view(b@[j]),
        decreases a.len() - i,
    {
        proof {
            assert(a@[i as int] == a[i as int]);
        }
        if !values_eq_element(a, b, i) {
            proof {
                assert(dv_views(a@)[i as int] != dv_views(b@)[i as int]);
            }
            return false;
        }
        i += 1;
    }
    assert(dv_views(a@) =~= dv_views(b@));
    true
}

/// Structural equality of elements at one index.
fn values_eq_element(a: &Vec<DynamicValue>, b: &Vec<DynamicValue>, i: usize) -> (r: bool)
    requires
        i < a@.len(),
        i < b@.len(),
    ensures
        r == (a@[i as int]@ == b@[i as int]@),
    decreases a@[i as int], 1nat,
{
    values_eq(&a[i], &b[i])
}

} // verus!
