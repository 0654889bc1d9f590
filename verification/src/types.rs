use vstd::prelude::*;

use crate::value::{bytes_eq, dv_view, DynamicValue, Val};

verus! {

/// Mathematical model of a column reference: by name (first occurrence), by
/// name and occurrence rank, or by signed position (negative counts from the
/// end of the row).
pub ghost enum IndexationV {
    ByName(Seq<u8>),
    ByNameAndNth(Seq<u8>, int),
    ByPos(int),
}

/// Describes how an expression refers to a column of the CSV header.
pub enum ColumnIndexationBy {
    ByName(Vec<u8>),
    ByNameAndNth(Vec<u8>, usize),
    ByPos(i64),
}

impl View for ColumnIndexationBy {
    type V = IndexationV;

    open spec fn view(&self) -> IndexationV {
        match self {
            ColumnIndexationBy::ByName(n) => IndexationV::ByName(n@),
            ColumnIndexationBy::ByNameAndNth(n, k) => IndexationV::ByNameAndNth(n@, *k as int),
            ColumnIndexationBy::ByPos(p) => IndexationV::ByPos(*p as int),
        }
    }
}

/// Index of the `k`-th cell equal to `name` at or after position `i`.
pub open spec fn spec_find_nth(headers: Seq<Seq<u8>>, name: Seq<u8>, k: int, i: int) -> Option<int>
    decreases headers.len() - i,
{
    if i < 0 || i >= headers.len() {
        Option::None
    } else if headers[i] == name {
        if k == 0 {
            Option::Some(i)
        } else {
            spec_find_nth(headers, name, k - 1, i + 1)
        }
    } else {
        spec_find_nth(headers, name, k, i + 1)
    }
}

/// Resolution of a column reference against a header: names yield the matching
/// occurrence, nonnegative positions must lie in range, negative positions
/// count from the end and resolve only when they do not underflow.
pub open spec fn spec_find_column(idx: IndexationV, headers: Seq<Seq<u8>>) -> Option<int> {
    match idx {
        IndexationV::ByName(n) => spec_find_nth(headers, n, 0, 0),
        IndexationV::ByNameAndNth(n, k) => spec_find_nth(headers, n, k, 0),
        IndexationV::ByPos(p) => if 0 <= p < headers.len() {
            Option::Some(p)
        } else if p < 0 && headers.len() + p >= 0 {
            Option::Some(headers.len() + p)
        } else {
            Option::None
        },
    }
}

/// The cells of a header held as a vector of byte strings.
pub open spec fn hdr_view(h: Seq<Vec<u8>>) -> Seq<Seq<u8>> {
    Seq::new(h.len(), |i: int| h[i]@)
}

impl ColumnIndexationBy {
    /// Resolves this reference against the given header cells.
    pub fn find_column_index(&self, headers: &Vec<Vec<u8>>) -> (r: Option<usize>)
        ensures
            match r {
                Some(i) => spec_find_column(self@, hdr_view(headers@)) == Option::Some(i as int)
                    && i < headers@.len(),
                None => spec_find_column(self@, hdr_view(headers@)) == Option::<int>::None,
            },
    {
        match self {
            ColumnIndexationBy::ByName(n) => find_nth(headers, n, 0),
            ColumnIndexationBy::ByNameAndNth(n, k) => find_nth(headers, n, *k),
            ColumnIndexationBy::ByPos(p) => {
                let len = headers.len();
                if *p >= 0 {
                    if (*p as u128) < (len as u128) {
                        Some(*p as usize)
                    } else {
                        None
                    }
                } else {
                    let mag: u128 = (-(*p as i128)) as u128;
                    if mag <= (len as u128) {
                        Some(len - (mag as usize))
                    } else {
                        None
                    }
                }
            },
        }
    }
}

/// Finds the `k`-th occurrence of a name among the header cells.
fn find_nth(headers: &Vec<Vec<u8>>, name: &Vec<u8>, k: usize) -> (r: Option<usize>)
    ensures
        match r {
            Some(i) => spec_find_nth(hdr_view(headers@), name@, k as int, 0) == Option::Some(
                i as int,
            ) && i < headers@.len(),
            None => spec_find_nth(hdr_view(headers@), name@, k as int, 0) == Option::<int>::None,
        },
{
    let ghost hs = hdr_view(headers@);
    let mut i: usize = 0;
    let mut remaining: usize = k;
    while i < headers.len()
        invariant
            i <= headers.len(),
            hs == hdr_view(headers@),
            hs.len() == headers@.len(),
            forall|j: int| 0 <= j < hs.len() ==> hs[j] == headers@[j]@,
            remaining <= k,
            spec_find_nth(hs, name@, k as int, 0) == spec_find_nth(
                hs,
                name@,
                remaining as int,
                i as int,
            ),
        decreases headers.len() - i,
    {
        if bytes_eq(headers[i].as_slice(), name.as_slice()) {
            if remaining == 0 {
                return Some(i);
            }
            remaining -= 1;
        }
        i += 1;
    }
    None
}

/// The number of arguments a function accepts, as an inclusive range.
#[derive(Clone, Copy, PartialEq, Eq, Structural, Debug)]
pub struct FunctionArguments {
    pub min: usize,
    pub max: usize,
}

impl FunctionArguments {
    pub fn nullary() -> (r: FunctionArguments)
        ensures
            r == (FunctionArguments { min: 0, max: 0 }),
    {
        FunctionArguments { min: 0, max: 0 }
    }

    pub fn unary() -> (r: FunctionArguments)
        ensures
            r == (FunctionArguments { min: 1, max: 1 }),
    {
        FunctionArguments { min: 1, max: 1 }
    }

    pub fn binary() -> (r: FunctionArguments)
        ensures
            r == (FunctionArguments { min: 2, max: 2 }),
    {
        FunctionArguments { min: 2, max: 2 }
    }

    pub fn with_range(min: usize, max: usize) -> (r: FunctionArguments)
        ensures
            r == (FunctionArguments { min, max }),
    {
        FunctionArguments { min, max }
    }

    /// Whether an argument count lies in the accepted range.
    pub open spec fn spec_accepts(self, n: int) -> bool {
        self.min <= n <= self.max
    }

    pub fn accepts(&self, n: usize) -> (r: bool)
        ensures
            r == self.spec_accepts(n as int),
    {
        self.min <= n && n <= self.max
    }
}

/// One lambda binding: a parameter name paired with its current value.
pub type BindingV = (Seq<char>, Val);

/// The ordered lambda-binding environment active inside a higher-order call.
/// Later slots shadow earlier ones of the same name.
pub struct LambdaArguments {
    pub slots: Vec<(String, DynamicValue)>,
}

/// The model of a binding environment.
pub open spec fn bindings_view(b: LambdaArguments) -> Seq<BindingV> {
    Seq::new(b.slots@.len(), |i: int| (b.slots@[i].0@, dv_view(b.slots@[i].1)))
}

/// Name resolution in a binding environment: the last slot of that name wins.
pub open spec fn spec_lookup(b: Seq<BindingV>, name: Seq<char>) -> Option<Val>
    decreases b.len(),
{
    if b.len() == 0 {
        Option::None
    } else if b.last().0 == name {
        Option::Some(b.last().1)
    } else {
        spec_lookup(b.drop_last(), name)
    }
}

impl LambdaArguments {
    /// An empty binding environment.
    pub fn new() -> (r: LambdaArguments)
        ensures
            bindings_view(r) == Seq::<BindingV>::empty(),
    {
        let r = LambdaArguments { slots: Vec::new() };
        proof {
            assert(bindings_view(r) =~= Seq::<BindingV>::empty());
        }
        r
    }

    /// Appends a slot for a parameter, initially null, and returns its index.
    pub fn register(&mut self, name: &String) -> (i: usize)
        ensures
            bindings_view(*final(self)) == bindings_view(*old(self)).push((name@, Val::Null)),
            i == bindings_view(*old(self)).len(),
            bindings_view(*final(self)).len() == i + 1,
    {
        let i = self.slots.len();
        self.slots.push((name.clone(), DynamicValue::Null));
        proof {
            assert(bindings_view(*self) =~= bindings_view(*old(self)).push((name@, Val::Null)));
        }
        i
    }

    /// Overwrites the value of a slot, keeping its name.
    pub fn set(&mut self, i: usize, v: DynamicValue)
        requires
            i < bindings_view(*old(self)).len(),
        ensures
            bindings_view(*final(self)) == bindings_view(*old(self)).update(
                i as int,
                (bindings_view(*old(self))[i as int].0, v@),
            ),
    {
        let name = self.slots[i].0.clone();
        self.slots.set(i, (name, v));
        proof {
            assert(bindings_view(*self) =~= bindings_view(*old(self)).update(
                i as int,
                (bindings_view(*old(self))[i as int].0, v@),
            ));
        }
    }

    /// Looks a name up, innermost binding first.
    pub fn lookup(&self, name: &String) -> (r: Option<&DynamicValue>)
        ensures
            match r {
                Some(v) => spec_lookup(bindings_view(*self), name@) == Option::Some(v@),
                None => spec_lookup(bindings_view(*self), name@) == Option::<Val>::None,
            },
    {
        let ghost bv = bindings_view(*self);
        let mut i: usize = self.slots.len();
        proof {
            assert(bv.take(i as int) =~= bv);
        }
        while i > 0
            invariant
                i <= self.slots@.len(),
                bv == bindings_view(*self),
                bv.len() == self.slots@.len(),
                forall|j: int| 0 <= j < bv.len() ==> bv[j] == (self.slots@[j].0@, dv_view(
                    self.slots@[j].1,
                )),
                spec_lookup(bv, name@) == spec_lookup(bv.take(i as int), name@),
            decreases i,
        {
            i -= 1;
            let is_match = self.slots[i].0 == *name;
            proof {
                assert(bv.take(i + 1).len() == i + 1);
                assert(bv.take(i + 1).last() == bv[i as int]);
                assert(bv.take(i + 1).drop_last() =~= bv.take(i as int));
            }
            if is_match {
                proof {
                    assert(spec_lookup(bv.take(i + 1), name@) == Option::Some(bv[i as int].1));
                }
                return Some(&self.slots[i].1);
            }
            proof {
                assert(spec_lookup(bv.take(i + 1), name@) == spec_lookup(
                    bv.take(i as int),
                    name@,
                ));
            }
        }
        proof {
            assert(bv.take(0) =~= Seq::<BindingV>::empty());
        }
        None
    }

    /// A copy with the same bindings, used to inherit lexical scope.
    pub fn duplicate(&self) -> (r: LambdaArguments)
        ensures
            bindings_view(r) == bindings_view(*self),
    {
        let mut slots: Vec<(String, DynamicValue)> = Vec::new();
        let mut i: usize = 0;
        while i < self.slots.len()
            invariant
                i <= self.slots@.len(),
                slots@.len() == i,
                forall|j: int| 0 <= j < i ==> slots@[j].0@ == self.slots@[j].0@ && dv_view(
                    slots@[j].1,
                ) == dv_view(self.slots@[j].1),
            decreases self.slots@.len() - i,
        {
            let name = self.slots[i].0.clone();
            let value = self.slots[i].1.duplicate();
            slots.push((name, value));
            i += 1;
        }
        let r = LambdaArguments { slots };
        proof {
            assert(bindings_view(r) =~= bindings_view(*self));
        }
        r
    }
}

} // verus!
