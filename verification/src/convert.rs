use vstd::prelude::*;

use crate::value::{dv_view, dv_views, DynamicValue, Val};
use vstd::slice::slice_to_vec;

verus! {

pub open spec fn is_ws(b: u8) -> bool {
    b == 32 || b == 9 || b == 13 || b == 10
}

pub open spec fn spec_trim_start(s: Seq<u8>) -> Seq<u8>
    decreases s.len(),
{
    if s.len() > 0 && is_ws(s[0]) {
        spec_trim_start(s.drop_first())
    } else {
        s
    }
}

pub open spec fn spec_trim_end(s: Seq<u8>) -> Seq<u8>
    decreases s.len(),
{
    if s.len() > 0 && is_ws(s.last()) {
        spec_trim_end(s.drop_last())
    } else {
        s
    }
}

/// A byte string with leading and trailing whitespace removed.
pub open spec fn spec_trim(s: Seq<u8>) -> Seq<u8> {
    spec_trim_end(spec_trim_start(s))
}

pub open spec fn is_digit(b: u8) -> bool {
    48 <= b <= 57
}

pub open spec fn all_digits(s: Seq<u8>) -> bool {
    forall|i: int| 0 <= i < s.len() ==> is_digit(s[i])
}

/// The number denoted by a run of decimal digits, most significant first.
pub open spec fn digits_val(s: Seq<u8>) -> int
    decreases s.len(),
{
    if s.len() == 0 {
        0
    } else {
        digits_val(s.drop_last()) * 10 + (s.last() - 48)
    }
}

/// Integer reading of an already trimmed byte string: an optional minus sign
/// followed by decimal digits, refused when empty, malformed, or out of the
/// signed 64-bit range.
pub open spec fn spec_parse_int(t: Seq<u8>) -> Option<i64> {
    if t.len() == 0 {
        Option::None
    } else if t[0] == 45 {
        let d = t.drop_first();
        if d.len() > 0 && all_digits(d) && -digits_val(d) >= i64::MIN {
            Option::Some((-digits_val(d)) as i64)
        } else {
            Option::None
        }
    } else if all_digits(t) && digits_val(t) <= i64::MAX {
        Option::Some(digits_val(t) as i64)
    } else {
        Option::None
    }
}

/// Permissive reading of a byte string as a value: whitespace is trimmed, an
/// empty string is null, an integer is read when possible, anything else
/// falls back to the string itself.
pub open spec fn spec_decode(s: Seq<u8>) -> Val {
    if spec_trim(s).len() == 0 {
        Val::Null
    } else {
        match spec_parse_int(spec_trim(s)) {
            Option::Some(i) => Val::Int(i),
            Option::None => Val::Str(s),
        }
    }
}

/// Numeric coercion of a value: integers pass through, strings are read
/// permissively, everything else refuses.
pub open spec fn spec_to_int(v: Val) -> Option<i64> {
    match v {
        Val::Int(i) => Option::Some(i),
        Val::Str(s) => spec_parse_int(spec_trim(s)),
        _ => Option::None,
    }
}

/// The value of a digit run never shrinks as digits are appended.
proof fn lemma_digits_val_mono(d: Seq<u8>, j: int)
    requires
        0 <= j <= d.len(),
        all_digits(d),
    ensures
        digits_val(d) >= digits_val(d.take(j)),
        digits_val(d) >= 0,
    decreases d.len(),
{
    if d.len() == 0 {
        assert(d.take(j) =~= d);
    } else if j == d.len() {
        assert(d.take(j) =~= d);
        assert(d.drop_last().take(d.len() - 1) =~= d.drop_last());
        assert(all_digits(d.drop_last()));
        lemma_digits_val_mono(d.drop_last(), d.len() - 1);
    } else {
        assert(all_digits(d.drop_last()));
        assert(d.take(j) =~= d.drop_last().take(j));
        lemma_digits_val_mono(d.drop_last(), j);
    }
}

/// The bounds of the trimmed region of a byte string.
fn trim_bounds(s: &[u8]) -> (r: (usize, usize))
    ensures
        r.0 <= r.1 <= s@.len(),
        spec_trim(s@) == s@.subrange(r.0 as int, r.1 as int),
{
    let len = s.len();
    let mut start: usize = 0;
    proof {
        assert(s@.skip(0) =~= s@);
    }
    while start < len && is_ws_byte(s[start])
        invariant
            start <= len,
            len == s@.len(),
            spec_trim_start(s@) == spec_trim_start(s@.skip(start as int)),
        decreases len - start,
    {
        proof {
            assert(s@.skip(start as int)[0] == s@[start as int]);
            assert(s@.skip(start as int).drop_first() =~= s@.skip(start + 1));
        }
        start += 1;
    }
    proof {
        if start == len {
            assert(s@.skip(start as int) =~= Seq::<u8>::empty());
        }
        assert(spec_trim_start(s@) == s@.skip(start as int));
    }
    let ghost t = s@.skip(start as int);
    let mut end: usize = len;
    proof {
        assert(t.take(len - start) =~= t);
    }
    while end > start && is_ws_byte(s[end - 1])
        invariant
            start <= end <= len,
            len == s@.len(),
            t == s@.skip(start as int),
            spec_trim_end(t) == spec_trim_end(t.take(end - start)),
        decreases end,
    {
        proof {
            assert(t.take(end - start).len() == end - start);
            assert(t.take(end - start).last() == s@[end - 1]);
            assert(t.take(end - start).drop_last() =~= t.take(end - 1 - start));
        }
        end -= 1;
    }
    proof {
        if end == start {
            assert(t.take(0) =~= Seq::<u8>::empty());
        } else {
            assert(t.take(end - start).last() == s@[end - 1]);
        }
        assert(spec_trim_end(t) == t.take(end - start));
        assert(t.take(end - start) =~= s@.subrange(start as int, end as int));
    }
    (start, end)
}

fn is_ws_byte(b: u8) -> (r: bool)
    ensures
        r == is_ws(b),
{
    b == 32 || b == 9 || b == 13 || b == 10
}

fn is_digit_byte(b: u8) -> (r: bool)
    ensures
        r == is_digit(b),
{
    48 <= b && b <= 57
}

/// Reads the integer denoted by `s[start..end]`, if any.
#[verifier::loop_isolation(false)]
fn parse_int_range(s: &[u8], start: usize, end: usize) -> (r: Option<i64>)
    requires
        start <= end <= s@.len(),
    ensures
        match r {
            Some(i) => spec_parse_int(s@.subrange(start as int, end as int)) == Option::Some(i),
            None => spec_parse_int(s@.subrange(start as int, end as int)) == Option::<i64>::None,
        },
{
    let ghost t = s@.subrange(start as int, end as int);
    if start == end {
        return None;
    }
    let neg = s[start] == 45;
    let ds = if neg {
        start + 1
    } else {
        start
    };
    let ghost d = s@.subrange(ds as int, end as int);
    proof {
        if neg {
            assert(t.drop_first() =~= d);
        } else {
            assert(t =~= d);
        }
    }
    if neg && ds == end {
        proof {
            assert(d.len() == 0);
        }
        return None;
    }
    let mut acc: u128 = 0;
    let mut i: usize = ds;
    proof {
        assert(d.take(0) =~= Seq::<u8>::empty());
    }
    while i < end
        invariant
            ds <= i <= end <= s@.len(),
            d == s@.subrange(ds as int, end as int),
            d.len() == end - ds,
            all_digits(d.take(i - ds)),
            acc == digits_val(d.take(i - ds)),
            acc <= (i64::MAX as u128) + 1,
        decreases end - i,
    {
        let c = s[i];
        proof {
            assert(d[i - ds] == s@[i as int]);
        }
        if !is_digit_byte(c) {
            proof {
                assert(!is_digit(d[i - ds]));
                assert(!all_digits(d));
                if !neg {
                    assert(t[0] == s@[start as int]);
                }
            }
            return None;
        }
        let digit = (c - 48) as u128;
        acc = acc * 10 + digit;
        proof {
            assert(d.take(i + 1 - ds).drop_last() =~= d.take(i - ds));
            assert(d.take(i + 1 - ds).last() == d[i - ds]);
        }
        i += 1;
        if acc > (9223372036854775807u128 + 1) {
            proof {
                if all_digits(d) {
                    lemma_digits_val_mono(d, i - ds);
                    assert(digits_val(d) >= digits_val(d.take(i - ds)));
                    assert(digits_val(d) > i64::MAX as int + 1);
                }
                if !neg {
                    assert(t[0] == s@[start as int]);
                }
            }
            return None;
        }
    }
    proof {
        assert(d.take(d.len() as int) =~= d);
        assert(all_digits(d));
        assert(acc == digits_val(d));
        assert(t[0] == s@[start as int]);
    }
    if neg {
        let v: i64 = (-(acc as i128)) as i64;
        proof {
            assert(-digits_val(d) >= i64::MIN);
        }
        Some(v)
    } else {
        if acc > 9223372036854775807u128 {
            proof {
                assert(digits_val(t) > i64::MAX);
            }
            None
        } else {
            proof {
                assert(t[0] != 45);
            }
            Some(acc as i64)
        }
    }
}

/// Permissive reading of a byte string, per the value model's rules.
pub fn decode_bytes(s: &[u8]) -> (r: DynamicValue)
    ensures
        r@ == spec_decode(s@),
{
    let (start, end) = trim_bounds(s);
    if start == end {
        return DynamicValue::Null;
    }
    match parse_int_range(s, start, end) {
        Some(i) => DynamicValue::Int(i),
        None => DynamicValue::Str(slice_to_vec(s)),
    }
}

/// Numeric coercion of a value, per the value model's rules.
pub fn value_to_int(v: &DynamicValue) -> (r: Option<i64>)
    ensures
        match r {
            Some(i) => spec_to_int(v@) == Option::Some(i),
            None => spec_to_int(v@) == Option::<i64>::None,
        },
{
    match v {
        DynamicValue::Int(i) => Some(*i),
        DynamicValue::Str(s) => {
            let (start, end) = trim_bounds(s.as_slice());
            parse_int_range(s.as_slice(), start, end)
        },
        _ => None,
    }
}

pub open spec fn digit_byte(d: int) -> u8 {
    (48 + d) as u8
}

/// The decimal digits of a nonnegative number, most significant first.
pub open spec fn spec_udec(n: nat) -> Seq<u8>
    decreases n,
{
    if n < 10 {
        seq![digit_byte(n as int)]
    } else {
        spec_udec(n / 10).push(digit_byte((n % 10) as int))
    }
}

/// The decimal rendering of an integer, with a leading minus when negative.
pub open spec fn spec_int_dec(i: int) -> Seq<u8> {
    if i >= 0 {
        spec_udec(i as nat)
    } else {
        seq![45u8] + spec_udec((-i) as nat)
    }
}

/// The output rendering of a value: null is empty, booleans spell true or
/// false, integers render in decimal, strings pass through, lists render
/// bracketed with comma-separated items.
pub open spec fn spec_ser(v: Val) -> Seq<u8>
    decreases v, 0nat, 0nat,
{
    match v {
        Val::Null => Seq::empty(),
        Val::Bool(b) => if b {
            seq![116u8, 114u8, 117u8, 101u8]
        } else {
            seq![102u8, 97u8, 108u8, 115u8, 101u8]
        },
        Val::Int(i) => spec_int_dec(i as int),
        Val::Str(s) => s,
        Val::List(l) => seq![91u8] + spec_ser_items(l, 0) + seq![93u8],
    }
}

pub open spec fn spec_ser_items(l: Seq<Val>, i: int) -> Seq<u8>
    decreases l, 1nat, l.len() - i,
{
    if i < 0 || i >= l.len() {
        Seq::empty()
    } else {
        (if i > 0 {
            seq![44u8]
        } else {
            Seq::<u8>::empty()
        }) + spec_ser(l[i]) + spec_ser_items(l, i + 1)
    }
}

/// The decimal digits of a 64-bit number.
pub fn u64_dec(n: u64) -> (r: Vec<u8>)
    ensures
        r@ == spec_udec(n as nat),
    decreases n,
{
    if n < 10 {
        let mut v: Vec<u8> = Vec::new();
        v.push((n as u8) + 48);
        proof {
            assert(v@ =~= seq![digit_byte(n as int)]);
        }
        v
    } else {
        let mut v = u64_dec(n / 10);
        v.push(((n % 10) as u8) + 48);
        proof {
            assert((n % 10) as u8 + 48 == digit_byte((n as nat % 10) as int));
        }
        v
    }
}

/// The decimal rendering of a signed 64-bit number.
fn int_dec(i: i64) -> (r: Vec<u8>)
    ensures
        r@ == spec_int_dec(i as int),
{
    if i >= 0 {
        u64_dec(i as u64)
    } else {
        let mag: u64 = (-(i as i128)) as u64;
        let mut v: Vec<u8> = Vec::new();
        v.push(45);
        let mut d = u64_dec(mag);
        v.append(&mut d);
        proof {
            assert(mag as nat == (-(i as int)) as nat);
            assert(v@ =~= seq![45u8] + spec_udec((-(i as int)) as nat));
        }
        v
    }
}

/// Renders a value for output, per the rendering rules above.
pub fn serialize_value(v: &DynamicValue) -> (r: Vec<u8>)
    ensures
        r@ == spec_ser(v@),
    decreases v, 0nat, 0nat,
{
    match v {
        DynamicValue::Null => Vec::new(),
        DynamicValue::Bool(b) => {
            let mut r: Vec<u8> = Vec::new();
            if *b {
                r.push(116);
                r.push(114);
                r.push(117);
                r.push(101);
                proof {
                    assert(r@ =~= seq![116u8, 114u8, 117u8, 101u8]);
                }
            } else {
                r.push(102);
                r.push(97);
                r.push(108);
                r.push(115);
                r.push(101);
                proof {
                    assert(r@ =~= seq![102u8, 97u8, 108u8, 115u8, 101u8]);
                }
            }
            r
        },
        DynamicValue::Int(i) => int_dec(*i),
        DynamicValue::Str(s) => slice_to_vec(s.as_slice()),
        DynamicValue::List(l) => {
            let mut r: Vec<u8> = Vec::new();
            r.push(91);
            let mut items = serialize_items(l, 0);
            r.append(&mut items);
            r.push(93);
            proof {
                assert(r@ =~= seq![91u8] + spec_ser_items(dv_views(l@), 0) + seq![93u8]);
            }
            r
        },
    }
}

/// Renders the items of a list from position `i` on, comma separated.
fn serialize_items(l: &Vec<DynamicValue>, i: usize) -> (r: Vec<u8>)
    requires
        i <= l@.len(),
    ensures
        r@ == spec_ser_items(dv_views(l@), i as int),
    decreases l, 1nat, l@.len() - i,
{
    proof {
        crate::value::lemma_dv_views_index(l@);
    }
    if i >= l.len() {
        let r: Vec<u8> = Vec::new();
        proof {
            assert(r@ =~= spec_ser_items(dv_views(l@), i as int));
        }
        return r;
    }
    let mut r: Vec<u8> = Vec::new();
    if i > 0 {
        r.push(44);
    }
    let mut s = serialize_item(l, i);
    r.append(&mut s);
    let mut rest = serialize_items(l, i + 1);
    r.append(&mut rest);
    proof {
        if i > 0 {
            assert(r@ =~= seq![44u8] + spec_ser(dv_views(l@)[i as int]) + spec_ser_items(
                dv_views(l@),
                i + 1,
            ));
        } else {
            assert(r@ =~= Seq::<u8>::empty() + spec_ser(dv_views(l@)[i as int]) + spec_ser_items(
                dv_views(l@),
                i + 1,
            ));
        }
    }
    r
}

/// Renders one item of a list.
fn serialize_item(l: &Vec<DynamicValue>, i: usize) -> (r: Vec<u8>)
    requires
        i < l@.len(),
    ensures
        r@ == spec_ser(l@[i as int]@),
    decreases l@[i as int], 1nat, 0nat,
{
    serialize_value(&l[i])
}

} // verus!
