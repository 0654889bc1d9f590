use moonblade::convert::{decode_bytes, serialize_value, value_to_int};
use moonblade::functions::get_function;
use moonblade::types::{ColumnIndexationBy, FunctionArguments, LambdaArguments};
use moonblade::value::{bytes_eq, values_eq, DynamicValue};

fn hdrs(names: &[&str]) -> Vec<Vec<u8>> {
    names.iter().map(|n| n.as_bytes().to_vec()).collect()
}

#[test]
fn decode_trims_and_reads_integers() {
    assert!(values_eq(&decode_bytes(b"  42 "), &DynamicValue::Int(42)));
    assert!(values_eq(&decode_bytes(b"-7"), &DynamicValue::Int(-7)));
    assert!(values_eq(&decode_bytes(b""), &DynamicValue::Null));
    assert!(values_eq(&decode_bytes(b"   "), &DynamicValue::Null));
    assert!(values_eq(
        &decode_bytes(b"abc"),
        &DynamicValue::Str(b"abc".to_vec())
    ));
    // the string fallback keeps the original bytes, whitespace included
    assert!(values_eq(
        &decode_bytes(b" a "),
        &DynamicValue::Str(b" a ".to_vec())
    ));
}

#[test]
fn decode_handles_signed_extremes() {
    assert!(values_eq(
        &decode_bytes(b"9223372036854775807"),
        &DynamicValue::Int(i64::MAX)
    ));
    assert!(values_eq(
        &decode_bytes(b"-9223372036854775808"),
        &DynamicValue::Int(i64::MIN)
    ));
    // one past the range falls back to a string
    assert!(values_eq(
        &decode_bytes(b"9223372036854775808"),
        &DynamicValue::Str(b"9223372036854775808".to_vec())
    ));
    assert!(values_eq(
        &decode_bytes(b"-9223372036854775809"),
        &DynamicValue::Str(b"-9223372036854775809".to_vec())
    ));
}

#[test]
fn numeric_coercion_follows_decoding() {
    assert_eq!(value_to_int(&DynamicValue::Int(5)), Some(5));
    assert_eq!(value_to_int(&DynamicValue::Str(b" 12 ".to_vec())), Some(12));
    assert_eq!(value_to_int(&DynamicValue::Str(b"x".to_vec())), None);
    assert_eq!(value_to_int(&DynamicValue::Null), None);
    assert_eq!(value_to_int(&DynamicValue::Bool(true)), None);
}

#[test]
fn truthiness_rules() {
    assert!(!DynamicValue::Null.is_truthy());
    assert!(DynamicValue::Bool(true).is_truthy());
    assert!(!DynamicValue::Bool(false).is_truthy());
    assert!(!DynamicValue::Int(0).is_truthy());
    assert!(DynamicValue::Int(-3).is_truthy());
    assert!(!DynamicValue::Str(Vec::new()).is_truthy());
    assert!(DynamicValue::Str(b"0".to_vec()).is_truthy());
    assert!(!DynamicValue::List(Vec::new()).is_truthy());
    assert!(DynamicValue::List(vec![DynamicValue::Null]).is_truthy());
    assert!(DynamicValue::Null.is_falsey());
}

#[test]
fn serialization_conventions() {
    assert_eq!(serialize_value(&DynamicValue::Null), b"".to_vec());
    assert_eq!(serialize_value(&DynamicValue::Bool(true)), b"true".to_vec());
    assert_eq!(serialize_value(&DynamicValue::Bool(false)), b"false".to_vec());
    assert_eq!(serialize_value(&DynamicValue::Int(0)), b"0".to_vec());
    assert_eq!(serialize_value(&DynamicValue::Int(-205)), b"-205".to_vec());
    assert_eq!(
        serialize_value(&DynamicValue::Int(i64::MIN)),
        b"-9223372036854775808".to_vec()
    );
    assert_eq!(
        serialize_value(&DynamicValue::Str(b"hi".to_vec())),
        b"hi".to_vec()
    );
    let l = DynamicValue::List(vec![
        DynamicValue::Int(1),
        DynamicValue::Str(b"x".to_vec()),
        DynamicValue::Null,
    ]);
    assert_eq!(serialize_value(&l), b"[1,x,]".to_vec());
}

#[test]
fn structural_equality_is_deep() {
    let a = DynamicValue::List(vec![DynamicValue::Int(1), DynamicValue::Str(b"x".to_vec())]);
    let b = DynamicValue::List(vec![DynamicValue::Int(1), DynamicValue::Str(b"x".to_vec())]);
    let c = DynamicValue::List(vec![DynamicValue::Int(2), DynamicValue::Str(b"x".to_vec())]);
    assert!(values_eq(&a, &b));
    assert!(!values_eq(&a, &c));
    assert!(!values_eq(&a, &DynamicValue::Int(1)));
    let d = a.duplicate();
    assert!(values_eq(&a, &d));
}

#[test]
fn byte_equality() {
    assert!(bytes_eq(b"abc", b"abc"));
    assert!(!bytes_eq(b"abc", b"abd"));
    assert!(!bytes_eq(b"abc", b"ab"));
    assert!(bytes_eq(b"", b""));
}

#[test]
fn column_lookup_by_name_and_occurrence() {
    let h = hdrs(&["a", "b", "a"]);
    assert_eq!(
        ColumnIndexationBy::ByName(b"a".to_vec()).find_column_index(&h),
        Some(0)
    );
    assert_eq!(
        ColumnIndexationBy::ByName(b"b".to_vec()).find_column_index(&h),
        Some(1)
    );
    assert_eq!(
        ColumnIndexationBy::ByName(b"c".to_vec()).find_column_index(&h),
        None
    );
    assert_eq!(
        ColumnIndexationBy::ByNameAndNth(b"a".to_vec(), 1).find_column_index(&h),
        Some(2)
    );
    assert_eq!(
        ColumnIndexationBy::ByNameAndNth(b"a".to_vec(), 2).find_column_index(&h),
        None
    );
}

#[test]
fn column_lookup_by_position() {
    let h = hdrs(&["a", "b", "c"]);
    assert_eq!(ColumnIndexationBy::ByPos(0).find_column_index(&h), Some(0));
    assert_eq!(ColumnIndexationBy::ByPos(2).find_column_index(&h), Some(2));
    assert_eq!(ColumnIndexationBy::ByPos(3).find_column_index(&h), None);
    assert_eq!(ColumnIndexationBy::ByPos(-1).find_column_index(&h), Some(2));
    assert_eq!(ColumnIndexationBy::ByPos(-3).find_column_index(&h), Some(0));
    assert_eq!(ColumnIndexationBy::ByPos(-4).find_column_index(&h), None);
}

#[test]
fn arity_ranges() {
    let fa = FunctionArguments::with_range(1, 2);
    assert!(fa.accepts(1));
    assert!(fa.accepts(2));
    assert!(!fa.accepts(0));
    assert!(!fa.accepts(3));
    assert!(FunctionArguments::nullary().accepts(0));
    assert!(FunctionArguments::unary().accepts(1));
    assert!(FunctionArguments::binary().accepts(2));
}

#[test]
fn lambda_bindings_shadow_and_set() {
    let mut vars = LambdaArguments::new();
    let x = vars.register(&"x".to_string());
    vars.set(x, DynamicValue::Int(1));
    let x2 = vars.register(&"x".to_string());
    vars.set(x2, DynamicValue::Int(2));
    match vars.lookup(&"x".to_string()) {
        Some(v) => assert!(values_eq(v, &DynamicValue::Int(2))),
        None => panic!("expected the inner binding"),
    }
    assert!(vars.lookup(&"y".to_string()).is_none());
    let copy = vars.duplicate();
    match copy.lookup(&"x".to_string()) {
        Some(v) => assert!(values_eq(v, &DynamicValue::Int(2))),
        None => panic!("expected the copied binding"),
    }
}

#[test]
fn normal_registry_arities() {
    let add = get_function(&"add".to_string()).unwrap();
    assert_eq!((add.min, add.max), (2, 2));
    let not = get_function(&"not".to_string()).unwrap();
    assert_eq!((not.min, not.max), (1, 1));
    assert!(get_function(&"col".to_string()).is_none());
}
