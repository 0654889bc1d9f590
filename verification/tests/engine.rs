use moonblade::driver::{run, run_rows, ErrorPolicy, Mode, RunError, RunOutput};
use moonblade::error::{ConcretizationError, EvaluationError};
use moonblade::expr::{ConcreteExpr, ParsedExpr, SpecialOp};
use moonblade::interpreter::{concretize, EvaluationContext};
use moonblade::registry::get_special_function;
use moonblade::value::DynamicValue;

fn lit_int(i: i64) -> ParsedExpr {
    ParsedExpr::Lit(DynamicValue::Int(i))
}

fn lit_str(s: &str) -> ParsedExpr {
    ParsedExpr::Lit(DynamicValue::Str(s.as_bytes().to_vec()))
}

fn call(name: &str, args: Vec<ParsedExpr>) -> ParsedExpr {
    ParsedExpr::Call(name.to_string(), args)
}

fn col(name: &str) -> ParsedExpr {
    call("col", vec![lit_str(name)])
}

fn lambda(param: &str, body: ParsedExpr) -> ParsedExpr {
    ParsedExpr::Lambda(vec![param.to_string()], Box::new(body))
}

fn ident(name: &str) -> ParsedExpr {
    ParsedExpr::Identifier(name.to_string())
}

fn record(cells: &[&str]) -> csv::ByteRecord {
    let mut r = csv::ByteRecord::new();
    for c in cells {
        r.push_field(c.as_bytes());
    }
    r
}

fn ok_output(r: Result<RunOutput, RunError>) -> RunOutput {
    match r {
        Ok(out) => out,
        Err(_) => panic!("expected a successful run"),
    }
}

#[test]
fn foreach_literal_no_rows() {
    let headers = record(&["a", "b", "c"]);
    let rows = vec![record(&["1", "2", "3"])];
    let out = ok_output(run(&lit_int(1), &headers, &rows, ErrorPolicy::Panic));
    assert_eq!(out.rows.len(), 0);
    assert_eq!(out.errors.len(), 0);
}

#[test]
fn map_adds_columns() {
    let headers = record(&["a", "b"]);
    let rows = vec![record(&["1", "2"]), record(&["10", "20"])];
    let expr = call("add", vec![col("a"), col("b")]);
    let out = ok_output(run_rows(&expr, &headers, &rows, Mode::MapRows, ErrorPolicy::Panic));
    assert_eq!(out.rows.len(), 2);
    assert_eq!(out.rows[0], record(&["1", "2", "3"]));
    assert_eq!(out.rows[1], record(&["10", "20", "30"]));
}

#[test]
fn filter_keeps_matching_rows() {
    let headers = record(&["a"]);
    let rows = vec![record(&["1"]), record(&["2"]), record(&["3"])];
    let expr = call("gt", vec![col("a"), lit_int(1)]);
    let out = ok_output(run_rows(&expr, &headers, &rows, Mode::FilterRows, ErrorPolicy::Panic));
    assert_eq!(out.rows.len(), 2);
    assert_eq!(out.rows[0], record(&["2"]));
    assert_eq!(out.rows[1], record(&["3"]));
}

#[test]
fn map_if_short_circuits_faulting_branch() {
    // the else branch divides by zero; it must never be evaluated
    let headers = record(&["a"]);
    let rows = vec![record(&["1"])];
    let expr = call(
        "if",
        vec![col("a"), lit_str("yes"), call("div", vec![lit_int(1), lit_int(0)])],
    );
    let out = ok_output(run_rows(&expr, &headers, &rows, Mode::MapRows, ErrorPolicy::Panic));
    assert_eq!(out.rows[0], record(&["1", "yes"]));
}

#[test]
fn comptime_missing_column_faults() {
    // a statically analyzable col() on an absent column fails before any row
    let headers = record(&["a"]);
    let rows = vec![record(&["1"])];
    let expr = call("if", vec![col("a"), lit_str("yes"), col("missing")]);
    match run_rows(&expr, &headers, &rows, Mode::MapRows, ErrorPolicy::Panic) {
        Err(RunError::Concretization(ConcretizationError::ColumnNotFound(_))) => {},
        _ => panic!("expected a concretization fault on the missing column"),
    }
}

#[test]
fn map_lambda_doubles_list() {
    let headers = record(&["a"]);
    let rows = vec![record(&["1"])];
    let items = DynamicValue::List(vec![
        DynamicValue::Int(1),
        DynamicValue::Int(2),
        DynamicValue::Int(3),
    ]);
    let expr = call(
        "map",
        vec![
            ParsedExpr::Lit(items),
            lambda("x", call("mul", vec![ident("x"), lit_int(2)])),
        ],
    );
    let out = ok_output(run_rows(&expr, &headers, &rows, Mode::MapRows, ErrorPolicy::Panic));
    assert_eq!(out.rows[0], record(&["1", "[2,4,6]"]));
}

#[test]
fn foreach_div_log_continues() {
    let headers = record(&["a"]);
    let rows = vec![record(&["0"]), record(&["2"])];
    let expr = call("div", vec![lit_int(1), col("a")]);
    let out = ok_output(run(&expr, &headers, &rows, ErrorPolicy::Log));
    assert_eq!(out.rows.len(), 0);
    assert_eq!(out.errors.len(), 1);
    assert_eq!(out.errors[0].row, 0);
    match &out.errors[0].error.error {
        EvaluationError::Custom(m) => assert_eq!(m, "division by zero"),
        _ => panic!("expected a numeric error"),
    }
}

#[test]
fn foreach_try_swallows_errors() {
    let headers = record(&["a"]);
    let rows = vec![record(&["0"]), record(&["2"])];
    let expr = call("try", vec![call("div", vec![lit_int(1), col("a")])]);
    let out = ok_output(run(&expr, &headers, &rows, ErrorPolicy::Log));
    assert_eq!(out.rows.len(), 0);
    assert_eq!(out.errors.len(), 0);
}

#[test]
fn foreach_panic_stops_at_first_error() {
    let headers = record(&["a"]);
    let rows = vec![record(&["0"]), record(&["2"])];
    let expr = call("div", vec![lit_int(1), col("a")]);
    match run(&expr, &headers, &rows, ErrorPolicy::Panic) {
        Err(RunError::Evaluation(row, _)) => assert_eq!(row, 0),
        _ => panic!("expected the panic policy to abort on the first error"),
    }
}

#[test]
fn foreach_ignore_swallows_silently() {
    let headers = record(&["a"]);
    let rows = vec![record(&["0"]), record(&["2"])];
    let expr = call("div", vec![lit_int(1), col("a")]);
    let out = ok_output(run(&expr, &headers, &rows, ErrorPolicy::Ignore));
    assert_eq!(out.errors.len(), 0);
}

#[test]
fn concretize_folds_static_cols() {
    let headers = record(&["a", "b"]);
    let ctx = EvaluationContext::new(&headers);
    let expr = call("add", vec![col("a"), col("b")]);
    match concretize(&expr, &ctx) {
        Ok(ConcreteExpr::Call(name, args)) => {
            assert_eq!(name, "add");
            assert!(matches!(args[0], ConcreteExpr::Column(0)));
            assert!(matches!(args[1], ConcreteExpr::Column(1)));
        },
        _ => panic!("expected a folded call"),
    }
}

#[test]
fn concretize_twice_yields_equal_trees() {
    let headers = record(&["a", "b"]);
    let ctx = EvaluationContext::new(&headers);
    let expr = call("add", vec![col("b"), lit_int(1)]);
    let once = concretize(&expr, &ctx);
    let twice = concretize(&expr, &ctx);
    match (once, twice) {
        (Ok(ConcreteExpr::Call(n1, a1)), Ok(ConcreteExpr::Call(n2, a2))) => {
            assert_eq!(n1, n2);
            assert!(matches!(a1[0], ConcreteExpr::Column(1)));
            assert!(matches!(a2[0], ConcreteExpr::Column(1)));
            assert_eq!(a1.len(), a2.len());
        },
        _ => panic!("expected two equal folded calls"),
    }
}

#[test]
fn unsure_col_static_miss_reads_null() {
    let headers = record(&["a"]);
    let rows = vec![record(&["1"])];
    let expr = ParsedExpr::Call("col?".to_string(), vec![lit_str("missing")]);
    let out = ok_output(run_rows(&expr, &headers, &rows, Mode::MapRows, ErrorPolicy::Panic));
    assert_eq!(out.rows[0], record(&["1", ""]));
}

#[test]
fn headers_fold_to_name_list() {
    let headers = record(&["a", "b"]);
    let rows = vec![record(&["1", "2"])];
    let expr = call("headers", vec![]);
    let out = ok_output(run_rows(&expr, &headers, &rows, Mode::MapRows, ErrorPolicy::Panic));
    assert_eq!(out.rows[0], record(&["1", "2", "[a,b]"]));
}

#[test]
fn cols_reversed_range() {
    let headers = record(&["a", "b"]);
    let rows = vec![record(&["x", "y"])];
    let expr = call("cols", vec![lit_int(1), lit_int(0)]);
    let out = ok_output(run_rows(&expr, &headers, &rows, Mode::MapRows, ErrorPolicy::Panic));
    assert_eq!(out.rows[0], record(&["x", "y", "[y,x]"]));
}

#[test]
fn cols_single_endpoint_runs_to_end() {
    let headers = record(&["a", "b", "c"]);
    let rows = vec![record(&["x", "y", "z"])];
    let expr = call("cols", vec![lit_int(1)]);
    let out = ok_output(run_rows(&expr, &headers, &rows, Mode::MapRows, ErrorPolicy::Panic));
    assert_eq!(out.rows[0], record(&["x", "y", "z", "[y,z]"]));
}

#[test]
fn cols_dynamic_endpoint_is_refused() {
    let headers = record(&["a", "b"]);
    let rows = vec![record(&["1", "2"])];
    let expr = call("cols", vec![ident("x")]);
    match run_rows(&expr, &headers, &rows, Mode::MapRows, ErrorPolicy::Panic) {
        Err(RunError::Concretization(ConcretizationError::NotStaticallyAnalyzable)) => {},
        _ => panic!("expected a static-analysis fault"),
    }
}

#[test]
fn index_reads_row_number() {
    let headers = record(&["a"]);
    let rows = vec![record(&["x"]), record(&["y"])];
    let expr = call("index", vec![]);
    let out = ok_output(run_rows(&expr, &headers, &rows, Mode::MapRows, ErrorPolicy::Panic));
    assert_eq!(out.rows[0], record(&["x", "0"]));
    assert_eq!(out.rows[1], record(&["y", "1"]));
}

#[test]
fn unless_runs_on_falsey() {
    let headers = record(&["a"]);
    let rows = vec![record(&[""])];
    let expr = call("unless", vec![col("a"), lit_str("empty"), lit_str("full")]);
    let out = ok_output(run_rows(&expr, &headers, &rows, Mode::MapRows, ErrorPolicy::Panic));
    assert_eq!(out.rows[0], record(&["", "empty"]));
}

#[test]
fn unknown_function_is_refused() {
    let headers = record(&["a"]);
    let rows = vec![record(&["1"])];
    let expr = call("nope", vec![lit_int(1), lit_int(2)]);
    match run_rows(&expr, &headers, &rows, Mode::MapRows, ErrorPolicy::Panic) {
        Err(RunError::Concretization(ConcretizationError::UnknownFunction(n))) => {
            assert_eq!(n, "nope")
        },
        _ => panic!("expected an unknown-function fault"),
    }
}

#[test]
fn special_arity_is_validated() {
    let headers = record(&["a"]);
    let rows = vec![record(&["1"])];
    let expr = call("if", vec![lit_int(1)]);
    match run_rows(&expr, &headers, &rows, Mode::MapRows, ErrorPolicy::Panic) {
        Err(RunError::Concretization(ConcretizationError::InvalidArity(fa, got))) => {
            assert_eq!(fa.min, 2);
            assert_eq!(fa.max, 3);
            assert_eq!(got, 1);
        },
        _ => panic!("expected an arity fault"),
    }
}

#[test]
fn runtime_col_invalid_arguments() {
    let headers = record(&["a"]);
    let rows = vec![record(&["1"])];
    // a non-literal argument leaves col for runtime, where a boolean is refused
    let expr = call("col", vec![call("if", vec![lit_int(1), ParsedExpr::Lit(
        DynamicValue::Bool(true),
    )])]);
    match run_rows(&expr, &headers, &rows, Mode::MapRows, ErrorPolicy::Panic) {
        Err(RunError::Evaluation(0, e)) => {
            assert_eq!(e.function_name.as_deref(), Some("col"));
            match e.error {
                EvaluationError::Custom(m) => assert_eq!(m, "invalid arguments"),
                _ => panic!("expected an invalid-arguments error"),
            }
        },
        _ => panic!("expected a runtime col fault"),
    }
}

#[test]
fn runtime_col_resolves_dynamic_name() {
    let headers = record(&["a", "b"]);
    let rows = vec![record(&["b", "2"])];
    // col(col("a")): the outer name is only known per row
    let expr = call("col", vec![call("if", vec![lit_int(1), col("a")])]);
    let out = ok_output(run_rows(&expr, &headers, &rows, Mode::MapRows, ErrorPolicy::Panic));
    assert_eq!(out.rows[0], record(&["b", "2", "2"]));
}

#[test]
fn filter_lambda_keeps_truthy_items() {
    let headers = record(&["a"]);
    let rows = vec![record(&["1"])];
    let items = DynamicValue::List(vec![
        DynamicValue::Int(1),
        DynamicValue::Int(0),
        DynamicValue::Int(2),
    ]);
    let expr = call("filter", vec![ParsedExpr::Lit(items), lambda("x", ident("x"))]);
    let out = ok_output(run_rows(&expr, &headers, &rows, Mode::MapRows, ErrorPolicy::Panic));
    assert_eq!(out.rows[0], record(&["1", "[1,2]"]));
}

#[test]
fn map_over_scalar_is_not_a_list() {
    let headers = record(&["a"]);
    let rows = vec![record(&["1"])];
    let expr = call("map", vec![lit_int(3), lambda("x", ident("x"))]);
    match run_rows(&expr, &headers, &rows, Mode::MapRows, ErrorPolicy::Panic) {
        Err(RunError::Evaluation(0, e)) => {
            assert_eq!(e.function_name.as_deref(), Some("map"));
            assert!(matches!(e.error, EvaluationError::NotAList));
        },
        _ => panic!("expected a not-a-list fault"),
    }
}

#[test]
fn unknown_identifier_faults() {
    let headers = record(&["a"]);
    let rows = vec![record(&["1"])];
    let expr = ident("x");
    match run_rows(&expr, &headers, &rows, Mode::MapRows, ErrorPolicy::Panic) {
        Err(RunError::Evaluation(0, e)) => {
            assert!(e.function_name.is_none());
            match e.error {
                EvaluationError::UnknownIdentifier(n) => assert_eq!(n, "x"),
                _ => panic!("expected an unknown-identifier error"),
            }
        },
        _ => panic!("expected an identifier fault"),
    }
}

#[test]
fn lambda_arity_is_validated() {
    let headers = record(&["a"]);
    let rows = vec![record(&["1"])];
    let items = DynamicValue::List(vec![DynamicValue::Int(1)]);
    let expr = call(
        "map",
        vec![
            ParsedExpr::Lit(items),
            ParsedExpr::Lambda(
                vec!["x".to_string(), "y".to_string()],
                Box::new(ident("x")),
            ),
        ],
    );
    match run_rows(&expr, &headers, &rows, Mode::MapRows, ErrorPolicy::Panic) {
        Err(RunError::Evaluation(0, e)) => {
            assert!(matches!(e.error, EvaluationError::InvalidArity(_, 2)));
        },
        _ => panic!("expected a lambda arity fault"),
    }
}

#[test]
fn nested_lambdas_shadow_bindings() {
    // map([[1,2],[3]], xs => map(xs, x => mul(x, 10)))
    let headers = record(&["a"]);
    let rows = vec![record(&["1"])];
    let inner = DynamicValue::List(vec![DynamicValue::Int(1), DynamicValue::Int(2)]);
    let inner2 = DynamicValue::List(vec![DynamicValue::Int(3)]);
    let items = DynamicValue::List(vec![inner, inner2]);
    let expr = call(
        "map",
        vec![
            ParsedExpr::Lit(items),
            lambda(
                "xs",
                call(
                    "map",
                    vec![ident("xs"), lambda("x", call("mul", vec![ident("x"), lit_int(10)]))],
                ),
            ),
        ],
    );
    let out = ok_output(run_rows(&expr, &headers, &rows, Mode::MapRows, ErrorPolicy::Panic));
    assert_eq!(out.rows[0], record(&["1", "[[10,20],[30]]"]));
}

#[test]
fn special_registry_entries() {
    let e = get_special_function(&"col".to_string()).unwrap();
    assert_eq!(e.arity.min, 1);
    assert_eq!(e.arity.max, 2);
    assert!(e.comptime.is_some());
    assert_eq!(e.runtime, Some(SpecialOp::Col));
    let t = get_special_function(&"try".to_string()).unwrap();
    assert!(t.comptime.is_none());
    assert_eq!(t.arity.min, 1);
    assert!(get_special_function(&"add".to_string()).is_none());
}

#[test]
fn policy_names_are_restricted() {
    assert_eq!(
        ErrorPolicy::try_from_restricted(&"panic".to_string()),
        Some(ErrorPolicy::Panic)
    );
    assert_eq!(
        ErrorPolicy::try_from_restricted(&"ignore".to_string()),
        Some(ErrorPolicy::Ignore)
    );
    assert_eq!(ErrorPolicy::try_from_restricted(&"log".to_string()), Some(ErrorPolicy::Log));
    assert_eq!(ErrorPolicy::try_from_restricted(&"loud".to_string()), None);
}

#[test]
fn synthetic_headers_name_positions() {
    let h = moonblade::driver::synthetic_headers(3);
    assert_eq!(h, record(&["0", "1", "2"]));
    // concretizing against the synthetic header resolves positional names
    let ctx = EvaluationContext::new(&h);
    match concretize(&col("1"), &ctx) {
        Ok(ConcreteExpr::Column(1)) => {},
        _ => panic!("expected the synthetic name to resolve"),
    }
}
