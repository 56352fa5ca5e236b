use pyfuncs::dispatch::BindingError;
use pyfuncs::dispatch::EvalStep;
use pyfuncs::dispatch::EvaluationError;
use pyfuncs::dispatch::PythonFunc;
use pyfuncs::registry::python_funcs;
use pyfuncs::registry::FunctionRegistry;
use pyfuncs::value::Scalar;
use pyfuncs::value::Value;

fn column(xs: &[f64]) -> Value {
    Value::Column(xs.iter().map(|x| Scalar::Float(x.to_bits())).collect())
}

fn mean_func(registry: &FunctionRegistry) -> PythonFunc {
    PythonFunc::from_str("numpy.mean", registry).unwrap()
}

#[test]
fn empty_input_yields_identity_without_engine_or_sink() {
    let registry = FunctionRegistry::register_all(python_funcs());
    let func = mean_func(&registry);
    let inputs = [column(&[])];
    let mut errors: Vec<Vec<Value>> = Vec::new();
    let step = func
        .eval(&registry, &[(0, 0)], &inputs, "cell:1", &mut errors)
        .unwrap();
    match step {
        EvalStep::Done(rows) => {
            assert_eq!(rows, vec![vec![Value::Float(0)]]);
            assert_eq!(Value::Float(0), Value::Float(0.0f64.to_bits()));
        }
        EvalStep::Call(_) => panic!("empty input must not invoke the engine"),
    }
    assert!(errors.is_empty());
}

#[test]
fn non_numeric_argument_appends_one_error_row() {
    let registry = FunctionRegistry::register_all(python_funcs());
    let func = mean_func(&registry);
    let inputs = [Value::Text("hello".to_owned())];
    let mut errors: Vec<Vec<Value>> = Vec::new();
    let step = func
        .eval(&registry, &[(0, 0)], &inputs, "cell:2", &mut errors)
        .unwrap();
    match step {
        EvalStep::Done(rows) => assert!(rows.is_empty()),
        EvalStep::Call(_) => panic!("a type error must not invoke the engine"),
    }
    assert_eq!(errors.len(), 1);
    assert_eq!(
        errors[0],
        vec![
            Value::Text("cell:2".to_owned()),
            Value::Text(
                "Type error while calling: numpy.mean [Text(\"hello\")]".to_owned()
            ),
        ]
    );
}

#[test]
fn heterogeneous_column_renders_each_entry_in_the_message() {
    let registry = FunctionRegistry::register_all(python_funcs());
    let func = mean_func(&registry);
    let inputs = [Value::Column(vec![
        Scalar::Float(1.0f64.to_bits()),
        Scalar::Text("two".to_owned()),
    ])];
    let mut errors: Vec<Vec<Value>> = Vec::new();
    func.eval(&registry, &[(0, 0)], &inputs, "cell:7", &mut errors)
        .unwrap();
    let expected = format!(
        "Type error while calling: numpy.mean [Column([Float({}), Text(\"two\")])]",
        1.0f64.to_bits()
    );
    assert_eq!(errors.len(), 1);
    assert_eq!(errors[0][1], Value::Text(expected));
}

#[test]
fn wrong_arity_is_a_type_error() {
    let registry = FunctionRegistry::register_all(python_funcs());
    let func = mean_func(&registry);
    let inputs = [column(&[1.0]), column(&[2.0])];
    let mut errors: Vec<Vec<Value>> = Vec::new();
    let step = func
        .eval(&registry, &[(0, 0), (1, 1)], &inputs, "cell:3", &mut errors)
        .unwrap();
    match step {
        EvalStep::Done(rows) => assert!(rows.is_empty()),
        EvalStep::Call(_) => panic!("two arguments must not reach the engine"),
    }
    assert_eq!(errors.len(), 1);
}

#[test]
fn resolver_reorders_values_into_declared_order() {
    let inputs = [Value::Text("b".to_owned()), Value::Text("a".to_owned())];
    let values = pyfuncs::dispatch::resolve_bindings(&[(0, 1), (1, 0)], &inputs).unwrap();
    assert_eq!(
        values,
        vec![Value::Text("a".to_owned()), Value::Text("b".to_owned())]
    );
}

#[test]
fn noncanonical_bindings_are_fatal_not_a_type_error() {
    let registry = FunctionRegistry::register_all(python_funcs());
    let func = mean_func(&registry);
    let inputs = [column(&[1.0]), column(&[2.0])];
    let mut errors: Vec<Vec<Value>> = Vec::new();
    let r = func.eval(&registry, &[(1, 0), (0, 1)], &inputs, "cell:4", &mut errors);
    assert_eq!(r, Err(BindingError::InvariantViolation));
    assert!(errors.is_empty());
}

#[test]
fn out_of_range_slot_is_fatal_not_a_type_error() {
    let registry = FunctionRegistry::register_all(python_funcs());
    let func = mean_func(&registry);
    let inputs = [column(&[1.0])];
    let mut errors: Vec<Vec<Value>> = Vec::new();
    let r = func.eval(&registry, &[(0, 5)], &inputs, "cell:5", &mut errors);
    assert_eq!(r, Err(BindingError::SlotOutOfRange));
    assert!(errors.is_empty());
}

#[test]
fn bindings_reorder_slots_into_declared_order() {
    // One argument read out of slot 1 rather than slot 0.
    let registry = FunctionRegistry::register_all(python_funcs());
    let func = mean_func(&registry);
    let inputs = [Value::Text("decoy".to_owned()), column(&[1.5, 2.5])];
    let mut errors: Vec<Vec<Value>> = Vec::new();
    let step = func
        .eval(&registry, &[(0, 1)], &inputs, "cell:6", &mut errors)
        .unwrap();
    match step {
        EvalStep::Call(call) => {
            assert_eq!(call.args, vec![1.5f64.to_bits(), 2.5f64.to_bits()]);
        }
        EvalStep::Done(_) => panic!("a nonempty numeric input must reach the engine"),
    }
    assert!(errors.is_empty());
}

#[test]
fn nonempty_input_plans_the_split_routine() {
    let registry = FunctionRegistry::register_all(python_funcs());
    let func = mean_func(&registry);
    let inputs = [column(&[1.0, 2.0, 3.0])];
    let mut errors: Vec<Vec<Value>> = Vec::new();
    let step = func
        .eval(&registry, &[(0, 0)], &inputs, "cell:8", &mut errors)
        .unwrap();
    match step {
        EvalStep::Call(call) => {
            assert_eq!(call.module, "numpy");
            assert_eq!(call.symbol, "mean");
            assert_eq!(
                call.args,
                vec![1.0f64.to_bits(), 2.0f64.to_bits(), 3.0f64.to_bits()]
            );
        }
        EvalStep::Done(_) => panic!("a nonempty numeric input must reach the engine"),
    }
    assert!(errors.is_empty());
}

#[test]
fn name_without_separator_is_a_type_error_when_dispatching() {
    let list: Vec<(&str, Vec<&str>, Vec<&str>, Vec<&str>, &str)> =
        vec![("bare", vec![], vec!["A"], vec!["result"], "No module")];
    let registry = FunctionRegistry::register_all(list);
    let func = PythonFunc::from_str("bare", &registry).unwrap();
    let inputs = [column(&[1.0])];
    let mut errors: Vec<Vec<Value>> = Vec::new();
    let step = func
        .eval(&registry, &[(0, 0)], &inputs, "cell:9", &mut errors)
        .unwrap();
    match step {
        EvalStep::Done(rows) => assert!(rows.is_empty()),
        EvalStep::Call(_) => panic!("a bare name cannot address the engine"),
    }
    assert_eq!(errors.len(), 1);
}

#[test]
fn finish_wraps_the_scalar_result_in_one_row() {
    let registry = FunctionRegistry::register_all(python_funcs());
    let func = mean_func(&registry);
    let inputs = [column(&[1.0, 2.0, 3.0])];
    let mut errors: Vec<Vec<Value>> = Vec::new();
    let step = func
        .eval(&registry, &[(0, 0)], &inputs, "cell:10", &mut errors)
        .unwrap();
    let call = match step {
        EvalStep::Call(call) => call,
        EvalStep::Done(_) => panic!("a nonempty numeric input must reach the engine"),
    };
    let rows = func.eval_finish(&registry, &call, Ok(2.0f64.to_bits()), "cell:10", &mut errors);
    assert_eq!(rows, vec![vec![Value::Float(2.0f64.to_bits())]]);
    assert!(errors.is_empty());
}

#[test]
fn finish_folds_an_engine_failure_into_the_type_error_path() {
    let registry = FunctionRegistry::register_all(python_funcs());
    let func = mean_func(&registry);
    let inputs = [column(&[1.5, 2.5])];
    let mut errors: Vec<Vec<Value>> = Vec::new();
    let step = func
        .eval(&registry, &[(0, 0)], &inputs, "cell:11", &mut errors)
        .unwrap();
    let call = match step {
        EvalStep::Call(call) => call,
        EvalStep::Done(_) => panic!("a nonempty numeric input must reach the engine"),
    };
    let rows = func.eval_finish(
        &registry,
        &call,
        Err(EvaluationError::UnresolvableRoutine),
        "cell:11",
        &mut errors,
    );
    assert!(rows.is_empty());
    let expected = format!(
        "Type error while calling: numpy.mean [Column([Float({}), Float({})])]",
        1.5f64.to_bits(),
        2.5f64.to_bits()
    );
    assert_eq!(errors.len(), 1);
    assert_eq!(errors[0][0], Value::Text("cell:11".to_owned()));
    assert_eq!(errors[0][1], Value::Text(expected));
}

#[test]
fn one_failing_and_one_succeeding_call_share_the_sink_in_order() {
    let registry = FunctionRegistry::register_all(python_funcs());
    let func = mean_func(&registry);
    let mut errors: Vec<Vec<Value>> = Vec::new();

    let bad_inputs = [Value::Text("oops".to_owned())];
    let step = func
        .eval(&registry, &[(0, 0)], &bad_inputs, "cell:12", &mut errors)
        .unwrap();
    match step {
        EvalStep::Done(rows) => assert!(rows.is_empty()),
        EvalStep::Call(_) => panic!("a type error must not invoke the engine"),
    }

    let good_inputs = [column(&[])];
    let step = func
        .eval(&registry, &[(0, 0)], &good_inputs, "cell:13", &mut errors)
        .unwrap();
    match step {
        EvalStep::Done(rows) => assert_eq!(rows, vec![vec![Value::Float(0)]]),
        EvalStep::Call(_) => panic!("empty input must not invoke the engine"),
    }

    assert_eq!(errors.len(), 1);
    assert_eq!(errors[0][0], Value::Text("cell:12".to_owned()));
}
