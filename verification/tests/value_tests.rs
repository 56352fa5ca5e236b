use pyfuncs::value::Scalar;
use pyfuncs::value::Value;

fn column(xs: &[f64]) -> Value {
    Value::Column(xs.iter().map(|x| Scalar::Float(x.to_bits())).collect())
}

#[test]
fn numeric_column_coerces_to_its_numbers() {
    let v = column(&[1.0, 2.0, 3.0]);
    let bits = v.as_numeric_sequence().expect("a numeric column must coerce");
    assert_eq!(bits, vec![1.0f64.to_bits(), 2.0f64.to_bits(), 3.0f64.to_bits()]);
}

#[test]
fn empty_column_coerces_to_no_numbers() {
    let v = Value::Column(Vec::new());
    assert_eq!(v.as_numeric_sequence(), Some(Vec::new()));
}

#[test]
fn text_does_not_coerce() {
    let v = Value::Text("12.5".to_owned());
    assert_eq!(v.as_numeric_sequence(), None);
}

#[test]
fn scalar_number_does_not_coerce() {
    let v = Value::Float(7.25f64.to_bits());
    assert_eq!(v.as_numeric_sequence(), None);
}

#[test]
fn heterogeneous_column_does_not_coerce() {
    let v = Value::Column(vec![
        Scalar::Float(1.0f64.to_bits()),
        Scalar::Text("two".to_owned()),
        Scalar::Float(3.0f64.to_bits()),
    ]);
    assert_eq!(v.as_numeric_sequence(), None);
}

#[test]
fn clone_keeps_the_value() {
    let values = [
        Value::Text("abc".to_owned()),
        Value::Float(2.5f64.to_bits()),
        column(&[4.0, 5.0]),
        Value::Column(vec![Scalar::Text("x".to_owned())]),
    ];
    for v in values.iter() {
        assert_eq!(&v.clone(), v);
    }
}
