use tree_search::value::{Number, Value};

#[test]
fn unsigned_and_signed_constructors_agree_on_shared_integers() {
    assert!(Number::from_u64(0).equals(&Number::from_i64(0)));
    assert!(Number::from_u64(7).equals(&Number::from_i64(7)));
    assert!(Number::from_u64(i64::MAX as u64).equals(&Number::from_i64(i64::MAX)));
    assert!(!Number::from_u64(7).equals(&Number::from_i64(-7)));
    assert!(!Number::from_u64(u64::MAX).equals(&Number::from_i64(-1)));
}

#[test]
fn negative_integers_compare_by_value() {
    assert!(Number::from_i64(-1).equals(&Number::from_i64(-1)));
    assert!(!Number::from_i64(-1).equals(&Number::from_i64(-2)));
    assert!(Number::from_i64(i64::MIN).equals(&Number::from_i64(i64::MIN)));
}

#[test]
fn infinities_and_nan_are_no_numbers() {
    assert!(Number::from_f64_bits(f64::INFINITY.to_bits()).is_none());
    assert!(Number::from_f64_bits(f64::NEG_INFINITY.to_bits()).is_none());
    assert!(Number::from_f64_bits(f64::NAN.to_bits()).is_none());
    assert!(Number::from_f64_bits(0x7ff0_0000_0000_0001).is_none());
    assert!(Number::from_f64_bits(0xffff_ffff_ffff_ffff).is_none());
}

#[test]
fn finite_doubles_are_numbers() {
    assert!(Number::from_f64_bits(0.0f64.to_bits()).is_some());
    assert!(Number::from_f64_bits((-0.0f64).to_bits()).is_some());
    assert!(Number::from_f64_bits(f64::MAX.to_bits()).is_some());
    assert!(Number::from_f64_bits(f64::MIN.to_bits()).is_some());
    assert!(Number::from_f64_bits(f64::MIN_POSITIVE.to_bits()).is_some());
    assert!(Number::from_f64_bits(1u64).is_some());
    assert!(Number::from_f64_bits(0x7fef_ffff_ffff_ffff).is_some());
}

#[test]
fn doubles_compare_as_doubles() {
    let doubles = vec![0.0f64, -0.0, 0.5, -0.5, 1.0, 1.5, f64::MAX, f64::MIN, f64::MIN_POSITIVE, 5e-324];
    for left in doubles.iter() {
        for right in doubles.iter() {
            let a = Number::from_f64_bits(left.to_bits()).unwrap();
            let b = Number::from_f64_bits(right.to_bits()).unwrap();
            assert_eq!(a.equals(&b), left == right);
        }
    }
}

#[test]
fn an_integer_never_equals_a_double() {
    let one = Number::from_f64_bits(1.0f64.to_bits()).unwrap();
    let zero = Number::from_f64_bits(0.0f64.to_bits()).unwrap();
    assert!(!Number::from_u64(1).equals(&one));
    assert!(!one.equals(&Number::from_u64(1)));
    assert!(!Number::from_i64(0).equals(&zero));
    assert!(!Number::from_i64(-1).equals(&Number::from_f64_bits((-1.0f64).to_bits()).unwrap()));
}

#[test]
fn scalar_equals_tells_kinds_apart() {
    let zero = Value::Number(Number::from_u64(0));
    assert!(Value::Null.scalar_equals(&Value::Null));
    assert!(Value::Bool(true).scalar_equals(&Value::Bool(true)));
    assert!(!Value::Bool(true).scalar_equals(&Value::Bool(false)));
    assert!(zero.scalar_equals(&Value::Number(Number::from_i64(0))));
    assert!(!zero.scalar_equals(&Value::String("0".to_string())));
    assert!(!Value::String("0".to_string()).scalar_equals(&zero));
    assert!(!Value::Null.scalar_equals(&Value::Bool(false)));
    assert!(Value::String("a".to_string()).scalar_equals(&Value::String("a".to_string())));
    assert!(!Value::String("a".to_string()).scalar_equals(&Value::String("b".to_string())));
}

#[test]
fn scalar_equals_is_false_of_containers() {
    let array = Value::Array(vec![]);
    let object = Value::Object(vec![]);
    assert!(!array.scalar_equals(&Value::Array(vec![])));
    assert!(!object.scalar_equals(&Value::Object(vec![])));
    assert!(!Value::Null.scalar_equals(&array));
    assert!(!array.scalar_equals(&Value::Null));
}

#[test]
fn is_key_holds_of_the_same_string_only() {
    assert!(Value::String("a".to_string()).is_key(&"a".to_string()));
    assert!(!Value::String("a".to_string()).is_key(&"b".to_string()));
    assert!(!Value::Bool(true).is_key(&"true".to_string()));
    assert!(!Value::Null.is_key(&"null".to_string()));
    assert!(!Value::Number(Number::from_u64(0)).is_key(&"0".to_string()));
    assert!(!Value::Array(vec![]).is_key(&"".to_string()));
}
