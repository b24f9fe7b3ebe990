use core::cmp::Ordering;

use provenance::value::{Value, ValueConversionError, ValueType};

#[test]
fn value_type_reports_the_variant() {
    assert_eq!(Value::I8(-3).value_type(), ValueType::I8);
    assert_eq!(Value::U64(7).value_type(), ValueType::U64);
    assert_eq!(Value::F64(0.25f64.to_bits()).value_type(), ValueType::F64);
    assert_eq!(Value::Bool(true).value_type(), ValueType::Bool);
    assert_eq!(Value::Str("hi").value_type(), ValueType::Str);
    assert_eq!(Value::String("hi".to_string()).value_type(), ValueType::String);
}

#[test]
fn as_usize_and_as_str() {
    assert_eq!(Value::USize(42).as_usize(), 42);
    assert_eq!(Value::Str("abc").as_str(), "abc");
    assert_eq!(Value::String("owned".to_string()).as_str(), "owned");
}

#[test]
fn numeric_and_string_ordering() {
    assert_eq!(Value::I32(1).cmp_value(&Value::I32(2)), Ordering::Less);
    assert_eq!(Value::U8(9).cmp_value(&Value::U8(9)), Ordering::Equal);
    assert_eq!(Value::Char('b').cmp_value(&Value::Char('a')), Ordering::Greater);
    assert_eq!(Value::Bool(false).cmp_value(&Value::Bool(true)), Ordering::Less);
    assert_eq!(Value::Str("abc").cmp_value(&Value::Str("abd")), Ordering::Less);
    assert_eq!(
        Value::String("b".to_string()).cmp_value(&Value::String("ab".to_string())),
        Ordering::Greater
    );
    assert_eq!(Value::Str("ab").cmp_value(&Value::Str("ab")), Ordering::Equal);
}

#[test]
fn cross_variant_ordering_follows_declaration_order() {
    // Different variants order by variant position, as a derived ordering
    // on the union would.
    assert_eq!(Value::I8(100).cmp_value(&Value::U8(0)), Ordering::Less);
    assert_eq!(Value::Str("a").cmp_value(&Value::Bool(true)), Ordering::Greater);
    assert_eq!(Value::Str("a").partial_cmp_value(&Value::Bool(true)), Some(Ordering::Greater));
}

#[test]
fn float_ordering_by_encoded_value() {
    let half = Value::F64(0.5f64.to_bits());
    let quarter = Value::F64(0.25f64.to_bits());
    let neg = Value::F64((-1.5f64).to_bits());
    let pos_zero = Value::F64(0.0f64.to_bits());
    let neg_zero = Value::F64((-0.0f64).to_bits());
    assert_eq!(quarter.cmp_value(&half), Ordering::Less);
    assert_eq!(neg.cmp_value(&quarter), Ordering::Less);
    assert_eq!(pos_zero.cmp_value(&neg_zero), Ordering::Equal);
    assert_eq!(
        Value::F32(2.0f32.to_bits()).cmp_value(&Value::F32(1.0f32.to_bits())),
        Ordering::Greater
    );
}

#[test]
fn nan_comparisons_normalize_to_equal() {
    let nan = Value::F64(f64::NAN.to_bits());
    let one = Value::F64(1.0f64.to_bits());
    assert_eq!(nan.partial_cmp_value(&one), None);
    assert_eq!(one.partial_cmp_value(&nan), None);
    assert_eq!(nan.cmp_value(&one), Ordering::Equal);
    assert_eq!(nan.cmp_value(&nan), Ordering::Equal);
    let nan32 = Value::F32(f32::NAN.to_bits());
    assert_eq!(nan32.cmp_value(&Value::F32(0.5f32.to_bits())), Ordering::Equal);
}

#[test]
fn projections_succeed_on_the_right_variant() {
    assert_eq!(Value::I64(-9).try_into_i64(), Ok(-9));
    assert_eq!(Value::U16(65535).try_into_u16(), Ok(65535));
    assert_eq!(Value::Bool(true).try_into_bool(), Ok(true));
    assert_eq!(Value::Char('x').try_into_char(), Ok('x'));
    assert_eq!(Value::String("s".to_string()).try_into_string(), Ok("s".to_string()));
    assert_eq!(Value::F64(0.5f64.to_bits()).try_into_f64_bits(), Ok(0.5f64.to_bits()));
}

#[test]
fn projections_fail_across_variants() {
    assert_eq!(Value::I64(-9).try_into_u64(), Err(ValueConversionError));
    assert_eq!(Value::Bool(true).try_into_char(), Err(ValueConversionError));
    assert_eq!(Value::U8(1).try_into_i8(), Err(ValueConversionError));
    assert_eq!(Value::Str("s").try_into_string(), Err(ValueConversionError));
}

#[test]
fn value_clone_is_equal() {
    let v = Value::String("deep".to_string());
    assert_eq!(v.clone(), v);
    let w = Value::F32(1.5f32.to_bits());
    assert_eq!(w.clone(), w);
}

#[test]
fn construction_from_primitives_is_total() {
    assert_eq!(Value::from(5i8), Value::I8(5));
    assert_eq!(Value::from(5u64), Value::U64(5));
    assert_eq!(Value::from(-7isize), Value::ISize(-7));
    assert_eq!(Value::from('z'), Value::Char('z'));
    assert_eq!(Value::from(true), Value::Bool(true));
    assert_eq!(Value::from("s"), Value::Str("s"));
    assert_eq!(Value::from("owned".to_string()), Value::String("owned".to_string()));
}
