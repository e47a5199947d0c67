use std::cmp::Ordering;
use table_engine::basic_elements::{DataType, Real, StructuredValue, TData, Timestamp};

fn number(x: f64) -> Real {
    Real { bits: x.to_bits(), text: format!("{}", x) }
}

#[test]
fn type_codes() {
    assert_eq!(DataType::Text.get_type(), 1);
    assert_eq!(DataType::Integer.get_type(), 2);
    assert_eq!(DataType::Float.get_type(), 3);
    assert_eq!(DataType::Boolean.get_type(), 4);
    assert_eq!(DataType::Time.get_type(), 5);
    assert_eq!(DataType::Null.get_type(), 0);
    assert_eq!(DataType::Text, DataType::Text);
    assert_ne!(DataType::Text, DataType::Integer);
}

#[test]
fn value_types() {
    assert_eq!(TData::Text("a".to_string()).get_type(), DataType::Text);
    assert_eq!(TData::Integer(1).get_type(), DataType::Integer);
    assert_eq!(TData::Float(number(1.5)).get_type(), DataType::Float);
    assert_eq!(TData::Boolean(true).get_type(), DataType::Boolean);
    assert_eq!(TData::Time(Timestamp::epoch()).get_type(), DataType::Time);
    assert_eq!(TData::Null.get_type(), DataType::Null);
}

#[test]
fn null_values() {
    assert_eq!(DataType::Text.get_null().stringify(), "\"0\"");
    assert_eq!(DataType::Integer.get_null().stringify(), "0");
    assert_eq!(DataType::Float.get_null().stringify(), "0");
    assert_eq!(DataType::Float.get_null().stringify(), number(0.0).text);
    assert_eq!(DataType::Boolean.get_null().stringify(), "false");
    assert_eq!(DataType::Time.get_null().stringify(), "\"1970-01-01 00:00:00 UTC\"");
    assert_eq!(DataType::Null.get_null().stringify(), "null");
    assert_eq!(DataType::Text.get_null().get_type(), DataType::Text);
    assert_eq!(DataType::Time.get_null().get_type(), DataType::Time);
    assert_eq!(DataType::Null.get_null().get_type(), DataType::Null);
}

#[test]
fn text_forms() {
    assert_eq!(TData::Text("Max".to_string()).stringify(), "\"Max\"");
    assert_eq!(TData::Text(String::new()).stringify(), "\"\"");
    assert_eq!(TData::Text("żółw".to_string()).stringify(), "\"żółw\"");
    assert_eq!(TData::Integer(35).stringify(), "35");
    assert_eq!(TData::Integer(0).stringify(), "0");
    assert_eq!(TData::Integer(-7).stringify(), "-7");
    assert_eq!(TData::Integer(1000).stringify(), "1000");
    assert_eq!(TData::Integer(i64::MAX).stringify(), "9223372036854775807");
    assert_eq!(TData::Integer(i64::MIN).stringify(), "-9223372036854775808");
    assert_eq!(TData::Float(number(1.5)).stringify(), "1.5");
    assert_eq!(TData::Boolean(true).stringify(), "true");
    assert_eq!(TData::Boolean(false).stringify(), "false");
    assert_eq!(TData::Null.stringify(), "null");
}

#[test]
fn instants() {
    let t = Timestamp::new(1431648000, 0).unwrap();
    assert_eq!(t.secs(), 1431648000);
    assert_eq!(t.nanos(), 0);
    assert_eq!(t.stringify(), "2015-05-15 00:00:00 UTC");
    assert_eq!(TData::Time(t).stringify(), "\"2015-05-15 00:00:00 UTC\"");
    let fine = Timestamp::new(947638923, 4_000_000).unwrap();
    assert_eq!(fine.stringify(), "2000-01-12 01:02:03.004 UTC");
    assert_eq!(Timestamp::epoch().stringify(), "1970-01-01 00:00:00 UTC");
    assert_eq!(Timestamp::epoch().secs(), 0);
    assert!(Timestamp::new(i64::MAX, 0).is_none());
    assert!(Timestamp::new(0, 2_000_000_000).is_none());
    assert!(Timestamp::new(-1, 999_999_999).is_some());
}

#[test]
fn equality_is_by_type_and_text() {
    assert!(TData::Integer(5) == TData::Integer(5));
    assert!(TData::Integer(5) != TData::Integer(6));
    assert!(TData::Text("a".to_string()) == TData::Text("a".to_string()));
    assert!(TData::Integer(1) != TData::Float(Real { bits: 1.0f64.to_bits(), text: "1".to_string() }));
    assert!(TData::Null != TData::Text("null".to_string()));
    assert!(TData::Null == TData::Null);
    let shown = Timestamp::epoch().stringify();
    assert!(TData::Text(shown) != TData::Time(Timestamp::epoch()));
}

#[test]
fn order_is_by_text() {
    assert!(TData::Integer(35) > TData::Integer(25));
    assert!(!(TData::Integer(15) > TData::Integer(25)));
    assert!(TData::Integer(9) > TData::Integer(25));
    assert!(TData::Integer(100) < TData::Integer(25));
    assert!(TData::Text("a".to_string()) < TData::Text("ab".to_string()));
    assert!(TData::Text("b".to_string()) > TData::Text("ab".to_string()));
    assert!(TData::Text("é".to_string()) > TData::Text("z".to_string()));
    assert!(TData::Text("a".to_string()) < TData::Integer(1));
    assert_eq!(TData::Integer(7).partial_cmp(&TData::Integer(7)), Some(Ordering::Equal));
    assert_eq!(TData::Integer(7).partial_cmp(&TData::Integer(8)), Some(Ordering::Less));
    assert_eq!(TData::Integer(8).partial_cmp(&TData::Integer(7)), Some(Ordering::Greater));
    assert_eq!(
        TData::Integer(1).partial_cmp(&TData::Float(Real { bits: 0, text: "1".to_string() })),
        Some(Ordering::Equal)
    );
    assert!(TData::Integer(-1) < TData::Integer(0));
    assert!(TData::Null > TData::Boolean(false));
}

#[test]
fn clone_keeps_the_value() {
    let all = vec![
        TData::Text("x".to_string()),
        TData::Integer(3),
        TData::Float(number(2.25)),
        TData::Boolean(true),
        TData::Time(Timestamp::epoch()),
        TData::Null,
    ];
    for v in &all {
        assert!(v.clone() == *v);
        assert_eq!(v.clone().stringify(), v.stringify());
    }
}

#[test]
fn structured_values() {
    assert!(matches!(TData::Text("a".to_string()).to_json(), StructuredValue::Text(s) if s == "a"));
    assert!(matches!(TData::Integer(-4).to_json(), StructuredValue::Integer(-4)));
    assert!(matches!(TData::Boolean(true).to_json(), StructuredValue::Boolean(true)));
    assert!(matches!(TData::Null.to_json(), StructuredValue::Null));
    assert!(
        matches!(TData::Float(number(1.5)).to_json(), StructuredValue::Float(x) if x.bits == 1.5f64.to_bits() && x.text == "1.5")
    );
    assert!(
        matches!(TData::Time(Timestamp::epoch()).to_json(), StructuredValue::Text(s) if s == "\"1970-01-01 00:00:00 UTC\"")
    );
}

#[test]
fn scalar_texts() {
    assert_eq!(StructuredValue::Null.scalar_text(), "null");
    assert_eq!(StructuredValue::Boolean(false).scalar_text(), "false");
    assert_eq!(StructuredValue::Integer(-12).scalar_text(), "-12");
    assert_eq!(StructuredValue::Integer(i128::MIN).scalar_text(), format!("{}", i128::MIN));
    assert_eq!(StructuredValue::Float(number(0.5)).scalar_text(), "0.5");
    assert_eq!(StructuredValue::Text("a b".to_string()).scalar_text(), "\"a b\"");
    assert_eq!(StructuredValue::Array(Vec::new()).scalar_text(), "");
    assert_eq!(StructuredValue::Object(Vec::new()).scalar_text(), "");
    for v in [
        TData::Text("x".to_string()),
        TData::Integer(3),
        TData::Float(number(2.25)),
        TData::Boolean(true),
        TData::Null,
    ] {
        assert_eq!(v.to_json().scalar_text(), v.stringify());
    }
}

#[test]
fn float_bits_are_those_of_a_double() {
    let x = number(0.1);
    assert_eq!(x.bits, 0x3FB999999999999A);
    assert_eq!(x.text, "0.1");
    assert_eq!(f64::from_bits(number(-2.5e300).bits), -2.5e300);
    assert_eq!(TData::Float(number(-2.5e300)).stringify(), format!("{}", -2.5e300f64));
    assert_eq!(DataType::Float.get_null().stringify(), format!("{}", f64::from_bits(0)));
}
