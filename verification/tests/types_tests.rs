use dbus_codec::types::{
    Array, BasicValue, DictEntry, Dictionary, Path, Signature, Value, Variant,
};

#[test]
fn test_basic_signatures() {
    assert_eq!(BasicValue::Byte(0).get_signature(), "y");
    assert_eq!(BasicValue::Boolean(false).get_signature(), "b");
    assert_eq!(BasicValue::Int16(0).get_signature(), "n");
    assert_eq!(BasicValue::Uint16(0).get_signature(), "q");
    assert_eq!(BasicValue::Int32(0).get_signature(), "i");
    assert_eq!(BasicValue::Uint32(0).get_signature(), "u");
    assert_eq!(BasicValue::Int64(0).get_signature(), "x");
    assert_eq!(BasicValue::Uint64(0).get_signature(), "t");
    assert_eq!(BasicValue::String("s".to_string()).get_signature(), "s");
    assert_eq!(
        BasicValue::ObjectPath(Path("/x".to_string())).get_signature(),
        "o"
    );
    assert_eq!(
        BasicValue::Signature(Signature("g".to_string())).get_signature(),
        "g"
    );
}

#[test]
fn test_value_signatures() {
    assert_eq!(
        Value::BasicValue(BasicValue::Uint32(1)).get_signature(),
        "u"
    );
    assert_eq!(Value::Double((0.5f64).to_bits()).get_signature(), "d");
    let arr = Array::new(vec![Value::BasicValue(BasicValue::Uint32(1))]);
    assert_eq!(Value::Array(arr).get_signature(), "au");
    let dict = Dictionary::new(vec![DictEntry {
        key: BasicValue::Byte(1),
        value: Value::BasicValue(BasicValue::Uint32(2)),
    }]);
    assert_eq!(Value::Dictionary(dict).get_signature(), "a{yu}");
}

#[test]
fn test_variant_signature() {
    let inner = Value::BasicValue(BasicValue::Byte(5));
    let var = Variant::new(inner, "y");
    assert_eq!(var.signature, Signature("y".to_string()));
    assert_eq!(Value::Variant(var).get_signature(), "v");
}

#[test]
fn test_nested_array_signature() {
    let inner = Array::new(vec![Value::BasicValue(BasicValue::Int16(3))]);
    let outer = Array::new(vec![Value::Array(inner)]);
    assert_eq!(Value::Array(outer).get_signature(), "aan");
}

#[test]
fn test_new_with_sig_empty() {
    let arr = Array::new_with_sig(vec![], "ay".to_string());
    assert_eq!(Value::Array(arr).get_signature(), "ay");
    let dict = Dictionary::new_with_sig(vec![], "a{yv}".to_string());
    assert_eq!(Value::Dictionary(dict).get_signature(), "a{yv}");
}
