use dbus_codec::decoder::{DBusDecoder, DecodeError};
use dbus_codec::encoder::DBusEncoder;
use dbus_codec::native::{Native, Shape};
use dbus_codec::types::{Array, BasicValue, Path, Signature, Struct, Value};

#[test]
fn decoder_test_array() {
    let vec = vec![
        Value::BasicValue(BasicValue::Uint32(1)),
        Value::BasicValue(BasicValue::Uint32(2)),
        Value::BasicValue(BasicValue::Uint32(3)),
    ];
    let val = Value::Array(Array::new(vec));
    let arr = DBusDecoder::decode(val, &Shape::Sequence(Box::new(Shape::U32)))
        .ok()
        .unwrap();
    assert_eq!(
        Native::Sequence(vec![Native::U32(1), Native::U32(2), Native::U32(3)]),
        arr
    );
}

#[test]
fn test_int() {
    let v = Value::BasicValue(BasicValue::Uint32(1024));
    let i = DBusDecoder::decode(v, &Shape::U32).ok().unwrap();
    assert_eq!(i, Native::U32(1024));

    let x = Value::BasicValue(BasicValue::Uint32(1024));
    let err = DBusDecoder::decode(x, &Shape::U8).err().unwrap();
    assert_eq!(err, DecodeError::IntTooNarrow);
}

#[test]
fn test_string() {
    let v = Value::BasicValue(BasicValue::String("foo".to_string()));
    let i = DBusDecoder::decode(v, &Shape::Str).ok().unwrap();
    assert_eq!(i, Native::Str("foo".to_string()));

    let v = Value::BasicValue(BasicValue::Signature(Signature("foo".to_string())));
    let i = DBusDecoder::decode(v, &Shape::Str).ok().unwrap();
    assert_eq!(i, Native::Str("foo".to_string()));

    let v = Value::BasicValue(BasicValue::ObjectPath(Path("foo".to_string())));
    let i = DBusDecoder::decode(v, &Shape::Str).ok().unwrap();
    assert_eq!(i, Native::Str("foo".to_string()));
}

#[test]
fn decoder_test_struct() {
    let objects = vec![
        Value::BasicValue(BasicValue::Byte(1)),
        Value::BasicValue(BasicValue::Uint32(10)),
        Value::BasicValue(BasicValue::String("baz".to_string())),
    ];
    let s = Struct {
        objects,
        signature: Signature("(yus)".to_string()),
    };
    let v = Value::Struct(s);

    let shape = Shape::Record(vec![Shape::U8, Shape::U32, Shape::Str]);
    let x = DBusDecoder::decode(v, &shape).unwrap();
    assert_eq!(
        x,
        Native::Record(vec![
            Native::U8(1),
            Native::U32(10),
            Native::Str("baz".to_string()),
        ])
    );
}

#[test]
fn test_bad_signature() {
    let v = Value::BasicValue(BasicValue::Boolean(true));
    assert_eq!(
        DBusDecoder::decode(v, &Shape::U32),
        Err(DecodeError::BadSignature)
    );
    let v = Value::BasicValue(BasicValue::Byte(1));
    assert_eq!(
        DBusDecoder::decode(v, &Shape::Bool),
        Err(DecodeError::BadSignature)
    );
    let v = Value::BasicValue(BasicValue::Uint32(5));
    assert_eq!(
        DBusDecoder::decode(v, &Shape::I32),
        Err(DecodeError::BadSignature)
    );
}

#[test]
fn test_not_supported() {
    let v = Value::Double((1.5f64).to_bits());
    assert_eq!(
        DBusDecoder::decode(v, &Shape::F32),
        Err(DecodeError::NotSupported)
    );
}

#[test]
fn test_signed_narrowing() {
    let v = Value::BasicValue(BasicValue::Int32(40000));
    assert_eq!(
        DBusDecoder::decode(v, &Shape::I16),
        Err(DecodeError::IntTooNarrow)
    );
    let v = Value::BasicValue(BasicValue::Int32(-40000));
    assert_eq!(
        DBusDecoder::decode(v, &Shape::I16),
        Err(DecodeError::IntTooNarrow)
    );
    let v = Value::BasicValue(BasicValue::Int32(-300));
    assert_eq!(
        DBusDecoder::decode(v, &Shape::I16).unwrap(),
        Native::I16(-300)
    );
}

#[test]
fn test_widening_families() {
    let v = Value::BasicValue(BasicValue::Byte(9));
    assert_eq!(DBusDecoder::decode(v, &Shape::U64).unwrap(), Native::U64(9));
    let v = Value::BasicValue(BasicValue::Uint16(9));
    assert_eq!(
        DBusDecoder::decode(v, &Shape::Usize).unwrap(),
        Native::Usize(9)
    );
    let v = Value::BasicValue(BasicValue::Int16(-9));
    assert_eq!(
        DBusDecoder::decode(v, &Shape::I64).unwrap(),
        Native::I64(-9)
    );
    let v = Value::BasicValue(BasicValue::Int64(-9));
    assert_eq!(
        DBusDecoder::decode(v, &Shape::Isize).unwrap(),
        Native::Isize(-9)
    );
}

#[test]
fn test_double_bits_roundtrip() {
    let bits = (-0.25f64).to_bits();
    let v = Value::Double(bits);
    assert_eq!(
        DBusDecoder::decode(v, &Shape::Double).unwrap(),
        Native::Double(bits)
    );
}

#[test]
fn test_char_roundtrip() {
    let v = DBusEncoder::encode(&Native::Char('Z')).unwrap();
    assert_eq!(v, Value::BasicValue(BasicValue::Byte(90)));
    assert_eq!(
        DBusDecoder::decode(v, &Shape::Char).unwrap(),
        Native::Char('Z')
    );
}

#[test]
fn test_nested_example_roundtrip() {
    let record = Native::Record(vec![
        Native::U8(1),
        Native::U32(10),
        Native::Str("baz".to_string()),
    ]);
    let v = DBusEncoder::encode(&record).unwrap();
    assert_eq!(v.get_signature(), "(yus)");
    let expected = Value::Struct(Struct {
        objects: vec![
            Value::BasicValue(BasicValue::Byte(1)),
            Value::BasicValue(BasicValue::Uint32(10)),
            Value::BasicValue(BasicValue::String("baz".to_string())),
        ],
        signature: Signature("(yus)".to_string()),
    });
    assert_eq!(v, expected);
    let shape = Shape::Record(vec![Shape::U8, Shape::U32, Shape::Str]);
    let back = DBusDecoder::decode(v, &shape).unwrap();
    assert_eq!(back, record);
}

#[test]
fn test_map_roundtrip() {
    let map = Native::Mapping(vec![
        (Native::Str("a".to_string()), Native::Bool(true)),
        (Native::Str("b".to_string()), Native::Bool(false)),
    ]);
    let v = DBusEncoder::encode(&map).unwrap();
    assert_eq!(v.get_signature(), "a{sb}");
    let shape = Shape::Mapping(Box::new(Shape::Str), Box::new(Shape::Bool));
    let back = DBusDecoder::decode(v, &shape).unwrap();
    assert_eq!(back, map);
}

#[test]
fn test_record_too_short() {
    let s = Struct {
        objects: vec![Value::BasicValue(BasicValue::Byte(1))],
        signature: Signature("(y)".to_string()),
    };
    let shape = Shape::Record(vec![Shape::U8, Shape::U8]);
    assert_eq!(
        DBusDecoder::decode(Value::Struct(s), &shape),
        Err(DecodeError::BadSignature)
    );
}
