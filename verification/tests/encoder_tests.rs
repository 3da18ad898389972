use dbus_codec::encoder::{DBusEncoder, EncoderError};
use dbus_codec::native::Native;
use dbus_codec::types::{Array, BasicValue, DictEntry, Dictionary, Signature, Struct, Value};

#[test]
fn encoder_test_array() {
    let array = Native::Sequence(vec![Native::U32(1), Native::U32(2), Native::U32(3)]);
    let v = DBusEncoder::encode(&array).ok().unwrap();
    let a2 = vec![
        Value::BasicValue(BasicValue::Uint32(1)),
        Value::BasicValue(BasicValue::Uint32(2)),
        Value::BasicValue(BasicValue::Uint32(3)),
    ];
    assert_eq!(v, Value::Array(Array::new(a2)));
}

#[test]
fn test_empty_array() {
    let array = Native::Sequence(vec![]);
    assert_eq!(DBusEncoder::encode(&array), Err(EncoderError::EmptyArray));
}

#[test]
fn test_nested_array() {
    let a1 = Native::Sequence(vec![Native::U32(1), Native::U32(2), Native::U32(3)]);
    let a2 = Native::Sequence(vec![Native::U32(16), Native::U32(17)]);
    let a3 = Native::Sequence(vec![Native::U32(9)]);
    let array = Native::Sequence(vec![a1, a2, a3]);
    let v = DBusEncoder::encode(&array).ok().unwrap();
    let expected_a1 = vec![
        Value::BasicValue(BasicValue::Uint32(1)),
        Value::BasicValue(BasicValue::Uint32(2)),
        Value::BasicValue(BasicValue::Uint32(3)),
    ];
    let expected_a2 = vec![
        Value::BasicValue(BasicValue::Uint32(16)),
        Value::BasicValue(BasicValue::Uint32(17)),
    ];
    let expected_a3 = vec![Value::BasicValue(BasicValue::Uint32(9))];
    let expected_array = vec![
        Value::Array(Array::new(expected_a1)),
        Value::Array(Array::new(expected_a2)),
        Value::Array(Array::new(expected_a3)),
    ];
    assert_eq!(v, Value::Array(Array::new(expected_array)));
}

#[test]
fn test_map() {
    let map = Native::Mapping(vec![
        (Native::U32(1), Native::U64(100)),
        (Native::U32(2), Native::U64(200)),
        (Native::U32(3), Native::U64(300)),
    ]);
    let v = DBusEncoder::encode(&map).ok().unwrap();
    let map2 = vec![
        DictEntry {
            key: BasicValue::Uint32(1),
            value: Value::BasicValue(BasicValue::Uint64(100)),
        },
        DictEntry {
            key: BasicValue::Uint32(2),
            value: Value::BasicValue(BasicValue::Uint64(200)),
        },
        DictEntry {
            key: BasicValue::Uint32(3),
            value: Value::BasicValue(BasicValue::Uint64(300)),
        },
    ];
    assert_eq!(v, Value::Dictionary(Dictionary::new(map2)));
}

#[test]
fn test_empty_map() {
    let map = Native::Mapping(vec![]);
    assert_eq!(DBusEncoder::encode(&map), Err(EncoderError::EmptyMap));
}

#[test]
fn test_bad_map_key() {
    let map = Native::Mapping(vec![(
        Native::Record(vec![Native::U32(1), Native::U32(2)]),
        Native::U32(100),
    )]);
    assert_eq!(DBusEncoder::encode(&map), Err(EncoderError::BadKeyType));
}

#[test]
fn test_nested_map() {
    let map1 = Native::Mapping(vec![
        (Native::U64(1), Native::U16(10)),
        (Native::U64(2), Native::U16(20)),
        (Native::U64(3), Native::U16(30)),
    ]);
    let map2 = Native::Mapping(vec![
        (Native::U64(1), Native::U16(10)),
        (Native::U64(2), Native::U16(20)),
    ]);
    let map3 = Native::Mapping(vec![(Native::U64(19), Native::U16(190))]);
    let map = Native::Mapping(vec![
        (Native::I32(-1), map1),
        (Native::I32(-2), map2),
        (Native::I32(-3), map3),
    ]);
    let v = DBusEncoder::encode(&map).ok().unwrap();
    let expected_map1 = vec![
        DictEntry {
            key: BasicValue::Uint64(1),
            value: Value::BasicValue(BasicValue::Uint16(10)),
        },
        DictEntry {
            key: BasicValue::Uint64(2),
            value: Value::BasicValue(BasicValue::Uint16(20)),
        },
        DictEntry {
            key: BasicValue::Uint64(3),
            value: Value::BasicValue(BasicValue::Uint16(30)),
        },
    ];
    let expected_map2 = vec![
        DictEntry {
            key: BasicValue::Uint64(1),
            value: Value::BasicValue(BasicValue::Uint16(10)),
        },
        DictEntry {
            key: BasicValue::Uint64(2),
            value: Value::BasicValue(BasicValue::Uint16(20)),
        },
    ];
    let expected_map3 = vec![DictEntry {
        key: BasicValue::Uint64(19),
        value: Value::BasicValue(BasicValue::Uint16(190)),
    }];
    let expected_map = vec![
        DictEntry {
            key: BasicValue::Int32(-1),
            value: Value::Dictionary(Dictionary::new(expected_map1)),
        },
        DictEntry {
            key: BasicValue::Int32(-2),
            value: Value::Dictionary(Dictionary::new(expected_map2)),
        },
        DictEntry {
            key: BasicValue::Int32(-3),
            value: Value::Dictionary(Dictionary::new(expected_map3)),
        },
    ];
    assert_eq!(v, Value::Dictionary(Dictionary::new(expected_map)));
}

#[test]
fn encoder_test_struct() {
    let struc = Native::Record(vec![Native::I32(1), Native::U64(2)]);
    let v = DBusEncoder::encode(&struc).ok().unwrap();
    let expected_struct = Struct {
        objects: vec![
            Value::BasicValue(BasicValue::Int32(1)),
            Value::BasicValue(BasicValue::Uint64(2)),
        ],
        signature: Signature("(it)".to_string()),
    };
    assert_eq!(v, Value::Struct(expected_struct));
}

#[test]
fn test_empty_struct() {
    let struc = Native::Record(vec![]);
    let v = DBusEncoder::encode(&struc).ok().unwrap();
    let expected_struct = Struct {
        objects: vec![],
        signature: Signature("()".to_string()),
    };
    assert_eq!(v, Value::Struct(expected_struct));
}

#[test]
fn test_nested_struct() {
    let struc = Native::Record(vec![
        Native::Record(vec![Native::I32(1), Native::U64(2)]),
        Native::Record(vec![Native::I32(9), Native::U64(10)]),
        Native::Record(vec![]),
    ]);
    let v = DBusEncoder::encode(&struc).ok().unwrap();
    let inner_struct_x = Struct {
        objects: vec![
            Value::BasicValue(BasicValue::Int32(1)),
            Value::BasicValue(BasicValue::Uint64(2)),
        ],
        signature: Signature("(it)".to_string()),
    };
    let inner_struct_y = Struct {
        objects: vec![
            Value::BasicValue(BasicValue::Int32(9)),
            Value::BasicValue(BasicValue::Uint64(10)),
        ],
        signature: Signature("(it)".to_string()),
    };
    let inner_struct_z = Struct {
        objects: vec![],
        signature: Signature("()".to_string()),
    };
    let expected_struct = Struct {
        objects: vec![
            Value::Struct(inner_struct_x),
            Value::Struct(inner_struct_y),
            Value::Struct(inner_struct_z),
        ],
        signature: Signature("((it)(it)())".to_string()),
    };
    assert_eq!(v, Value::Struct(expected_struct));
}

#[test]
fn test_from() {
    let x = DBusEncoder::encode(&Native::I32(12)).unwrap();
    assert_eq!(x, Value::BasicValue(BasicValue::Int32(12)));
    let y = DBusEncoder::encode(&Native::Str("foobar".to_string())).unwrap();
    assert_eq!(y, Value::BasicValue(BasicValue::String("foobar".to_string())));
}

#[test]
fn test_unsupported() {
    assert_eq!(
        DBusEncoder::encode(&Native::I8(-5)),
        Err(EncoderError::Unsupported)
    );
    assert_eq!(
        DBusEncoder::encode(&Native::Nil),
        Err(EncoderError::Unsupported)
    );
}

#[test]
fn test_encode_primitives() {
    assert_eq!(
        DBusEncoder::encode(&Native::U8(7)).unwrap(),
        Value::BasicValue(BasicValue::Byte(7))
    );
    assert_eq!(
        DBusEncoder::encode(&Native::U16(7)).unwrap(),
        Value::BasicValue(BasicValue::Uint16(7))
    );
    assert_eq!(
        DBusEncoder::encode(&Native::Usize(7)).unwrap(),
        Value::BasicValue(BasicValue::Uint64(7))
    );
    assert_eq!(
        DBusEncoder::encode(&Native::I16(-7)).unwrap(),
        Value::BasicValue(BasicValue::Int16(-7))
    );
    assert_eq!(
        DBusEncoder::encode(&Native::I64(-7)).unwrap(),
        Value::BasicValue(BasicValue::Int64(-7))
    );
    assert_eq!(
        DBusEncoder::encode(&Native::Isize(-7)).unwrap(),
        Value::BasicValue(BasicValue::Int64(-7))
    );
    assert_eq!(
        DBusEncoder::encode(&Native::Bool(true)).unwrap(),
        Value::BasicValue(BasicValue::Boolean(true))
    );
    assert_eq!(
        DBusEncoder::encode(&Native::Char('A')).unwrap(),
        Value::BasicValue(BasicValue::Byte(65))
    );
}

#[test]
fn test_encode_double_bits() {
    let bits = (3.5f64).to_bits();
    let v = DBusEncoder::encode(&Native::Double(bits)).unwrap();
    assert_eq!(v, Value::Double(bits));
    match v {
        Value::Double(b) => assert_eq!(f64::from_bits(b), 3.5),
        _ => panic!("expected a double node"),
    }
}
