use dbus_codec::decoder::DBusDecoder;
use dbus_codec::encoder::DBusEncoder;
use dbus_codec::native::{Native, Shape};
use dbus_codec::types::{BasicValue, DictEntry, Dictionary, Path, Value};

#[test]
fn test_emit_and_fold_struct() {
    let mut enc = DBusEncoder::new();
    enc.emit_u8(1).unwrap();
    enc.emit_str("x").unwrap();
    assert_eq!(enc.stack_len(), 2);
    enc.handle_struct(2).unwrap();
    assert_eq!(enc.stack_len(), 1);
    let v = enc.take_first();
    assert_eq!(v.get_signature(), "(ys)");
}

#[test]
fn test_emit_and_fold_array() {
    let mut enc = DBusEncoder::new();
    enc.emit_i64(-1).unwrap();
    enc.emit_i64(2).unwrap();
    enc.handle_array(2).unwrap();
    let v = enc.take_first();
    assert_eq!(v.get_signature(), "ax");
}

#[test]
fn test_emit_map_protocol() {
    let mut enc = DBusEncoder::new();
    enc.begin_map(1).unwrap();
    enc.emit_u8(9).unwrap();
    enc.stash_key().unwrap();
    assert!(enc.has_stashed_key());
    let key = enc.take_stashed_key();
    enc.emit_bool(true).unwrap();
    assert!(enc.entry_ready());
    enc.add_entry(key);
    assert!(enc.map_ready());
    enc.end_map();
    let v = enc.take_first();
    assert_eq!(v.get_signature(), "a{yb}");
}

#[test]
fn test_decoder_primitive_reads() {
    let dec = DBusDecoder::new(Value::BasicValue(BasicValue::Uint16(300)));
    assert_eq!(dec.read_u16(), Ok(300));
    assert_eq!(dec.read_u32(), Ok(300));
    assert_eq!(dec.read_u64(), Ok(300));
    assert!(dec.read_u8().is_err());
    assert!(dec.read_bool().is_err());
}

#[test]
fn test_map_path_keys() {
    let dict = Dictionary::new(vec![DictEntry {
        key: BasicValue::ObjectPath(Path("/a".to_string())),
        value: Value::BasicValue(BasicValue::Boolean(true)),
    }]);
    let v = Value::Dictionary(dict);
    assert_eq!(v.get_signature(), "a{ob}");
    let shape = Shape::Mapping(Box::new(Shape::Str), Box::new(Shape::Bool));
    let back = DBusDecoder::decode(v, &shape).unwrap();
    assert_eq!(
        back,
        Native::Mapping(vec![(Native::Str("/a".to_string()), Native::Bool(true))])
    );
}
