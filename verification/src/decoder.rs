//! The decoder engine: reads a native shape back out of a D-Bus value tree.
//!
//! The engine holds the value subtree it is interpreting and performs
//! type-checked extraction: integers are widened to 64 bits and range-checked
//! against the requested width, strings unwrap from any of the three text
//! kinds, and aggregates are taken apart element by element. Elements are
//! removed by index without disturbing the positions of the not-yet-visited
//! ones: a filler byte is swapped into the vacated slot. A dictionary is read
//! entry by entry, each key staged together with its value in a one-slot
//! holder between the key's extraction and the value's.
//!
//! What the whole engine computes is pinned down by [`decode_spec`]: a direct
//! recursive description of the native (or error) every value tree and target
//! shape map to.

use vstd::prelude::*;

use crate::native::{
    lemma_view_natives_len, lemma_view_natives_index, lemma_view_pairs_len,
    lemma_view_pairs_index, lemma_view_shapes_len, lemma_view_shapes_index, Native, NativeV,
    Shape, ShapeV,
};
use crate::types::{
    lemma_view_entries_index, lemma_view_entries_len, lemma_view_vals_index, lemma_view_vals_len,
    ArrayV, BasicV, BasicValue, DictV, StructV, Value, ValueV,
};

verus! {

broadcast use lemma_view_vals_len, lemma_view_vals_index, lemma_view_entries_len, lemma_view_entries_index, lemma_view_natives_len, lemma_view_natives_index, lemma_view_pairs_len, lemma_view_pairs_index, lemma_view_shapes_len, lemma_view_shapes_index;

/// The ways a decode can fail. All are terminal: no partial result is ever
/// returned.
#[derive(Debug, PartialEq, Eq)]
pub enum DecodeError {
    /// The node's kind does not match what the target shape requires.
    BadSignature,
    /// The target shape has no decode rule (a 32-bit float target, or the
    /// shapes the visitor protocol names but the value model cannot carry).
    NotSupported,
    /// The integer decodes but does not fit the requested width.
    IntTooNarrow,
}

// ---------------------------------------------------------------------------
// What decoding computes
// ---------------------------------------------------------------------------

/// The common unsigned 64-bit value of a basic node, for the unsigned-target
/// family: byte and the unsigned widths.
pub open spec fn uint_of(b: BasicV) -> Result<u64, DecodeError> {
    match b {
        BasicV::Byte(x) => Ok(x as u64),
        BasicV::Uint16(x) => Ok(x as u64),
        BasicV::Uint32(x) => Ok(x as u64),
        BasicV::Uint64(x) => Ok(x),
        _ => Err(DecodeError::BadSignature),
    }
}

/// The common signed 64-bit value of a basic node, for the signed-target
/// family.
pub open spec fn int_of(b: BasicV) -> Result<i64, DecodeError> {
    match b {
        BasicV::Int16(x) => Ok(x as i64),
        BasicV::Int32(x) => Ok(x as i64),
        BasicV::Int64(x) => Ok(x),
        _ => Err(DecodeError::BadSignature),
    }
}

/// Read an unsigned integer out of a value and check it fits below `max`.
pub open spec fn unsigned_read(v: ValueV, max: u64) -> Result<u64, DecodeError> {
    match v {
        ValueV::Basic(b) => match uint_of(b) {
            Ok(x) => if x > max {
                Err(DecodeError::IntTooNarrow)
            } else {
                Ok(x)
            },
            Err(e) => Err(e),
        },
        _ => Err(DecodeError::BadSignature),
    }
}

/// Read a signed integer out of a value and check it lies in
/// `[min, max]`.
pub open spec fn signed_read(v: ValueV, max: i64, min: i64) -> Result<i64, DecodeError> {
    match v {
        ValueV::Basic(b) => match int_of(b) {
            Ok(x) => if x > max {
                Err(DecodeError::IntTooNarrow)
            } else if x < min {
                Err(DecodeError::IntTooNarrow)
            } else {
                Ok(x)
            },
            Err(e) => Err(e),
        },
        _ => Err(DecodeError::BadSignature),
    }
}

/// The native a value decodes to under a primitive target shape. Aggregate
/// target shapes are here only for totality: a basic node never matches them,
/// and [`decode_spec`] handles the aggregate cases itself.
pub open spec fn decode_basic(v: ValueV, s: ShapeV) -> Result<NativeV, DecodeError> {
    match s {
        ShapeV::U8 => match unsigned_read(v, u8::MAX as u64) {
            Ok(x) => Ok(NativeV::U8(x as u8)),
            Err(e) => Err(e),
        },
        ShapeV::U16 => match unsigned_read(v, u16::MAX as u64) {
            Ok(x) => Ok(NativeV::U16(x as u16)),
            Err(e) => Err(e),
        },
        ShapeV::U32 => match unsigned_read(v, u32::MAX as u64) {
            Ok(x) => Ok(NativeV::U32(x as u32)),
            Err(e) => Err(e),
        },
        ShapeV::U64 => match unsigned_read(v, u64::MAX) {
            Ok(x) => Ok(NativeV::U64(x)),
            Err(e) => Err(e),
        },
        ShapeV::Usize => match unsigned_read(v, usize::MAX as u64) {
            Ok(x) => Ok(NativeV::Usize(x as usize)),
            Err(e) => Err(e),
        },
        ShapeV::I8 => match signed_read(v, i8::MAX as i64, i8::MIN as i64) {
            Ok(x) => Ok(NativeV::I8(x as i8)),
            Err(e) => Err(e),
        },
        ShapeV::I16 => match signed_read(v, i16::MAX as i64, i16::MIN as i64) {
            Ok(x) => Ok(NativeV::I16(x as i16)),
            Err(e) => Err(e),
        },
        ShapeV::I32 => match signed_read(v, i32::MAX as i64, i32::MIN as i64) {
            Ok(x) => Ok(NativeV::I32(x as i32)),
            Err(e) => Err(e),
        },
        ShapeV::I64 => match signed_read(v, i64::MAX, i64::MIN) {
            Ok(x) => Ok(NativeV::I64(x)),
            Err(e) => Err(e),
        },
        ShapeV::Isize => match signed_read(v, isize::MAX as i64, isize::MIN as i64) {
            Ok(x) => Ok(NativeV::Isize(x as isize)),
            Err(e) => Err(e),
        },
        ShapeV::Bool => match v {
            ValueV::Basic(BasicV::Boolean(x)) => Ok(NativeV::Bool(x)),
            _ => Err(DecodeError::BadSignature),
        },
        ShapeV::Char => match unsigned_read(v, u8::MAX as u64) {
            Ok(x) => Ok(NativeV::Char((x as u8) as char)),
            Err(e) => Err(e),
        },
        ShapeV::Str => match v {
            ValueV::Basic(BasicV::Str(t)) => Ok(NativeV::Str(t)),
            ValueV::Basic(BasicV::ObjectPath(t)) => Ok(NativeV::Str(t)),
            ValueV::Basic(BasicV::Signature(t)) => Ok(NativeV::Str(t)),
            _ => Err(DecodeError::BadSignature),
        },
        ShapeV::Double => match v {
            ValueV::Double(bits) => Ok(NativeV::Double(bits)),
            _ => Err(DecodeError::BadSignature),
        },
        ShapeV::F32 => Err(DecodeError::NotSupported),
        ShapeV::Sequence(_) => Err(DecodeError::BadSignature),
        ShapeV::Mapping(_, _) => Err(DecodeError::BadSignature),
        ShapeV::Record(_) => Err(DecodeError::BadSignature),
    }
}

/// The native (or error) a value tree and a target shape map to. Elements,
/// entries and fields are consumed in order; the first error found is the one
/// reported.
pub open spec fn decode_spec(v: ValueV, s: ShapeV) -> Result<NativeV, DecodeError>
    decreases s, 0int,
{
    match s {
        ShapeV::Sequence(inner) => match v {
            ValueV::Array(a) => match decode_elems(a.objects, *inner) {
                Ok(ns) => Ok(NativeV::Sequence(ns)),
                Err(e) => Err(e),
            },
            _ => Err(DecodeError::BadSignature),
        },
        ShapeV::Mapping(ks, vs) => match v {
            ValueV::Dictionary(d) => match decode_entries(d.entries, *ks, *vs) {
                Ok(ps) => Ok(NativeV::Mapping(ps)),
                Err(e) => Err(e),
            },
            _ => Err(DecodeError::BadSignature),
        },
        ShapeV::Record(shapes) => match v {
            ValueV::Struct(st) => if shapes.len() > st.objects.len() {
                Err(DecodeError::BadSignature)
            } else {
                match decode_fields(st.objects, shapes) {
                    Ok(ns) => Ok(NativeV::Record(ns)),
                    Err(e) => Err(e),
                }
            },
            _ => Err(DecodeError::BadSignature),
        },
        _ => decode_basic(v, s),
    }
}

/// The natives a run of array elements decodes to under one element shape, or
/// the first error among them.
pub open spec fn decode_elems(objs: Seq<ValueV>, inner: ShapeV) -> Result<
    Seq<NativeV>,
    DecodeError,
>
    decreases inner, objs.len(),
{
    if objs.len() == 0 {
        Ok(Seq::empty())
    } else {
        match decode_elems(objs.drop_last(), inner) {
            Ok(ns) => match decode_spec(objs.last(), inner) {
                Ok(n) => Ok(ns.push(n)),
                Err(e) => Err(e),
            },
            Err(e) => Err(e),
        }
    }
}

/// The key/value pair one dictionary entry decodes to: the key is read from a
/// single-basic-value subtree, the value from the entry's value tree.
pub open spec fn entry_step(e: crate::types::EntryV, ks: ShapeV, vs: ShapeV) -> Result<
    (NativeV, NativeV),
    DecodeError,
>
    decreases vs, 1int,
{
    match decode_basic(ValueV::Basic(e.key), ks) {
        Ok(kn) => match decode_spec(e.value, vs) {
            Ok(vn) => Ok((kn, vn)),
            Err(err) => Err(err),
        },
        Err(err) => Err(err),
    }
}

/// The pairs a run of dictionary entries decodes to, or the first error among
/// them.
pub open spec fn decode_entries(entries: Seq<crate::types::EntryV>, ks: ShapeV, vs: ShapeV) -> Result<
    Seq<(NativeV, NativeV)>,
    DecodeError,
>
    decreases vs, entries.len() + 2,
{
    if entries.len() == 0 {
        Ok(Seq::empty())
    } else {
        match decode_entries(entries.drop_last(), ks, vs) {
            Ok(ps) => match entry_step(entries.last(), ks, vs) {
                Ok(p) => Ok(ps.push(p)),
                Err(e) => Err(e),
            },
            Err(e) => Err(e),
        }
    }
}

/// The natives a struct's fields decode to under a run of field shapes, one
/// shape per field position, or the first error among them.
pub open spec fn decode_fields(objs: Seq<ValueV>, shapes: Seq<ShapeV>) -> Result<
    Seq<NativeV>,
    DecodeError,
>
    decreases shapes, 0int,
{
    if shapes.len() == 0 {
        Ok(Seq::empty())
    } else {
        match decode_fields(objs, shapes.drop_last()) {
            Ok(ns) => match decode_spec(objs[shapes.len() - 1], shapes.last()) {
                Ok(n) => Ok(ns.push(n)),
                Err(e) => Err(e),
            },
            Err(e) => Err(e),
        }
    }
}

/// A basic node decodes the same whether reached directly or through a
/// single-value subtree: aggregate shapes reject it either way.
proof fn lemma_decode_basic_agrees(b: BasicV, s: ShapeV)
    ensures
        decode_spec(ValueV::Basic(b), s) == decode_basic(ValueV::Basic(b), s),
{
}

/// An error in the element at position `i` is the error of the whole run, as
/// long as everything before `i` decoded.
proof fn lemma_decode_elems_error(objs: Seq<ValueV>, inner: ShapeV, i: int)
    requires
        0 <= i < objs.len(),
        decode_elems(objs.take(i), inner) is Ok,
        decode_spec(objs[i], inner) is Err,
    ensures
        decode_elems(objs, inner) == Err::<Seq<NativeV>, DecodeError>(
            decode_spec(objs[i], inner)->Err_0,
        ),
    decreases objs.len() - i,
{
    if i == objs.len() - 1 {
        assert(objs.take(i) =~= objs.drop_last());
        assert(objs.last() == objs[i]);
    } else {
        assert(objs.drop_last().take(i) =~= objs.take(i));
        assert(objs.drop_last()[i] == objs[i]);
        lemma_decode_elems_error(objs.drop_last(), inner, i);
    }
}

/// An error in the entry at position `i` is the error of the whole run, as
/// long as every entry before `i` decoded.
proof fn lemma_decode_entries_error(
    entries: Seq<crate::types::EntryV>,
    ks: ShapeV,
    vs: ShapeV,
    i: int,
)
    requires
        0 <= i < entries.len(),
        decode_entries(entries.take(i), ks, vs) is Ok,
        entry_step(entries[i], ks, vs) is Err,
    ensures
        decode_entries(entries, ks, vs) == Err::<Seq<(NativeV, NativeV)>, DecodeError>(
            entry_step(entries[i], ks, vs)->Err_0,
        ),
    decreases entries.len() - i,
{
    if i == entries.len() - 1 {
        assert(entries.take(i) =~= entries.drop_last());
        assert(entries.last() == entries[i]);
    } else {
        assert(entries.drop_last().take(i) =~= entries.take(i));
        assert(entries.drop_last()[i] == entries[i]);
        lemma_decode_entries_error(entries.drop_last(), ks, vs, i);
    }
}

/// An error in the field at position `i` is the error of the whole run, as
/// long as every field before `i` decoded.
proof fn lemma_decode_fields_error(objs: Seq<ValueV>, shapes: Seq<ShapeV>, i: int)
    requires
        0 <= i < shapes.len(),
        decode_fields(objs, shapes.take(i)) is Ok,
        decode_spec(objs[i], shapes[i]) is Err,
    ensures
        decode_fields(objs, shapes) == Err::<Seq<NativeV>, DecodeError>(
            decode_spec(objs[i], shapes[i])->Err_0,
        ),
    decreases shapes.len() - i,
{
    if i == shapes.len() - 1 {
        assert(shapes.take(i) =~= shapes.drop_last());
        assert(shapes.last() == shapes[i]);
    } else {
        assert(shapes.drop_last().take(i) =~= shapes.take(i));
        assert(shapes.drop_last()[i] == shapes[i]);
        lemma_decode_fields_error(objs, shapes.drop_last(), i);
    }
}

// ---------------------------------------------------------------------------
// The engine
// ---------------------------------------------------------------------------

/// View of the decoder: the value subtree under interpretation and the
/// one-slot holder staging a dictionary value between a key read and its
/// paired value read.
pub struct DecV {
    pub value: ValueV,
    pub map_val: Option<ValueV>,
}

/// The decoder engine. Holds the current value subtree and the one-slot
/// holder for a dictionary value staged between key and value extraction.
pub struct DBusDecoder {
    value: Value,
    map_val: Option<Value>,
}

impl View for DBusDecoder {
    type V = DecV;

    closed spec fn view(&self) -> DecV {
        DecV {
            value: self.value@,
            map_val: match self.map_val {
                Some(ref v) => Some(v@),
                None => None,
            },
        }
    }
}

impl DBusDecoder {
    /// A fresh engine interpreting the given value, with nothing staged.
    pub fn new(v: Value) -> (r: DBusDecoder)
        ensures
            r@.value == v@,
            r@.map_val is None,
    {
        DBusDecoder { value: v, map_val: None }
    }

    /// The common unsigned value of a basic node.
    fn get_unsigned_int(v: &BasicValue) -> (r: Result<u64, DecodeError>)
        ensures
            r == uint_of(v@),
    {
        match v {
            BasicValue::Byte(x) => Ok(*x as u64),
            BasicValue::Uint16(x) => Ok(*x as u64),
            BasicValue::Uint32(x) => Ok(*x as u64),
            BasicValue::Uint64(x) => Ok(*x),
            _ => Err(DecodeError::BadSignature),
        }
    }

    /// The common signed value of a basic node.
    fn get_signed_int(v: &BasicValue) -> (r: Result<i64, DecodeError>)
        ensures
            r == int_of(v@),
    {
        match v {
            BasicValue::Int16(x) => Ok(*x as i64),
            BasicValue::Int32(x) => Ok(*x as i64),
            BasicValue::Int64(x) => Ok(*x),
            _ => Err(DecodeError::BadSignature),
        }
    }

    /// Read an unsigned integer and make sure it fits below `max`.
    fn read_unsigned_int(v: &Value, max: u64) -> (r: Result<u64, DecodeError>)
        ensures
            r == unsigned_read(v@, max),
    {
        let basic_val = match v {
            Value::BasicValue(x) => x,
            _ => {
                return Err(DecodeError::BadSignature);
            },
        };
        let x = match DBusDecoder::get_unsigned_int(basic_val) {
            Ok(x) => x,
            Err(e) => {
                return Err(e);
            },
        };
        if x > max {
            return Err(DecodeError::IntTooNarrow);
        }
        Ok(x)
    }

    /// Read a signed integer and make sure it lies in `[min, max]`.
    fn read_signed_int(v: &Value, max: i64, min: i64) -> (r: Result<i64, DecodeError>)
        ensures
            r == signed_read(v@, max, min),
    {
        let basic_val = match v {
            Value::BasicValue(x) => x,
            _ => {
                return Err(DecodeError::BadSignature);
            },
        };
        let x = match DBusDecoder::get_signed_int(basic_val) {
            Ok(x) => x,
            Err(e) => {
                return Err(e);
            },
        };
        if x > max {
            return Err(DecodeError::IntTooNarrow);
        }
        if x < min {
            return Err(DecodeError::IntTooNarrow);
        }
        Ok(x)
    }

    /// Read an unsigned 8-bit integer.
    pub fn read_u8(&self) -> (r: Result<u8, DecodeError>)
        ensures
            match r {
                Ok(x) => decode_spec(self@.value, ShapeV::U8) == Ok::<NativeV, DecodeError>(
                    NativeV::U8(x),
                ),
                Err(e) => decode_spec(self@.value, ShapeV::U8) == Err::<NativeV, DecodeError>(e),
            },
    {
        match DBusDecoder::read_unsigned_int(&self.value, u8::MAX as u64) {
            Ok(x) => Ok(x as u8),
            Err(e) => Err(e),
        }
    }

    /// Read an unsigned 16-bit integer.
    pub fn read_u16(&self) -> (r: Result<u16, DecodeError>)
        ensures
            match r {
                Ok(x) => decode_spec(self@.value, ShapeV::U16) == Ok::<NativeV, DecodeError>(
                    NativeV::U16(x),
                ),
                Err(e) => decode_spec(self@.value, ShapeV::U16) == Err::<NativeV, DecodeError>(e),
            },
    {
        match DBusDecoder::read_unsigned_int(&self.value, u16::MAX as u64) {
            Ok(x) => Ok(x as u16),
            Err(e) => Err(e),
        }
    }

    /// Read an unsigned 32-bit integer.
    pub fn read_u32(&self) -> (r: Result<u32, DecodeError>)
        ensures
            match r {
                Ok(x) => decode_spec(self@.value, ShapeV::U32) == Ok::<NativeV, DecodeError>(
                    NativeV::U32(x),
                ),
                Err(e) => decode_spec(self@.value, ShapeV::U32) == Err::<NativeV, DecodeError>(e),
            },
    {
        match DBusDecoder::read_unsigned_int(&self.value, u32::MAX as u64) {
            Ok(x) => Ok(x as u32),
            Err(e) => Err(e),
        }
    }

    /// Read an unsigned 64-bit integer.
    pub fn read_u64(&self) -> (r: Result<u64, DecodeError>)
        ensures
            match r {
                Ok(x) => decode_spec(self@.value, ShapeV::U64) == Ok::<NativeV, DecodeError>(
                    NativeV::U64(x),
                ),
                Err(e) => decode_spec(self@.value, ShapeV::U64) == Err::<NativeV, DecodeError>(e),
            },
    {
        DBusDecoder::read_unsigned_int(&self.value, u64::MAX)
    }

    /// Read a pointer-sized unsigned integer.
    pub fn read_usize(&self) -> (r: Result<usize, DecodeError>)
        ensures
            match r {
                Ok(x) => decode_spec(self@.value, ShapeV::Usize) == Ok::<NativeV, DecodeError>(
                    NativeV::Usize(x),
                ),
                Err(e) => decode_spec(self@.value, ShapeV::Usize) == Err::<NativeV, DecodeError>(e),
            },
    {
        match DBusDecoder::read_unsigned_int(&self.value, usize::MAX as u64) {
            Ok(x) => Ok(x as usize),
            Err(e) => Err(e),
        }
    }

    /// Read a signed 8-bit integer.
    pub fn read_i8(&self) -> (r: Result<i8, DecodeError>)
        ensures
            match r {
                Ok(x) => decode_spec(self@.value, ShapeV::I8) == Ok::<NativeV, DecodeError>(
                    NativeV::I8(x),
                ),
                Err(e) => decode_spec(self@.value, ShapeV::I8) == Err::<NativeV, DecodeError>(e),
            },
    {
        match DBusDecoder::read_signed_int(&self.value, i8::MAX as i64, i8::MIN as i64) {
            Ok(x) => Ok(x as i8),
            Err(e) => Err(e),
        }
    }

    /// Read a signed 16-bit integer.
    pub fn read_i16(&self) -> (r: Result<i16, DecodeError>)
        ensures
            match r {
                Ok(x) => decode_spec(self@.value, ShapeV::I16) == Ok::<NativeV, DecodeError>(
                    NativeV::I16(x),
                ),
                Err(e) => decode_spec(self@.value, ShapeV::I16) == Err::<NativeV, DecodeError>(e),
            },
    {
        match DBusDecoder::read_signed_int(&self.value, i16::MAX as i64, i16::MIN as i64) {
            Ok(x) => Ok(x as i16),
            Err(e) => Err(e),
        }
    }

    /// Read a signed 32-bit integer.
    pub fn read_i32(&self) -> (r: Result<i32, DecodeError>)
        ensures
            match r {
                Ok(x) => decode_spec(self@.value, ShapeV::I32) == Ok::<NativeV, DecodeError>(
                    NativeV::I32(x),
                ),
                Err(e) => decode_spec(self@.value, ShapeV::I32) == Err::<NativeV, DecodeError>(e),
            },
    {
        match DBusDecoder::read_signed_int(&self.value, i32::MAX as i64, i32::MIN as i64) {
            Ok(x) => Ok(x as i32),
            Err(e) => Err(e),
        }
    }

    /// Read a signed 64-bit integer.
    pub fn read_i64(&self) -> (r: Result<i64, DecodeError>)
        ensures
            match r {
                Ok(x) => decode_spec(self@.value, ShapeV::I64) == Ok::<NativeV, DecodeError>(
                    NativeV::I64(x),
                ),
                Err(e) => decode_spec(self@.value, ShapeV::I64) == Err::<NativeV, DecodeError>(e),
            },
    {
        DBusDecoder::read_signed_int(&self.value, i64::MAX, i64::MIN)
    }

    /// Read a pointer-sized signed integer.
    pub fn read_isize(&self) -> (r: Result<isize, DecodeError>)
        ensures
            match r {
                Ok(x) => decode_spec(self@.value, ShapeV::Isize) == Ok::<NativeV, DecodeError>(
                    NativeV::Isize(x),
                ),
                Err(e) => decode_spec(self@.value, ShapeV::Isize) == Err::<NativeV, DecodeError>(e),
            },
    {
        match DBusDecoder::read_signed_int(&self.value, isize::MAX as i64, isize::MIN as i64) {
            Ok(x) => Ok(x as isize),
            Err(e) => Err(e),
        }
    }

    /// Read a boolean: requires exactly a boolean node.
    pub fn read_bool(&self) -> (r: Result<bool, DecodeError>)
        ensures
            match r {
                Ok(x) => decode_spec(self@.value, ShapeV::Bool) == Ok::<NativeV, DecodeError>(
                    NativeV::Bool(x),
                ),
                Err(e) => decode_spec(self@.value, ShapeV::Bool) == Err::<NativeV, DecodeError>(e),
            },
    {
        match &self.value {
            Value::BasicValue(BasicValue::Boolean(x)) => Ok(*x),
            _ => Err(DecodeError::BadSignature),
        }
    }

    /// Read a character: an 8-bit unsigned value reinterpreted as a code
    /// point.
    pub fn read_char(&self) -> (r: Result<char, DecodeError>)
        ensures
            match r {
                Ok(x) => decode_spec(self@.value, ShapeV::Char) == Ok::<NativeV, DecodeError>(
                    NativeV::Char(x),
                ),
                Err(e) => decode_spec(self@.value, ShapeV::Char) == Err::<NativeV, DecodeError>(e),
            },
    {
        match self.read_u8() {
            Ok(x) => Ok(x as char),
            Err(e) => Err(e),
        }
    }

    /// Read a double-precision float as its IEEE 754 bit pattern: requires
    /// exactly the tree's double node.
    pub fn read_double(&self) -> (r: Result<u64, DecodeError>)
        ensures
            match r {
                Ok(bits) => decode_spec(self@.value, ShapeV::Double) == Ok::<NativeV, DecodeError>(
                    NativeV::Double(bits),
                ),
                Err(e) => decode_spec(self@.value, ShapeV::Double) == Err::<NativeV, DecodeError>(
                    e,
                ),
            },
    {
        match &self.value {
            Value::Double(bits) => Ok(*bits),
            _ => Err(DecodeError::BadSignature),
        }
    }

    /// Read plain text: any of the three text kinds unwraps to its payload.
    pub fn read_str(&self) -> (r: Result<String, DecodeError>)
        ensures
            match r {
                Ok(t) => decode_spec(self@.value, ShapeV::Str) == Ok::<NativeV, DecodeError>(
                    NativeV::Str(t@),
                ),
                Err(e) => decode_spec(self@.value, ShapeV::Str) == Err::<NativeV, DecodeError>(e),
            },
    {
        let basic_val = match &self.value {
            Value::BasicValue(x) => x,
            _ => {
                return Err(DecodeError::BadSignature);
            },
        };
        match basic_val {
            BasicValue::String(x) => Ok(x.clone()),
            BasicValue::ObjectPath(x) => Ok(x.0.clone()),
            BasicValue::Signature(x) => Ok(x.0.clone()),
            _ => Err(DecodeError::BadSignature),
        }
    }

    /// A unit / nil target has no decode rule.
    pub fn read_nil(&self) -> (r: Result<(), DecodeError>)
        ensures
            r == Err::<(), DecodeError>(DecodeError::NotSupported),
    {
        Err(DecodeError::NotSupported)
    }

    /// The element count of the array under interpretation.
    pub fn read_seq_len(&self) -> (r: Result<usize, DecodeError>)
        ensures
            match self@.value {
                ValueV::Array(a) => r is Ok && r->Ok_0 == a.objects.len(),
                _ => r == Err::<usize, DecodeError>(DecodeError::BadSignature),
            },
    {
        match &self.value {
            Value::Array(a) => {
                proof {
                    lemma_view_vals_len(a.objects@);
                }
                Ok(a.objects.len())
            },
            _ => Err(DecodeError::BadSignature),
        }
    }

    /// The field count of the struct under interpretation.
    pub fn read_struct_len(&self) -> (r: Result<usize, DecodeError>)
        ensures
            match self@.value {
                ValueV::Struct(st) => r is Ok && r->Ok_0 == st.objects.len(),
                _ => r == Err::<usize, DecodeError>(DecodeError::BadSignature),
            },
    {
        match &self.value {
            Value::Struct(st) => {
                proof {
                    lemma_view_vals_len(st.objects@);
                }
                Ok(st.objects.len())
            },
            _ => Err(DecodeError::BadSignature),
        }
    }

    /// The entry count of the dictionary under interpretation.
    pub fn read_map_len(&self) -> (r: Result<usize, DecodeError>)
        ensures
            match self@.value {
                ValueV::Dictionary(d) => r is Ok && r->Ok_0 == d.entries.len(),
                _ => r == Err::<usize, DecodeError>(DecodeError::BadSignature),
            },
    {
        match &self.value {
            Value::Dictionary(d) => {
                proof {
                    lemma_view_entries_len(d.entries@);
                }
                Ok(d.entries.len())
            },
            _ => Err(DecodeError::BadSignature),
        }
    }

    /// Take the array element at `idx`, swapping a filler byte into the
    /// vacated slot so the positions of the not-yet-visited elements are
    /// undisturbed.
    pub fn take_seq_elt(&mut self, idx: usize) -> (r: Result<Value, DecodeError>)
        requires
            old(self)@.value matches ValueV::Array(a) ==> idx < a.objects.len(),
        ensures
            match old(self)@.value {
                ValueV::Array(a) => {
                    &&& r is Ok
                    &&& r->Ok_0@ == a.objects[idx as int]
                    &&& final(self)@.value == ValueV::Array(
                        ArrayV {
                            objects: a.objects.update(
                                idx as int,
                                ValueV::Basic(BasicV::Byte(0)),
                            ),
                            signature: a.signature,
                        },
                    )
                    &&& final(self)@.map_val == old(self)@.map_val
                },
                _ => r == Err::<Value, DecodeError>(DecodeError::BadSignature) && final(self)@
                    == old(self)@,
            },
    {
        match &mut self.value {
            Value::Array(a) => {
                proof {
                    lemma_view_vals_len(a.objects@);
                }
                a.objects.push(Value::BasicValue(BasicValue::Byte(0)));
                let v = a.objects.swap_remove(idx);
                proof {
                    let objs0 = old(self)@.value->Array_0.objects;
                    assert(crate::types::view_vals(a.objects@) =~= objs0.update(
                        idx as int,
                        ValueV::Basic(BasicV::Byte(0)),
                    ));
                }
                Ok(v)
            },
            _ => Err(DecodeError::BadSignature),
        }
    }

    /// Take the struct field at `idx`, with the same filler-swap removal as
    /// array elements.
    pub fn take_struct_field(&mut self, idx: usize) -> (r: Result<Value, DecodeError>)
        requires
            old(self)@.value matches ValueV::Struct(st) ==> idx < st.objects.len(),
        ensures
            match old(self)@.value {
                ValueV::Struct(st) => {
                    &&& r is Ok
                    &&& r->Ok_0@ == st.objects[idx as int]
                    &&& final(self)@.value == ValueV::Struct(
                        StructV {
                            objects: st.objects.update(
                                idx as int,
                                ValueV::Basic(BasicV::Byte(0)),
                            ),
                            signature: st.signature,
                        },
                    )
                    &&& final(self)@.map_val == old(self)@.map_val
                },
                _ => r == Err::<Value, DecodeError>(DecodeError::BadSignature) && final(self)@
                    == old(self)@,
            },
    {
        match &mut self.value {
            Value::Struct(st) => {
                proof {
                    lemma_view_vals_len(st.objects@);
                }
                st.objects.push(Value::BasicValue(BasicValue::Byte(0)));
                let v = st.objects.swap_remove(idx);
                proof {
                    let objs0 = old(self)@.value->Struct_0.objects;
                    assert(crate::types::view_vals(st.objects@) =~= objs0.update(
                        idx as int,
                        ValueV::Basic(BasicV::Byte(0)),
                    ));
                }
                Ok(v)
            },
            _ => Err(DecodeError::BadSignature),
        }
    }

    /// Take the first remaining dictionary entry: remove it, stage its value
    /// in the one-slot holder, and hand back the key as a single-basic-value
    /// subtree.
    pub fn take_map_key(&mut self) -> (r: Result<Value, DecodeError>)
        requires
            old(self)@.value matches ValueV::Dictionary(d) ==> d.entries.len() > 0,
        ensures
            match old(self)@.value {
                ValueV::Dictionary(d) => {
                    &&& r is Ok
                    &&& r->Ok_0@ == ValueV::Basic(d.entries[0].key)
                    &&& final(self)@.value == ValueV::Dictionary(
                        DictV { entries: d.entries.skip(1), signature: d.signature },
                    )
                    &&& final(self)@.map_val == Some(d.entries[0].value)
                },
                _ => r == Err::<Value, DecodeError>(DecodeError::BadSignature) && final(self)@
                    == old(self)@,
            },
    {
        let e = match &mut self.value {
            Value::Dictionary(d) => {
                proof {
                    lemma_view_entries_len(d.entries@);
                    assert(crate::types::view_entries(d.entries@)[0] == d.entries@[0]@);
                }
                let e = d.entries.remove(0);
                proof {
                    let entries0 = old(self)@.value->Dictionary_0.entries;
                    assert(crate::types::view_entries(d.entries@) =~= entries0.skip(1));
                }
                e
            },
            _ => {
                return Err(DecodeError::BadSignature);
            },
        };
        self.map_val = Some(e.value);
        Ok(Value::BasicValue(e.key))
    }

    /// Whether a dictionary value is staged in the one-slot holder.
    pub fn has_map_val(&self) -> (r: bool)
        ensures
            r == (self@.map_val is Some),
    {
        self.map_val.is_some()
    }

    /// Take the staged dictionary value out of the one-slot holder, to decode
    /// it as the pair of the key just read.
    pub fn take_map_val(&mut self) -> (r: Value)
        requires
            old(self)@.map_val is Some,
        ensures
            r@ == old(self)@.map_val->0,
            final(self)@.map_val is None,
            final(self)@.value == old(self)@.value,
    {
        let v = self.map_val.take();
        v.unwrap()
    }

    /// Reconstruct one native of the given shape from the subtree under
    /// interpretation: the recursive heart of the engine. The result is
    /// exactly what [`decode_spec`] assigns to the subtree and the shape.
    fn decode_value(&mut self, shape: &Shape) -> (r: Result<Native, DecodeError>)
        ensures
            match r {
                Ok(n) => decode_spec(old(self)@.value, shape@) == Ok::<NativeV, DecodeError>(n@),
                Err(e) => decode_spec(old(self)@.value, shape@) == Err::<NativeV, DecodeError>(e),
            },
        decreases shape@, 1int,
    {
        match shape {
            Shape::U8 => match self.read_u8() {
                Ok(x) => Ok(Native::U8(x)),
                Err(e) => Err(e),
            },
            Shape::U16 => match self.read_u16() {
                Ok(x) => Ok(Native::U16(x)),
                Err(e) => Err(e),
            },
            Shape::U32 => match self.read_u32() {
                Ok(x) => Ok(Native::U32(x)),
                Err(e) => Err(e),
            },
            Shape::U64 => match self.read_u64() {
                Ok(x) => Ok(Native::U64(x)),
                Err(e) => Err(e),
            },
            Shape::Usize => match self.read_usize() {
                Ok(x) => Ok(Native::Usize(x)),
                Err(e) => Err(e),
            },
            Shape::I8 => match self.read_i8() {
                Ok(x) => Ok(Native::I8(x)),
                Err(e) => Err(e),
            },
            Shape::I16 => match self.read_i16() {
                Ok(x) => Ok(Native::I16(x)),
                Err(e) => Err(e),
            },
            Shape::I32 => match self.read_i32() {
                Ok(x) => Ok(Native::I32(x)),
                Err(e) => Err(e),
            },
            Shape::I64 => match self.read_i64() {
                Ok(x) => Ok(Native::I64(x)),
                Err(e) => Err(e),
            },
            Shape::Isize => match self.read_isize() {
                Ok(x) => Ok(Native::Isize(x)),
                Err(e) => Err(e),
            },
            Shape::Bool => match self.read_bool() {
                Ok(x) => Ok(Native::Bool(x)),
                Err(e) => Err(e),
            },
            Shape::Char => match self.read_char() {
                Ok(x) => Ok(Native::Char(x)),
                Err(e) => Err(e),
            },
            Shape::Str => match self.read_str() {
                Ok(t) => Ok(Native::Str(t)),
                Err(e) => Err(e),
            },
            Shape::Double => match self.read_double() {
                Ok(bits) => Ok(Native::Double(bits)),
                Err(e) => Err(e),
            },
            Shape::F32 => Err(DecodeError::NotSupported),
            Shape::Sequence(inner) => self.decode_sequence(&**inner, Ghost(shape@)),
            Shape::Mapping(kshape, vshape) => self.decode_mapping(
                &**kshape,
                &**vshape,
                Ghost(shape@),
            ),
            Shape::Record(fields) => self.decode_record(fields, Ghost(shape@)),
        }
    }

    /// Read a sequence: the subtree must be an array, and each element is
    /// taken by index, in order, and decoded as the element shape.
    #[verifier::loop_isolation(false)]
    #[verifier::rlimit(100)]
    fn decode_sequence(&mut self, inner: &Shape, Ghost(parent): Ghost<ShapeV>) -> (r: Result<
        Native,
        DecodeError,
    >)
        requires
            parent == ShapeV::Sequence(Box::new(inner@)),
        ensures
            match r {
                Ok(n) => decode_spec(old(self)@.value, parent) == Ok::<NativeV, DecodeError>(n@),
                Err(e) => decode_spec(old(self)@.value, parent) == Err::<NativeV, DecodeError>(e),
            },
        decreases parent, 0int,
    {
        let ghost v0 = self@.value;
        let ghost innerv = inner@;
        let len = match self.read_seq_len() {
            Ok(l) => l,
            Err(e) => {
                return Err(e);
            },
        };
        let ghost objs = v0->Array_0.objects;
        let mut out: Vec<Native> = Vec::new();
        proof {
            assert(objs.take(0) =~= Seq::<ValueV>::empty());
            assert(decode_elems(objs.take(0), innerv) == Ok::<Seq<NativeV>, DecodeError>(
                Seq::empty(),
            ));
            assert(crate::native::view_natives(out@) =~= Seq::<NativeV>::empty());
        }
        let mut i: usize = 0;
        while i < len
            invariant
                i <= len,
                len == objs.len(),
                self@.value matches ValueV::Array(a2) && a2.objects.len() == objs.len()
                    && (forall|j: int| i <= j < objs.len() ==> a2.objects[j] == objs[j]),
                decode_elems(objs.take(i as int), innerv) is Ok,
                decode_elems(objs.take(i as int), innerv)->Ok_0
                    == crate::native::view_natives(out@),
                out@.len() == i,
            decreases len - i,
        {
            let ev = match self.take_seq_elt(i) {
                Ok(v) => v,
                Err(_) => {
                    proof {
                        assert(false);
                    }
                    vstd::pervasive::unreached()
                },
            };
            proof {
                assert(ev@ == objs[i as int]);
                assert(parent->Sequence_0 == Box::new(inner@));
                assert(decreases_to!(parent => inner@));
            }
            let mut sub = DBusDecoder::new(ev);
            match sub.decode_value(inner) {
                Ok(n) => {
                    proof {
                        assert(objs.take(i + 1).drop_last() =~= objs.take(i as int));
                        assert(objs.take(i + 1).last() == objs[i as int]);
                        assert(decode_elems(objs.take(i + 1), innerv) == Ok::<
                            Seq<NativeV>,
                            DecodeError,
                        >(decode_elems(objs.take(i as int), innerv)->Ok_0.push(n@)));
                    }
                    out.push(n);
                    proof {
                        crate::native::lemma_view_natives_push(out@.drop_last(), n);
                        assert(out@.drop_last().push(n) =~= out@);
                    }
                    i += 1;
                },
                Err(e) => {
                    proof {
                        lemma_decode_elems_error(objs, innerv, i as int);
                        assert(decode_spec(v0, parent) == Err::<NativeV, DecodeError>(e));
                    }
                    return Err(e);
                },
            }
        }
        proof {
            assert(objs.take(len as int) =~= objs);
            assert(decode_spec(v0, parent) == Ok::<NativeV, DecodeError>(
                NativeV::Sequence(crate::native::view_natives(out@)),
            ));
        }
        Ok(Native::Sequence(out))
    }

    /// Read a mapping: the subtree must be a dictionary, and entries are
    /// consumed first to last, each key decoded from a single-basic-value
    /// subtree and its staged value decoded right after it.
    #[verifier::loop_isolation(false)]
    #[verifier::rlimit(100)]
    fn decode_mapping(
        &mut self,
        kshape: &Shape,
        vshape: &Shape,
        Ghost(parent): Ghost<ShapeV>,
    ) -> (r: Result<Native, DecodeError>)
        requires
            parent == ShapeV::Mapping(Box::new(kshape@), Box::new(vshape@)),
        ensures
            match r {
                Ok(n) => decode_spec(old(self)@.value, parent) == Ok::<NativeV, DecodeError>(n@),
                Err(e) => decode_spec(old(self)@.value, parent) == Err::<NativeV, DecodeError>(e),
            },
        decreases parent, 0int,
    {
        let ghost v0 = self@.value;
        let ghost ksv = kshape@;
        let ghost vsv = vshape@;
        let len = match self.read_map_len() {
            Ok(l) => l,
            Err(e) => {
                return Err(e);
            },
        };
        let ghost entries = v0->Dictionary_0.entries;
        let mut out: Vec<(Native, Native)> = Vec::new();
        proof {
            assert(entries.take(0) =~= Seq::<crate::types::EntryV>::empty());
            assert(decode_entries(entries.take(0), ksv, vsv) == Ok::<
                Seq<(NativeV, NativeV)>,
                DecodeError,
            >(Seq::empty()));
            assert(crate::native::view_pairs(out@) =~= Seq::<(NativeV, NativeV)>::empty());
            assert(entries.skip(0) =~= entries);
        }
        let mut i: usize = 0;
        while i < len
            invariant
                i <= len,
                len == entries.len(),
                self@.value matches ValueV::Dictionary(d2) && d2.entries == entries.skip(
                    i as int,
                ),
                decode_entries(entries.take(i as int), ksv, vsv) is Ok,
                decode_entries(entries.take(i as int), ksv, vsv)->Ok_0
                    == crate::native::view_pairs(out@),
                out@.len() == i,
            decreases len - i,
        {
            let kv = match self.take_map_key() {
                Ok(v) => v,
                Err(_) => {
                    proof {
                        assert(false);
                    }
                    vstd::pervasive::unreached()
                },
            };
            proof {
                assert(entries.skip(i as int)[0] == entries[i as int]);
                assert(kv@ == ValueV::Basic(entries[i as int].key));
                assert(entries.skip(i as int).skip(1) =~= entries.skip(i + 1));
                assert(parent->Mapping_0 == Box::new(kshape@));
                assert(parent->Mapping_1 == Box::new(vshape@));
                assert(decreases_to!(parent => kshape@));
                assert(decreases_to!(parent => vshape@));
            }
            let mut ksub = DBusDecoder::new(kv);
            let kn = match ksub.decode_value(kshape) {
                Ok(n) => n,
                Err(e) => {
                    proof {
                        lemma_decode_basic_agrees(entries[i as int].key, ksv);
                        assert(entry_step(entries[i as int], ksv, vsv) == Err::<
                            (NativeV, NativeV),
                            DecodeError,
                        >(e));
                        lemma_decode_entries_error(entries, ksv, vsv, i as int);
                        assert(decode_spec(v0, parent) == Err::<NativeV, DecodeError>(e));
                    }
                    return Err(e);
                },
            };
            proof {
                lemma_decode_basic_agrees(entries[i as int].key, ksv);
            }
            let vv = self.take_map_val();
            proof {
                assert(vv@ == entries[i as int].value);
            }
            let mut vsub = DBusDecoder::new(vv);
            let vn = match vsub.decode_value(vshape) {
                Ok(n) => n,
                Err(e) => {
                    proof {
                        assert(entry_step(entries[i as int], ksv, vsv) == Err::<
                            (NativeV, NativeV),
                            DecodeError,
                        >(e));
                        lemma_decode_entries_error(entries, ksv, vsv, i as int);
                        assert(decode_spec(v0, parent) == Err::<NativeV, DecodeError>(e));
                    }
                    return Err(e);
                },
            };
            proof {
                assert(entry_step(entries[i as int], ksv, vsv) == Ok::<
                    (NativeV, NativeV),
                    DecodeError,
                >((kn@, vn@)));
                assert(entries.take(i + 1).drop_last() =~= entries.take(i as int));
                assert(entries.take(i + 1).last() == entries[i as int]);
                assert(decode_entries(entries.take(i + 1), ksv, vsv) == Ok::<
                    Seq<(NativeV, NativeV)>,
                    DecodeError,
                >(
                    decode_entries(entries.take(i as int), ksv, vsv)->Ok_0.push(
                        (kn@, vn@),
                    ),
                ));
            }
            out.push((kn, vn));
            proof {
                crate::native::lemma_view_pairs_push(out@.drop_last(), (kn, vn));
                assert(out@.drop_last().push((kn, vn)) =~= out@);
            }
            i += 1;
        }
        proof {
            assert(entries.take(len as int) =~= entries);
            assert(decode_spec(v0, parent) == Ok::<NativeV, DecodeError>(
                NativeV::Mapping(crate::native::view_pairs(out@)),
            ));
        }
        Ok(Native::Mapping(out))
    }

    /// Read a record: the subtree must be a struct with at least as many
    /// fields as the shape asks for, and each field is taken by declared
    /// position and decoded as its field shape.
    #[verifier::loop_isolation(false)]
    #[verifier::rlimit(100)]
    fn decode_record(&mut self, fields: &Vec<Shape>, Ghost(parent): Ghost<ShapeV>) -> (r: Result<
        Native,
        DecodeError,
    >)
        requires
            parent == ShapeV::Record(crate::native::view_shapes(fields@)),
        ensures
            match r {
                Ok(n) => decode_spec(old(self)@.value, parent) == Ok::<NativeV, DecodeError>(n@),
                Err(e) => decode_spec(old(self)@.value, parent) == Err::<NativeV, DecodeError>(e),
            },
        decreases parent, 0int,
    {
        let ghost v0 = self@.value;
        let ghost shapesv = crate::native::view_shapes(fields@);
        let flen = match self.read_struct_len() {
            Ok(l) => l,
            Err(e) => {
                return Err(e);
            },
        };
        let ghost objs = v0->Struct_0.objects;
        if fields.len() > flen {
            proof {
                assert(decode_spec(v0, parent) == Err::<NativeV, DecodeError>(
                    DecodeError::BadSignature,
                ));
            }
            return Err(DecodeError::BadSignature);
        }
        let mut out: Vec<Native> = Vec::new();
        proof {
            assert(shapesv.take(0) =~= Seq::<ShapeV>::empty());
            assert(decode_fields(objs, shapesv.take(0)) == Ok::<Seq<NativeV>, DecodeError>(
                Seq::empty(),
            ));
            assert(crate::native::view_natives(out@) =~= Seq::<NativeV>::empty());
        }
        let mut i: usize = 0;
        while i < fields.len()
            invariant
                i <= fields.len(),
                fields@.len() <= flen,
                flen == objs.len(),
                self@.value matches ValueV::Struct(st2) && st2.objects.len() == objs.len()
                    && (forall|j: int| i <= j < objs.len() ==> st2.objects[j] == objs[j]),
                decode_fields(objs, shapesv.take(i as int)) is Ok,
                decode_fields(objs, shapesv.take(i as int))->Ok_0
                    == crate::native::view_natives(out@),
                out@.len() == i,
            decreases fields@.len() - i,
        {
            let fv = match self.take_struct_field(i) {
                Ok(v) => v,
                Err(_) => {
                    proof {
                        assert(false);
                    }
                    vstd::pervasive::unreached()
                },
            };
            proof {
                assert(fv@ == objs[i as int]);
                assert(decreases_to!(parent => shapesv));
                assert(decreases_to!(shapesv => shapesv[i as int]));
                assert(decreases_to!(parent => shapesv[i as int]));
                assert(shapesv[i as int] == fields@[i as int]@);
            }
            let mut sub = DBusDecoder::new(fv);
            match sub.decode_value(&fields[i]) {
                Ok(n) => {
                    proof {
                        assert(shapesv.take(i + 1).drop_last() =~= shapesv.take(i as int));
                        assert(shapesv.take(i + 1).last() == shapesv[i as int]);
                        assert(shapesv.take(i + 1).len() == i + 1);
                        assert(decode_fields(objs, shapesv.take(i + 1)) == Ok::<
                            Seq<NativeV>,
                            DecodeError,
                        >(decode_fields(objs, shapesv.take(i as int))->Ok_0.push(n@)));
                    }
                    out.push(n);
                    proof {
                        crate::native::lemma_view_natives_push(out@.drop_last(), n);
                        assert(out@.drop_last().push(n) =~= out@);
                    }
                    i += 1;
                },
                Err(e) => {
                    proof {
                        lemma_decode_fields_error(objs, shapesv, i as int);
                        assert(decode_spec(v0, parent) == Err::<NativeV, DecodeError>(e));
                    }
                    return Err(e);
                },
            }
        }
        proof {
            assert(shapesv.take(fields@.len() as int) =~= shapesv);
            assert(decode_spec(v0, parent) == Ok::<NativeV, DecodeError>(
                NativeV::Record(crate::native::view_natives(out@)),
            ));
        }
        Ok(Native::Record(out))
    }

    /// Decode a value tree into a native of the given shape. Returns exactly
    /// what [`decode_spec`] assigns to the tree and the shape: the native on
    /// success, and the first error found while reading otherwise.
    pub fn decode(v: Value, shape: &Shape) -> (r: Result<Native, DecodeError>)
        ensures
            match r {
                Ok(n) => decode_spec(v@, shape@) == Ok::<NativeV, DecodeError>(n@),
                Err(e) => decode_spec(v@, shape@) == Err::<NativeV, DecodeError>(e),
            },
    {
        let mut decoder = DBusDecoder::new(v);
        decoder.decode_value(shape)
    }
}

} // verus!
