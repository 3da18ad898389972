//! The encoder engine: turns a native shape into a D-Bus value tree.
//!
//! The engine keeps a work stack of completed values. Primitive emission
//! pushes exactly one value; an aggregate is built by emitting its children
//! and then folding the last `n` stack entries into one node. A dictionary is
//! built behind a placeholder node that is pushed first and receives its
//! entries one by one, with a one-slot holder staging each key between its
//! emission and its entry's completion; the placeholder's signature is fixed
//! up once the entries are known.
//!
//! What the whole engine computes is pinned down by [`encode_spec`]: a direct
//! recursive description of the value tree (or error) every native maps to.

use vstd::prelude::*;

use crate::native::{lemma_view_natives_index, lemma_view_pairs_index, Native, NativeV};
use crate::types::{
    array_sig, basic_sig, dict_sig, lemma_concat_sigs_push, lemma_view_entries_push,
    lemma_view_vals_index, lemma_view_vals_len, lemma_view_vals_push, push_char, push_str, sig_of,
    struct_sig, ArrayV, BasicV, BasicValue, DictEntry, DictV, Dictionary, EntryV, Signature,
    Struct, StructV, Value, ValueV,
};

verus! {

broadcast use lemma_view_vals_len, lemma_view_vals_index, lemma_view_vals_push, lemma_view_entries_push, lemma_concat_sigs_push, lemma_view_natives_index, lemma_view_pairs_index;

/// The ways an encode can fail. All are terminal: no partial result is ever
/// returned.
#[derive(Debug, PartialEq, Eq)]
pub enum EncoderError {
    /// A mapping key did not reduce to a basic value.
    BadKeyType,
    /// The shape has no representation in the wire value model.
    Unsupported,
    /// An empty sequence carries no element-type evidence.
    EmptyArray,
    /// An empty mapping carries no key- or value-type evidence.
    EmptyMap,
}

// ---------------------------------------------------------------------------
// What encoding computes
// ---------------------------------------------------------------------------

/// The value tree (or error) one native maps to. The first error found while
/// walking the native left to right is the one reported.
pub open spec fn encode_spec(n: NativeV) -> Result<ValueV, EncoderError>
    decreases n,
{
    match n {
        NativeV::U8(x) => Ok(ValueV::Basic(BasicV::Byte(x))),
        NativeV::U16(x) => Ok(ValueV::Basic(BasicV::Uint16(x))),
        NativeV::U32(x) => Ok(ValueV::Basic(BasicV::Uint32(x))),
        NativeV::U64(x) => Ok(ValueV::Basic(BasicV::Uint64(x))),
        NativeV::Usize(x) => Ok(ValueV::Basic(BasicV::Uint64(x as u64))),
        NativeV::I8(_) => Err(EncoderError::Unsupported),
        NativeV::I16(x) => Ok(ValueV::Basic(BasicV::Int16(x))),
        NativeV::I32(x) => Ok(ValueV::Basic(BasicV::Int32(x))),
        NativeV::I64(x) => Ok(ValueV::Basic(BasicV::Int64(x))),
        NativeV::Isize(x) => Ok(ValueV::Basic(BasicV::Int64(x as i64))),
        NativeV::Bool(x) => Ok(ValueV::Basic(BasicV::Boolean(x))),
        NativeV::Char(c) => Ok(ValueV::Basic(BasicV::Byte(((c as u32) % 256) as u8))),
        NativeV::Str(s) => Ok(ValueV::Basic(BasicV::Str(s))),
        NativeV::Double(bits) => Ok(ValueV::Double(bits)),
        NativeV::Nil => Err(EncoderError::Unsupported),
        NativeV::Sequence(items) => {
            if items.len() == 0 {
                Err(EncoderError::EmptyArray)
            } else {
                match encode_items(items) {
                    Ok(vals) => Ok(
                        ValueV::Array(
                            ArrayV { objects: vals, signature: array_sig(sig_of(vals[0])) },
                        ),
                    ),
                    Err(e) => Err(e),
                }
            }
        },
        NativeV::Mapping(pairs) => {
            if pairs.len() == 0 {
                Err(EncoderError::EmptyMap)
            } else {
                match encode_pairs(pairs) {
                    Ok(entries) => Ok(
                        ValueV::Dictionary(
                            DictV {
                                entries,
                                signature: dict_sig(
                                    basic_sig(entries[0].key),
                                    sig_of(entries[0].value),
                                ),
                            },
                        ),
                    ),
                    Err(e) => Err(e),
                }
            }
        },
        NativeV::Record(fields) => {
            match encode_items(fields) {
                Ok(vals) => Ok(ValueV::Struct(StructV { objects: vals, signature: struct_sig(vals) })),
                Err(e) => Err(e),
            }
        },
    }
}

/// The values a run of natives encodes to, or the first error among them.
pub open spec fn encode_items(items: Seq<NativeV>) -> Result<Seq<ValueV>, EncoderError>
    decreases items,
{
    if items.len() == 0 {
        Ok(Seq::empty())
    } else {
        match encode_items(items.drop_last()) {
            Ok(vals) => match encode_spec(items.last()) {
                Ok(v) => Ok(vals.push(v)),
                Err(e) => Err(e),
            },
            Err(e) => Err(e),
        }
    }
}

/// The dictionary entry one key/value pair encodes to: the key must itself
/// encode, and to a basic value.
pub open spec fn pair_step(p: (NativeV, NativeV)) -> Result<EntryV, EncoderError>
    decreases p,
{
    match encode_spec(p.0) {
        Ok(kv) => match kv {
            ValueV::Basic(b) => match encode_spec(p.1) {
                Ok(vv) => Ok(EntryV { key: b, value: vv }),
                Err(e) => Err(e),
            },
            _ => Err(EncoderError::BadKeyType),
        },
        Err(e) => Err(e),
    }
}

/// The entries a run of key/value pairs encodes to, or the first error among
/// them.
pub open spec fn encode_pairs(pairs: Seq<(NativeV, NativeV)>) -> Result<Seq<EntryV>, EncoderError>
    decreases pairs,
{
    if pairs.len() == 0 {
        Ok(Seq::empty())
    } else {
        match encode_pairs(pairs.drop_last()) {
            Ok(entries) => match pair_step(pairs.last()) {
                Ok(entry) => Ok(entries.push(entry)),
                Err(e) => Err(e),
            },
            Err(e) => Err(e),
        }
    }
}

/// An error in the step at position `i` is the error of the whole run, as
/// long as everything before `i` encoded.
proof fn lemma_encode_items_error(s: Seq<NativeV>, i: int)
    requires
        0 <= i < s.len(),
        encode_items(s.take(i)) is Ok,
        encode_spec(s[i]) is Err,
    ensures
        encode_items(s) == Err::<Seq<ValueV>, EncoderError>(encode_spec(s[i])->Err_0),
    decreases s.len() - i,
{
    if i == s.len() - 1 {
        assert(s.take(i) =~= s.drop_last());
        assert(s.last() == s[i]);
    } else {
        assert(s.drop_last().take(i) =~= s.take(i));
        assert(s.drop_last()[i] == s[i]);
        lemma_encode_items_error(s.drop_last(), i);
    }
}

/// An error in the pair at position `i` is the error of the whole run, as
/// long as every pair before `i` encoded.
proof fn lemma_encode_pairs_error(s: Seq<(NativeV, NativeV)>, i: int)
    requires
        0 <= i < s.len(),
        encode_pairs(s.take(i)) is Ok,
        pair_step(s[i]) is Err,
    ensures
        encode_pairs(s) == Err::<Seq<EntryV>, EncoderError>(pair_step(s[i])->Err_0),
    decreases s.len() - i,
{
    if i == s.len() - 1 {
        assert(s.take(i) =~= s.drop_last());
        assert(s.last() == s[i]);
    } else {
        assert(s.drop_last().take(i) =~= s.take(i));
        assert(s.drop_last()[i] == s[i]);
        lemma_encode_pairs_error(s.drop_last(), i);
    }
}

/// A run of natives that encodes yields one value per native.
proof fn lemma_encode_items_len(s: Seq<NativeV>)
    requires
        encode_items(s) is Ok,
    ensures
        encode_items(s)->Ok_0.len() == s.len(),
    decreases s,
{
    if s.len() > 0 {
        lemma_encode_items_len(s.drop_last());
    }
}

/// A run of pairs that encodes yields one entry per pair.
proof fn lemma_encode_pairs_len(s: Seq<(NativeV, NativeV)>)
    requires
        encode_pairs(s) is Ok,
    ensures
        encode_pairs(s)->Ok_0.len() == s.len(),
    decreases s,
{
    if s.len() > 0 {
        lemma_encode_pairs_len(s.drop_last());
    }
}

// ---------------------------------------------------------------------------
// The engine
// ---------------------------------------------------------------------------

/// View of the encoder: the work stack of completed values, in emission
/// order, and the one-slot holder for a pending dictionary key.
pub struct EncV {
    pub stack: Seq<ValueV>,
    pub key: Option<BasicV>,
}

/// The encoder engine. Holds the work stack of completed values and the
/// one-slot holder for a dictionary key awaiting its value.
pub struct DBusEncoder {
    val: Vec<Value>,
    key: Option<BasicValue>,
}

impl View for DBusEncoder {
    type V = EncV;

    closed spec fn view(&self) -> EncV {
        EncV {
            stack: crate::types::view_vals(self.val@),
            key: match self.key {
                Some(ref k) => Some(k@),
                None => None,
            },
        }
    }
}

impl DBusEncoder {
    /// A fresh engine: empty stack, no pending key.
    pub fn new() -> (r: DBusEncoder)
        ensures
            r@.stack == Seq::<ValueV>::empty(),
            r@.key is None,
    {
        let r = DBusEncoder { val: Vec::new(), key: None };
        proof {
            assert(r@.stack =~= Seq::<ValueV>::empty());
        }
        r
    }

    /// How many completed values sit on the work stack.
    pub fn stack_len(&self) -> (r: usize)
        ensures
            r == self@.stack.len(),
    {
        self.val.len()
    }

    /// Whether a dictionary key is staged in the one-slot holder.
    pub fn has_stashed_key(&self) -> (r: bool)
        ensures
            r == (self@.key is Some),
    {
        self.key.is_some()
    }

    /// Whether the stack is ready for `add_entry`: a value on top and the
    /// dictionary under construction right below it.
    pub fn entry_ready(&self) -> (r: bool)
        ensures
            r == (self@.stack.len() >= 2 && self@.stack[self@.stack.len() - 2] is Dictionary),
    {
        if self.val.len() < 2 {
            return false;
        }
        let r = match &self.val[self.val.len() - 2] {
            Value::Dictionary(_) => true,
            _ => false,
        };
        r
    }

    /// Whether the stack is ready for `end_map`: the dictionary under
    /// construction on top, with at least one entry in it.
    pub fn map_ready(&self) -> (r: bool)
        ensures
            r == (self@.stack.len() >= 1 && self@.stack.last() is Dictionary
                && self@.stack.last()->Dictionary_0.entries.len() > 0),
    {
        if self.val.len() < 1 {
            return false;
        }
        proof {
            assert(crate::types::view_vals(self.val@).last() == self.val@.last()@);
        }
        let r = match &self.val[self.val.len() - 1] {
            Value::Dictionary(d) => {
                proof {
                    crate::types::lemma_view_entries_len(d.entries@);
                }
                d.entries.len() > 0
            },
            _ => false,
        };
        r
    }

    /// Take the first completed value off the work stack: what a finished
    /// top-level emission leaves as the single result.
    pub fn take_first(&mut self) -> (r: Value)
        requires
            old(self)@.stack.len() >= 1,
        ensures
            r@ == old(self)@.stack[0],
            final(self)@.stack == old(self)@.stack.skip(1),
            final(self)@.key == old(self)@.key,
    {
        proof {
            assert(crate::types::view_vals(self.val@)[0] == self.val@[0]@);
        }
        let r = self.val.remove(0);
        proof {
            assert(crate::types::view_vals(self.val@) =~= old(self)@.stack.skip(1));
        }
        r
    }

    /// Push one completed value. Every primitive emission goes through here.
    fn push_value(&mut self, v: Value)
        ensures
            final(self)@.stack == old(self)@.stack.push(v@),
            final(self)@.key == old(self)@.key,
    {
        self.val.push(v);
    }

    /// Emit an unsigned 8-bit integer.
    pub fn emit_u8(&mut self, v: u8) -> (r: Result<(), EncoderError>)
        ensures
            r is Ok,
            final(self)@.stack == old(self)@.stack.push(ValueV::Basic(BasicV::Byte(v))),
            final(self)@.key == old(self)@.key,
    {
        self.push_value(Value::BasicValue(BasicValue::Byte(v)));
        Ok(())
    }

    /// Emit an unsigned 16-bit integer.
    pub fn emit_u16(&mut self, v: u16) -> (r: Result<(), EncoderError>)
        ensures
            r is Ok,
            final(self)@.stack == old(self)@.stack.push(ValueV::Basic(BasicV::Uint16(v))),
            final(self)@.key == old(self)@.key,
    {
        self.push_value(Value::BasicValue(BasicValue::Uint16(v)));
        Ok(())
    }

    /// Emit an unsigned 32-bit integer.
    pub fn emit_u32(&mut self, v: u32) -> (r: Result<(), EncoderError>)
        ensures
            r is Ok,
            final(self)@.stack == old(self)@.stack.push(ValueV::Basic(BasicV::Uint32(v))),
            final(self)@.key == old(self)@.key,
    {
        self.push_value(Value::BasicValue(BasicValue::Uint32(v)));
        Ok(())
    }

    /// Emit an unsigned 64-bit integer.
    pub fn emit_u64(&mut self, v: u64) -> (r: Result<(), EncoderError>)
        ensures
            r is Ok,
            final(self)@.stack == old(self)@.stack.push(ValueV::Basic(BasicV::Uint64(v))),
            final(self)@.key == old(self)@.key,
    {
        self.push_value(Value::BasicValue(BasicValue::Uint64(v)));
        Ok(())
    }

    /// Emit a pointer-sized unsigned integer, widened to 64 bits.
    pub fn emit_usize(&mut self, v: usize) -> (r: Result<(), EncoderError>)
        ensures
            r is Ok,
            final(self)@.stack == old(self)@.stack.push(ValueV::Basic(BasicV::Uint64(v as u64))),
            final(self)@.key == old(self)@.key,
    {
        self.push_value(Value::BasicValue(BasicValue::Uint64(v as u64)));
        Ok(())
    }

    /// Emit a signed 16-bit integer.
    pub fn emit_i16(&mut self, v: i16) -> (r: Result<(), EncoderError>)
        ensures
            r is Ok,
            final(self)@.stack == old(self)@.stack.push(ValueV::Basic(BasicV::Int16(v))),
            final(self)@.key == old(self)@.key,
    {
        self.push_value(Value::BasicValue(BasicValue::Int16(v)));
        Ok(())
    }

    /// Emit a signed 32-bit integer.
    pub fn emit_i32(&mut self, v: i32) -> (r: Result<(), EncoderError>)
        ensures
            r is Ok,
            final(self)@.stack == old(self)@.stack.push(ValueV::Basic(BasicV::Int32(v))),
            final(self)@.key == old(self)@.key,
    {
        self.push_value(Value::BasicValue(BasicValue::Int32(v)));
        Ok(())
    }

    /// Emit a signed 64-bit integer.
    pub fn emit_i64(&mut self, v: i64) -> (r: Result<(), EncoderError>)
        ensures
            r is Ok,
            final(self)@.stack == old(self)@.stack.push(ValueV::Basic(BasicV::Int64(v))),
            final(self)@.key == old(self)@.key,
    {
        self.push_value(Value::BasicValue(BasicValue::Int64(v)));
        Ok(())
    }

    /// Emit a pointer-sized signed integer, widened to 64 bits.
    pub fn emit_isize(&mut self, v: isize) -> (r: Result<(), EncoderError>)
        ensures
            r is Ok,
            final(self)@.stack == old(self)@.stack.push(ValueV::Basic(BasicV::Int64(v as i64))),
            final(self)@.key == old(self)@.key,
    {
        self.push_value(Value::BasicValue(BasicValue::Int64(v as i64)));
        Ok(())
    }

    /// Emit a boolean.
    pub fn emit_bool(&mut self, v: bool) -> (r: Result<(), EncoderError>)
        ensures
            r is Ok,
            final(self)@.stack == old(self)@.stack.push(ValueV::Basic(BasicV::Boolean(v))),
            final(self)@.key == old(self)@.key,
    {
        self.push_value(Value::BasicValue(BasicValue::Boolean(v)));
        Ok(())
    }

    /// Emit a character as a single byte: only the low 8 bits of the code
    /// point are transmitted.
    pub fn emit_char(&mut self, v: char) -> (r: Result<(), EncoderError>)
        ensures
            r is Ok,
            final(self)@.stack == old(self)@.stack.push(
                ValueV::Basic(BasicV::Byte(((v as u32) % 256) as u8)),
            ),
            final(self)@.key == old(self)@.key,
    {
        let code: u32 = v as u32;
        let b: u8 = (code % 256) as u8;
        self.push_value(Value::BasicValue(BasicValue::Byte(b)));
        Ok(())
    }

    /// Emit a string.
    pub fn emit_str(&mut self, v: &str) -> (r: Result<(), EncoderError>)
        ensures
            r is Ok,
            final(self)@.stack == old(self)@.stack.push(ValueV::Basic(BasicV::Str(v@))),
            final(self)@.key == old(self)@.key,
    {
        self.push_value(Value::BasicValue(BasicValue::String(v.to_owned())));
        Ok(())
    }

    /// Emit a double-precision float, given as its IEEE 754 bit pattern.
    pub fn emit_double(&mut self, bits: u64) -> (r: Result<(), EncoderError>)
        ensures
            r is Ok,
            final(self)@.stack == old(self)@.stack.push(ValueV::Double(bits)),
            final(self)@.key == old(self)@.key,
    {
        self.push_value(Value::Double(bits));
        Ok(())
    }

    /// A signed 8-bit integer has no wire representation.
    pub fn emit_i8(&mut self, _v: i8) -> (r: Result<(), EncoderError>)
        ensures
            r == Err::<(), EncoderError>(EncoderError::Unsupported),
            final(self)@ == old(self)@,
    {
        Err(EncoderError::Unsupported)
    }

    /// A unit / nil value has no wire representation.
    pub fn emit_nil(&mut self) -> (r: Result<(), EncoderError>)
        ensures
            r == Err::<(), EncoderError>(EncoderError::Unsupported),
            final(self)@ == old(self)@,
    {
        Err(EncoderError::Unsupported)
    }

    /// Fold the last `len` stack entries into one struct node, concatenating
    /// their signatures between parentheses. Zero fields fold to `"()"`.
    pub fn handle_struct(&mut self, len: usize) -> (r: Result<(), EncoderError>)
        requires
            len <= old(self)@.stack.len(),
        ensures
            r is Ok,
            final(self)@.key == old(self)@.key,
            final(self)@.stack == old(self)@.stack.take(old(self)@.stack.len() - len).push(
                ValueV::Struct(
                    StructV {
                        objects: old(self)@.stack.skip(old(self)@.stack.len() - len),
                        signature: struct_sig(
                            old(self)@.stack.skip(old(self)@.stack.len() - len),
                        ),
                    },
                ),
            ),
    {
        let offset = self.val.len() - len;
        let tail = self.val.split_off(offset);
        let ghost tail_view = crate::types::view_vals(tail@);
        proof {
            assert(tail_view =~= old(self)@.stack.skip(old(self)@.stack.len() - len));
            assert(crate::types::view_vals(self.val@) =~= old(self)@.stack.take(
                old(self)@.stack.len() - len,
            ));
        }
        let mut sig = String::new();
        push_char(&mut sig, '(');
        let mut i: usize = 0;
        proof {
            assert(tail_view.take(0) =~= Seq::<ValueV>::empty());
            assert(crate::types::concat_sigs(Seq::<ValueV>::empty()) == Seq::<char>::empty());
            assert(sig@ =~= seq!['('] + crate::types::concat_sigs(tail_view.take(0)));
        }
        while i < tail.len()
            invariant
                i <= tail.len(),
                tail_view == crate::types::view_vals(tail@),
                tail_view.len() == tail@.len(),
                sig@ == seq!['('] + crate::types::concat_sigs(tail_view.take(i as int)),
            decreases tail.len() - i,
        {
            push_str(&mut sig, tail[i].get_signature());
            proof {
                assert(tail_view.take(i + 1) =~= tail_view.take(i as int).push(tail_view[i as int]));
                assert(tail_view[i as int] == tail@[i as int]@);
            }
            i += 1;
        }
        push_char(&mut sig, ')');
        proof {
            assert(tail_view.take(tail@.len() as int) =~= tail_view);
            assert(sig@ =~= struct_sig(tail_view));
        }
        let node = Value::Struct(Struct { objects: tail, signature: Signature(sig) });
        self.push_value(node);
        Ok(())
    }

    /// Fold the last `len` stack entries into one array node, inferring the
    /// array's signature from the first folded value. At least one element
    /// must have been emitted: an empty fold has no signature evidence.
    pub fn handle_array(&mut self, len: usize) -> (r: Result<(), EncoderError>)
        requires
            1 <= len <= old(self)@.stack.len(),
        ensures
            r is Ok,
            final(self)@.key == old(self)@.key,
            final(self)@.stack == old(self)@.stack.take(old(self)@.stack.len() - len).push(
                ValueV::Array(
                    ArrayV {
                        objects: old(self)@.stack.skip(old(self)@.stack.len() - len),
                        signature: array_sig(
                            sig_of(old(self)@.stack[old(self)@.stack.len() - len]),
                        ),
                    },
                ),
            ),
    {
        let offset = self.val.len() - len;
        let tail = self.val.split_off(offset);
        proof {
            assert(crate::types::view_vals(tail@) =~= old(self)@.stack.skip(
                old(self)@.stack.len() - len,
            ));
            assert(crate::types::view_vals(self.val@) =~= old(self)@.stack.take(
                old(self)@.stack.len() - len,
            ));
            assert(crate::types::view_vals(tail@)[0] == tail@[0]@);
        }
        let node = Value::Array(crate::types::Array::new(tail));
        self.push_value(node);
        Ok(())
    }

    /// Begin a dictionary of `len` entries: push the placeholder node whose
    /// entries will be added one by one. Its signature is deliberately empty
    /// until `end_map` derives the real one from the entries. An empty
    /// mapping is rejected here, before anything is emitted.
    pub fn begin_map(&mut self, len: usize) -> (r: Result<(), EncoderError>)
        ensures
            len == 0 ==> r == Err::<(), EncoderError>(EncoderError::EmptyMap) && final(self)@
                == old(self)@,
            len > 0 ==> r is Ok && final(self)@.key == old(self)@.key && final(self)@.stack == old(
                self,
            )@.stack.push(
                ValueV::Dictionary(
                    DictV { entries: Seq::empty(), signature: Seq::empty() },
                ),
            ),
    {
        if len == 0 {
            return Err(EncoderError::EmptyMap);
        }
        let node = Value::Dictionary(Dictionary::new_with_sig(Vec::new(), String::new()));
        proof {
            assert(crate::types::view_entries(Seq::<DictEntry>::empty()) =~= Seq::<EntryV>::empty());
        }
        self.push_value(node);
        Ok(())
    }

    /// Pop the just-emitted key value into the one-slot holder. A key that is
    /// not a basic value cannot key a dictionary: `BadKeyType`.
    pub fn stash_key(&mut self) -> (r: Result<(), EncoderError>)
        requires
            old(self)@.stack.len() >= 1,
        ensures
            final(self)@.stack == old(self)@.stack.drop_last(),
            match old(self)@.stack.last() {
                ValueV::Basic(b) => r is Ok && final(self)@.key == Some(b),
                _ => r == Err::<(), EncoderError>(EncoderError::BadKeyType) && final(self)@.key
                    == old(self)@.key,
            },
    {
        proof {
            assert(crate::types::view_vals(self.val@).last() == self.val@.last()@);
            assert(self.val@.drop_last().push(self.val@.last()) =~= self.val@);
        }
        let top = self.val.pop().unwrap();
        proof {
            assert(crate::types::view_vals(old(self).val@.drop_last()).push(old(self).val@.last()@)
                == crate::types::view_vals(old(self).val@));
            assert(crate::types::view_vals(self.val@) =~= crate::types::view_vals(
                old(self).val@,
            ).drop_last());
        }
        match top {
            Value::BasicValue(b) => {
                self.key = Some(b);
                Ok(())
            },
            _ => Err(EncoderError::BadKeyType),
        }
    }

    /// Take the staged dictionary key out of the one-slot holder.
    pub fn take_stashed_key(&mut self) -> (r: BasicValue)
        requires
            old(self)@.key is Some,
        ensures
            r@ == old(self)@.key->0,
            final(self)@.key is None,
            final(self)@.stack == old(self)@.stack,
    {
        let k = self.key.take();
        k.unwrap()
    }

    /// Pop the just-emitted value and add `(key, value)` to the dictionary
    /// node sitting right below it on the stack.
    pub fn add_entry(&mut self, key: BasicValue)
        requires
            old(self)@.stack.len() >= 2,
            old(self)@.stack[old(self)@.stack.len() - 2] is Dictionary,
        ensures
            final(self)@.key == old(self)@.key,
            final(self)@.stack == old(self)@.stack.take(old(self)@.stack.len() - 2).push(
                ValueV::Dictionary(
                    DictV {
                        entries: old(self)@.stack[old(self)@.stack.len()
                            - 2]->Dictionary_0.entries.push(
                            EntryV { key: key@, value: old(self)@.stack.last() },
                        ),
                        signature: old(self)@.stack[old(self)@.stack.len()
                            - 2]->Dictionary_0.signature,
                    },
                ),
            ),
    {
        proof {
            assert(crate::types::view_vals(self.val@).last() == self.val@.last()@);
            assert(self.val@.drop_last().push(self.val@.last()) =~= self.val@);
        }
        let value = self.val.pop().unwrap();
        proof {
            assert(crate::types::view_vals(old(self).val@.drop_last()).push(old(self).val@.last()@)
                == crate::types::view_vals(old(self).val@));
            assert(crate::types::view_vals(self.val@) =~= crate::types::view_vals(
                old(self).val@,
            ).drop_last());
            assert(crate::types::view_vals(self.val@).last() == self.val@.last()@);
            assert(self.val@.drop_last().push(self.val@.last()) =~= self.val@);
        }
        let ghost mid = self.val@;
        let dict_node = self.val.pop().unwrap();
        proof {
            assert(crate::types::view_vals(mid.drop_last()).push(mid.last()@)
                == crate::types::view_vals(mid));
            assert(crate::types::view_vals(self.val@) =~= crate::types::view_vals(mid).drop_last());
            assert(mid.last()@ == crate::types::view_vals(mid).last());
            assert(crate::types::view_vals(mid) == old(self)@.stack.drop_last());
            assert(mid.last()@ == old(self)@.stack[old(self)@.stack.len() - 2]);
            assert(value@ == old(self)@.stack.last());
        }
        match dict_node {
            Value::Dictionary(mut d) => {
                proof {
                    assert(dict_node@ == old(self)@.stack[old(self)@.stack.len() - 2]);
                    assert(d@ == old(self)@.stack[old(self)@.stack.len() - 2]->Dictionary_0);
                }
                let ghost entries_before = d.entries@;
                d.entries.push(DictEntry { key, value });
                proof {
                    assert(d.entries@ == entries_before.push(DictEntry { key, value }));
                    assert(crate::types::view_entries(d.entries@) == crate::types::view_entries(
                        entries_before,
                    ).push(DictEntry { key, value }@));
                }
                let node = Value::Dictionary(d);
                self.push_value(node);
                proof {
                    assert(crate::types::view_vals(self.val@).drop_last() =~= old(
                        self,
                    )@.stack.take(old(self)@.stack.len() - 2));
                    assert(final(self)@.stack =~= old(self)@.stack.take(
                        old(self)@.stack.len() - 2,
                    ).push(final(self)@.stack.last()));
                }
            },
            _ => {
                proof {
                    assert(false);
                }
                vstd::pervasive::unreached()
            },
        }
    }

    /// Pop the dictionary under construction, derive its real signature from
    /// its now-populated entries, and push the corrected node back.
    pub fn end_map(&mut self)
        requires
            old(self)@.stack.len() >= 1,
            old(self)@.stack.last() is Dictionary,
            old(self)@.stack.last()->Dictionary_0.entries.len() > 0,
        ensures
            final(self)@.key == old(self)@.key,
            final(self)@.stack == old(self)@.stack.drop_last().push(
                ValueV::Dictionary(
                    DictV {
                        entries: old(self)@.stack.last()->Dictionary_0.entries,
                        signature: dict_sig(
                            basic_sig(old(self)@.stack.last()->Dictionary_0.entries[0].key),
                            sig_of(old(self)@.stack.last()->Dictionary_0.entries[0].value),
                        ),
                    },
                ),
            ),
    {
        proof {
            assert(crate::types::view_vals(self.val@).last() == self.val@.last()@);
            assert(self.val@.drop_last().push(self.val@.last()) =~= self.val@);
        }
        let dict_node = self.val.pop().unwrap();
        proof {
            assert(crate::types::view_vals(old(self).val@.drop_last()).push(old(self).val@.last()@)
                == crate::types::view_vals(old(self).val@));
            assert(crate::types::view_vals(self.val@) =~= crate::types::view_vals(
                old(self).val@,
            ).drop_last());
        }
        proof {
            assert(dict_node@ == old(self)@.stack.last());
        }
        match dict_node {
            Value::Dictionary(d) => {
                proof {
                    assert(d@ == old(self)@.stack.last()->Dictionary_0);
                    crate::types::lemma_view_entries_len(d.entries@);
                    crate::types::lemma_view_entries_index(d.entries@, 0);
                }
                let node = Value::Dictionary(Dictionary::new(d.entries));
                self.push_value(node);
            },
            _ => {
                proof {
                    assert(false);
                }
                vstd::pervasive::unreached()
            },
        }
    }

    /// Emit one native onto the work stack: the recursive heart of the
    /// engine. A successful emission pushes exactly one value — the one
    /// [`encode_spec`] assigns to the native — and leaves everything already
    /// on the stack untouched; a failure reports exactly the error
    /// [`encode_spec`] assigns.
    #[verifier::loop_isolation(false)]
    #[verifier::rlimit(50)]
    fn encode_value(&mut self, n: &Native) -> (r: Result<(), EncoderError>)
        requires
            old(self)@.key is None,
        ensures
            match r {
                Ok(_) => {
                    &&& encode_spec(n@) is Ok
                    &&& final(self)@.stack == old(self)@.stack.push(encode_spec(n@)->Ok_0)
                    &&& final(self)@.key is None
                },
                Err(e) => encode_spec(n@) == Err::<ValueV, EncoderError>(e),
            },
        decreases n,
    {
        match n {
            Native::U8(x) => self.emit_u8(*x),
            Native::U16(x) => self.emit_u16(*x),
            Native::U32(x) => self.emit_u32(*x),
            Native::U64(x) => self.emit_u64(*x),
            Native::Usize(x) => self.emit_usize(*x),
            Native::I8(x) => self.emit_i8(*x),
            Native::I16(x) => self.emit_i16(*x),
            Native::I32(x) => self.emit_i32(*x),
            Native::I64(x) => self.emit_i64(*x),
            Native::Isize(x) => self.emit_isize(*x),
            Native::Bool(x) => self.emit_bool(*x),
            Native::Char(x) => self.emit_char(*x),
            Native::Str(s) => self.emit_str(s.as_str()),
            Native::Double(bits) => self.emit_double(*bits),
            Native::Nil => self.emit_nil(),
            Native::Sequence(items) => {
                if items.len() == 0 {
                    return Err(EncoderError::EmptyArray);
                }
                let ghost itemsv = crate::native::view_natives(items@);
                let ghost stack0 = self@.stack;
                proof {
                    crate::native::lemma_view_natives_len(items@);
                    assert(itemsv.take(0) =~= Seq::<NativeV>::empty());
                    assert(encode_items(itemsv.take(0)) == Ok::<Seq<ValueV>, EncoderError>(
                        Seq::empty(),
                    ));
                    assert(stack0 + Seq::<ValueV>::empty() =~= stack0);
                }
                let mut i: usize = 0;
                while i < items.len()
                    invariant
                        i <= items.len(),
                        itemsv == crate::native::view_natives(items@),
                        itemsv.len() == items@.len(),
                        encode_items(itemsv.take(i as int)) is Ok,
                        self@.stack == stack0 + encode_items(itemsv.take(i as int))->Ok_0,
                        self@.key is None,
                        stack0 == old(self)@.stack,
                    decreases items@.len() - i,
                {
                    proof {
                        assert(*items == n->Sequence_0);
                        assert(decreases_to!(*n => *items));
                        assert(decreases_to!(*items => items@));
                        assert(decreases_to!(items@ => items@[i as int]));
                        assert(decreases_to!(*n => items@[i as int]));
                    }
                    let r = self.encode_value(&items[i]);
                    match r {
                        Ok(_) => {
                            proof {
                                assert(itemsv[i as int] == items@[i as int]@);
                                assert(itemsv.take(i + 1).drop_last() =~= itemsv.take(i as int));
                                assert(itemsv.take(i + 1).last() == itemsv[i as int]);
                                assert(encode_items(itemsv.take(i + 1)) == Ok::<
                                    Seq<ValueV>,
                                    EncoderError,
                                >(
                                    encode_items(itemsv.take(i as int))->Ok_0.push(
                                        encode_spec(itemsv[i as int])->Ok_0,
                                    ),
                                ));
                                assert(self@.stack =~= stack0 + encode_items(
                                    itemsv.take(i + 1),
                                )->Ok_0);
                            }
                            i += 1;
                        },
                        Err(e) => {
                            proof {
                                assert(itemsv[i as int] == items@[i as int]@);
                                lemma_encode_items_error(itemsv, i as int);
                                assert(n@ == NativeV::Sequence(itemsv));
                                assert(encode_spec(n@) == Err::<ValueV, EncoderError>(e));
                            }
                            return Err(e);
                        },
                    }
                }
                proof {
                    assert(itemsv.take(items@.len() as int) =~= itemsv);
                    lemma_encode_items_len(itemsv);
                    assert((stack0 + encode_items(itemsv)->Ok_0).skip(stack0.len() as int)
                        =~= encode_items(itemsv)->Ok_0);
                    assert((stack0 + encode_items(itemsv)->Ok_0).take(stack0.len() as int)
                        =~= stack0);
                }
                let r2 = self.handle_array(items.len());
                proof {
                    assert(final(self)@.stack =~= old(self)@.stack.push(encode_spec(n@)->Ok_0));
                }
                r2
            },
            Native::Mapping(pairs) => {
                let ghost pairsv = crate::native::view_pairs(pairs@);
                let ghost stack0 = self@.stack;
                proof {
                    crate::native::lemma_view_pairs_len(pairs@);
                }
                let r0 = self.begin_map(pairs.len());
                match r0 {
                    Err(e) => {
                        return Err(e);
                    },
                    Ok(_) => {},
                }
                proof {
                    assert(pairsv.take(0) =~= Seq::<(NativeV, NativeV)>::empty());
                    assert(encode_pairs(pairsv.take(0)) == Ok::<Seq<EntryV>, EncoderError>(
                        Seq::empty(),
                    ));
                }
                let mut i: usize = 0;
                while i < pairs.len()
                    invariant
                        i <= pairs.len(),
                        pairsv == crate::native::view_pairs(pairs@),
                        pairsv.len() == pairs@.len(),
                        encode_pairs(pairsv.take(i as int)) is Ok,
                        self@.stack == stack0.push(
                            ValueV::Dictionary(
                                DictV {
                                    entries: encode_pairs(pairsv.take(i as int))->Ok_0,
                                    signature: Seq::empty(),
                                },
                            ),
                        ),
                        self@.key is None,
                        stack0 == old(self)@.stack,
                    decreases pairs@.len() - i,
                {
                    proof {
                        assert(pairsv[i as int] == (pairs@[i as int].0@, pairs@[i as int].1@));
                        assert(*pairs == n->Mapping_0);
                        assert(decreases_to!(*n => *pairs));
                        assert(decreases_to!(*pairs => pairs@));
                        assert(decreases_to!(pairs@ => pairs@[i as int]));
                        assert(decreases_to!(pairs@[i as int] => pairs@[i as int].0));
                        assert(decreases_to!(pairs@[i as int] => pairs@[i as int].1));
                        assert(decreases_to!(*n => pairs@[i as int].0));
                        assert(decreases_to!(*n => pairs@[i as int].1));
                    }
                    let rk = self.encode_value(&pairs[i].0);
                    match rk {
                        Ok(_) => {},
                        Err(e) => {
                            proof {
                                assert(pair_step(pairsv[i as int]) == Err::<EntryV, EncoderError>(
                                    e,
                                ));
                                lemma_encode_pairs_error(pairsv, i as int);
                                assert(n@ == NativeV::Mapping(pairsv));
                                assert(encode_spec(n@) == Err::<ValueV, EncoderError>(e));
                            }
                            return Err(e);
                        },
                    }
                    let rs = self.stash_key();
                    match rs {
                        Ok(_) => {},
                        Err(e) => {
                            proof {
                                assert(pair_step(pairsv[i as int]) == Err::<EntryV, EncoderError>(
                                    EncoderError::BadKeyType,
                                ));
                                lemma_encode_pairs_error(pairsv, i as int);
                                assert(n@ == NativeV::Mapping(pairsv));
                                assert(encode_spec(n@) == Err::<ValueV, EncoderError>(e));
                            }
                            return Err(e);
                        },
                    }
                    let k = self.take_stashed_key();
                    let rv = self.encode_value(&pairs[i].1);
                    match rv {
                        Ok(_) => {},
                        Err(e) => {
                            proof {
                                assert(pair_step(pairsv[i as int]) == Err::<EntryV, EncoderError>(
                                    e,
                                ));
                                lemma_encode_pairs_error(pairsv, i as int);
                                assert(n@ == NativeV::Mapping(pairsv));
                                assert(encode_spec(n@) == Err::<ValueV, EncoderError>(e));
                            }
                            return Err(e);
                        },
                    }
                    self.add_entry(k);
                    proof {
                        assert(pair_step(pairsv[i as int]) == Ok::<EntryV, EncoderError>(
                            EntryV {
                                key: k@,
                                value: encode_spec(pairsv[i as int].1)->Ok_0,
                            },
                        ));
                        assert(pairsv.take(i + 1).drop_last() =~= pairsv.take(i as int));
                        assert(pairsv.take(i + 1).last() == pairsv[i as int]);
                        assert(encode_pairs(pairsv.take(i + 1)) == Ok::<Seq<EntryV>, EncoderError>(
                            encode_pairs(pairsv.take(i as int))->Ok_0.push(
                                pair_step(pairsv[i as int])->Ok_0,
                            ),
                        ));
                        assert(self@.stack.take(self@.stack.len() - 1) =~= stack0);
                        assert(self@.stack =~= stack0.push(self@.stack.last()));
                    }
                    i += 1;
                }
                proof {
                    assert(pairsv.take(pairs@.len() as int) =~= pairsv);
                    lemma_encode_pairs_len(pairsv);
                }
                self.end_map();
                proof {
                    assert(final(self)@.stack =~= old(self)@.stack.push(encode_spec(n@)->Ok_0));
                }
                Ok(())
            },
            Native::Record(fields) => {
                let ghost fieldsv = crate::native::view_natives(fields@);
                let ghost stack0 = self@.stack;
                proof {
                    crate::native::lemma_view_natives_len(fields@);
                    assert(fieldsv.take(0) =~= Seq::<NativeV>::empty());
                    assert(encode_items(fieldsv.take(0)) == Ok::<Seq<ValueV>, EncoderError>(
                        Seq::empty(),
                    ));
                    assert(stack0 + Seq::<ValueV>::empty() =~= stack0);
                }
                let mut i: usize = 0;
                while i < fields.len()
                    invariant
                        i <= fields.len(),
                        fieldsv == crate::native::view_natives(fields@),
                        fieldsv.len() == fields@.len(),
                        encode_items(fieldsv.take(i as int)) is Ok,
                        self@.stack == stack0 + encode_items(fieldsv.take(i as int))->Ok_0,
                        self@.key is None,
                        stack0 == old(self)@.stack,
                    decreases fields@.len() - i,
                {
                    proof {
                        assert(*fields == n->Record_0);
                        assert(decreases_to!(*n => *fields));
                        assert(decreases_to!(*fields => fields@));
                        assert(decreases_to!(fields@ => fields@[i as int]));
                        assert(decreases_to!(*n => fields@[i as int]));
                    }
                    let r = self.encode_value(&fields[i]);
                    match r {
                        Ok(_) => {
                            proof {
                                assert(fieldsv[i as int] == fields@[i as int]@);
                                assert(fieldsv.take(i + 1).drop_last() =~= fieldsv.take(i as int));
                                assert(fieldsv.take(i + 1).last() == fieldsv[i as int]);
                                assert(encode_items(fieldsv.take(i + 1)) == Ok::<
                                    Seq<ValueV>,
                                    EncoderError,
                                >(
                                    encode_items(fieldsv.take(i as int))->Ok_0.push(
                                        encode_spec(fieldsv[i as int])->Ok_0,
                                    ),
                                ));
                                assert(self@.stack =~= stack0 + encode_items(
                                    fieldsv.take(i + 1),
                                )->Ok_0);
                            }
                            i += 1;
                        },
                        Err(e) => {
                            proof {
                                assert(fieldsv[i as int] == fields@[i as int]@);
                                lemma_encode_items_error(fieldsv, i as int);
                                assert(n@ == NativeV::Record(fieldsv));
                                assert(encode_spec(n@) == Err::<ValueV, EncoderError>(e));
                            }
                            return Err(e);
                        },
                    }
                }
                proof {
                    assert(fieldsv.take(fields@.len() as int) =~= fieldsv);
                    lemma_encode_items_len(fieldsv);
                    assert((stack0 + encode_items(fieldsv)->Ok_0).skip(stack0.len() as int)
                        =~= encode_items(fieldsv)->Ok_0);
                    assert((stack0 + encode_items(fieldsv)->Ok_0).take(stack0.len() as int)
                        =~= stack0);
                }
                let r2 = self.handle_struct(fields.len());
                proof {
                    assert(final(self)@.stack =~= old(self)@.stack.push(encode_spec(n@)->Ok_0));
                }
                r2
            },
        }
    }

    /// Encode one native into a value tree. Returns exactly what
    /// [`encode_spec`] assigns to the native: the tree on success, and the
    /// first error found while walking the native otherwise.
    pub fn encode(obj: &Native) -> (r: Result<Value, EncoderError>)
        ensures
            match r {
                Ok(v) => encode_spec(obj@) == Ok::<ValueV, EncoderError>(v@),
                Err(e) => encode_spec(obj@) == Err::<ValueV, EncoderError>(e),
            },
    {
        let mut encoder = DBusEncoder::new();
        match encoder.encode_value(obj) {
            Ok(_) => {},
            Err(e) => {
                return Err(e);
            },
        }
        proof {
            lemma_view_vals_len(encoder.val@);
            assert(encoder@.stack.len() == 1);
            assert(crate::types::view_vals(encoder.val@)[0] == encoder.val@[0]@);
        }
        let v = encoder.val.remove(0);
        Ok(v)
    }
}

} // verus!
