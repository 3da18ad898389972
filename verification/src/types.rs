//! The value model: the `Value` and `BasicValue` sum types, the thin `Path`
//! and `Signature` text wrappers, and the aggregate nodes `Array`, `Struct`,
//! `Dictionary` and `Variant`, together with their type-signature grammar.
//!
//! Every value exposes a type signature: one character per primitive kind,
//! `"a" + inner` for arrays, `"(" + fields + ")"` for structs,
//! `"a{" + key + value + "}"` for dictionaries and `"v"` for variants.

use vstd::prelude::*;

verus! {

// ---------------------------------------------------------------------------
// Mathematical views
// ---------------------------------------------------------------------------

/// View of a `BasicValue`: text payloads become character sequences.
pub enum BasicV {
    Byte(u8),
    Boolean(bool),
    Int16(i16),
    Uint16(u16),
    Int32(i32),
    Uint32(u32),
    Int64(i64),
    Uint64(u64),
    Str(Seq<char>),
    ObjectPath(Seq<char>),
    Signature(Seq<char>),
}

/// View of an `Array`.
pub struct ArrayV {
    pub objects: Seq<ValueV>,
    pub signature: Seq<char>,
}

/// View of a `Struct`.
pub struct StructV {
    pub objects: Seq<ValueV>,
    pub signature: Seq<char>,
}

/// View of a `DictEntry`.
pub struct EntryV {
    pub key: BasicV,
    pub value: ValueV,
}

/// View of a `Dictionary`.
pub struct DictV {
    pub entries: Seq<EntryV>,
    pub signature: Seq<char>,
}

/// View of a `Variant`.
pub struct VariantV {
    pub object: Box<ValueV>,
    pub signature: Seq<char>,
}

/// View of a `Value`: the same tree with sequences in place of vectors.
pub enum ValueV {
    Basic(BasicV),
    Double(u64),
    Array(ArrayV),
    Variant(VariantV),
    Struct(StructV),
    Dictionary(DictV),
}

// ---------------------------------------------------------------------------
// The signature grammar, over views
// ---------------------------------------------------------------------------

/// The single-character type code of a basic value.
pub open spec fn basic_sig(b: BasicV) -> char {
    match b {
        BasicV::Byte(_) => 'y',
        BasicV::Boolean(_) => 'b',
        BasicV::Int16(_) => 'n',
        BasicV::Uint16(_) => 'q',
        BasicV::Int32(_) => 'i',
        BasicV::Uint32(_) => 'u',
        BasicV::Int64(_) => 'x',
        BasicV::Uint64(_) => 't',
        BasicV::Str(_) => 's',
        BasicV::ObjectPath(_) => 'o',
        BasicV::Signature(_) => 'g',
    }
}

/// The signature a value reports: fixed characters for primitives and
/// variants, the cached signature for aggregates.
pub open spec fn sig_of(v: ValueV) -> Seq<char> {
    match v {
        ValueV::Basic(b) => seq![basic_sig(b)],
        ValueV::Double(_) => seq!['d'],
        ValueV::Array(a) => a.signature,
        ValueV::Variant(_) => seq!['v'],
        ValueV::Struct(s) => s.signature,
        ValueV::Dictionary(d) => d.signature,
    }
}

/// The signatures of a run of values, concatenated in order.
pub open spec fn concat_sigs(objs: Seq<ValueV>) -> Seq<char>
    decreases objs.len(),
{
    if objs.len() == 0 {
        Seq::empty()
    } else {
        sig_of(objs[0]) + concat_sigs(objs.subrange(1, objs.len() as int))
    }
}

/// The signature the grammar gives a struct with the given fields.
pub open spec fn struct_sig(objs: Seq<ValueV>) -> Seq<char> {
    seq!['('] + concat_sigs(objs) + seq![')']
}

/// The signature the grammar gives an array whose elements have signature
/// `elem_sig`.
pub open spec fn array_sig(elem_sig: Seq<char>) -> Seq<char> {
    seq!['a'] + elem_sig
}

/// The signature the grammar gives a dictionary with key code `key` and
/// value signature `val_sig`.
pub open spec fn dict_sig(key: char, val_sig: Seq<char>) -> Seq<char> {
    seq!['a', '{'] + seq![key] + val_sig + seq!['}']
}

// ---------------------------------------------------------------------------
// Building signature strings
// ---------------------------------------------------------------------------

/// Relies on std's `String::push_str`: appends the slice's characters at the
/// end of the string.
#[verifier::external_body]
pub(crate) fn push_str(s: &mut String, t: &str)
    ensures
        final(s)@ == old(s)@ + t@,
{
    s.push_str(t);
}

/// Relies on std's `String::push`: appends one character at the end of the
/// string.
#[verifier::external_body]
pub(crate) fn push_char(s: &mut String, c: char)
    ensures
        final(s)@ == old(s)@.push(c),
{
    s.push(c);
}

// ---------------------------------------------------------------------------
// Executable types
// ---------------------------------------------------------------------------

/// A D-Bus object path, distinguished from a plain string for type safety.
#[derive(Clone, PartialEq, Eq, Debug, Hash, PartialOrd, Ord)]
pub struct Path(pub String);

/// A D-Bus type signature, distinguished from a plain string for type safety.
#[derive(Clone, PartialEq, Eq, Debug, Hash, PartialOrd, Ord)]
pub struct Signature(pub String);

impl View for Path {
    type V = Seq<char>;

    open spec fn view(&self) -> Seq<char> {
        self.0@
    }
}

impl View for Signature {
    type V = Seq<char>;

    open spec fn view(&self) -> Seq<char> {
        self.0@
    }
}

/// The "basic" D-Bus types: the closed set of primitive kinds that may be
/// used as keys in a dictionary. Each variant maps to exactly one
/// single-character type code.
#[derive(Clone, PartialEq, Eq, Debug, Hash, PartialOrd, Ord)]
pub enum BasicValue {
    Byte(u8),
    Boolean(bool),
    Int16(i16),
    Uint16(u16),
    Int32(i32),
    Uint32(u32),
    Int64(i64),
    Uint64(u64),
    String(String),
    ObjectPath(Path),
    Signature(Signature),
}

impl View for BasicValue {
    type V = BasicV;

    open spec fn view(&self) -> BasicV {
        match self {
            BasicValue::Byte(x) => BasicV::Byte(*x),
            BasicValue::Boolean(x) => BasicV::Boolean(*x),
            BasicValue::Int16(x) => BasicV::Int16(*x),
            BasicValue::Uint16(x) => BasicV::Uint16(*x),
            BasicValue::Int32(x) => BasicV::Int32(*x),
            BasicValue::Uint32(x) => BasicV::Uint32(*x),
            BasicValue::Int64(x) => BasicV::Int64(*x),
            BasicValue::Uint64(x) => BasicV::Uint64(*x),
            BasicValue::String(s) => BasicV::Str(s@),
            BasicValue::ObjectPath(p) => BasicV::ObjectPath(p@),
            BasicValue::Signature(g) => BasicV::Signature(g@),
        }
    }
}

/// An ordered, heterogeneous sequence of values; its signature is the
/// parenthesized concatenation of its fields' signatures.
#[derive(PartialEq, Debug)]
pub struct Struct {
    pub objects: Vec<Value>,
    pub signature: Signature,
}

/// A boxed, type-erased value carried together with the signature of the
/// boxed content. The variant's own signature is always `"v"`.
#[derive(PartialEq, Debug)]
pub struct Variant {
    pub object: Box<Value>,
    pub signature: Signature,
}

/// An ordered sequence of values that must all share one element signature;
/// the array's own signature is `"a"` followed by the element signature.
#[derive(PartialEq, Debug)]
pub struct Array {
    pub objects: Vec<Value>,
    pub signature: Signature,
}

/// One key/value pair of a dictionary. Keys are restricted to basic values.
#[derive(PartialEq, Debug)]
pub struct DictEntry {
    pub key: BasicValue,
    pub value: Value,
}

/// A mapping from basic values to values, kept as an ordered list of entries;
/// its signature is `"a{"` + key code + value signature + `"}"`.
#[derive(PartialEq, Debug)]
pub struct Dictionary {
    pub entries: Vec<DictEntry>,
    pub signature: Signature,
}

/// Root type for any D-Bus value. The double-precision float is carried as
/// its IEEE 754 bit pattern and kept apart from `BasicValue`, since floats
/// lack a canonical equality and cannot be dictionary keys.
#[derive(PartialEq, Debug)]
pub enum Value {
    BasicValue(BasicValue),
    Double(u64),
    Array(Array),
    Variant(Variant),
    Struct(Struct),
    Dictionary(Dictionary),
}

// ---------------------------------------------------------------------------
// Views of the executable tree
// ---------------------------------------------------------------------------

/// The views of a run of values, in order.
pub open spec fn view_vals(s: Seq<Value>) -> Seq<ValueV>
    decreases s,
{
    if s.len() == 0 {
        Seq::empty()
    } else {
        view_vals(s.drop_last()).push(s.last()@)
    }
}

/// The views of a run of dictionary entries, in order.
pub open spec fn view_entries(s: Seq<DictEntry>) -> Seq<EntryV>
    decreases s,
{
    if s.len() == 0 {
        Seq::empty()
    } else {
        view_entries(s.drop_last()).push(s.last()@)
    }
}

impl View for Value {
    type V = ValueV;

    open spec fn view(&self) -> ValueV
        decreases self,
    {
        match self {
            Value::BasicValue(b) => ValueV::Basic(b@),
            Value::Double(bits) => ValueV::Double(*bits),
            Value::Array(a) => ValueV::Array(a@),
            Value::Variant(v) => ValueV::Variant(v@),
            Value::Struct(s) => ValueV::Struct(s@),
            Value::Dictionary(d) => ValueV::Dictionary(d@),
        }
    }
}

impl View for Array {
    type V = ArrayV;

    open spec fn view(&self) -> ArrayV
        decreases self,
    {
        ArrayV { objects: view_vals(self.objects@), signature: self.signature@ }
    }
}

impl View for Struct {
    type V = StructV;

    open spec fn view(&self) -> StructV
        decreases self,
    {
        StructV { objects: view_vals(self.objects@), signature: self.signature@ }
    }
}

impl View for DictEntry {
    type V = EntryV;

    open spec fn view(&self) -> EntryV
        decreases self,
    {
        EntryV { key: self.key@, value: self.value@ }
    }
}

impl View for Dictionary {
    type V = DictV;

    open spec fn view(&self) -> DictV
        decreases self,
    {
        DictV { entries: view_entries(self.entries@), signature: self.signature@ }
    }
}

impl View for Variant {
    type V = VariantV;

    open spec fn view(&self) -> VariantV
        decreases self,
    {
        VariantV { object: Box::new((*self.object)@), signature: self.signature@ }
    }
}

// ---------------------------------------------------------------------------
// Facts about the view helpers
// ---------------------------------------------------------------------------

// ---------------------------------------------------------------------------
// Signature reporting and construction
// ---------------------------------------------------------------------------

impl BasicValue {
    /// Returns the D-Bus type signature that corresponds to the value: its
    /// single-character type code.
    pub fn get_signature(&self) -> (r: &str)
        ensures
            r@ == seq![basic_sig(self@)],
    {
        let r = match self {
            BasicValue::Byte(_) => "y",
            BasicValue::Boolean(_) => "b",
            BasicValue::Int16(_) => "n",
            BasicValue::Uint16(_) => "q",
            BasicValue::Int32(_) => "i",
            BasicValue::Uint32(_) => "u",
            BasicValue::Int64(_) => "x",
            BasicValue::Uint64(_) => "t",
            BasicValue::String(_) => "s",
            BasicValue::ObjectPath(_) => "o",
            BasicValue::Signature(_) => "g",
        };
        proof {
            reveal_strlit("y");
            reveal_strlit("b");
            reveal_strlit("n");
            reveal_strlit("q");
            reveal_strlit("i");
            reveal_strlit("u");
            reveal_strlit("x");
            reveal_strlit("t");
            reveal_strlit("s");
            reveal_strlit("o");
            reveal_strlit("g");
            assert(r@ =~= seq![basic_sig(self@)]);
        }
        r
    }
}

impl Value {
    /// Returns the D-Bus type signature that corresponds to the value: fixed
    /// codes for primitives and variants, the cached signature for aggregates.
    pub fn get_signature(&self) -> (r: &str)
        ensures
            r@ == sig_of(self@),
    {
        match self {
            Value::BasicValue(b) => b.get_signature(),
            Value::Double(_) => {
                let r = "d";
                proof {
                    reveal_strlit("d");
                    assert(r@ =~= sig_of(self@));
                }
                r
            },
            Value::Array(a) => a.signature.0.as_str(),
            Value::Variant(_) => {
                let r = "v";
                proof {
                    reveal_strlit("v");
                    assert(r@ =~= sig_of(self@));
                }
                r
            },
            Value::Struct(s) => s.signature.0.as_str(),
            Value::Dictionary(d) => d.signature.0.as_str(),
        }
    }
}

impl Variant {
    /// Create a new variant wrapping the given value. `s` must be the
    /// signature of `v` for the variant to be well formed.
    pub fn new(v: Value, s: &str) -> (r: Variant)
        ensures
            *r@.object == v@,
            r@.signature == s@,
    {
        Variant { object: Box::new(v), signature: Signature(s.to_owned()) }
    }
}

impl Array {
    /// Create a new array from the given vector, inferring the signature from
    /// the first element. No signature can be derived from an empty vector,
    /// so the vector must be non-empty: use `new_with_sig` there.
    pub fn new(objects: Vec<Value>) -> (r: Array)
        requires
            objects@.len() > 0,
        ensures
            r@.objects == view_vals(objects@),
            r@.signature == array_sig(sig_of(objects@[0]@)),
    {
        let mut sig = String::new();
        push_char(&mut sig, 'a');
        push_str(&mut sig, objects[0].get_signature());
        proof {
            assert(sig@ =~= array_sig(sig_of(objects@[0]@)));
        }
        Array { objects, signature: Signature(sig) }
    }

    /// Create a new array trusting the caller-supplied signature. If `sig` is
    /// not of the form `"a" + inner`, or the elements do not match `inner`,
    /// the resulting value is not well formed and will not encode correctly.
    pub fn new_with_sig(objects: Vec<Value>, sig: String) -> (r: Array)
        ensures
            r@.objects == view_vals(objects@),
            r@.signature == sig@,
    {
        Array { objects, signature: Signature(sig) }
    }
}

impl Dictionary {
    /// Create a new dictionary from the given entries, inferring the
    /// signature from the first entry. No signature can be derived from an
    /// empty vector, so it must be non-empty: use `new_with_sig` there.
    pub fn new(entries: Vec<DictEntry>) -> (r: Dictionary)
        requires
            entries@.len() > 0,
        ensures
            r@.entries == view_entries(entries@),
            r@.signature == dict_sig(basic_sig(entries@[0].key@), sig_of(entries@[0].value@)),
    {
        let mut sig = String::new();
        push_char(&mut sig, 'a');
        push_char(&mut sig, '{');
        push_str(&mut sig, entries[0].key.get_signature());
        push_str(&mut sig, entries[0].value.get_signature());
        push_char(&mut sig, '}');
        proof {
            assert(sig@ =~= dict_sig(basic_sig(entries@[0].key@), sig_of(entries@[0].value@)));
        }
        Dictionary { entries, signature: Signature(sig) }
    }

    /// Create a new dictionary trusting the caller-supplied signature. If
    /// `sig` is not of the form `"a{" + key + value + "}"`, or the entries do
    /// not match it, the resulting value is not well formed and will not
    /// encode correctly.
    pub fn new_with_sig(entries: Vec<DictEntry>, sig: String) -> (r: Dictionary)
        ensures
            r@.entries == view_entries(entries@),
            r@.signature == sig@,
    {
        Dictionary { entries, signature: Signature(sig) }
    }
}

// ---------------------------------------------------------------------------
// Well-formedness: the cached signatures match the grammar
// ---------------------------------------------------------------------------

/// A value is well formed when every signature cached in it is the one the
/// grammar derives from the shape of the tree below it.
pub open spec fn wf(v: ValueV) -> bool
    decreases v,
{
    match v {
        ValueV::Basic(_) => true,
        ValueV::Double(_) => true,
        ValueV::Array(a) => {
            &&& a.signature.len() >= 1
            &&& a.signature[0] == 'a'
            &&& forall|i: int| 0 <= i < a.objects.len() ==> wf(#[trigger] a.objects[i])
            &&& forall|i: int|
                0 <= i < a.objects.len() ==> sig_of(#[trigger] a.objects[i])
                    == a.signature.subrange(1, a.signature.len() as int)
        },
        ValueV::Variant(vr) => wf(*vr.object) && vr.signature == sig_of(*vr.object),
        ValueV::Struct(s) => {
            &&& s.signature == struct_sig(s.objects)
            &&& forall|i: int| 0 <= i < s.objects.len() ==> wf(#[trigger] s.objects[i])
        },
        ValueV::Dictionary(d) => {
            &&& d.signature.len() >= 5
            &&& d.signature[0] == 'a'
            &&& d.signature[1] == '{'
            &&& d.signature.last() == '}'
            &&& forall|i: int|
                0 <= i < d.entries.len() ==> {
                    &&& wf((#[trigger] d.entries[i]).value)
                    &&& basic_sig(d.entries[i].key) == d.signature[2]
                    &&& sig_of(d.entries[i].value) == d.signature.subrange(
                        3,
                        d.signature.len() - 1,
                    )
                }
        },
    }
}

pub broadcast proof fn lemma_view_vals_len(s: Seq<Value>)
    ensures
        #[trigger] view_vals(s).len() == s.len(),
    decreases s,
{
    if s.len() > 0 {
        lemma_view_vals_len(s.drop_last());
        assert(view_vals(s) == view_vals(s.drop_last()).push(s.last()@));
    } else {
        assert(view_vals(s) == Seq::<ValueV>::empty());
    }
}

pub broadcast proof fn lemma_view_vals_index(s: Seq<Value>, i: int)
    requires
        0 <= i < s.len(),
    ensures
        view_vals(s).len() == s.len(),
        #[trigger] view_vals(s)[i] == s[i]@,
    decreases s,
{
    lemma_view_vals_len(s);
    assert(view_vals(s) == view_vals(s.drop_last()).push(s.last()@));
    if i < s.len() - 1 {
        lemma_view_vals_index(s.drop_last(), i);
    }
}

pub broadcast proof fn lemma_view_vals_push(s: Seq<Value>, v: Value)
    ensures
        #[trigger] view_vals(s.push(v)) == view_vals(s).push(v@),
{
    assert(s.push(v).drop_last() =~= s);
    assert(view_vals(s.push(v)) == view_vals(s.push(v).drop_last()).push(s.push(v).last()@));
}

pub broadcast proof fn lemma_view_entries_len(s: Seq<DictEntry>)
    ensures
        #[trigger] view_entries(s).len() == s.len(),
    decreases s,
{
    if s.len() > 0 {
        lemma_view_entries_len(s.drop_last());
        assert(view_entries(s) == view_entries(s.drop_last()).push(s.last()@));
    } else {
        assert(view_entries(s) == Seq::<EntryV>::empty());
    }
}

pub broadcast proof fn lemma_view_entries_index(s: Seq<DictEntry>, i: int)
    requires
        0 <= i < s.len(),
    ensures
        view_entries(s).len() == s.len(),
        #[trigger] view_entries(s)[i] == s[i]@,
    decreases s,
{
    lemma_view_entries_len(s);
    assert(view_entries(s) == view_entries(s.drop_last()).push(s.last()@));
    if i < s.len() - 1 {
        lemma_view_entries_index(s.drop_last(), i);
    }
}

pub broadcast proof fn lemma_view_entries_push(s: Seq<DictEntry>, e: DictEntry)
    ensures
        #[trigger] view_entries(s.push(e)) == view_entries(s).push(e@),
{
    assert(s.push(e).drop_last() =~= s);
    assert(view_entries(s.push(e)) == view_entries(s.push(e).drop_last()).push(s.push(e).last()@));
}

/// The signatures concatenation of a run of values grows one signature at a
/// time.
pub broadcast proof fn lemma_concat_sigs_push(s: Seq<ValueV>, v: ValueV)
    ensures
        #[trigger] concat_sigs(s.push(v)) == concat_sigs(s) + sig_of(v),
    decreases s.len(),
{
    if s.len() == 0 {
        assert(s.push(v)[0] == v);
        assert(s.push(v).subrange(1, 1) =~= Seq::<ValueV>::empty());
        assert(concat_sigs(Seq::<ValueV>::empty()) == Seq::<char>::empty());
        assert(concat_sigs(s.push(v).subrange(1, 1)) == Seq::<char>::empty());
        assert(s =~= Seq::<ValueV>::empty());
        assert(concat_sigs(s.push(v)) =~= concat_sigs(s) + sig_of(v));
    } else {
        assert(s.push(v).subrange(1, s.len() as int + 1) =~= s.subrange(1, s.len() as int).push(v));
        lemma_concat_sigs_push(s.subrange(1, s.len() as int), v);
        assert(s.push(v)[0] == s[0]);
        assert(concat_sigs(s.push(v)) =~= concat_sigs(s) + sig_of(v));
    }
}

} // verus!
